//! Lines of text as characters, and where their characters start in UTF-8.
use vstd::prelude::*;

verus! {

/// How many bytes the UTF-8 encoding of `c` takes.
pub open spec fn char_width(c: char) -> nat {
    let v = c as u32;
    if v < 0x80 {
        1
    } else if v < 0x800 {
        2
    } else if v < 0x10000 {
        3
    } else {
        4
    }
}

/// How many bytes the UTF-8 encoding of `s` takes.
pub open spec fn byte_len(s: Seq<char>) -> nat
    decreases s.len(),
{
    if s.len() == 0 {
        0
    } else {
        byte_len(s.drop_last()) + char_width(s.last())
    }
}

/// The number of characters before byte `b` of the encoding of `s`, where
/// `b` is the start of a character or the end of the text; `None` otherwise.
pub open spec fn char_index_at_byte(s: Seq<char>, b: int) -> Option<nat>
    decreases s.len(),
{
    if b == byte_len(s) {
        Some(s.len())
    } else if s.len() == 0 {
        None
    } else {
        char_index_at_byte(s.drop_last(), b)
    }
}

/// The number of bytes that `c` takes in UTF-8, as `char::len_utf8` gives it.
pub fn utf8_width(c: char) -> (w: usize)
    ensures
        w == char_width(c),
{
    let v = c as u32;
    if v < 0x80 {
        1
    } else if v < 0x800 {
        2
    } else if v < 0x10000 {
        3
    } else {
        4
    }
}

/// One more character adds its width.
pub proof fn lemma_byte_len_take_step(s: Seq<char>, k: int)
    requires
        0 <= k < s.len(),
    ensures
        byte_len(s.take(k + 1)) == byte_len(s.take(k)) + char_width(s[k]),
{
    assert(s.take(k + 1).drop_last() =~= s.take(k));
}

/// Longer prefixes take strictly more bytes.
pub proof fn lemma_byte_len_take_increasing(s: Seq<char>, i: int, j: int)
    requires
        0 <= i < j <= s.len(),
    ensures
        byte_len(s.take(i)) < byte_len(s.take(j)),
    decreases j - i,
{
    lemma_byte_len_take_step(s, j - 1);
    if i < j - 1 {
        lemma_byte_len_take_increasing(s, i, j - 1);
    }
}

/// A byte is the start of character `j` exactly when the first `j`
/// characters take that many bytes.
pub proof fn lemma_char_index_at_byte(s: Seq<char>, b: int, j: int)
    requires
        0 <= j <= s.len(),
    ensures
        char_index_at_byte(s, b) == Some(j as nat) <==> byte_len(s.take(j)) == b,
    decreases s.len(),
{
    assert(s.take(s.len() as int) =~= s);
    if s.len() == 0 {
    } else {
        let t = s.drop_last();
        if j < s.len() {
            assert(t.take(j) =~= s.take(j));
            lemma_char_index_at_byte(t, b, j);
            lemma_byte_len_take_increasing(s, j, s.len() as int);
            if b == byte_len(s) {
            } else {
            }
        } else {
            if b != byte_len(s) {
                // char_index_at_byte(t, b) can only give an index up to t.len()
                lemma_char_index_at_byte_bound(t, b);
            }
        }
    }
}

/// The index found is never past the end.
pub proof fn lemma_char_index_at_byte_bound(s: Seq<char>, b: int)
    ensures
        char_index_at_byte(s, b) matches Some(j) ==> j <= s.len(),
    decreases s.len(),
{
    if s.len() > 0 && b != byte_len(s) {
        lemma_char_index_at_byte_bound(s.drop_last(), b);
    }
}

/// The character index of the byte position `b` in `s`, if a character
/// starts there (or `b` is the end).
pub fn find_char_index(s: &Vec<char>, b: usize) -> (r: Option<usize>)
    ensures
        r matches Some(j) ==> char_index_at_byte(s@, b as int) == Some(j as nat),
        r is None ==> char_index_at_byte(s@, b as int) is None,
{
    let mut j: usize = 0;
    let mut off: usize = 0;
    while j < s.len() && off < b
        invariant
            0 <= j <= s.len(),
            off == byte_len(s@.take(j as int)),
            forall|i: int| 0 <= i < j ==> byte_len(s@.take(i)) < b,
            off <= b || j == 0,
        decreases s.len() - j,
    {
        let w = utf8_width(s[j]);
        proof {
            lemma_byte_len_take_step(s@, j as int);
        }
        if w > b - off {
            proof {
                assert forall|i: int| 0 <= i <= s.len() implies byte_len(s@.take(i)) != b by {
                    if i <= j {
                        if i < j {
                        }
                    } else {
                        if i > j + 1 {
                            lemma_byte_len_take_increasing(s@, j + 1, i);
                        }
                    }
                }
                lemma_char_index_at_byte_bound(s@, b as int);
                if let Some(k) = char_index_at_byte(s@, b as int) {
                    lemma_char_index_at_byte(s@, b as int, k as int);
                }
            }
            return None;
        }
        off = off + w;
        j = j + 1;
    }
    proof {
        assert(s@.take(0) =~= Seq::<char>::empty());
    }
    if off == b {
        proof {
            lemma_char_index_at_byte(s@, b as int, j as int);
        }
        Some(j)
    } else {
        proof {
            assert forall|i: int| 0 <= i <= s.len() implies byte_len(s@.take(i)) != b by {
                if i > j {
                    lemma_byte_len_take_increasing(s@, j as int, i);
                }
            }
            lemma_char_index_at_byte_bound(s@, b as int);
            if let Some(k) = char_index_at_byte(s@, b as int) {
                lemma_char_index_at_byte(s@, b as int, k as int);
            }
        }
        None
    }
}

/// A prefix takes no more bytes than the whole.
pub proof fn lemma_byte_len_take_le(s: Seq<char>, j: int)
    requires
        0 <= j <= s.len(),
    ensures
        byte_len(s.take(j)) <= byte_len(s),
{
    assert(s.take(s.len() as int) =~= s);
    if j < s.len() {
        lemma_byte_len_take_increasing(s, j, s.len() as int);
    }
}

/// Every character takes at least one byte.
pub proof fn lemma_len_le_byte_len(s: Seq<char>)
    ensures
        s.len() <= byte_len(s),
    decreases s.len(),
{
    if s.len() > 0 {
        lemma_len_le_byte_len(s.drop_last());
    }
}

/// The width of a character is the length of its UTF-8 encoding.
pub proof fn lemma_char_width_is_utf8_length(c: char)
    ensures
        char_width(c) == vstd::utf8::encode_scalar(c as u32).len(),
{
    vstd::utf8::char_is_scalar(c);
}

/// The byte length of a text is the length of its UTF-8 encoding.
pub proof fn lemma_byte_len_is_utf8_length(s: Seq<char>)
    ensures
        byte_len(s) == vstd::utf8::encode_utf8(s).len(),
    decreases s.len(),
{
    if s.len() > 0 {
        lemma_byte_len_is_utf8_length(s.drop_last());
        lemma_encode_utf8_len_from_back(s);
        lemma_char_width_is_utf8_length(s.last());
    }
}

/// Encoding a text: its last character's encoding goes after the rest.
proof fn lemma_encode_utf8_len_from_back(s: Seq<char>)
    requires
        s.len() > 0,
    ensures
        vstd::utf8::encode_utf8(s).len() == vstd::utf8::encode_utf8(s.drop_last()).len()
            + vstd::utf8::encode_scalar(s.last() as u32).len(),
    decreases s.len(),
{
    if s.len() > 1 {
        lemma_encode_utf8_len_from_back(s.drop_first());
        assert(s.drop_first().drop_last() =~= s.drop_last().drop_first());
        assert(s.drop_first().last() == s.last());
        assert(s.drop_last()[0] == s[0]);
    } else {
        assert(s.drop_last() =~= Seq::<char>::empty());
        assert(s.drop_first() =~= Seq::<char>::empty());
    }
}

} // verus!
