use vstd::prelude::*;

verus! {

/// A keyboard layout: how physical keys (scancodes) become characters.
#[derive(Clone, Copy, Debug, PartialEq, Eq, Structural)]
pub enum Layout {
    Dvorak,
    Rus,
}

/// The character that the Dvorak layout gives the key with scancode `sc`;
/// `'\0'` for a key that types nothing.
pub open spec fn dvorak_char(sc: u32) -> char {
    match sc {
        2 => '1',
        3 => '2',
        4 => '3',
        5 => '4',
        6 => '5',
        7 => '6',
        8 => '7',
        9 => '8',
        10 => '9',
        11 => '0',
        16 => '\'',
        17 => ',',
        18 => '.',
        19 => 'p',
        20 => 'y',
        21 => 'f',
        22 => 'g',
        23 => 'c',
        24 => 'r',
        25 => 'l',
        26 => '/',
        27 => '=',
        28 => '\n',
        30 => 'a',
        31 => 'o',
        32 => 'e',
        33 => 'u',
        34 => 'i',
        35 => 'd',
        36 => 'h',
        37 => 't',
        38 => 'n',
        39 => 's',
        40 => '-',
        43 => '\\',
        44 => ';',
        45 => 'q',
        46 => 'j',
        47 => 'k',
        48 => 'x',
        49 => 'b',
        50 => 'm',
        51 => 'w',
        52 => 'v',
        53 => 'z',
        57 => ' ',
        _ => '\0',
    }
}

/// The character that the Russian layout gives the key with scancode `sc`;
/// `'\0'` for a key that types nothing.
pub open spec fn rus_char(sc: u32) -> char {
    match sc {
        2 => '1',
        3 => '2',
        4 => '3',
        5 => '4',
        6 => '5',
        7 => '6',
        8 => '7',
        9 => '8',
        10 => '9',
        11 => '0',
        16 => 'й',
        17 => 'ц',
        18 => 'у',
        19 => 'к',
        20 => 'е',
        21 => 'н',
        22 => 'г',
        23 => 'ш',
        24 => 'щ',
        25 => 'з',
        26 => 'х',
        27 => 'ъ',
        28 => '\n',
        30 => 'ф',
        31 => 'ы',
        32 => 'в',
        33 => 'а',
        34 => 'п',
        35 => 'р',
        36 => 'о',
        37 => 'л',
        38 => 'д',
        39 => 'ж',
        40 => 'э',
        43 => '\\',
        44 => 'я',
        45 => 'ч',
        46 => 'с',
        47 => 'м',
        48 => 'и',
        49 => 'т',
        50 => 'ь',
        51 => 'б',
        52 => 'ю',
        53 => '.',
        57 => ' ',
        _ => '\0',
    }
}

/// The character that `layout` gives the key with scancode `sc`.
pub open spec fn layout_char(layout: Layout, sc: u32) -> char {
    match layout {
        Layout::Dvorak => dvorak_char(sc),
        Layout::Rus => rus_char(sc),
    }
}

/// The layout that `switch` moves to from `layout`.
pub open spec fn switched(layout: Layout) -> Layout {
    match layout {
        Layout::Dvorak => Layout::Rus,
        Layout::Rus => Layout::Dvorak,
    }
}

/// The scancodes of the keys that type a character (in either layout).
pub open spec fn is_typing_key(sc: u32) -> bool {
    2 <= sc <= 11 || 16 <= sc <= 28 || 30 <= sc <= 40 || 43 <= sc <= 53 || sc == 57
}

impl Layout {
    /// The character typed by the key with scancode `sc` in this layout.
    pub fn scch(&self, sc: u32) -> (c: char)
        ensures
            c == layout_char(*self, sc),
    {
        match *self {
            Layout::Dvorak => Self::scdv(sc),
            Layout::Rus => Self::scru(sc),
        }
    }

    /// Moves to the other layout.
    pub fn switch(&mut self)
        ensures
            *final(self) == switched(*old(self)),
    {
        if let Layout::Dvorak = self {
            *self = Layout::Rus;
        } else {
            *self = Layout::Dvorak;
        }
    }

    fn scdv(sc: u32) -> (c: char)
        ensures
            c == dvorak_char(sc),
    {
        match sc {
            2 => '1',
            3 => '2',
            4 => '3',
            5 => '4',
            6 => '5',
            7 => '6',
            8 => '7',
            9 => '8',
            10 => '9',
            11 => '0',
            16 => '\'',
            17 => ',',
            18 => '.',
            19 => 'p',
            20 => 'y',
            21 => 'f',
            22 => 'g',
            23 => 'c',
            24 => 'r',
            25 => 'l',
            26 => '/',
            27 => '=',
            28 => '\n',
            30 => 'a',
            31 => 'o',
            32 => 'e',
            33 => 'u',
            34 => 'i',
            35 => 'd',
            36 => 'h',
            37 => 't',
            38 => 'n',
            39 => 's',
            40 => '-',
            43 => '\\',
            44 => ';',
            45 => 'q',
            46 => 'j',
            47 => 'k',
            48 => 'x',
            49 => 'b',
            50 => 'm',
            51 => 'w',
            52 => 'v',
            53 => 'z',
            57 => ' ',
            _ => '\0',
        }
    }

    fn scru(sc: u32) -> (c: char)
        ensures
            c == rus_char(sc),
    {
        match sc {
            2 => '1',
            3 => '2',
            4 => '3',
            5 => '4',
            6 => '5',
            7 => '6',
            8 => '7',
            9 => '8',
            10 => '9',
            11 => '0',
            16 => 'й',
            17 => 'ц',
            18 => 'у',
            19 => 'к',
            20 => 'е',
            21 => 'н',
            22 => 'г',
            23 => 'ш',
            24 => 'щ',
            25 => 'з',
            26 => 'х',
            27 => 'ъ',
            28 => '\n',
            30 => 'ф',
            31 => 'ы',
            32 => 'в',
            33 => 'а',
            34 => 'п',
            35 => 'р',
            36 => 'о',
            37 => 'л',
            38 => 'д',
            39 => 'ж',
            40 => 'э',
            43 => '\\',
            44 => 'я',
            45 => 'ч',
            46 => 'с',
            47 => 'м',
            48 => 'и',
            49 => 'т',
            50 => 'ь',
            51 => 'б',
            52 => 'ю',
            53 => '.',
            57 => ' ',
            _ => '\0',
        }
    }
}

/// Switching the layout twice gives back the layout one started with, and
/// a switch always changes it.
pub proof fn lemma_switch_twice(layout: Layout)
    ensures
        switched(switched(layout)) == layout,
        switched(layout) != layout,
{
}

/// A key types a character in one layout exactly when it does in the other,
/// and exactly when it is one of the typing keys; every other key gives
/// `'\0'`.
pub proof fn lemma_layouts_share_keys(sc: u32)
    ensures
        (dvorak_char(sc) != '\0') <==> is_typing_key(sc),
        (rus_char(sc) != '\0') <==> is_typing_key(sc),
{
}

/// The digit row, enter, backslash and space type the same character in
/// both layouts.
pub proof fn lemma_layouts_agree_off_letters(sc: u32)
    requires
        (2 <= sc <= 11) || sc == 28 || sc == 43 || sc == 57,
    ensures
        dvorak_char(sc) == rus_char(sc),
{
}

/// The Russian layout's letter keys type lowercase Cyrillic letters.
pub proof fn lemma_rus_letters_are_cyrillic(sc: u32)
    requires
        16 <= sc <= 27 || 30 <= sc <= 40 || 44 <= sc <= 52,
    ensures
        '\u{430}' <= rus_char(sc) <= '\u{44F}',
{
}

/// Within one layout, no two keys type the same character.
pub proof fn lemma_layout_keys_distinct(layout: Layout, a: u32, b: u32)
    requires
        layout_char(layout, a) != '\0',
        layout_char(layout, a) == layout_char(layout, b),
    ensures
        a == b,
{
    lemma_layouts_share_keys(a);
    lemma_layouts_share_keys(b);
}

/// The digit row, left to right.
pub open spec fn digit_row() -> Seq<char> {
    seq!['1', '2', '3', '4', '5', '6', '7', '8', '9', '0']
}

/// The Dvorak top letter row, left to right.
pub open spec fn dvorak_top_row() -> Seq<char> {
    seq!['\'', ',', '.', 'p', 'y', 'f', 'g', 'c', 'r', 'l', '/', '=']
}

/// The Dvorak home row, left to right.
pub open spec fn dvorak_home_row() -> Seq<char> {
    seq!['a', 'o', 'e', 'u', 'i', 'd', 'h', 't', 'n', 's', '-']
}

/// The Dvorak bottom row, left to right.
pub open spec fn dvorak_bottom_row() -> Seq<char> {
    seq![';', 'q', 'j', 'k', 'x', 'b', 'm', 'w', 'v', 'z']
}

/// The Russian top letter row, left to right.
pub open spec fn rus_top_row() -> Seq<char> {
    seq!['й', 'ц', 'у', 'к', 'е', 'н', 'г', 'ш', 'щ', 'з', 'х', 'ъ']
}

/// The Russian home row, left to right.
pub open spec fn rus_home_row() -> Seq<char> {
    seq!['ф', 'ы', 'в', 'а', 'п', 'р', 'о', 'л', 'д', 'ж', 'э']
}

/// The Russian bottom row, left to right.
pub open spec fn rus_bottom_row() -> Seq<char> {
    seq!['я', 'ч', 'с', 'м', 'и', 'т', 'ь', 'б', 'ю', '.']
}

/// The Dvorak layout row by row: the digit row (scancodes 2 to 11) types
/// `1234567890`, the top row (16 to 27) `',.pyfgcrl/=`, the home row (30 to
/// 40) `aoeuidhtns-` and the bottom row (44 to 53) `;qjkxbmwvz`; enter (28)
/// types a line break, 43 a backslash and the space bar (57) a space.
pub proof fn lemma_dvorak_rows(i: int)
    ensures
        0 <= i < 10 ==> dvorak_char((2 + i) as u32) == digit_row()[i],
        0 <= i < 12 ==> dvorak_char((16 + i) as u32) == dvorak_top_row()[i],
        0 <= i < 11 ==> dvorak_char((30 + i) as u32) == dvorak_home_row()[i],
        0 <= i < 10 ==> dvorak_char((44 + i) as u32) == dvorak_bottom_row()[i],
        dvorak_char(28) == '\n',
        dvorak_char(43) == '\\',
        dvorak_char(57) == ' ',
{
    assert(digit_row().len() == 10 && dvorak_top_row().len() == 12 && dvorak_home_row().len() == 11 && dvorak_bottom_row().len() == 10);
}

/// The Russian layout row by row: the digit row (scancodes 2 to 11) types
/// `1234567890`, the top row (16 to 27) `йцукенгшщзхъ`, the home row (30 to
/// 40) `фывапролджэ` and the bottom row (44 to 53) `ячсмитьбю.`; enter (28)
/// types a line break, 43 a backslash and the space bar (57) a space.
pub proof fn lemma_rus_rows(i: int)
    ensures
        0 <= i < 10 ==> rus_char((2 + i) as u32) == digit_row()[i],
        0 <= i < 12 ==> rus_char((16 + i) as u32) == rus_top_row()[i],
        0 <= i < 11 ==> rus_char((30 + i) as u32) == rus_home_row()[i],
        0 <= i < 10 ==> rus_char((44 + i) as u32) == rus_bottom_row()[i],
        rus_char(28) == '\n',
        rus_char(43) == '\\',
        rus_char(57) == ' ',
{
    assert(digit_row().len() == 10 && rus_top_row().len() == 12 && rus_home_row().len() == 11 && rus_bottom_row().len() == 10);
}

/// Switching changes the layout that `scch` reads: switched from Dvorak it
/// types Russian, switched from Russian it types Dvorak.
pub proof fn lemma_switch_changes_typing(layout: Layout, sc: u32)
    ensures
        layout == Layout::Dvorak ==> layout_char(switched(layout), sc) == rus_char(sc),
        layout == Layout::Rus ==> layout_char(switched(layout), sc) == dvorak_char(sc),
{
}

} // verus!
