//! Which keys are held, which were released, and for how long.
//!
//! Time is counted in whole microseconds.
use std::collections::HashMap;
use std::collections::HashSet;
use vstd::prelude::*;

verus! {

broadcast use vstd::std_specs::hash::group_hash_axioms;

/// A key pressed again less than this long after its release counts as
/// pressed again in a row (microseconds).
pub const REPEAT_INTERVAL: u64 = 200_000;

/// A key that is held down.
#[derive(Clone, Copy, Debug, PartialEq, Eq, Structural)]
pub struct Stroke {
    /// How long it has been held (microseconds).
    pub duration: u64,
    /// How many quick presses came right before this one.
    pub repetition: u16,
}

/// A key that was released and is not held.
#[derive(Clone, Copy, Debug, PartialEq, Eq, Structural)]
pub struct Release {
    /// How long ago it was released (microseconds).
    pub duration: u64,
    /// The repetition count of the stroke that ended.
    pub repetition: u16,
}

/// Whether a keyboard event presses or releases its key.
#[derive(Clone, Copy, Debug, PartialEq, Eq, Structural)]
pub enum ElementState {
    Pressed,
    Released,
}

/// A key event: the physical key and what happened to it.
#[derive(Clone, Copy, Debug, PartialEq, Eq, Structural)]
pub struct KeyboardInput {
    pub scan_code: u32,
    pub state: ElementState,
}

/// The keys held and released, keyed by scancode.
#[derive(Debug)]
pub struct KeyStrokes {
    strokes: HashMap<u32, Stroke>,
    releases: HashMap<u32, Release>,
}

/// `a + b`, or `u64::MAX` where that does not fit.
pub open spec fn saturating_sum(a: u64, b: u64) -> u64 {
    if a + b > u64::MAX {
        u64::MAX
    } else {
        (a + b) as u64
    }
}

/// The keys pressed since the last advance of time.
pub open spec fn just_pressed_keys(strokes: Map<u32, Stroke>) -> Set<u32> {
    strokes.dom().filter(|sc: u32| strokes[sc].duration == 0)
}

/// The keys pressed since the last advance of time, as the second press of a
/// quick pair.
pub open spec fn double_pressed_keys(strokes: Map<u32, Stroke>) -> Set<u32> {
    strokes.dom().filter(|sc: u32| strokes[sc].duration == 0 && strokes[sc].repetition == 1)
}

/// The stroke that a press of `sc` starts, given the releases so far.
pub open spec fn new_stroke(releases: Map<u32, Release>, sc: u32) -> Stroke {
    if releases.contains_key(sc) && releases[sc].duration < REPEAT_INTERVAL {
        Stroke { duration: 0, repetition: (releases[sc].repetition + 1) as u16 }
    } else {
        Stroke { duration: 0, repetition: 0 }
    }
}

/// Whether taking in `ev` keeps the repetition count within `u16`.
pub open spec fn repetition_fits(
    strokes: Map<u32, Stroke>,
    releases: Map<u32, Release>,
    ev: KeyboardInput,
) -> bool {
    let sc = ev.scan_code;
    (ev.state == ElementState::Pressed && !strokes.contains_key(sc) && releases.contains_key(sc)
        && releases[sc].duration < REPEAT_INTERVAL) ==> releases[sc].repetition < u16::MAX
}

/// The held keys after taking in `ev`.
pub open spec fn strokes_after(
    strokes: Map<u32, Stroke>,
    releases: Map<u32, Release>,
    ev: KeyboardInput,
) -> Map<u32, Stroke> {
    let sc = ev.scan_code;
    match ev.state {
        ElementState::Pressed => if strokes.contains_key(sc) {
            strokes
        } else {
            strokes.insert(sc, new_stroke(releases, sc))
        },
        ElementState::Released => strokes.remove(sc),
    }
}

/// The released keys after taking in `ev`.
pub open spec fn releases_after(
    strokes: Map<u32, Stroke>,
    releases: Map<u32, Release>,
    ev: KeyboardInput,
) -> Map<u32, Release> {
    let sc = ev.scan_code;
    match ev.state {
        ElementState::Pressed => if strokes.contains_key(sc) {
            releases
        } else {
            releases.remove(sc)
        },
        ElementState::Released => if strokes.contains_key(sc) {
            releases.insert(sc, Release { duration: 0, repetition: strokes[sc].repetition })
        } else {
            releases.insert(sc, Release { duration: 0, repetition: 0 })
        },
    }
}

/// A held key `dt` microseconds later.
pub open spec fn stroke_aged(s: Stroke, dt: u64) -> Stroke {
    Stroke { duration: saturating_sum(s.duration, dt), repetition: s.repetition }
}

/// A released key `dt` microseconds later.
pub open spec fn release_aged(r: Release, dt: u64) -> Release {
    Release { duration: saturating_sum(r.duration, dt), repetition: r.repetition }
}

/// Held keys after `dt` microseconds more.
pub open spec fn strokes_advanced(strokes: Map<u32, Stroke>, dt: u64) -> Map<u32, Stroke> {
    strokes.map_values(|s: Stroke| stroke_aged(s, dt))
}

/// Released keys after `dt` microseconds more.
pub open spec fn releases_advanced(releases: Map<u32, Release>, dt: u64) -> Map<u32, Release> {
    releases.map_values(|r: Release| release_aged(r, dt))
}

/// The scancodes that are keys of `m`, each once.
fn key_list<V>(m: &HashMap<u32, V>) -> (ks: Vec<u32>)
    ensures
        ks@.to_set() == m@.dom(),
        ks@.no_duplicates(),
{
    let mut ks: Vec<u32> = Vec::new();
    for k in it: m.keys()
        invariant
            ks@ == it.seq().unref().take(it.index()),
            it.seq().unref().to_set() == m@.dom(),
            it.seq().unref().no_duplicates(),
            it.index() == it.seq().len() ==> ks@ == it.seq().unref(),
    {
        ks.push(*k);
        assert(it.index() == it.seq().len() ==> it.seq().unref().take(it.index())
            =~= it.seq().unref());
    }
    ks
}

/// Facts about a prefix of a list without repeats, one element longer.
proof fn lemma_take_one_more(ks: Seq<u32>, i: int)
    requires
        ks.no_duplicates(),
        0 <= i < ks.len(),
    ensures
        forall|k: u32|
            #![trigger ks.take(i + 1).contains(k)]
            ks.take(i + 1).contains(k) <==> (ks.take(i).contains(k) || k == ks[i]),
        !ks.take(i).contains(ks[i]),
        ks.to_set().contains(ks[i]),
{
    let a = ks.take(i);
    let b = ks.take(i + 1);
    assert forall|k: u32| b.contains(k) <==> (a.contains(k) || k == ks[i]) by {
        if b.contains(k) {
            let j = choose|j: int| 0 <= j < b.len() && #[trigger] b[j] == k;
            if j < i {
                assert(a[j] == k);
            }
        }
        if a.contains(k) {
            let j = choose|j: int| 0 <= j < a.len() && #[trigger] a[j] == k;
            assert(b[j] == k);
        }
        if k == ks[i] {
            assert(b[i] == k);
        }
    }
    if a.contains(ks[i]) {
        let j = choose|j: int| 0 <= j < a.len() && #[trigger] a[j] == ks[i];
        assert(ks[j] == ks[i]);
    }
    assert(ks.contains(ks[i]));
}

/// A computation on map values, with the spec function it computes.
pub(crate) trait ValueMap<V> {
    spec fn apply(&self, v: V) -> V;

    fn call(&self, v: V) -> (r: V)
        ensures
            r == self.apply(v),
    ;
}

/// A test on map values, with the spec predicate it computes.
pub(crate) trait ValueTest<V> {
    spec fn holds(&self, v: V) -> bool;

    fn test(&self, v: V) -> (r: bool)
        ensures
            r == self.holds(v),
    ;
}

/// Replaces every value `v` of `m` by `f.call(v)`.
pub(crate) fn update_values<V: Copy, F: ValueMap<V>>(m: &mut HashMap<u32, V>, f: &F)
    ensures
        final(m)@ == old(m)@.map_values(|v: V| f.apply(v)),
{
    let ks = key_list(m);
    let ghost m0 = m@;
    let mut i: usize = 0;
    while i < ks.len()
        invariant
            ks@.to_set() == m0.dom(),
            ks@.no_duplicates(),
            0 <= i <= ks.len(),
            m@.dom() == m0.dom(),
            forall|k: u32|
                #![trigger m@[k]]
                m0.contains_key(k) ==> m@[k] == (if ks@.take(i as int).contains(k) {
                    f.apply(m0[k])
                } else {
                    m0[k]
                }),
        decreases ks.len() - i,
    {
        let k = ks[i];
        proof {
            lemma_take_one_more(ks@, i as int);
        }
        let v = *m.get(&k).unwrap();
        let w = f.call(v);
        m.insert(k, w);
        i += 1;
    }
    proof {
        assert(ks@.take(ks@.len() as int) =~= ks@);
        assert forall|k: u32| ks@.contains(k) <==> m0.contains_key(k) by {
            assert(ks@.to_set().contains(k) <==> ks@.contains(k));
        }
    }
    assert(m@ =~= m0.map_values(|v: V| f.apply(v)));
}

/// The keys of `m` whose value passes `t`.
fn keys_where<V: Copy, T: ValueTest<V>>(m: &HashMap<u32, V>, t: &T) -> (res: HashSet<u32>)
    ensures
        res@ == m@.dom().filter(|k: u32| t.holds(m@[k])),
{
    let ks = key_list(m);
    let ghost target = m@.dom().filter(|k: u32| t.holds(m@[k]));
    let mut res: HashSet<u32> = HashSet::new();
    let mut i: usize = 0;
    while i < ks.len()
        invariant
            ks@.to_set() == m@.dom(),
            ks@.no_duplicates(),
            0 <= i <= ks.len(),
            target == m@.dom().filter(|k: u32| t.holds(m@[k])),
            forall|k: u32| #[trigger] res@.contains(k) <==> (ks@.take(i as int).contains(k) && target.contains(k)),
        decreases ks.len() - i,
    {
        let k = ks[i];
        proof {
            lemma_take_one_more(ks@, i as int);
        }
        let v = *m.get(&k).unwrap();
        if t.test(v) {
            res.insert(k);
        }
        i += 1;
    }
    proof {
        assert(ks@.take(ks@.len() as int) =~= ks@);
        assert forall|k: u32| ks@.contains(k) <==> m@.contains_key(k) by {
            assert(ks@.to_set().contains(k) <==> ks@.contains(k));
        }
    }
    assert(res@ =~= target);
    res
}

/// Ages held keys by `dt` microseconds.
struct AgeStroke {
    dt: u64,
}

impl ValueMap<Stroke> for AgeStroke {
    closed spec fn apply(&self, v: Stroke) -> Stroke {
        stroke_aged(v, self.dt)
    }

    fn call(&self, v: Stroke) -> (r: Stroke) {
        Stroke { duration: v.duration.saturating_add(self.dt), repetition: v.repetition }
    }
}

/// Ages released keys by `dt` microseconds.
struct AgeRelease {
    dt: u64,
}

impl ValueMap<Release> for AgeRelease {
    closed spec fn apply(&self, v: Release) -> Release {
        release_aged(v, self.dt)
    }

    fn call(&self, v: Release) -> (r: Release) {
        Release { duration: v.duration.saturating_add(self.dt), repetition: v.repetition }
    }
}

/// Picks the strokes of keys just pressed, or, with `double`, just pressed
/// as the second of a quick pair; with `any`, every stroke.
struct StrokeTest {
    any: bool,
    double: bool,
}

impl ValueTest<Stroke> for StrokeTest {
    closed spec fn holds(&self, v: Stroke) -> bool {
        self.any || (v.duration == 0 && (!self.double || v.repetition == 1))
    }

    fn test(&self, v: Stroke) -> (r: bool) {
        self.any || (v.duration == 0 && (!self.double || v.repetition == 1))
    }
}

impl KeyStrokes {
    /// The held keys with their strokes.
    pub closed spec fn stroke_map(&self) -> Map<u32, Stroke> {
        self.strokes@
    }

    /// The released keys with their releases.
    pub closed spec fn release_map(&self) -> Map<u32, Release> {
        self.releases@
    }

    /// No key is both held and released.
    pub open spec fn wf(&self) -> bool {
        self.stroke_map().dom().disjoint(self.release_map().dom())
    }

    /// No key held, none released.
    pub fn new() -> (ks: Self)
        ensures
            ks.stroke_map() == Map::<u32, Stroke>::empty(),
            ks.release_map() == Map::<u32, Release>::empty(),
            ks.wf(),
    {
        KeyStrokes { strokes: HashMap::new(), releases: HashMap::new() }
    }

    /// The keys pressed since time last advanced.
    pub fn get_just_pressed(&self) -> (res: HashSet<u32>)
        ensures
            res@ == just_pressed_keys(self.stroke_map()),
    {
        let res = keys_where(&self.strokes, &StrokeTest { any: false, double: false });
        assert(res@ =~= just_pressed_keys(self.strokes@));
        res
    }

    /// All the keys held down.
    pub fn get_down(&self) -> (res: HashSet<u32>)
        ensures
            res@ == self.stroke_map().dom(),
    {
        let res = keys_where(&self.strokes, &StrokeTest { any: true, double: false });
        assert(res@ =~= self.strokes@.dom());
        res
    }

    /// The keys pressed since time last advanced, as the second of two quick
    /// presses.
    pub fn get_double_pressed(&self) -> (res: HashSet<u32>)
        ensures
            res@ == double_pressed_keys(self.stroke_map()),
    {
        let res = keys_where(&self.strokes, &StrokeTest { any: false, double: true });
        assert(res@ =~= double_pressed_keys(self.strokes@));
        res
    }

    /// Whether `eat_keyboard_input` can take in `kev` without the repetition
    /// count overflowing.
    pub fn repetition_fits(&self, kev: &KeyboardInput) -> (b: bool)
        ensures
            b == repetition_fits(self.stroke_map(), self.release_map(), *kev),
    {
        let sc = kev.scan_code;
        match kev.state {
            ElementState::Released => true,
            ElementState::Pressed => {
                if self.strokes.contains_key(&sc) {
                    true
                } else {
                    match self.releases.get(&sc) {
                        Some(r) => r.duration >= REPEAT_INTERVAL || r.repetition < u16::MAX,
                        None => true,
                    }
                }
            },
        }
    }

    /// Takes in a key event: a press starts a stroke (counting a quick
    /// re-press as a repetition) unless the key is already held; a release
    /// ends the stroke and starts a release.
    pub fn eat_keyboard_input(&mut self, kev: &KeyboardInput)
        requires
            repetition_fits(old(self).stroke_map(), old(self).release_map(), *kev),
        ensures
            final(self).stroke_map() == strokes_after(
                old(self).stroke_map(),
                old(self).release_map(),
                *kev,
            ),
            final(self).release_map() == releases_after(
                old(self).stroke_map(),
                old(self).release_map(),
                *kev,
            ),
            old(self).wf() ==> final(self).wf(),
    {
        let sc = kev.scan_code;
        let est = kev.state;
        let strokes = &mut self.strokes;
        let releases = &mut self.releases;

        if est == ElementState::Pressed {
            if !strokes.contains_key(&sc) {
                if let Some(release) = releases.remove(&sc) {
                    if release.duration < REPEAT_INTERVAL {
                        strokes.insert(
                            sc,
                            Stroke { duration: 0, repetition: release.repetition + 1 },
                        );
                    } else {
                        strokes.insert(sc, Stroke { duration: 0, repetition: 0 });
                    }
                } else {
                    strokes.insert(sc, Stroke { duration: 0, repetition: 0 });
                }
            }
        } else {
            if let Some(stroke) = strokes.remove(&sc) {
                releases.insert(sc, Release { duration: 0, repetition: stroke.repetition });
            } else {
                releases.insert(sc, Release { duration: 0, repetition: 0 });
            }
        }
    }

    /// The stroke of the key with scancode `sc`, if it is held.
    pub fn stroke(&self, sc: u32) -> (r: Option<Stroke>)
        ensures
            r == self.stroke_map().index_opt(sc),
    {
        match self.strokes.get(&sc) {
            Some(s) => Some(*s),
            None => None,
        }
    }

    /// The release of the key with scancode `sc`, if it is released.
    pub fn release(&self, sc: u32) -> (r: Option<Release>)
        ensures
            r == self.release_map().index_opt(sc),
    {
        match self.releases.get(&sc) {
            Some(r) => Some(*r),
            None => None,
        }
    }

    /// Lets `dt` microseconds pass for every held and every released key.
    pub fn update(&mut self, dt: u64)
        ensures
            final(self).stroke_map() == strokes_advanced(old(self).stroke_map(), dt),
            final(self).release_map() == releases_advanced(old(self).release_map(), dt),
            old(self).wf() ==> final(self).wf(),
    {
        update_values(&mut self.strokes, &AgeStroke { dt });
        update_values(&mut self.releases, &AgeRelease { dt });
        assert(self.strokes@ =~= strokes_advanced(old(self).strokes@, dt));
        assert(self.releases@ =~= releases_advanced(old(self).releases@, dt));
    }
}

/// Every double-pressed key is just pressed, and every just-pressed key is
/// held down.
pub proof fn lemma_pressed_sets_nested(strokes: Map<u32, Stroke>)
    ensures
        double_pressed_keys(strokes).subset_of(just_pressed_keys(strokes)),
        just_pressed_keys(strokes).subset_of(strokes.dom()),
{
}

/// Once time has moved on, no key counts as just pressed any more.
pub proof fn lemma_update_ends_just_pressed(strokes: Map<u32, Stroke>, dt: u64)
    requires
        dt > 0,
    ensures
        just_pressed_keys(strokes_advanced(strokes, dt)) == Set::<u32>::empty(),
        double_pressed_keys(strokes_advanced(strokes, dt)) == Set::<u32>::empty(),
{
    assert(just_pressed_keys(strokes_advanced(strokes, dt)) =~= Set::<u32>::empty());
    assert(double_pressed_keys(strokes_advanced(strokes, dt)) =~= Set::<u32>::empty());
}

/// A press of a key that is not held makes it just pressed.
pub proof fn lemma_press_is_just_pressed(
    strokes: Map<u32, Stroke>,
    releases: Map<u32, Release>,
    sc: u32,
)
    requires
        !strokes.contains_key(sc),
    ensures
        just_pressed_keys(
            strokes_after(strokes, releases, KeyboardInput { scan_code: sc, state: ElementState::Pressed }),
        ).contains(sc),
{
}

/// A press of a key that is already held changes nothing.
pub proof fn lemma_press_of_held_key_is_ignored(
    strokes: Map<u32, Stroke>,
    releases: Map<u32, Release>,
    sc: u32,
)
    requires
        strokes.contains_key(sc),
    ensures
        strokes_after(strokes, releases, KeyboardInput { scan_code: sc, state: ElementState::Pressed })
            == strokes,
        releases_after(strokes, releases, KeyboardInput { scan_code: sc, state: ElementState::Pressed })
            == releases,
{
}

/// Press, hold for `held` microseconds, release, wait `gap` microseconds
/// (less than the repeat interval), press again: the key is double pressed.
/// This holds for a key that is neither held nor recently released.
pub proof fn lemma_quick_second_press_is_double(
    strokes: Map<u32, Stroke>,
    releases: Map<u32, Release>,
    sc: u32,
    held: u64,
    gap: u64,
)
    requires
        !strokes.contains_key(sc),
        releases.contains_key(sc) ==> releases[sc].duration >= REPEAT_INTERVAL,
        gap < REPEAT_INTERVAL,
    ensures
        ({
            let press = KeyboardInput { scan_code: sc, state: ElementState::Pressed };
            let release = KeyboardInput { scan_code: sc, state: ElementState::Released };
            let s1 = strokes_after(strokes, releases, press);
            let r1 = releases_after(strokes, releases, press);
            let s2 = strokes_advanced(s1, held);
            let r2 = releases_advanced(r1, held);
            let s3 = strokes_after(s2, r2, release);
            let r3 = releases_after(s2, r2, release);
            let s4 = strokes_advanced(s3, gap);
            let r4 = releases_advanced(r3, gap);
            &&& repetition_fits(strokes, releases, press)
            &&& repetition_fits(s4, r4, press)
            &&& double_pressed_keys(strokes_after(s4, r4, press)).contains(sc)
        }),
{
}

/// The held and released keys after taking in `events` one after another.
pub open spec fn events_applied(
    strokes: Map<u32, Stroke>,
    releases: Map<u32, Release>,
    events: Seq<KeyboardInput>,
) -> (Map<u32, Stroke>, Map<u32, Release>)
    decreases events.len(),
{
    if events.len() == 0 {
        (strokes, releases)
    } else {
        let (s, r) = events_applied(strokes, releases, events.drop_last());
        (strokes_after(s, r, events.last()), releases_after(s, r, events.last()))
    }
}

/// The held and released keys after one frame: `dt` microseconds pass, then
/// the frame's events are taken in, in order.
pub open spec fn frame_applied(
    strokes: Map<u32, Stroke>,
    releases: Map<u32, Release>,
    dt: u64,
    events: Seq<KeyboardInput>,
) -> (Map<u32, Stroke>, Map<u32, Release>) {
    events_applied(strokes_advanced(strokes, dt), releases_advanced(releases, dt), events)
}

/// Taking in a key event touches only that event's key.
pub proof fn lemma_event_touches_only_its_key(
    strokes: Map<u32, Stroke>,
    releases: Map<u32, Release>,
    ev: KeyboardInput,
    k: u32,
)
    requires
        k != ev.scan_code,
    ensures
        strokes_after(strokes, releases, ev).contains_key(k) == strokes.contains_key(k),
        strokes.contains_key(k) ==> strokes_after(strokes, releases, ev)[k] == strokes[k],
        releases_after(strokes, releases, ev).contains_key(k) == releases.contains_key(k),
        releases.contains_key(k) ==> releases_after(strokes, releases, ev)[k] == releases[k],
{
}

/// Taking in a key event never leaves a key both held and released (whatever
/// the repetition counts).
pub proof fn lemma_event_keeps_keys_apart(
    strokes: Map<u32, Stroke>,
    releases: Map<u32, Release>,
    ev: KeyboardInput,
)
    requires
        strokes.dom().disjoint(releases.dom()),
    ensures
        strokes_after(strokes, releases, ev).dom().disjoint(releases_after(strokes, releases, ev).dom()),
{
    assert forall|k: u32| #[trigger] strokes_after(strokes, releases, ev).dom().contains(k) implies !releases_after(
        strokes,
        releases,
        ev,
    ).dom().contains(k) by {
        if k != ev.scan_code {
            lemma_event_touches_only_its_key(strokes, releases, ev, k);
        }
    }
}

/// Every state reached by frames from the empty one has no key both held and
/// released.
pub proof fn lemma_frame_keeps_keys_apart(
    strokes: Map<u32, Stroke>,
    releases: Map<u32, Release>,
    dt: u64,
    events: Seq<KeyboardInput>,
)
    requires
        strokes.dom().disjoint(releases.dom()),
    ensures
        frame_applied(strokes, releases, dt, events).0.dom().disjoint(
            frame_applied(strokes, releases, dt, events).1.dom(),
        ),
{
    lemma_events_keep_keys_apart(strokes_advanced(strokes, dt), releases_advanced(releases, dt), events);
}

proof fn lemma_events_keep_keys_apart(
    strokes: Map<u32, Stroke>,
    releases: Map<u32, Release>,
    events: Seq<KeyboardInput>,
)
    requires
        strokes.dom().disjoint(releases.dom()),
    ensures
        events_applied(strokes, releases, events).0.dom().disjoint(
            events_applied(strokes, releases, events).1.dom(),
        ),
    decreases events.len(),
{
    if events.len() > 0 {
        lemma_events_keep_keys_apart(strokes, releases, events.drop_last());
        let (s, r) = events_applied(strokes, releases, events.drop_last());
        lemma_event_keeps_keys_apart(s, r, events.last());
    }
}

/// Events for other keys leave a key's stroke as it is.
proof fn lemma_other_events_keep_stroke(
    strokes: Map<u32, Stroke>,
    releases: Map<u32, Release>,
    events: Seq<KeyboardInput>,
    sc: u32,
)
    requires
        forall|j: int| 0 <= j < events.len() ==> #[trigger] events[j].scan_code != sc,
    ensures
        events_applied(strokes, releases, events).0.contains_key(sc) == strokes.contains_key(sc),
        strokes.contains_key(sc) ==> events_applied(strokes, releases, events).0[sc] == strokes[sc],
    decreases events.len(),
{
    if events.len() > 0 {
        let init = events.drop_last();
        assert forall|j: int| 0 <= j < init.len() implies #[trigger] init[j].scan_code != sc by {
            assert(events[j].scan_code != sc);
        }
        lemma_other_events_keep_stroke(strokes, releases, init, sc);
        let (s, r) = events_applied(strokes, releases, init);
        assert(events.last().scan_code != sc) by {
            assert(events[events.len() - 1].scan_code != sc);
        }
        lemma_event_touches_only_its_key(s, r, events.last(), sc);
    }
}

/// Within one frame, a key whose last event is a press of it while it is not
/// held ends the frame just pressed.
pub proof fn lemma_last_press_in_frame_is_just_pressed(
    strokes: Map<u32, Stroke>,
    releases: Map<u32, Release>,
    dt: u64,
    events: Seq<KeyboardInput>,
    i: int,
)
    requires
        0 <= i < events.len(),
        events[i].state == ElementState::Pressed,
        forall|j: int| i < j < events.len() ==> #[trigger] events[j].scan_code != events[i].scan_code,
        !events_applied(
            strokes_advanced(strokes, dt),
            releases_advanced(releases, dt),
            events.take(i),
        ).0.contains_key(events[i].scan_code),
    ensures
        just_pressed_keys(frame_applied(strokes, releases, dt, events).0).contains(events[i].scan_code),
{
    let sc = events[i].scan_code;
    let s0 = strokes_advanced(strokes, dt);
    let r0 = releases_advanced(releases, dt);
    let upto = events.take(i + 1);
    let rest = events.skip(i + 1);
    assert(upto.drop_last() =~= events.take(i));
    assert(upto.last() == events[i]);
    let (s1, r1) = events_applied(s0, r0, upto);
    assert(s1.contains_key(sc) && s1[sc].duration == 0);
    assert forall|j: int| 0 <= j < rest.len() implies #[trigger] rest[j].scan_code != sc by {
        assert(rest[j] == events[i + 1 + j]);
    }
    lemma_other_events_keep_stroke(s1, r1, rest, sc);
    lemma_events_applied_concat(s0, r0, upto, rest);
    assert(upto + rest =~= events);
}

/// Taking in `a` then `b` is taking in `a + b`.
proof fn lemma_events_applied_concat(
    strokes: Map<u32, Stroke>,
    releases: Map<u32, Release>,
    a: Seq<KeyboardInput>,
    b: Seq<KeyboardInput>,
)
    ensures
        ({
            let (s, r) = events_applied(strokes, releases, a);
            events_applied(s, r, b) == events_applied(strokes, releases, a + b)
        }),
    decreases b.len(),
{
    if b.len() > 0 {
        lemma_events_applied_concat(strokes, releases, a, b.drop_last());
        assert((a + b).drop_last() =~= a + b.drop_last());
        assert((a + b).last() == b.last());
    } else {
        assert(a + b =~= a);
    }
}

/// The repeat interval is a fifth of a second.
pub proof fn lemma_repeat_interval_is_a_fifth_of_a_second()
    ensures
        REPEAT_INTERVAL == 200_000,
{
}

/// Letting `dt` microseconds pass adds `dt` to every held and every released
/// key's duration (stopping at `u64::MAX`), keeps every repetition count, and
/// neither adds nor drops a key.
pub proof fn lemma_update_adds_time(
    strokes: Map<u32, Stroke>,
    releases: Map<u32, Release>,
    dt: u64,
    sc: u32,
)
    ensures
        strokes_advanced(strokes, dt).contains_key(sc) == strokes.contains_key(sc),
        releases_advanced(releases, dt).contains_key(sc) == releases.contains_key(sc),
        strokes.contains_key(sc) ==> {
            let s = strokes_advanced(strokes, dt)[sc];
            &&& strokes[sc].duration + dt <= u64::MAX ==> s.duration == strokes[sc].duration + dt
            &&& strokes[sc].duration + dt > u64::MAX ==> s.duration == u64::MAX
            &&& s.repetition == strokes[sc].repetition
        },
        releases.contains_key(sc) ==> {
            let r = releases_advanced(releases, dt)[sc];
            &&& releases[sc].duration + dt <= u64::MAX ==> r.duration == releases[sc].duration + dt
            &&& releases[sc].duration + dt > u64::MAX ==> r.duration == u64::MAX
            &&& r.repetition == releases[sc].repetition
        },
{
}

/// Two updates add up: `a` then `b` microseconds is `a + b` microseconds,
/// where that fits in `u64`.
pub proof fn lemma_updates_add_up(strokes: Map<u32, Stroke>, releases: Map<u32, Release>, a: u64, b: u64)
    requires
        a + b <= u64::MAX,
    ensures
        strokes_advanced(strokes_advanced(strokes, a), b) == strokes_advanced(strokes, (a + b) as u64),
        releases_advanced(releases_advanced(releases, a), b) == releases_advanced(
            releases,
            (a + b) as u64,
        ),
{
    assert forall|k: u32| #[trigger] strokes.contains_key(k) implies strokes_advanced(
        strokes_advanced(strokes, a),
        b,
    )[k] == strokes_advanced(strokes, (a + b) as u64)[k] by {
        lemma_update_adds_time(strokes, releases, a, k);
        lemma_update_adds_time(strokes_advanced(strokes, a), releases_advanced(releases, a), b, k);
        lemma_update_adds_time(strokes, releases, (a + b) as u64, k);
    }
    assert forall|k: u32| #[trigger] releases.contains_key(k) implies releases_advanced(
        releases_advanced(releases, a),
        b,
    )[k] == releases_advanced(releases, (a + b) as u64)[k] by {
        lemma_update_adds_time(strokes, releases, a, k);
        lemma_update_adds_time(strokes_advanced(strokes, a), releases_advanced(releases, a), b, k);
        lemma_update_adds_time(strokes, releases, (a + b) as u64, k);
    }
    assert(strokes_advanced(strokes_advanced(strokes, a), b) =~= strokes_advanced(strokes, (a + b) as u64));
    assert(releases_advanced(releases_advanced(releases, a), b) =~= releases_advanced(
        releases,
        (a + b) as u64,
    ));
}

/// A press of a key that is not held starts a stroke of no duration and ends
/// its release; the stroke counts one more repetition than the release where
/// the key was released less than a fifth of a second ago, and none
/// otherwise.
pub proof fn lemma_press_starts_stroke(strokes: Map<u32, Stroke>, releases: Map<u32, Release>, sc: u32)
    requires
        !strokes.contains_key(sc),
        releases.contains_key(sc) ==> releases[sc].repetition < u16::MAX,
    ensures
        ({
            let ev = KeyboardInput { scan_code: sc, state: ElementState::Pressed };
            let s = strokes_after(strokes, releases, ev);
            let r = releases_after(strokes, releases, ev);
            &&& s.contains_key(sc)
            &&& s[sc].duration == 0
            &&& !r.contains_key(sc)
            &&& (releases.contains_key(sc) && releases[sc].duration < 200_000) ==> s[sc].repetition
                == releases[sc].repetition + 1
            &&& !(releases.contains_key(sc) && releases[sc].duration < 200_000) ==> s[sc].repetition
                == 0
        }),
{
}

/// A release ends the key's stroke and starts a release of no duration that
/// keeps the stroke's repetition count (none where the key was not held).
pub proof fn lemma_release_ends_stroke(strokes: Map<u32, Stroke>, releases: Map<u32, Release>, sc: u32)
    ensures
        ({
            let ev = KeyboardInput { scan_code: sc, state: ElementState::Released };
            let s = strokes_after(strokes, releases, ev);
            let r = releases_after(strokes, releases, ev);
            &&& !s.contains_key(sc)
            &&& r.contains_key(sc)
            &&& r[sc].duration == 0
            &&& strokes.contains_key(sc) ==> r[sc].repetition == strokes[sc].repetition
            &&& !strokes.contains_key(sc) ==> r[sc].repetition == 0
        }),
{
}

/// A key is just pressed exactly when it is held and no time has passed since
/// its press; it is double pressed exactly when, besides, exactly one quick
/// press came before.
pub proof fn lemma_pressed_sets_members(strokes: Map<u32, Stroke>, sc: u32)
    ensures
        just_pressed_keys(strokes).contains(sc) <==> (strokes.contains_key(sc) && strokes[sc].duration
            == 0),
        double_pressed_keys(strokes).contains(sc) <==> (strokes.contains_key(sc)
            && strokes[sc].duration == 0 && strokes[sc].repetition == 1),
{
}

} // verus!
