//! Small numbers for virtual desktops.
//!
//! A desktop is known by a 128-bit id. The first one seen gets number 1, the
//! next number 2, and so on for as long as the program runs.
use std::collections::HashMap;

use vstd::prelude::*;

use crate::search::{first_true, lemma_first_hit, lemma_first_miss, lemma_first_true};

verus! {

/// How long the desktop of a window is taken to stay the same, in nanoseconds.
pub const HWND_GUID_TTL: u64 = 800_000_000;

/// The desktop a window was last seen on.
#[derive(Debug, Clone, Copy, PartialEq, Eq, Structural)]
pub struct Sighting {
    pub guid: u128,
    /// Nanoseconds.
    pub at: u64,
}

#[derive(Debug)]
pub struct DesktopNumbers {
    /// The desktops seen so far, in the order they were first seen.
    pub known: Vec<u128>,
    /// The last sighting of each window, by its handle.
    pub sightings: HashMap<u64, Sighting>,
}

pub open spec fn guid_mask(known: Seq<u128>, guid: u128) -> Seq<bool> {
    Seq::new(known.len(), |i: int| known[i] == guid)
}

/// What a [`DesktopNumbers`] holds.
#[verifier::ext_equal]
pub struct Numbering {
    pub known: Seq<u128>,
    pub sightings: Map<u64, Sighting>,
}

impl View for DesktopNumbers {
    type V = Numbering;

    open spec fn view(&self) -> Numbering {
        Numbering { known: self.known@, sightings: self.sightings@ }
    }
}

/// One question for the desktop of a window: when it is asked, and what the
/// window system says, if it is asked and has an answer.
pub struct Look {
    pub hwnd: u64,
    pub now: u64,
    pub fresh: Option<u128>,
}

/// Whether a sighting can still be relied on.
pub open spec fn is_fresh(s: Sighting, now: u64) -> bool {
    now - s.at < HWND_GUID_TTL
}

/// The desktop on record for a window, if the record is fresh.
pub open spec fn remembered(sightings: Map<u64, Sighting>, hwnd: u64, now: u64) -> Option<u128> {
    if sightings.dom().contains(hwnd) && is_fresh(sightings[hwnd], now) {
        Some(sightings[hwnd].guid)
    } else {
        None
    }
}

/// The desktops known once `guid` has been seen.
pub open spec fn learned(known: Seq<u128>, guid: u128) -> Seq<u128> {
    if known.contains(guid) {
        known
    } else {
        known.push(guid)
    }
}

/// The number of a known desktop.
pub open spec fn number_of(known: Seq<u128>, guid: u128) -> Option<u32> {
    match first_true(guid_mask(known, guid)) {
        Some(i) => if i + 1 <= u32::MAX {
            Some((i + 1) as u32)
        } else {
            None
        },
        None => None,
    }
}

impl Numbering {
    /// Nothing was seen yet.
    pub open spec fn blank() -> Self {
        Numbering { known: seq![], sightings: Map::empty() }
    }

    /// The desktop that counts for a window: the one on record, if the record is
    /// fresh, else what the window system says.
    pub open spec fn sees(self, look: Look) -> Option<u128> {
        match remembered(self.sightings, look.hwnd, look.now) {
            Some(guid) => Some(guid),
            None => look.fresh,
        }
    }

    /// What is known after a question. The zero id stands for no desktop.
    pub open spec fn looked(self, look: Look) -> Self {
        Numbering {
            known: match self.sees(look) {
                Some(guid) if guid != 0 => learned(self.known, guid),
                _ => self.known,
            },
            sightings: match (remembered(self.sightings, look.hwnd, look.now), look.fresh) {
                (None, Some(guid)) => self.sightings.insert(
                    look.hwnd,
                    Sighting { guid, at: look.now },
                ),
                _ => self.sightings,
            },
        }
    }

    /// The answer to a question.
    pub open spec fn answer(self, look: Look) -> Option<u32> {
        match self.sees(look) {
            Some(guid) if guid != 0 => number_of(learned(self.known, guid), guid),
            _ => None,
        }
    }

    /// What is known after all of `looks`, the first one first.
    pub open spec fn after(self, looks: Seq<Look>) -> Self
        decreases looks.len(),
    {
        if looks.len() == 0 {
            self
        } else {
            self.after(looks.drop_last()).looked(looks.last())
        }
    }
}

impl DesktopNumbers {
    pub fn new() -> (r: Self)
        ensures
            r@ == Numbering::blank(),
    {
        DesktopNumbers { known: Vec::new(), sightings: HashMap::new() }
    }

    fn find_known(&self, guid: u128) -> (r: Option<usize>)
        ensures
            match r {
                Some(i) => first_true(guid_mask(self.known@, guid)) == Some(i as int) && i
                    < self.known@.len() && self.known@.contains(guid),
                None => first_true(guid_mask(self.known@, guid)) is None && !self.known@.contains(
                    guid,
                ),
            },
    {
        let mut i: usize = 0;
        while i < self.known.len()
            invariant
                i <= self.known@.len(),
                forall|j: int| 0 <= j < i ==> !guid_mask(self.known@, guid)[j],
            decreases self.known@.len() - i,
        {
            if self.known[i] == guid {
                proof {
                    lemma_first_hit(guid_mask(self.known@, guid), i as int);
                    assert(self.known@[i as int] == guid);
                }
                return Some(i);
            }
            i = i + 1;
        }
        proof {
            lemma_first_miss(guid_mask(self.known@, guid));
            assert forall|j: int| 0 <= j < self.known@.len() implies self.known@[j] != guid by {
                assert(!guid_mask(self.known@, guid)[j]);
            }
        }
        None
    }

    /// The desktop on record for a window; where there is none, the window
    /// system has to be asked.
    pub fn recall(&self, hwnd: u64, now: u64) -> (r: Option<u128>)
        ensures
            r == remembered(self.sightings@, hwnd, now),
    {
        broadcast use vstd::std_specs::hash::group_hash_axioms;

        match self.sightings.get(&hwnd) {
            Some(s) => {
                let age: u64 = if now > s.at {
                    now - s.at
                } else {
                    0
                };
                if age < HWND_GUID_TTL {
                    Some(s.guid)
                } else {
                    None
                }
            },
            None => None,
        }
    }

    /// The number of the desktop a window is on, from 1. `fresh` is what the
    /// window system says, and is used where no record is fresh; `None` there
    /// means that it has no answer. `None` also for a window that is on no
    /// desktop.
    pub fn desktop_id_for(&mut self, hwnd: u64, now: u64, fresh: Option<u128>) -> (r: Option<u32>)
        ensures
            final(self)@ == old(self)@.looked(Look { hwnd, now, fresh }),
            r == old(self)@.answer(Look { hwnd, now, fresh }),
    {
        broadcast use vstd::std_specs::hash::group_hash_axioms;

        let guid: u128 = match self.recall(hwnd, now) {
            Some(g) => g,
            None => match fresh {
                Some(g) => {
                    self.sightings.insert(hwnd, Sighting { guid: g, at: now });
                    g
                },
                None => {
                    return None;
                },
            },
        };
        if guid == 0 {
            return None;
        }
        match self.find_known(guid) {
            Some(i) => if i < u32::MAX as usize {
                Some((i + 1) as u32)
            } else {
                None
            },
            None => {
                let ghost before = self.known@;
                self.known.push(guid);
                proof {
                    lemma_first_miss(guid_mask(before, guid));
                    assert forall|j: int| 0 <= j < before.len() implies !guid_mask(
                        self.known@,
                        guid,
                    )[j] by {
                        assert(before[j] != guid);
                    }
                    lemma_first_hit(guid_mask(self.known@, guid), before.len() as int);
                }
                let n: usize = self.known.len();
                if n <= u32::MAX as usize {
                    Some(n as u32)
                } else {
                    None
                }
            },
        }
    }
}

/// Once a desktop has a number it keeps it, whatever is seen later.
pub proof fn law_desktop_numbers_are_stable(known: Seq<u128>, guid: u128, later: u128)
    requires
        known.contains(guid),
    ensures
        number_of(learned(known, later), guid) == number_of(known, guid),
{
    lemma_first_true(guid_mask(known, guid));
    let w = choose|i: int| 0 <= i < known.len() && known[i] == guid;
    assert(guid_mask(known, guid)[w]);
    let i = first_true(guid_mask(known, guid))->0;
    let after = learned(known, later);
    assert forall|j: int| 0 <= j < i implies !guid_mask(after, guid)[j] by {
        assert(!guid_mask(known, guid)[j]);
    }
    lemma_first_hit(guid_mask(after, guid), i);
}

/// Different desktops have different numbers.
pub proof fn law_desktop_numbers_differ(known: Seq<u128>, a: u128, b: u128)
    requires
        known.contains(a),
        known.contains(b),
        a != b,
    ensures
        number_of(known, a) is Some ==> number_of(known, a) != number_of(known, b),
{
    lemma_first_true(guid_mask(known, a));
    lemma_first_true(guid_mask(known, b));
    let wa = choose|i: int| 0 <= i < known.len() && known[i] == a;
    let wb = choose|i: int| 0 <= i < known.len() && known[i] == b;
    assert(guid_mask(known, a)[wa]);
    assert(guid_mask(known, b)[wb]);
}

/// What is known before question `i` of a run of the program.
pub open spec fn before_look(looks: Seq<Look>, i: int) -> Numbering {
    Numbering::blank().after(looks.take(i))
}

/// The desktops that are known at the end of a run.
pub open spec fn known_in(looks: Seq<Look>) -> Seq<u128> {
    before_look(looks, looks.len() as int).known
}

/// The desktop that counts in question `i`.
pub open spec fn seen_at(looks: Seq<Look>, i: int) -> Option<u128> {
    before_look(looks, i).sees(looks[i])
}

/// Question `i` is about a window on a desktop.
pub open spec fn on_desktop(looks: Seq<Look>, i: int) -> bool {
    seen_at(looks, i) matches Some(guid) && guid != 0
}

/// The answer to question `i`.
pub open spec fn answer_at(looks: Seq<Look>, i: int) -> Option<u32> {
    before_look(looks, i).answer(looks[i])
}

/// `n` was the answer to a question before question `i`.
pub open spec fn answered_before(looks: Seq<Look>, i: int, n: u32) -> bool {
    exists|k: int| 0 <= k < i && #[trigger] answer_at(looks, k) == Some(n)
}

proof fn lemma_number_of(known: Seq<u128>, i: int)
    requires
        known.no_duplicates(),
        0 <= i < known.len() <= u32::MAX,
    ensures
        number_of(known, known[i]) == Some((i + 1) as u32),
{
    let mask = guid_mask(known, known[i]);
    assert forall|j: int| 0 <= j < i implies !mask[j] by {
        assert(known[j] != known[i]);
    }
    lemma_first_hit(mask, i);
}

/// One question more.
proof fn lemma_one_look(looks: Seq<Look>, i: int)
    requires
        0 <= i < looks.len(),
    ensures
        before_look(looks, i + 1) == before_look(looks, i).looked(looks[i]),
{
    assert(looks.take(i + 1).drop_last() =~= looks.take(i));
    assert(looks.take(i + 1).last() == looks[i]);
}

proof fn lemma_known(looks: Seq<Look>, i: int)
    requires
        0 <= i <= looks.len(),
    ensures
        before_look(looks, i).known.no_duplicates(),
        !before_look(looks, i).known.contains(0),
    decreases i,
{
    if i > 0 {
        lemma_known(looks, i - 1);
        lemma_one_look(looks, i - 1);
        let old_known = before_look(looks, i - 1).known;
        let new_known = before_look(looks, i).known;
        if new_known != old_known {
            let guid = new_known.last();
            assert(new_known == old_known.push(guid));
            if new_known.contains(0) {
                let w = choose|w: int| 0 <= w < new_known.len() && new_known[w] == 0;
                assert(old_known[w] == 0);
            }
        }
    }
}

/// What was known stays known, in its place.
proof fn lemma_known_grows(looks: Seq<Look>, i: int, j: int)
    requires
        0 <= i <= j <= looks.len(),
    ensures
        before_look(looks, i).known.is_prefix_of(before_look(looks, j).known),
    decreases j,
{
    if i < j {
        lemma_known_grows(looks, i, j - 1);
        lemma_one_look(looks, j - 1);
    }
}

/// The answer to a question points at the desktop that counts in it.
proof fn lemma_answer_points(looks: Seq<Look>, i: int, end: int)
    requires
        0 <= i < end <= looks.len(),
        before_look(looks, end).known.len() <= u32::MAX,
    ensures
        answer_at(looks, i) is Some <==> on_desktop(looks, i),
        on_desktop(looks, i) ==> {
            let known = before_look(looks, end).known;
            let n = answer_at(looks, i)->0;
            1 <= n <= known.len() && known[n - 1] == seen_at(looks, i)->0
        },
{
    if on_desktop(looks, i) {
        let guid = seen_at(looks, i)->0;
        let now = before_look(looks, i + 1).known;
        lemma_one_look(looks, i);
        lemma_known(looks, i + 1);
        let old_known = before_look(looks, i).known;
        assert(now == learned(old_known, guid));
        assert(now.contains(guid)) by {
            if !old_known.contains(guid) {
                assert(now[old_known.len() as int] == guid);
            }
        }
        let w = choose|w: int| 0 <= w < now.len() && now[w] == guid;
        lemma_known_grows(looks, i + 1, end);
        lemma_number_of(now, w);
    }
}

/// What desktops are numbered like over a run of the program, however often and
/// for whichever windows it is asked: a window that is on no desktop has no
/// number; every other one has a number from 1; and two answers are the same
/// number where the desktops are the same, and only there.
pub proof fn law_same_number_means_same_desktop(looks: Seq<Look>, i: int, j: int)
    requires
        known_in(looks).len() <= u32::MAX,
        0 <= i < looks.len(),
        0 <= j < looks.len(),
    ensures
        answer_at(looks, i) is Some <==> on_desktop(looks, i),
        answer_at(looks, i) matches Some(n) ==> n >= 1,
        on_desktop(looks, i) && on_desktop(looks, j) ==> (answer_at(looks, i) == answer_at(looks, j)
            <==> seen_at(looks, i) == seen_at(looks, j)),
{
    let end = looks.len() as int;
    lemma_answer_points(looks, i, end);
    lemma_answer_points(looks, j, end);
    lemma_known(looks, end);
}

/// Numbers are given out in order: a desktop that was not seen before gets the
/// number after the largest one so far, which is 1 for the first, and every
/// smaller number was an answer before.
pub proof fn law_new_desktop_gets_next_number(looks: Seq<Look>, i: int)
    requires
        known_in(looks).len() <= u32::MAX,
        0 <= i < looks.len(),
        on_desktop(looks, i),
        forall|k: int| 0 <= k < i ==> #[trigger] seen_at(looks, k) != seen_at(looks, i),
    ensures
        answer_at(looks, i) is Some,
        forall|k: int|
            0 <= k < i && on_desktop(looks, k) ==> (#[trigger] answer_at(looks, k))->0 < answer_at(
                looks,
                i,
            )->0,
        forall|n: u32| 1 <= n < answer_at(looks, i)->0 ==> #[trigger] answered_before(looks, i, n),
        (forall|k: int| 0 <= k < i ==> !#[trigger] on_desktop(looks, k)) ==> answer_at(looks, i)
            == Some(1u32),
{
    let known = before_look(looks, i).known;
    let guid = seen_at(looks, i)->0;
    lemma_known(looks, i);
    lemma_known_grows(looks, i, looks.len() as int);
    lemma_known_grows(looks, i + 1, looks.len() as int);
    if known.contains(guid) {
        let w = choose|w: int| 0 <= w < known.len() && known[w] == guid;
        let k = lemma_known_was_answer(looks, i, w);
        assert(seen_at(looks, k) == seen_at(looks, i));
    }
    lemma_one_look(looks, i);
    lemma_known(looks, i + 1);
    let now = known.push(guid);
    assert(before_look(looks, i + 1).known == now);
    lemma_number_of(now, known.len() as int);
    assert(now[known.len() as int] == guid);
    assert forall|k: int| 0 <= k < i && on_desktop(looks, k) implies (#[trigger] answer_at(
        looks,
        k,
    ))->0 < answer_at(looks, i)->0 by {
        lemma_answer_points(looks, k, i);
    }
    assert forall|n: u32| 1 <= n < answer_at(looks, i)->0 implies #[trigger] answered_before(
        looks,
        i,
        n,
    ) by {
        let k = lemma_known_was_answer(looks, i, n - 1);
        assert(answer_at(looks, k) == Some(n));
    }
    if known.len() > 0 {
        let k = lemma_known_was_answer(looks, i, 0);
        assert(on_desktop(looks, k));
    }
}

/// A known desktop counted in a question before.
proof fn lemma_known_was_answer(looks: Seq<Look>, i: int, w: int) -> (k: int)
    requires
        0 <= i <= looks.len(),
        before_look(looks, i).known.len() <= u32::MAX,
        0 <= w < before_look(looks, i).known.len(),
    ensures
        0 <= k < i,
        seen_at(looks, k) == Some(before_look(looks, i).known[w]),
        answer_at(looks, k) == Some((w + 1) as u32),
    decreases i,
{
    lemma_known(looks, i - 1);
    lemma_known(looks, i);
    lemma_one_look(looks, i - 1);
    let old_known = before_look(looks, i - 1).known;
    lemma_known_grows(looks, i - 1, i);
    if w < old_known.len() {
        lemma_known_was_answer(looks, i - 1, w)
    } else {
        lemma_number_of(before_look(looks, i).known, w);
        i - 1
    }
}

/// While no window changes its desktop, whenever and however often it is asked:
/// a window on no desktop has no number, every other one has a number from 1,
/// and two windows have the same number where they are on the same desktop, and
/// only there.
pub proof fn law_settled_windows_are_told_apart(
    looks: Seq<Look>,
    desktop_of: spec_fn(u64) -> u128,
    i: int,
    j: int,
)
    requires
        known_in(looks).len() <= u32::MAX,
        0 <= i < looks.len(),
        0 <= j < looks.len(),
        forall|k: int|
            0 <= k < looks.len() ==> (#[trigger] looks[k]).fresh == Some(
                desktop_of(looks[k].hwnd),
            ),
    ensures
        seen_at(looks, i) == Some(desktop_of(looks[i].hwnd)),
        answer_at(looks, i) is None <==> desktop_of(looks[i].hwnd) == 0,
        answer_at(looks, i) matches Some(n) ==> n >= 1,
        desktop_of(looks[i].hwnd) != 0 && desktop_of(looks[j].hwnd) != 0 ==> (answer_at(looks, i)
            == answer_at(looks, j) <==> desktop_of(looks[i].hwnd) == desktop_of(looks[j].hwnd)),
{
    lemma_records_are_right(looks, desktop_of, i);
    lemma_records_are_right(looks, desktop_of, j);
    law_same_number_means_same_desktop(looks, i, j);
}

proof fn lemma_records_are_right(looks: Seq<Look>, desktop_of: spec_fn(u64) -> u128, i: int)
    requires
        0 <= i <= looks.len(),
        forall|k: int|
            0 <= k < looks.len() ==> (#[trigger] looks[k]).fresh == Some(
                desktop_of(looks[k].hwnd),
            ),
    ensures
        forall|hwnd: u64| #[trigger]
            before_look(looks, i).sightings.dom().contains(hwnd) ==> before_look(
                looks,
                i,
            ).sightings[hwnd].guid == desktop_of(hwnd),
    decreases i,
{
    if i > 0 {
        lemma_records_are_right(looks, desktop_of, i - 1);
        lemma_one_look(looks, i - 1);
        assert(looks[i - 1].fresh == Some(desktop_of(looks[i - 1].hwnd)));
    }
}

/// What is on record for a window counts for 800 milliseconds, and only for that
/// window.
pub proof fn law_records_count_for_a_while(n: Numbering, look: Look, later: Look)
    requires
        n.sees(look) == look.fresh,
        look.fresh is Some,
        remembered(n.sightings, look.hwnd, look.now) is None,
        look.now <= later.now,
        later.hwnd == look.hwnd,
    ensures
        later.now < look.now + 800_000_000 ==> n.looked(look).sees(later) == look.fresh,
        later.now >= look.now + 800_000_000 ==> n.looked(look).sees(later) == later.fresh,
{
}

} // verus!
