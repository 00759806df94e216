//! How often each window was moved during one animation.
use vstd::prelude::*;

verus! {

/// How often one window was moved.
#[derive(Debug, Clone, Copy, PartialEq, Eq, Structural)]
pub struct EmitCount {
    pub hwnd: u64,
    pub count: u32,
}

/// Counters of the animation in progress.
#[derive(Debug)]
pub struct ScrollProfile {
    /// When the animation started; `None` while none is counted.
    pub start: Option<u64>,
    pub frame_count: u32,
    /// At most one entry per window.
    pub counts: Vec<EmitCount>,
}

/// What a [`ScrollProfile`] holds.
#[verifier::ext_equal]
pub struct Counters {
    pub start: Option<u64>,
    pub frame_count: u32,
    pub counts: Seq<EmitCount>,
}

/// The counters of a finished animation.
#[derive(Debug)]
pub struct ScrollProfileSnapshot {
    /// Nanoseconds.
    pub duration: u64,
    pub frame_count: u32,
    /// Most moves first.
    pub counts: Vec<EmitCount>,
}

impl View for ScrollProfile {
    type V = Counters;

    open spec fn view(&self) -> Counters {
        Counters { start: self.start, frame_count: self.frame_count, counts: self.counts@ }
    }
}

pub open spec fn one_entry_each(counts: Seq<EmitCount>) -> bool {
    forall|i: int, j: int|
        0 <= i < j < counts.len() ==> (#[trigger] counts[i]).hwnd != (#[trigger] counts[j]).hwnd
}

/// One more, but never beyond 32 bits.
pub open spec fn one_more(count: u32) -> u32 {
    if count == u32::MAX {
        count
    } else {
        (count + 1) as u32
    }
}

/// `counts` after one more move of `hwnd`.
pub open spec fn counted(counts: Seq<EmitCount>, hwnd: u64) -> Seq<EmitCount>
    decreases counts.len(),
{
    if counts.len() == 0 {
        seq![EmitCount { hwnd, count: 1 }]
    } else if counts[0].hwnd == hwnd {
        seq![EmitCount { hwnd, count: one_more(counts[0].count) }] + counts.drop_first()
    } else {
        seq![counts[0]] + counted(counts.drop_first(), hwnd)
    }
}

/// What [`counted`] does to the entries.
pub proof fn lemma_counted(counts: Seq<EmitCount>, hwnd: u64, k: int)
    requires
        0 <= k <= counts.len(),
        forall|i: int| 0 <= i < k ==> (#[trigger] counts[i]).hwnd != hwnd,
        k < counts.len() ==> counts[k].hwnd == hwnd,
    ensures
        counted(counts, hwnd) == (if k == counts.len() {
            counts.push(EmitCount { hwnd, count: 1 })
        } else {
            counts.update(k, EmitCount { hwnd, count: one_more(counts[k].count) })
        }),
    decreases counts.len(),
{
    if counts.len() == 0 {
        assert(counted(counts, hwnd) =~= counts.push(EmitCount { hwnd, count: 1 }));
    } else if counts[0].hwnd == hwnd {
        assert(k == 0);
        assert(counted(counts, hwnd) =~= counts.update(
            0,
            EmitCount { hwnd, count: one_more(counts[0].count) },
        ));
    } else {
        let rest = counts.drop_first();
        assert forall|i: int| 0 <= i < k - 1 implies (#[trigger] rest[i]).hwnd != hwnd by {
            assert(counts[i + 1].hwnd != hwnd);
        }
        lemma_counted(rest, hwnd, k - 1);
        if k == counts.len() {
            assert(counted(counts, hwnd) =~= counts.push(EmitCount { hwnd, count: 1 }));
        } else {
            assert(counted(counts, hwnd) =~= counts.update(
                k,
                EmitCount { hwnd, count: one_more(counts[k].count) },
            ));
        }
    }
}

/// Counting a move keeps one entry per window.
pub proof fn law_counting_keeps_one_entry_each(counts: Seq<EmitCount>, hwnd: u64)
    requires
        one_entry_each(counts),
    ensures
        one_entry_each(counted(counts, hwnd)),
{
    let mask = Seq::new(counts.len(), |i: int| counts[i].hwnd == hwnd);
    crate::search::lemma_first_true(mask);
    let k = match crate::search::first_true(mask) {
        Some(i) => i,
        None => counts.len() as int,
    };
    assert forall|i: int| 0 <= i < k implies (#[trigger] counts[i]).hwnd != hwnd by {
        assert(!mask[i]);
    }
    lemma_counted(counts, hwnd, k);
}

/// `e` put behind the last entry with at least as many moves.
pub open spec fn inserted(sorted: Seq<EmitCount>, e: EmitCount) -> Seq<EmitCount>
    decreases sorted.len(),
{
    if sorted.len() == 0 || sorted.last().count >= e.count {
        sorted.push(e)
    } else {
        inserted(sorted.drop_last(), e).push(sorted.last())
    }
}

/// The entries in order of falling counts; equal counts keep their order.
pub open spec fn by_count(counts: Seq<EmitCount>) -> Seq<EmitCount>
    decreases counts.len(),
{
    if counts.len() == 0 {
        counts
    } else {
        inserted(by_count(counts.drop_last()), counts.last())
    }
}

pub open spec fn falling(counts: Seq<EmitCount>) -> bool {
    forall|i: int, j: int|
        0 <= i < j < counts.len() ==> (#[trigger] counts[i]).count >= (#[trigger] counts[j]).count
}

proof fn lemma_inserted(sorted: Seq<EmitCount>, e: EmitCount)
    requires
        falling(sorted),
    ensures
        falling(inserted(sorted, e)),
        inserted(sorted, e).to_multiset() =~= sorted.to_multiset().insert(e),
        inserted(sorted, e).len() == sorted.len() + 1,
        forall|i: int|
            0 <= i <= sorted.len() ==> (#[trigger] inserted(sorted, e)[i] == e || exists|j: int|
                0 <= j < sorted.len() && inserted(sorted, e)[i] == #[trigger] sorted[j]),
    decreases sorted.len(),
{
    broadcast use vstd::seq_lib::group_to_multiset_ensures;

    if sorted.len() == 0 || sorted.last().count >= e.count {
        let r = sorted.push(e);
        assert forall|i: int| 0 <= i <= sorted.len() implies (#[trigger] r[i] == e || exists|j: int|
            0 <= j < sorted.len() && r[i] == #[trigger] sorted[j]) by {
            if i < sorted.len() {
                assert(r[i] == sorted[i]);
            }
        }
    } else {
        let init = sorted.drop_last();
        lemma_inserted(init, e);
        let mid = inserted(init, e);
        let r = mid.push(sorted.last());
        assert(sorted =~= init.push(sorted.last()));
        assert forall|i: int| 0 <= i < r.len() implies (#[trigger] r[i] == e || exists|j: int|
            0 <= j < sorted.len() && r[i] == #[trigger] sorted[j]) by {
            if i < mid.len() {
                assert(r[i] == mid[i]);
                if mid[i] != e {
                    let j = choose|j: int| 0 <= j < init.len() && mid[i] == #[trigger] init[j];
                    assert(sorted[j] == init[j]);
                }
            } else {
                assert(r[i] == sorted[sorted.len() - 1]);
            }
        }
        assert forall|i: int, j: int| 0 <= i < j < r.len() implies (#[trigger] r[i]).count >= (
        #[trigger] r[j]).count by {
            if j == mid.len() {
                assert(r[i] == mid[i]);
                if mid[i] != e {
                    let q = choose|q: int| 0 <= q < init.len() && mid[i] == #[trigger] init[q];
                    assert(sorted[q].count >= sorted[sorted.len() - 1].count);
                }
            } else {
                assert(r[i] == mid[i] && r[j] == mid[j]);
            }
        }
    }
}

/// Sorting keeps every entry and puts the largest counts first.
pub proof fn law_by_count_sorts(counts: Seq<EmitCount>)
    ensures
        falling(by_count(counts)),
        by_count(counts).to_multiset() =~= counts.to_multiset(),
        by_count(counts).len() == counts.len(),
    decreases counts.len(),
{
    broadcast use vstd::seq_lib::group_to_multiset_ensures;

    if counts.len() > 0 {
        let init = counts.drop_last();
        law_by_count_sorts(init);
        lemma_inserted(by_count(init), counts.last());
        assert(counts =~= init.push(counts.last()));
    }
}

/// Puts `e` into a list sorted by falling counts.
fn insert_sorted(sorted: &mut Vec<EmitCount>, e: EmitCount)
    ensures
        final(sorted)@ == inserted(old(sorted)@, e),
{
    let ghost before = sorted@;
    let mut at: usize = sorted.len();
    let ghost mut tail: Seq<EmitCount> = seq![];
    proof {
        assert(before.subrange(0, at as int) =~= before);
        assert(inserted(before, e) + tail =~= inserted(before, e));
    }
    while at > 0 && sorted[at - 1].count < e.count
        invariant
            at <= sorted@.len(),
            sorted@ == before,
            tail == before.subrange(at as int, before.len() as int),
            inserted(before, e) == inserted(before.subrange(0, at as int), e) + tail,
        decreases at,
    {
        proof {
            let head = before.subrange(0, at as int);
            assert(head.drop_last() =~= before.subrange(0, at - 1));
            assert(head.last() == before[at - 1]);
            tail = seq![before[at - 1]] + tail;
            assert(inserted(head, e) + before.subrange(at as int, before.len() as int)
                =~= inserted(before.subrange(0, at - 1), e) + tail);
        }
        at = at - 1;
    }
    proof {
        let head = before.subrange(0, at as int);
        assert(inserted(head, e) == head.push(e));
        assert(before.insert(at as int, e) =~= head.push(e) + tail);
    }
    sorted.insert(at, e);
}

impl ScrollProfile {
    pub fn new() -> (r: Self)
        ensures
            r@ == (Counters { start: None, frame_count: 0, counts: seq![] }),
    {
        ScrollProfile { start: None, frame_count: 0, counts: Vec::new() }
    }

    pub fn start(&mut self, now: u64)
        ensures
            final(self)@ == old(self)@.spec_start(now),
    {
        self.start = Some(now);
        self.frame_count = 0;
        self.counts = Vec::new();
    }

    pub fn tick_frame(&mut self)
        ensures
            final(self)@ == old(self)@.spec_tick_frame(),
    {
        if self.start.is_some() && self.frame_count < u32::MAX {
            self.frame_count = self.frame_count + 1;
        }
    }

    pub fn record(&mut self, hwnd: u64)
        ensures
            final(self)@ == old(self)@.spec_record(hwnd),
    {
        if self.start.is_none() {
            return;
        }
        let ghost counts = self.counts@;
        let mut k: usize = 0;
        while k < self.counts.len()
            invariant
                k <= self.counts.len(),
                self@ == old(self)@,
                self.counts@ == counts,
                self.start is Some,
                forall|i: int| 0 <= i < k ==> (#[trigger] counts[i]).hwnd != hwnd,
            decreases self.counts.len() - k,
        {
            let e: EmitCount = self.counts[k];
            if e.hwnd == hwnd {
                proof {
                    lemma_counted(counts, hwnd, k as int);
                }
                let count: u32 = if e.count < u32::MAX {
                    e.count + 1
                } else {
                    e.count
                };
                self.counts[k] = EmitCount { hwnd, count };
                return;
            }
            k = k + 1;
        }
        proof {
            lemma_counted(counts, hwnd, k as int);
        }
        self.counts.push(EmitCount { hwnd, count: 1 });
    }

    /// Ends the counting and hands out what was counted.
    pub fn finish(&mut self, now: u64) -> (r: Option<ScrollProfileSnapshot>)
        ensures
            final(self)@ == old(self)@.spec_finish(),
            match r {
                Some(s) => old(self)@.snapshot(now, s),
                None => old(self)@.start is None,
            },
    {
        let start: u64 = match self.start {
            Some(s) => s,
            None => {
                return None;
            },
        };
        self.start = None;
        let ghost counts = self.counts@;
        let mut sorted: Vec<EmitCount> = Vec::new();
        let mut i: usize = 0;
        while i < self.counts.len()
            invariant
                i <= self.counts.len(),
                self.counts@ == counts,
                self.start is None,
                self.frame_count == old(self).frame_count,
                sorted@ == by_count(counts.subrange(0, i as int)),
            decreases self.counts.len() - i,
        {
            proof {
                assert(counts.subrange(0, i + 1).drop_last() =~= counts.subrange(0, i as int));
                assert(counts.subrange(0, i + 1).last() == counts[i as int]);
            }
            insert_sorted(&mut sorted, self.counts[i]);
            i = i + 1;
        }
        proof {
            assert(counts.subrange(0, counts.len() as int) =~= counts);
        }
        self.counts = Vec::new();
        let duration: u64 = if now > start {
            now - start
        } else {
            0
        };
        Some(ScrollProfileSnapshot { duration, frame_count: self.frame_count, counts: sorted })
    }
}

impl Counters {
    pub open spec fn spec_start(self, now: u64) -> Self {
        Counters { start: Some(now), frame_count: 0, counts: seq![] }
    }

    pub open spec fn spec_tick_frame(self) -> Self {
        if self.start is Some {
            Counters { frame_count: one_more(self.frame_count), ..self }
        } else {
            self
        }
    }

    pub open spec fn spec_record(self, hwnd: u64) -> Self {
        if self.start is Some {
            Counters { counts: counted(self.counts, hwnd), ..self }
        } else {
            self
        }
    }

    pub open spec fn spec_finish(self) -> Self {
        if self.start is Some {
            Counters { start: None, counts: seq![], ..self }
        } else {
            self
        }
    }

    /// `s` is what finishing at `now` hands out.
    pub open spec fn snapshot(self, now: u64, s: ScrollProfileSnapshot) -> bool {
        &&& self.start matches Some(start) && s.duration == (if now > start {
            now - start
        } else {
            0
        })
        &&& s.frame_count == self.frame_count
        &&& s.counts@ == by_count(self.counts)
    }
}

/// What can happen while an animation is counted.
#[derive(Debug, Clone, Copy, PartialEq, Eq, Structural)]
pub enum ProfileStep {
    /// A frame was drawn.
    Frame,
    /// A window was moved.
    Moved { hwnd: u64 },
}

impl Counters {
    pub open spec fn stepped(self, step: ProfileStep) -> Self {
        match step {
            ProfileStep::Frame => self.spec_tick_frame(),
            ProfileStep::Moved { hwnd } => self.spec_record(hwnd),
        }
    }

    /// The counters after all of `steps`, the first one first.
    pub open spec fn after(self, steps: Seq<ProfileStep>) -> Self
        decreases steps.len(),
    {
        if steps.len() == 0 {
            self
        } else {
            self.after(steps.drop_last()).stepped(steps.last())
        }
    }
}

/// How many of `steps` are `step`.
pub open spec fn occurrences(steps: Seq<ProfileStep>, step: ProfileStep) -> nat
    decreases steps.len(),
{
    if steps.len() == 0 {
        0
    } else {
        occurrences(steps.drop_last(), step) + (if steps.last() == step {
            1nat
        } else {
            0
        })
    }
}

/// `n`, or the largest 32-bit number where that is smaller.
pub open spec fn capped(n: nat) -> u32 {
    if n < u32::MAX {
        n as u32
    } else {
        u32::MAX
    }
}

/// `counts` holds one entry for each window that was moved in `steps`, with the
/// number of its moves, and nothing else.
pub open spec fn tallies(counts: Seq<EmitCount>, steps: Seq<ProfileStep>) -> bool {
    &&& one_entry_each(counts)
    &&& forall|e: EmitCount| #[trigger]
        counts.contains(e) <==> occurrences(steps, ProfileStep::Moved { hwnd: e.hwnd }) > 0
            && e.count == capped(occurrences(steps, ProfileStep::Moved { hwnd: e.hwnd }))
}

proof fn lemma_tally_step(counts: Seq<EmitCount>, steps: Seq<ProfileStep>, hwnd: u64)
    requires
        tallies(counts, steps),
    ensures
        tallies(counted(counts, hwnd), steps.push(ProfileStep::Moved { hwnd })),
{
    let more = steps.push(ProfileStep::Moved { hwnd });
    assert(more.drop_last() =~= steps);
    assert(forall|w: u64|
        #![trigger occurrences(more, ProfileStep::Moved { hwnd: w })]
        occurrences(more, ProfileStep::Moved { hwnd: w }) == occurrences(
            steps,
            ProfileStep::Moved { hwnd: w },
        ) + (if w == hwnd {
            1nat
        } else {
            0
        }));
    let mask = Seq::new(counts.len(), |i: int| counts[i].hwnd == hwnd);
    crate::search::lemma_first_true(mask);
    let k = match crate::search::first_true(mask) {
        Some(i) => i,
        None => counts.len() as int,
    };
    assert forall|i: int| 0 <= i < k implies (#[trigger] counts[i]).hwnd != hwnd by {
        assert(!mask[i]);
    }
    lemma_counted(counts, hwnd, k);
    law_counting_keeps_one_entry_each(counts, hwnd);
    let now = counted(counts, hwnd);
    let n = occurrences(steps, ProfileStep::Moved { hwnd });
    if k == counts.len() {
        if n > 0 {
            let e = EmitCount { hwnd, count: capped(n) };
            assert(counts.contains(e));
            let i = choose|i: int| 0 <= i < counts.len() && counts[i] == e;
            assert(counts[i].hwnd != hwnd);
        }
    } else {
        assert(counts.contains(counts[k]));
    }
    assert forall|e: EmitCount| #[trigger] now.contains(e) <==> occurrences(
        more,
        ProfileStep::Moved { hwnd: e.hwnd },
    ) > 0 && e.count == capped(
        occurrences(more, ProfileStep::Moved { hwnd: e.hwnd }),
    ) by {
        if now.contains(e) {
            let i = choose|i: int| 0 <= i < now.len() && now[i] == e;
            if i != k {
                assert(counts[i] == e);
                assert(counts.contains(e));
                if e.hwnd == hwnd {
                    assert(k < counts.len());
                    assert(counts[i].hwnd == counts[k].hwnd);
                }
            }
        }
        if occurrences(more, ProfileStep::Moved { hwnd: e.hwnd }) > 0 && e.count == capped(
            occurrences(more, ProfileStep::Moved { hwnd: e.hwnd }),
        ) {
            if e.hwnd == hwnd {
                assert(now[k] == e);
            } else {
                assert(counts.contains(e));
                let i = choose|i: int| 0 <= i < counts.len() && counts[i] == e;
                assert(now[i] == e);
            }
        }
    }
}

proof fn lemma_after(before: Counters, start: u64, steps: Seq<ProfileStep>)
    ensures
        ({
            let c = before.spec_start(start).after(steps);
            &&& c.start == Some(start)
            &&& c.frame_count == capped(occurrences(steps, ProfileStep::Frame))
            &&& tallies(c.counts, steps)
        }),
    decreases steps.len(),
{
    let c = before.spec_start(start).after(steps);
    if steps.len() == 0 {
        assert(forall|w: u64| #[trigger] occurrences(steps, ProfileStep::Moved { hwnd: w }) == 0);
    } else {
        let init = steps.drop_last();
        let earlier = before.spec_start(start).after(init);
        lemma_after(before, start, init);
        assert(steps =~= init.push(steps.last()));
        match steps.last() {
            ProfileStep::Frame => {
                assert(forall|w: u64|
                    #![trigger occurrences(steps, ProfileStep::Moved { hwnd: w })]
                    occurrences(steps, ProfileStep::Moved { hwnd: w }) == occurrences(
                        init,
                        ProfileStep::Moved { hwnd: w },
                    ));
            },
            ProfileStep::Moved { hwnd } => {
                lemma_tally_step(earlier.counts, init, hwnd);
            },
        }
    }
}

/// What an animation is reported as once it is over, whatever was counted
/// before it: its length, the number of its frames, and each window that was
/// moved in it, once, with the number of its moves and those with the most moves
/// first. Numbers stop at the end of 32 bits. After that nothing is left to
/// report.
pub proof fn law_profile_reports_what_happened(
    before: Counters,
    start: u64,
    steps: Seq<ProfileStep>,
    now: u64,
    report: ScrollProfileSnapshot,
)
    requires
        before.spec_start(start).after(steps).snapshot(now, report),
    ensures
        report.duration == (if now > start {
            now - start
        } else {
            0
        }),
        report.frame_count == capped(occurrences(steps, ProfileStep::Frame)),
        tallies(report.counts@, steps),
        falling(report.counts@),
        before.spec_start(start).after(steps).spec_finish().start is None,
{
    broadcast use vstd::seq_lib::group_to_multiset_ensures;

    let c = before.spec_start(start).after(steps);
    let sorted = report.counts@;
    lemma_after(before, start, steps);
    law_by_count_sorts(c.counts);
    assert(c.counts.no_duplicates());
    c.counts.lemma_multiset_has_no_duplicates();
    sorted.lemma_multiset_has_no_duplicates_conv();
    assert forall|e: EmitCount| #[trigger] sorted.contains(e) <==> c.counts.contains(e) by {
        assert(sorted.to_multiset().count(e) == c.counts.to_multiset().count(e));
    }
    assert forall|i: int, j: int| 0 <= i < j < sorted.len() implies (#[trigger] sorted[i]).hwnd != (
    #[trigger] sorted[j]).hwnd by {
        assert(sorted.contains(sorted[i]) && sorted.contains(sorted[j]));
        let p = choose|p: int| 0 <= p < c.counts.len() && c.counts[p] == sorted[i];
        let q = choose|q: int| 0 <= q < c.counts.len() && c.counts[q] == sorted[j];
        if sorted[i].hwnd == sorted[j].hwnd {
            assert(p == q);
        }
    }
}

} // verus!
