//! Who is told about state changes.
use vstd::prelude::*;

use crate::text::same;

verus! {

/// The subscribers, by number, and what they were told last.
#[derive(Debug)]
pub struct Registry {
    pub subscribers: Vec<u64>,
    /// The number of the next subscriber.
    pub next: u64,
    /// The last payload; the same one is not sent twice in a row.
    pub last_payload: Option<String>,
}

/// The subscribers left when those in `gone` leave.
pub open spec fn remaining(subscribers: Seq<u64>, gone: Seq<u64>) -> Seq<u64>
    decreases subscribers.len(),
{
    if subscribers.len() == 0 {
        seq![]
    } else {
        let before = remaining(subscribers.drop_last(), gone);
        if gone.contains(subscribers.last()) {
            before
        } else {
            before.push(subscribers.last())
        }
    }
}

pub open spec fn payload_of(last: Option<String>) -> Option<Seq<char>> {
    match last {
        Some(p) => Some(p@),
        None => None,
    }
}

impl Registry {
    /// Every subscriber has a number of its own, below the next one to give out
    /// until those are used up.
    pub open spec fn wf(self) -> bool {
        &&& self.subscribers@.no_duplicates()
        &&& self.next < u64::MAX ==> forall|i: int|
            0 <= i < self.subscribers@.len() ==> #[trigger] self.subscribers@[i] < self.next
    }

    pub fn new() -> (r: Self)
        ensures
            r.subscribers@ == Seq::<u64>::empty(),
            r.next == 0,
            r.last_payload is None,
            r.wf(),
    {
        Registry { subscribers: Vec::new(), next: 0, last_payload: None }
    }
}

/// `id` is the smallest number that no subscriber has.
pub open spec fn least_free(subscribers: Seq<u64>, id: u64) -> bool {
    !subscribers.contains(id) && forall|k: u64| k < id ==> #[trigger] subscribers.contains(k)
}

/// Where the numbers below `n` are all taken, there are at least `n` subscribers.
proof fn lemma_taken_numbers(subscribers: Seq<u64>, n: int)
    requires
        0 <= n,
        forall|k: u64| k < n ==> #[trigger] subscribers.contains(k),
        n <= u64::MAX + 1,
    ensures
        subscribers.len() >= n,
    decreases n,
{
    if n > 0 {
        let top = (n - 1) as u64;
        assert(subscribers.contains(top));
        let at = choose|i: int| 0 <= i < subscribers.len() && subscribers[i] == top;
        let rest = subscribers.remove(at);
        assert forall|k: u64| k < n - 1 implies #[trigger] rest.contains(k) by {
            assert(subscribers.contains(k));
            let i = choose|i: int| 0 <= i < subscribers.len() && subscribers[i] == k;
            if i < at {
                assert(rest[i] == k);
            } else {
                assert(rest[i - 1] == k);
            }
        }
        lemma_taken_numbers(rest, n - 1);
    }
}

fn find_free(subscribers: &Vec<u64>) -> (r: u64)
    ensures
        least_free(subscribers@, r),
{
    let mut id: u64 = 0;
    while in_ids(subscribers, id)
        invariant
            id <= subscribers@.len(),
            forall|k: u64| k < id ==> #[trigger] subscribers@.contains(k),
        decreases subscribers@.len() - id,
    {
        proof {
            assert(subscribers.len() <= usize::MAX);
            assert forall|k: u64| k < id + 1 implies #[trigger] subscribers@.contains(k) by {
                assert(k == id || k < id);
            }
            lemma_taken_numbers(subscribers@, id + 1);
        }
        id = id + 1;
    }
    id
}

/// Adds a subscriber and returns its number, which no other has: the next one,
/// or the smallest that is free once those are used up. It is sent nothing that
/// was published before.
pub fn subscribe(registry: &mut Registry) -> (r: u64)
    requires
        old(registry).wf(),
    ensures
        old(registry).next < u64::MAX ==> r == old(registry).next,
        old(registry).next == u64::MAX ==> least_free(old(registry).subscribers@, r),
        !old(registry).subscribers@.contains(r),
        final(registry).subscribers@ == old(registry).subscribers@.push(r),
        final(registry).subscribers@.len() == old(registry).subscribers@.len() + 1,
        final(registry).next == (if old(registry).next < u64::MAX {
            (old(registry).next + 1) as u64
        } else {
            u64::MAX
        }),
        final(registry).last_payload == old(registry).last_payload,
        final(registry).wf(),
{
    let id: u64 = if registry.next < u64::MAX {
        let id: u64 = registry.next;
        registry.next = id + 1;
        id
    } else {
        find_free(&registry.subscribers)
    };
    registry.subscribers.push(id);
    id
}

/// The subscribers to send `payload` to, in the order they came; `None` where
/// it is what was sent last.
pub fn publish(registry: &mut Registry, payload: String) -> (r: Option<Vec<u64>>)
    requires
        old(registry).wf(),
    ensures
        final(registry).subscribers@ == old(registry).subscribers@,
        final(registry).next == old(registry).next,
        payload_of(final(registry).last_payload) == Some(payload@),
        match r {
            Some(ids) => ids@ == old(registry).subscribers@ && payload_of(
                old(registry).last_payload,
            ) != Some(payload@),
            None => payload_of(old(registry).last_payload) == Some(payload@),
        },
        final(registry).wf(),
{
    let repeated: bool = match &registry.last_payload {
        Some(last) => same(last.as_str(), payload.as_str()),
        None => false,
    };
    if repeated {
        return None;
    }
    registry.last_payload = Some(payload);
    let mut ids: Vec<u64> = Vec::new();
    let mut i: usize = 0;
    while i < registry.subscribers.len()
        invariant
            i <= registry.subscribers@.len(),
            ids@ == registry.subscribers@.subrange(0, i as int),
        decreases registry.subscribers@.len() - i,
    {
        ids.push(registry.subscribers[i]);
        proof {
            assert(registry.subscribers@.subrange(0, i + 1) =~= registry.subscribers@.subrange(
                0,
                i as int,
            ).push(registry.subscribers@[i as int]));
        }
        i = i + 1;
    }
    proof {
        assert(registry.subscribers@.subrange(0, registry.subscribers@.len() as int)
            =~= registry.subscribers@);
    }
    Some(ids)
}

fn in_ids(list: &Vec<u64>, id: u64) -> (r: bool)
    ensures
        r == list@.contains(id),
{
    let mut i: usize = 0;
    while i < list.len()
        invariant
            i <= list.len(),
            forall|j: int| 0 <= j < i ==> list@[j] != id,
        decreases list.len() - i,
    {
        if list[i] == id {
            return true;
        }
        i = i + 1;
    }
    false
}

proof fn lemma_remaining(subscribers: Seq<u64>, gone: Seq<u64>)
    requires
        subscribers.no_duplicates(),
    ensures
        remaining(subscribers, gone).no_duplicates(),
        remaining(subscribers, gone).len() <= subscribers.len(),
        forall|x: u64| #[trigger]
            remaining(subscribers, gone).contains(x) <==> subscribers.contains(x)
                && !gone.contains(x),
    decreases subscribers.len(),
{
    if subscribers.len() > 0 {
        let init = subscribers.drop_last();
        let last = subscribers.last();
        lemma_remaining(init, gone);
        let before = remaining(init, gone);
        let r = remaining(subscribers, gone);
        assert forall|x: u64| #[trigger] r.contains(x) <==> subscribers.contains(x)
            && !gone.contains(x) by {
            if r.contains(x) {
                let k = choose|k: int| 0 <= k < r.len() && r[k] == x;
                if k < before.len() {
                    assert(before[k] == x);
                    assert(before.contains(x));
                    let q = choose|q: int| 0 <= q < init.len() && init[q] == x;
                    assert(subscribers[q] == x);
                } else {
                    assert(subscribers[subscribers.len() - 1] == x);
                }
            }
            if subscribers.contains(x) && !gone.contains(x) {
                let q = choose|q: int| 0 <= q < subscribers.len() && subscribers[q] == x;
                if q < init.len() {
                    assert(init[q] == x);
                    assert(before.contains(x));
                    let k = choose|k: int| 0 <= k < before.len() && before[k] == x;
                    assert(r[k] == x);
                } else {
                    assert(r[r.len() - 1] == x);
                }
            }
        }
        assert(r.no_duplicates()) by {
            if !gone.contains(last) {
                assert(!before.contains(last)) by {
                    if before.contains(last) {
                        assert(init.contains(last));
                        let q = choose|q: int| 0 <= q < init.len() && init[q] == last;
                        assert(subscribers[q] == subscribers[subscribers.len() - 1]);
                    }
                }
            }
        }
    } else {
        assert forall|x: u64| !#[trigger] remaining(subscribers, gone).contains(x) by {}
    }
}

/// Lets go of the subscribers that could not be reached.
pub fn drop_unreachable(registry: &mut Registry, gone: &Vec<u64>)
    requires
        old(registry).wf(),
    ensures
        final(registry).subscribers@ == remaining(old(registry).subscribers@, gone@),
        final(registry).next == old(registry).next,
        final(registry).last_payload == old(registry).last_payload,
        final(registry).wf(),
{
    let ghost before = registry.subscribers@;
    let mut left: Vec<u64> = Vec::new();
    let mut i: usize = 0;
    while i < registry.subscribers.len()
        invariant
            registry.subscribers@ == before,
            i <= before.len(),
            left@ == remaining(before.subrange(0, i as int), gone@),
        decreases before.len() - i,
    {
        let id: u64 = registry.subscribers[i];
        proof {
            assert(before.subrange(0, i + 1).drop_last() =~= before.subrange(0, i as int));
            assert(before.subrange(0, i + 1).last() == id);
        }
        if !in_ids(gone, id) {
            left.push(id);
        }
        i = i + 1;
    }
    proof {
        assert(before.subrange(0, before.len() as int) =~= before);
        lemma_remaining(before, gone@);
        if registry.next < u64::MAX {
            assert forall|k: int| 0 <= k < left@.len() implies #[trigger] left@[k]
                < registry.next by {
                assert(left@.contains(left@[k]));
                let q = choose|q: int| 0 <= q < before.len() && before[q] == left@[k];
                assert(before[q] < registry.next);
            }
        }
    }
    registry.subscribers = left;
}

pub fn subscriber_count(registry: &Registry) -> (r: usize)
    ensures
        r == registry.subscribers@.len(),
{
    registry.subscribers.len()
}

/// Whoever can be reached stays subscribed, and nobody else.
pub proof fn law_only_unreachable_subscribers_leave(registry: Registry, gone: Seq<u64>, id: u64)
    requires
        registry.wf(),
    ensures
        remaining(registry.subscribers@, gone).contains(id) <==> registry.subscribers@.contains(id)
            && !gone.contains(id),
{
    lemma_remaining(registry.subscribers@, gone);
}

/// Subscribers that stay keep their order.
pub proof fn law_subscribers_keep_their_order(
    subscribers: Seq<u64>,
    gone: Seq<u64>,
    i: int,
    j: int,
) -> (r: (int, int))
    requires
        0 <= i < j < subscribers.len(),
        !gone.contains(subscribers[i]),
        !gone.contains(subscribers[j]),
    ensures
        0 <= r.0 < r.1 < remaining(subscribers, gone).len(),
        remaining(subscribers, gone)[r.0] == subscribers[i],
        remaining(subscribers, gone)[r.1] == subscribers[j],
    decreases subscribers.len(),
{
    let init = subscribers.drop_last();
    if j < init.len() {
        law_subscribers_keep_their_order(init, gone, i, j)
    } else {
        let a = lemma_stays(init, gone, i);
        (a, remaining(init, gone).len() as int)
    }
}

proof fn lemma_stays(subscribers: Seq<u64>, gone: Seq<u64>, i: int) -> (a: int)
    requires
        0 <= i < subscribers.len(),
        !gone.contains(subscribers[i]),
    ensures
        0 <= a < remaining(subscribers, gone).len(),
        remaining(subscribers, gone)[a] == subscribers[i],
    decreases subscribers.len(),
{
    let init = subscribers.drop_last();
    if i < init.len() {
        lemma_stays(init, gone, i)
    } else {
        remaining(init, gone).len() as int
    }
}

} // verus!
