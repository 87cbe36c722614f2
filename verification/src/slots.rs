//! The limit on simultaneous peers.
//!
//! A slot is reserved by one atomic check-and-increment before the WebSocket
//! upgrade, so concurrent arrivals cannot all pass the check. The slot is a
//! guard: dropping it, on whatever path, gives it back.
//!
//! Which count an atomic step finds depends on the other threads. What is on
//! record is the steps themselves: which were made, under which limit, and
//! what each one found.
use std::sync::atomic::AtomicUsize;
use std::sync::Arc;
use vstd::prelude::*;

verus! {

/// The peer count after one more arrival, or `None` where the limit is
/// reached.
pub open spec fn count_after_arrival(count: usize, max_peers: usize) -> Option<usize> {
    if count < max_peers {
        Some((count + 1) as usize)
    } else {
        None
    }
}

/// The peer count after one more arrival, or `None` where the limit is
/// reached.
pub fn next_peer_count(count: usize, max_peers: usize) -> (next: Option<usize>)
    ensures
        next == count_after_arrival(count, max_peers),
        count < max_peers ==> next is Some && next->0 == count + 1,
        count >= max_peers ==> next is None,
{
    if count < max_peers {
        Some(count + 1)
    } else {
        None
    }
}

/// One atomic step on the peer count.
pub enum CountStep {
    /// A slot was sought under this limit, and this count was found. Where
    /// [`count_after_arrival`] gives a new count, it replaced the one found.
    Sought { found: usize, limit: usize },
    /// One was taken off the count.
    GivenBack,
}

/// The atomic steps made on a peer count through this handle, in order. A clone
/// of a handle begins with the steps of the handle that it was cloned from.
pub uninterp spec fn count_steps(count: Arc<AtomicUsize>) -> Seq<CountStep>;

/// Calls `AtomicUsize::fetch_update` with [`next_peer_count`] under this limit.
/// It returns the count that it found: `Ok` where the function gave a new
/// count, which then replaced it in the same atomic step, `Err` where the
/// function gave none. The step goes on the handle's record. Which count it
/// finds depends on the other threads.
#[verifier::external_body]
fn take_slot(count: &mut Arc<AtomicUsize>, max_peers: usize) -> (found: Result<usize, usize>)
    ensures
        found matches Ok(n) ==> count_after_arrival(n, max_peers) is Some && count_steps(
            *final(count),
        ) == count_steps(*old(count)).push(CountStep::Sought { found: n, limit: max_peers }),
        found matches Err(n) ==> count_after_arrival(n, max_peers) is None && count_steps(
            *final(count),
        ) == count_steps(*old(count)).push(CountStep::Sought { found: n, limit: max_peers }),
{
    count.fetch_update(
        std::sync::atomic::Ordering::SeqCst,
        std::sync::atomic::Ordering::SeqCst,
        |n| next_peer_count(n, max_peers),
    )
}

/// Calls `AtomicUsize::fetch_sub` to take one off the count. The step goes on
/// the handle's record. Nothing is claimed of what the count was.
#[verifier::external_body]
fn give_back_slot(count: &mut Arc<AtomicUsize>)
    ensures
        count_steps(*final(count)) == count_steps(*old(count)).push(CountStep::GivenBack),
    opens_invariants none
    no_unwind
{
    count.fetch_sub(1, std::sync::atomic::Ordering::Relaxed);
}

/// A reserved peer slot. Dropping it takes one off the peer count, exactly
/// once, however the peer's task ends.
pub struct PeerSlot {
    count: Arc<AtomicUsize>,
}

/// A search for a slot that found none free.
pub struct Refusal {
    /// The handle that the slot was sought with, for its record.
    #[allow(dead_code)]
    count: Arc<AtomicUsize>,
    found: usize,
}

impl Drop for PeerSlot {
    fn drop(&mut self)
        ensures
            final(self).steps() == old(self).steps().push(CountStep::GivenBack),
        opens_invariants none
        no_unwind
    {
        give_back_slot(&mut self.count);
    }
}

impl Refusal {
    /// The steps on the record of the handle that the slot was sought with.
    pub closed spec fn steps(&self) -> Seq<CountStep> {
        count_steps(self.count)
    }

    /// The count that left no room.
    pub closed spec fn count_found(&self) -> usize {
        self.found
    }

    /// The count that left no room.
    pub fn found(&self) -> (found: usize)
        ensures
            found == self.count_found(),
    {
        self.found
    }
}

impl PeerSlot {
    /// The steps on the record of the slot's handle.
    pub closed spec fn steps(&self) -> Seq<CountStep> {
        count_steps(self.count)
    }

    /// Reserves a slot by one atomic step under this limit. It is refused
    /// exactly where that step found the limit reached.
    pub fn reserve(count: Arc<AtomicUsize>, max_peers: usize) -> (slot: Result<PeerSlot, Refusal>)
        ensures
            slot matches Ok(s) ==> granted(count_steps(count), max_peers, s.steps()),
            slot matches Err(r) ==> refused(
                count_steps(count),
                max_peers,
                r.steps(),
                r.count_found(),
            ),
            slot matches Ok(s) ==> exists|found: usize|
                found < max_peers && s.steps() == #[trigger] count_steps(count).push(
                    CountStep::Sought { found, limit: max_peers },
                ),
            slot matches Err(r) ==> r.count_found() >= max_peers && r.steps() == count_steps(
                count,
            ).push(CountStep::Sought { found: r.count_found(), limit: max_peers }),
    {
        let mut handle = count;
        match take_slot(&mut handle, max_peers) {
            Ok(_) => {
                let slot = PeerSlot { count: handle };
                assert(slot.steps().drop_last() == count_steps(count));
                Ok(slot)
            },
            Err(n) => Err(Refusal { count: handle, found: n }),
        }
    }
}

/// One more step, which sought a slot under this limit and found room.
pub open spec fn granted(before: Seq<CountStep>, limit: usize, after: Seq<CountStep>) -> bool {
    &&& after.len() > 0
    &&& after.drop_last() == before
    &&& after.last() matches CountStep::Sought { found, limit: l } && l == limit && found < limit
}

/// One more step, which sought a slot under this limit and found this count,
/// which left no room.
pub open spec fn refused(
    before: Seq<CountStep>,
    limit: usize,
    after: Seq<CountStep>,
    found: usize,
) -> bool {
    after == before.push(CountStep::Sought { found, limit }) && found >= limit
}

/// Whether a step put one on the count.
pub open spec fn takes(step: CountStep) -> bool {
    step matches CountStep::Sought { found, limit } && count_after_arrival(found, limit) is Some
}

/// The peer count after the steps of all peers, in the order in which they took
/// effect. Each step goes with the peer that made it.
pub open spec fn count_held(history: Seq<(int, CountStep)>) -> int
    decreases history.len(),
{
    if history.len() == 0 {
        0
    } else {
        let before = count_held(history.drop_last());
        match history.last().1 {
            CountStep::GivenBack => before - 1,
            step => if takes(step) {
                before + 1
            } else {
                before
            },
        }
    }
}

/// The peers that hold a slot after these steps.
pub open spec fn holders(history: Seq<(int, CountStep)>) -> Set<int>
    decreases history.len(),
{
    if history.len() == 0 {
        Set::empty()
    } else {
        let before = holders(history.drop_last());
        let (peer, step) = history.last();
        match step {
            CountStep::GivenBack => before.remove(peer),
            step => if takes(step) {
                before.insert(peer)
            } else {
                before
            },
        }
    }
}

/// Steps that can have happened, in this order, to a count that began at zero:
/// each search is made under the limit by a peer without a slot and finds the
/// count of that moment, and only a peer that holds a slot gives it back.
pub open spec fn is_history(history: Seq<(int, CountStep)>, limit: usize) -> bool
    decreases history.len(),
{
    history.len() == 0 || {
        let before = history.drop_last();
        let (peer, step) = history.last();
        &&& is_history(before, limit)
        &&& match step {
            CountStep::Sought { found, limit: l } => found == count_held(before) && l == limit
                && !holders(before).contains(peer),
            CountStep::GivenBack => holders(before).contains(peer),
        }
    }
}

/// However arrivals and departures interleave, the count is the number of
/// peers that hold a slot, and never exceeds the limit.
pub proof fn peer_limit_holds(history: Seq<(int, CountStep)>, limit: usize)
    requires
        is_history(history, limit),
    ensures
        holders(history).finite(),
        count_held(history) == holders(history).len(),
        count_held(history) <= limit,
    decreases history.len(),
{
    if history.len() > 0 {
        peer_limit_holds(history.drop_last(), limit);
    }
}

/// A search for a slot is refused exactly where every slot is taken. One that
/// is granted puts one on the count; one that is refused leaves it as it is.
pub proof fn refused_only_when_full(
    history: Seq<(int, CountStep)>,
    peer: int,
    found: usize,
    limit: usize,
)
    requires
        is_history(history.push((peer, CountStep::Sought { found, limit })), limit),
    ensures
        ({
            let after = history.push((peer, CountStep::Sought { found, limit }));
            &&& found >= limit <==> count_held(history) == limit
            &&& found < limit ==> count_held(after) == count_held(history) + 1 && holders(
                after,
            ).contains(peer)
            &&& found >= limit ==> count_held(after) == count_held(history) && !holders(
                after,
            ).contains(peer)
        }),
{
    let after = history.push((peer, CountStep::Sought { found, limit }));
    assert(after.drop_last() == history);
    peer_limit_holds(history, limit);
}

/// Of any number of arrivals in a row, exactly as many get a slot as there is
/// room for: all of them, or those that fill the limit.
pub proof fn arrivals_fill_the_room(
    history: Seq<(int, CountStep)>,
    arrivals: Seq<(int, CountStep)>,
    limit: usize,
)
    requires
        is_history(history + arrivals, limit),
        forall|i: int| 0 <= i < arrivals.len() ==> (#[trigger] arrivals[i]).1 is Sought,
    ensures
        count_held(history) <= limit,
        count_held(history + arrivals) - count_held(history) == (if arrivals.len() <= limit
            - count_held(history) {
            arrivals.len() as int
        } else {
            limit - count_held(history)
        }),
    decreases arrivals.len(),
{
    if arrivals.len() == 0 {
        assert(history + arrivals == history);
        peer_limit_holds(history, limit);
    } else {
        assert((history + arrivals).drop_last() == history + arrivals.drop_last());
        assert((history + arrivals).last() == arrivals.last());
        assert(arrivals[arrivals.len() - 1].1 is Sought);
        arrivals_fill_the_room(history, arrivals.drop_last(), limit);
        peer_limit_holds(history + arrivals.drop_last(), limit);
    }
}

/// A peer that drops its slot takes exactly one off the count. It holds no slot
/// after that, and cannot give one back again.
pub proof fn dropped_slot_is_free_again(history: Seq<(int, CountStep)>, peer: int, limit: usize)
    requires
        is_history(history, limit),
        holders(history).contains(peer),
    ensures
        ({
            let after = history.push((peer, CountStep::GivenBack));
            &&& is_history(after, limit)
            &&& count_held(after) == count_held(history) - 1
            &&& count_held(after) < limit
            &&& !holders(after).contains(peer)
            &&& !is_history(after.push((peer, CountStep::GivenBack)), limit)
        }),
{
    let after = history.push((peer, CountStep::GivenBack));
    assert(after.drop_last() == history);
    assert(after.push((peer, CountStep::GivenBack)).drop_last() == after);
    peer_limit_holds(history, limit);
}

/// Any number of peers that drop their slots, in whatever order, take exactly
/// that many off the count, and none of them holds a slot after that.
pub proof fn dropped_slots_are_free_again(
    history: Seq<(int, CountStep)>,
    drops: Seq<(int, CountStep)>,
    limit: usize,
)
    requires
        is_history(history, limit),
        forall|i: int|
            0 <= i < drops.len() ==> (#[trigger] drops[i]).1 is GivenBack && holders(
                history,
            ).contains(drops[i].0),
        forall|i: int, j: int|
            0 <= i < j < drops.len() ==> (#[trigger] drops[i]).0 != (#[trigger] drops[j]).0,
    ensures
        is_history(history + drops, limit),
        count_held(history + drops) == count_held(history) - drops.len(),
        forall|peer: int| #[trigger]
            holders(history + drops).contains(peer) <==> holders(history).contains(peer)
                && forall|i: int| 0 <= i < drops.len() ==> (#[trigger] drops[i]).0 != peer,
    decreases drops.len(),
{
    if drops.len() == 0 {
        assert(history + drops =~= history);
    } else {
        let fewer = drops.drop_last();
        let last = drops.last();
        assert forall|i: int| 0 <= i < fewer.len() implies (#[trigger] fewer[i]).1 is GivenBack
            && holders(history).contains(fewer[i].0) by {
            assert(fewer[i] == drops[i]);
        }
        dropped_slots_are_free_again(history, fewer, limit);
        let all = history + drops;
        let but_one = history + fewer;
        assert(all.drop_last() =~= but_one);
        assert(all.last() == last);
        assert(last == drops[drops.len() - 1]);
        assert(last.1 is GivenBack && holders(history).contains(last.0));
        assert forall|i: int| 0 <= i < fewer.len() implies (#[trigger] fewer[i]).0 != last.0 by {
            assert(fewer[i] == drops[i]);
        }
        assert(holders(but_one).contains(last.0));
        assert forall|peer: int| #[trigger] holders(all).contains(peer) implies holders(
            history,
        ).contains(peer) && forall|i: int|
            0 <= i < drops.len() ==> (#[trigger] drops[i]).0 != peer by {
            assert(holders(but_one).contains(peer) && peer != last.0);
            assert forall|i: int| 0 <= i < drops.len() implies (#[trigger] drops[i]).0 != peer by {
                if i < fewer.len() {
                    assert(fewer[i] == drops[i]);
                }
            }
        }
        assert forall|peer: int|
            holders(history).contains(peer) && (forall|i: int|
                0 <= i < drops.len() ==> (#[trigger] drops[i]).0 != peer) implies #[trigger] holders(
            all,
        ).contains(peer) by {
            assert forall|i: int| 0 <= i < fewer.len() implies (#[trigger] fewer[i]).0 != peer by {
                assert(fewer[i] == drops[i]);
            }
            assert(holders(but_one).contains(peer));
        }
    }
}

/// The count rises by one with each search that finds room, falls by one with
/// each slot given back, and is the same after a search that finds none. The peer
/// that made the step holds a slot after it, holds none after it, or is as
/// before; no other peer is concerned.
pub proof fn each_step_moves_the_count_by_one(
    history: Seq<(int, CountStep)>,
    peer: int,
    step: CountStep,
)
    ensures
        count_held(Seq::empty()) == 0,
        holders(Seq::empty()) == Set::<int>::empty(),
        ({
            let after = history.push((peer, step));
            let (count, held) = (count_held(history), holders(history));
            match step {
                CountStep::GivenBack => count_held(after) == count - 1 && holders(after)
                    == held.remove(peer),
                CountStep::Sought { found, limit } => if found < limit {
                    count_held(after) == count + 1 && holders(after) == held.insert(peer)
                } else {
                    count_held(after) == count && holders(after) == held
                },
            }
        }),
{
    assert(history.push((peer, step)).drop_last() =~= history);
}

/// A search is granted where it finds a count below the limit that it is made
/// under, and refused where it does not; either way it is one step more.
pub proof fn searches_are_granted_below_the_limit(
    before: Seq<CountStep>,
    found: usize,
    made_under: usize,
    limit: usize,
)
    ensures
        granted(
            before,
            limit,
            before.push(CountStep::Sought { found, limit: made_under }),
        ) <==> made_under == limit && found < limit,
        refused(
            before,
            limit,
            before.push(CountStep::Sought { found, limit: made_under }),
            found,
        ) <==> made_under == limit && found >= limit,
{
    let step = CountStep::Sought { found, limit: made_under };
    assert(before.push(step).drop_last() =~= before);
    assert(before.push(step).last() == step);
    assert(before.push(CountStep::Sought { found, limit }).last() == (CountStep::Sought {
        found,
        limit,
    }));
}

} // verus!
