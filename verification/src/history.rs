//! Sequences of calls on a registry, and what holds of the number of live
//! connections along them.

use vstd::prelude::*;
use crate::clock::Moment;
use crate::metrics::Registry;
use crate::metrics::Client;
use crate::metrics::first_free;
use crate::metrics::live_count;
use crate::metrics::lemma_first_free;
use crate::metrics::lemma_first_free_is_lowest;
use crate::metrics::lemma_live_count_update;
use crate::metrics::lemma_live_count_bound;
use crate::stats::bucket_of;

verus! {

/// One call on a registry.
pub enum Call {
    /// Admission is asked for, under the limit `max_clients`.
    Connect { max_clients: usize, now: Moment },
    /// The token for slot `uid` is given back.
    Disconnect { uid: usize, now: Moment },
}

impl Call {
    /// Whether the call succeeds in the state `registry`.
    pub open spec fn succeeds(self, registry: Registry) -> bool {
        match self {
            Call::Connect { max_clients, now } => registry.has_room(max_clients),
            Call::Disconnect { uid, now } => registry.holds(uid),
        }
    }

    /// The state that the call leaves behind.
    pub open spec fn after(self, registry: Registry) -> Registry {
        match self {
            Call::Connect { max_clients, now } => registry.connected(max_clients, now),
            Call::Disconnect { uid, now } => registry.disconnected(uid, now),
        }
    }
}

/// The state after the calls of `calls`, made one after the other from `registry`.
pub open spec fn run(registry: Registry, calls: Seq<Call>) -> Registry
    decreases calls.len(),
{
    if calls.len() == 0 {
        registry
    } else {
        calls.last().after(run(registry, calls.drop_last()))
    }
}

/// How many of the calls of `calls` are connects that succeed.
pub open spec fn connects(registry: Registry, calls: Seq<Call>) -> nat
    decreases calls.len(),
{
    if calls.len() == 0 {
        0
    } else {
        let before = run(registry, calls.drop_last());
        connects(registry, calls.drop_last()) + if calls.last() is Connect && calls.last().succeeds(
            before,
        ) {
            1nat
        } else {
            0nat
        }
    }
}

/// How many of the calls of `calls` are disconnects that succeed.
pub open spec fn disconnects(registry: Registry, calls: Seq<Call>) -> nat
    decreases calls.len(),
{
    if calls.len() == 0 {
        0
    } else {
        let before = run(registry, calls.drop_last());
        disconnects(registry, calls.drop_last()) + if calls.last() is Disconnect
            && calls.last().succeeds(before) {
            1nat
        } else {
            0nat
        }
    }
}

/// Whether every connect of `calls` asks under a limit of at most `limit`.
pub open spec fn limited(calls: Seq<Call>, limit: usize) -> bool {
    forall|i: int|
        0 <= i < calls.len() ==> (#[trigger] calls[i] matches Call::Connect { max_clients, .. }
            ==> max_clients <= limit)
}

/// A connect that succeeds adds one live connection, one that is refused adds none.
pub proof fn law_connect_counts(registry: Registry, max_clients: usize, now: Moment)
    ensures
        registry.has_room(max_clients) ==> registry.connected(max_clients, now).live()
            == registry.live() + 1,
        !registry.has_room(max_clients) ==> registry.connected(max_clients, now).live()
            == registry.live(),
        registry.has_room(max_clients) ==> registry.connected(max_clients, now).live()
            <= max_clients,
{
    if registry.has_room(max_clients) {
        let at = first_free(registry.slots) as int;
        lemma_first_free_is_lowest(registry.slots);
        if at < registry.slots.len() {
            lemma_live_count_update(registry.slots, at, Some(Client::fresh(now)));
        } else {
            assert(registry.slots.push(Some(Client::fresh(now))).drop_last() =~= registry.slots);
        }
    }
}

/// A disconnect that succeeds takes one live connection away; one that is
/// refused changes nothing at all.
pub proof fn law_disconnect_counts(registry: Registry, uid: usize, now: Moment)
    ensures
        registry.holds(uid) ==> registry.disconnected(uid, now).live() + 1 == registry.live(),
        !registry.holds(uid) ==> registry.disconnected(uid, now) == registry,
{
    if registry.holds(uid) {
        lemma_live_count_update(registry.slots, uid as int, None);
    }
}

/// After any sequence of connects and disconnects, the number of live
/// connections is the number from before, plus the connects that succeeded,
/// minus the disconnects that succeeded.
pub proof fn law_count_is_connects_minus_disconnects(registry: Registry, calls: Seq<Call>)
    ensures
        run(registry, calls).live() + disconnects(registry, calls) == registry.live() + connects(
            registry,
            calls,
        ),
    decreases calls.len(),
{
    if calls.len() > 0 {
        law_count_is_connects_minus_disconnects(registry, calls.drop_last());
        let before = run(registry, calls.drop_last());
        match calls.last() {
            Call::Connect { max_clients, now } => law_connect_counts(before, max_clients, now),
            Call::Disconnect { uid, now } => law_disconnect_counts(before, uid, now),
        }
    }
}

/// While every connect asks under a limit of at most `limit`, the number of
/// live connections never comes to lie above `limit`.
pub proof fn law_count_stays_within_limit(registry: Registry, calls: Seq<Call>, limit: usize)
    requires
        registry.live() <= limit,
        limited(calls, limit),
    ensures
        run(registry, calls).live() <= limit,
    decreases calls.len(),
{
    if calls.len() > 0 {
        let front = calls.drop_last();
        assert forall|i: int| 0 <= i < front.len() implies (#[trigger] front[i] matches Call::Connect {
            max_clients,
            ..
        } ==> max_clients <= limit) by {
            assert(front[i] == calls[i]);
        }
        law_count_stays_within_limit(registry, front, limit);
        let before = run(registry, front);
        assert(calls.last() == calls[calls.len() - 1]);
        match calls.last() {
            Call::Connect { max_clients, now } => law_connect_counts(before, max_clients, now),
            Call::Disconnect { uid, now } => law_disconnect_counts(before, uid, now),
        }
    }
}

/// Where every slot before `uid` is occupied, as it is where no slot is
/// empty, and the connection in slot `uid` leaves, the next connection that
/// is admitted gets slot `uid` again, and the table does not grow.
pub proof fn law_freed_slot_is_reused(
    registry: Registry,
    uid: usize,
    left: Moment,
    max_clients: usize,
    now: Moment,
)
    requires
        forall|j: int| 0 <= j < uid ==> registry.slots[j] is Some,
        registry.holds(uid),
        registry.disconnected(uid, left).has_room(max_clients),
    ensures
        first_free(registry.disconnected(uid, left).slots) == uid,
        registry.disconnected(uid, left).connected(max_clients, now).holds(uid),
        registry.disconnected(uid, left).connected(max_clients, now).client(uid) == Client::fresh(
            now,
        ),
        registry.disconnected(uid, left).connected(max_clients, now).slots.len()
            == registry.slots.len(),
{
    let freed = registry.disconnected(uid, left);
    lemma_first_free(freed.slots, uid as int);
}

/// The slot table grows, by one slot, only where a connection is admitted
/// while every slot is occupied. So the table never has more slots than
/// there were live connections at one time.
pub proof fn law_table_grows_only_when_full(registry: Registry, max_clients: usize, now: Moment)
    ensures
        registry.has_room(max_clients) && registry.live() == registry.slots.len()
            ==> registry.connected(max_clients, now).slots.len() == registry.slots.len() + 1,
        !(registry.has_room(max_clients) && registry.live() == registry.slots.len())
            ==> registry.connected(max_clients, now).slots.len() == registry.slots.len(),
{
    lemma_first_free_is_lowest(registry.slots);
    if registry.live() == registry.slots.len() {
        lemma_all_live(registry.slots);
        lemma_first_free(registry.slots, registry.slots.len() as int);
    } else if first_free(registry.slots) == registry.slots.len() {
        lemma_all_occupied(registry.slots);
    }
}

/// Where every slot is occupied, as many are occupied as there are.
proof fn lemma_all_occupied(slots: Seq<Option<Client>>)
    requires
        forall|j: int| 0 <= j < slots.len() ==> slots[j] is Some,
    ensures
        live_count(slots) == slots.len(),
    decreases slots.len(),
{
    if slots.len() > 0 {
        assert forall|j: int| 0 <= j < slots.drop_last().len() implies slots.drop_last()[j] is Some by {
            assert(slots.drop_last()[j] == slots[j]);
        }
        lemma_all_occupied(slots.drop_last());
    }
}

/// Where as many slots are occupied as there are, each one is.
proof fn lemma_all_live(slots: Seq<Option<Client>>)
    requires
        live_count(slots) == slots.len(),
    ensures
        forall|j: int| 0 <= j < slots.len() ==> slots[j] is Some,
    decreases slots.len(),
{
    if slots.len() > 0 {
        lemma_live_count_bound(slots.drop_last());
        lemma_all_live(slots.drop_last());
        assert forall|j: int| 0 <= j < slots.len() implies slots[j] is Some by {
            if j < slots.len() - 1 {
                assert(slots[j] == slots.drop_last()[j]);
            }
        }
    }
}

/// A disconnect that succeeds adds one sample to the histogram of former
/// connections, in the bucket of the connection's duration, and leaves the
/// other buckets as they were.
pub proof fn law_disconnect_adds_one_sample(registry: Registry, uid: usize, now: Moment)
    requires
        registry.holds(uid),
    ensures
        ({
            let bucket = bucket_of(registry.duration(uid, now)) as int;
            let before = registry.former.connection_time_till;
            let after = registry.disconnected(uid, now).former.connection_time_till;
            &&& after[bucket] == before[bucket].wrapping_add(1)
            &&& forall|other: int| 0 <= other < 32 && other != bucket ==> after[other] == before[other]
        }),
{
}

} // verus!
