//! Pools: who is tried, in which order, and until when.
use vstd::prelude::*;

use crate::buf::bytes_view;
use crate::channel::queued;
use crate::client::Client;
use crate::command::{ConnCmd, StreamSel};
use crate::error::{ConnectError, PublishError};
use crate::message::Payload;
use crate::pool::{check_size, pending_bytes, sum, turn, visited, ClientPool, CloseAll, Failover, PoolConnect, PoolNext};

verus! {

/// The member after `i` others, from `start` on, going round.
pub open spec fn going_round(start: int, i: int, n: int) -> int {
    if start + i < n {
        start + i
    } else {
        start + i - n
    }
}

/// Where a walk comes to, without the remainder.
proof fn lemma_going_round(start: int, i: int, n: int)
    requires
        0 <= start < n,
        0 <= i < n,
    ensures
        visited(start, i, n) == going_round(start, i, n),
{
    if start + i < n {
        vstd::arithmetic::div_mod::lemma_small_mod((start + i) as nat, n as nat);
    } else {
        vstd::arithmetic::div_mod::lemma_mod_sub_multiples_vanish(start + i, n);
        vstd::arithmetic::div_mod::lemma_small_mod((start + i - n) as nat, n as nat);
    }
}

/// A publish over a pool starts one member further than the one before, and tries the members in
/// order from there, going round, each once. A member that has no connection leads to the next
/// one; every other answer is final. When all have been tried there is no connection.
pub proof fn law_members_are_tried_in_turn<C>(
    pool: &mut ClientPool<C>,
    begun: Failover,
    walk: &mut Failover,
    next: PoolNext,
    other: &mut Failover,
    result: Result<(), PublishError>,
    after: PoolNext,
)
    requires
        old(pool).members@.len() > 0,
        call_ensures(ClientPool::<C>::publish, (pool,), begun),
        old(walk).wf(),
        call_ensures(Failover::next_member, (walk,), next),
        old(other).wf(),
        call_ensures(Failover::after_publish, (other, result), after),
    ensures
        begun.start as int == old(pool).next as int % old(pool).members@.len() as int,
        begun.tried == 0,
        begun.n == old(pool).members@.len(),
        final(pool).members == old(pool).members,
        old(pool).next < usize::MAX ==> final(pool).next == old(pool).next + 1,
        old(pool).next == usize::MAX ==> final(pool).next == 0,
        old(walk).tried < old(walk).n ==> {
            &&& next matches PoolNext::Try(m)
            &&& m == going_round(old(walk).start as int, old(walk).tried as int, old(
                walk).n as int)
            &&& final(walk).tried == old(walk).tried + 1
            &&& final(walk).start == old(walk).start
            &&& final(walk).n == old(walk).n
        },
        old(walk).tried == old(walk).n ==> next == PoolNext::Return(
            Err(PublishError::NotConnected),
        ),
        result is Ok ==> after == PoolNext::Return(result),
        result matches Err(e) ==> (!(e is NotConnected) ==> after == PoolNext::Return(result)),
        result matches Err(PublishError::NotConnected) ==> if old(other).tried < old(other).n {
            &&& after matches PoolNext::Try(m)
            &&& m == going_round(old(other).start as int, old(other).tried as int, old(
                other).n as int)
            &&& final(other).tried == old(other).tried + 1
            &&& final(other).start == old(other).start
            &&& final(other).n == old(other).n
        } else {
            after == PoolNext::Return(Err(PublishError::NotConnected))
        },
{
    if old(walk).tried < old(walk).n {
        lemma_going_round(old(walk).start as int, old(walk).tried as int, old(walk).n as int);
    }
    if old(other).tried < old(other).n {
        lemma_going_round(old(other).start as int, old(other).tried as int, old(other).n as int);
    }
}

/// `after` is the handle `before` once a publish on the default channel was handed in, with the
/// topic and the whole payload.
pub open spec fn handed_publish(
    before: Client,
    after: Client,
    topic: Seq<char>,
    payload: Seq<u8>,
    taken: bool,
) -> bool {
    let n = queued(before.tx).len() as int;
    &&& queued(after.tx).len() == n + 1
    &&& queued(after.tx).take(n) == queued(before.tx)
    &&& queued(after.tx)[n].1 == taken
    &&& queued(after.tx)[n].0 matches ConnCmd::Publish { topic: t, payload: p, stream: s }
    &&& t@ == topic
    &&& bytes_view(p) == payload
    &&& s == StreamSel::Default
}

/// What was handed to a member, in other words.
proof fn lemma_handed(
    before: Client,
    after: Client,
    topic: Seq<char>,
    payload: Seq<u8>,
    taken: bool,
)
    requires
        crate::client::publish_queued(before, after, topic, payload, taken),
    ensures
        handed_publish(before, after, topic, payload, taken),
{
    assert(queued(after.tx).take(queued(before.tx).len() as int) =~= queued(before.tx));
}

/// A fire-and-forget publish over a pool is taken by one member at most: it succeeds exactly where
/// one takes it, those tried before it refused it, and no other member hears of it. It is refused
/// only where every member refused it.
pub proof fn law_pooled_publishes_are_taken_once<P: Payload>(
    pool: &mut ClientPool<Client>,
    topic: &str,
    payload: P,
    r: Result<(), PublishError>,
)
    requires
        old(pool).members@.len() > 0,
        call_ensures(ClientPool::<Client>::try_publish::<P>, (pool, topic, payload), r),
    ensures
        final(pool).members@.len() == old(pool).members@.len(),
        r is Err ==> forall|m: int|
            0 <= m < old(pool).members@.len() ==> handed_publish(
                old(pool).members@[m],
                #[trigger] final(pool).members@[m],
                topic@,
                payload.payload_bytes(),
                false,
            ),
        r is Ok ==> exists|k: int|
            {
                &&& 0 <= k < old(pool).members@.len()
                &&& #[trigger] taken_by(
                    old(pool).members@,
                    final(pool).members@,
                    old(pool).next as int % old(pool).members@.len() as int,
                    k,
                    topic@,
                    payload.payload_bytes(),
                )
            },
        r is Err ==> r matches Err(PublishError::NotConnected),
{
    let before = old(pool).members@;
    let after = final(pool).members@;
    let n = before.len() as int;
    let start = old(pool).next as int % n;
    let body = payload.payload_bytes();
    vstd::arithmetic::div_mod::lemma_mod_bound(old(pool).next as int, n);
    let k = choose|k: int|
        {
            &&& #[trigger] crate::pool::walked(before, after, start, k, topic@, body, r is Ok)
            &&& r is Err ==> k == n
        };
    if r is Err {
        assert forall|m: int| 0 <= m < n implies handed_publish(
            before[m],
            #[trigger] after[m],
            topic@,
            body,
            false,
        ) by {
            assert(turn(start, m, n) < k);
            lemma_handed(before[m], after[m], topic@, body, false);
        }
    } else {
        assert forall|i: int| 0 <= i < n implies {
            let m = #[trigger] going_round(start, i, n);
            &&& i < k - 1 ==> handed_publish(before[m], after[m], topic@, body, false)
            &&& i == k - 1 ==> handed_publish(before[m], after[m], topic@, body, true)
            &&& i > k - 1 ==> after[m] == before[m]
        } by {
            let m = going_round(start, i, n);
            assert(turn(start, m, n) == i);
            if i <= k - 1 {
                lemma_handed(before[m], after[m], topic@, body, i == k - 1);
            }
        }
        assert(taken_by(before, after, start, k - 1, topic@, body));
    }
}

/// The member that comes `k` others after `start` took the publish; those in between refused it,
/// and the rest were not asked.
pub open spec fn taken_by(
    before: Seq<Client>,
    after: Seq<Client>,
    start: int,
    k: int,
    topic: Seq<char>,
    payload: Seq<u8>,
) -> bool {
    let n = before.len() as int;
    forall|i: int|
        0 <= i < n ==> {
            let m = #[trigger] going_round(start, i, n);
            &&& i < k ==> handed_publish(before[m], after[m], topic, payload, false)
            &&& i == k ==> handed_publish(before[m], after[m], topic, payload, true)
            &&& i > k ==> after[m] == before[m]
        }
}

/// Pools know their members, in the order given, and go round among them.
pub proof fn law_pools_know_their_members<C>(
    members: Vec<C>,
    made: ClientPool<C>,
    pool: &ClientPool<C>,
    n: usize,
    empty: bool,
    idx: usize,
    member: &C,
    turning: &mut ClientPool<C>,
    next: usize,
)
    requires
        call_ensures(ClientPool::<C>::from_clients, (members,), made),
        call_ensures(ClientPool::<C>::len, (pool,), n),
        call_ensures(ClientPool::<C>::is_empty, (pool,), empty),
        idx < pool.members@.len(),
        call_ensures(ClientPool::<C>::member, (pool, idx), member),
        old(turning).members@.len() > 0,
        call_ensures(ClientPool::<C>::next_idx, (turning,), next),
    ensures
        made.members == members,
        made.next == 0,
        n == pool.members@.len(),
        empty <==> pool.members@.len() == 0,
        *member == pool.members@[idx as int],
        next as int == old(turning).next as int % old(turning).members@.len() as int,
        final(turning).members == old(turning).members,
        old(turning).next < usize::MAX ==> final(turning).next == old(turning).next + 1,
{
}

/// A sum is what adding up from the left gives.
proof fn lemma_sum(counts: Seq<usize>)
    ensures
        sum(counts) == counts.fold_left(0int, |a: int, c: usize| a + c),
    decreases counts.len(),
{
    if counts.len() > 0 {
        lemma_sum(counts.drop_last());
    }
}

/// Pending bytes are added up over all members; more than can be counted is the largest count.
pub proof fn law_pending_bytes_add_up(counts: &Vec<usize>, r: usize)
    requires
        call_ensures(pending_bytes, (counts,), r),
    ensures
        ({
            let total = counts@.fold_left(0int, |a: int, c: usize| a + c);
            r as int == if total < usize::MAX {
                total
            } else {
                usize::MAX as int
            }
        }),
{
    lemma_sum(counts@);
}

/// An empty pool is refused. Members are taken in as they connect, in order; the first failure is
/// the pool's.
pub proof fn law_pools_are_made_of_connected_members<C>(
    n: usize,
    size: Result<(), ConnectError>,
    pool: &mut PoolConnect<C>,
    outcome: Result<Result<C, ConnectError>, String>,
    r: Result<(), ConnectError>,
)
    requires
        call_ensures(check_size, (n,), size),
        call_ensures(PoolConnect::<C>::joined, (pool, outcome), r),
    ensures
        size is Ok <==> n > 0,
        size is Err ==> size->Err_0 is Config,
        outcome matches Ok(Ok(c)) ==> r is Ok && final(pool).members@ == old(pool).members@
            + seq![c],
        outcome matches Ok(Err(e)) ==> r == Err::<(), ConnectError>(e),
        outcome is Err ==> r is Err && r->Err_0 is Closed,
        r is Err ==> final(pool).members@ == old(pool).members@,
{
    if let Ok(Ok(c)) = outcome {
        assert(old(pool).members@.push(c) =~= old(pool).members@ + seq![c]);
    }
}

/// Closing a pool fails exactly where closing a member does, with the first such failure.
pub proof fn law_the_first_failed_close_counts(
    so_far: CloseAll,
    outcome: Result<(), ConnectError>,
    next: CloseAll,
    r: Result<(), ConnectError>,
)
    requires
        call_ensures(CloseAll::closed, (so_far, outcome), next),
        call_ensures(CloseAll::result, (next,), r),
    ensures
        so_far.first_err matches Some(e) ==> r == Err::<(), ConnectError>(e),
        so_far.first_err is None ==> (outcome matches Err(e) ==> r == Err::<(), ConnectError>(e)),
        so_far.first_err is None && outcome is Ok ==> r is Ok,
{
}

} // verus!
