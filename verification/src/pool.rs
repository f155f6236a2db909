//! A pool of independent connections: round-robin publishing with failover.
use vstd::prelude::*;
use vstd::string::*;

use crate::buf;
use crate::client::{publish_queued, Client};
use crate::error::{ConnectError, PublishError};
use crate::message::Payload;

verus! {

/// Pool of connections of type `C`.
pub struct ClientPool<C> {
    /// The members.
    pub members: Vec<C>,
    /// Publishes so far; wraps around.
    pub next: usize,
}

/// Refuses an empty pool.
pub fn check_size(n: usize) -> (r: Result<(), ConnectError>)
    ensures
        n > 0 ==> r is Ok,
        n == 0 ==> r is Err && r->Err_0 is Config && r->Err_0->Config_0@
            == "pool size must be greater than zero"@,
{
    if n == 0 {
        Err(ConnectError::Config("pool size must be greater than zero".to_owned()))
    } else {
        Ok(())
    }
}

/// Members that are being connected, in order, up to the first that fails.
pub struct PoolConnect<C> {
    /// The members connected so far.
    pub members: Vec<C>,
}

impl<C> PoolConnect<C> {
    /// None yet.
    pub fn new() -> (r: Self)
        ensures
            r.members@ == Seq::<C>::empty(),
    {
        PoolConnect { members: Vec::new() }
    }

    /// Takes in the outcome of one member's connect task: `Err` where the task itself died,
    /// with the reason. The first failure is the pool's.
    pub fn joined(&mut self, outcome: Result<Result<C, ConnectError>, String>) -> (r: Result<
        (),
        ConnectError,
    >)
        ensures
            match outcome {
                Ok(Ok(c)) => r is Ok && final(self).members@ == old(self).members@.push(c),
                Ok(Err(e)) => r == Err::<(), ConnectError>(e) && final(self).members@
                    == old(self).members@,
                Err(why) => {
                    &&& r is Err && r->Err_0 is Closed
                    &&& r->Err_0->Closed_0@ == "pool member connect task panicked: "@ + why@
                    &&& final(self).members@ == old(self).members@
                },
            },
    {
        match outcome {
            Ok(Ok(c)) => {
                self.members.push(c);
                Ok(())
            },
            Ok(Err(e)) => Err(e),
            Err(why) => {
                let mut text = "pool member connect task panicked: ".to_owned();
                text.append(why.as_str());
                Err(ConnectError::Closed(text))
            },
        }
    }
}

/// The member that a walk over `n` members comes to after `i` others, from `start`.
pub open spec fn visited(start: int, i: int, n: int) -> int {
    (start + i) % n
}

/// A walk over the members of a pool, each once, in order from a starting point.
pub struct Failover {
    /// Where it starts.
    pub start: usize,
    /// Members visited so far.
    pub tried: usize,
    /// Members.
    pub n: usize,
}

/// How a publish over a pool goes on.
pub enum PoolNext {
    /// Try this member.
    Try(usize),
    /// Return this.
    Return(Result<(), PublishError>),
}

impl Failover {
    /// The start is a member, and no more were visited than there are.
    pub open spec fn wf(self) -> bool {
        self.start < self.n && self.tried <= self.n
    }

    /// The next member, or the final failure when all have been tried.
    pub fn next_member(&mut self) -> (r: PoolNext)
        requires
            old(self).wf(),
        ensures
            final(self).wf(),
            old(self).tried < old(self).n ==> {
                &&& r matches PoolNext::Try(idx)
                &&& idx == visited(old(self).start as int, old(self).tried as int, old(self).n as int)
                &&& idx < old(self).n
                &&& *final(self) == (Failover { tried: (old(self).tried + 1) as usize, ..*old(self) })
            },
            old(self).tried == old(self).n ==> {
                &&& r == PoolNext::Return(Err(PublishError::NotConnected))
                &&& *final(self) == *old(self)
            },
    {
        if self.tried == self.n {
            return PoolNext::Return(Err(PublishError::NotConnected));
        }
        let i: usize = self.tried;
        let idx: usize = if self.start < self.n - i {
            self.start + i
        } else {
            self.start - (self.n - i)
        };
        proof {
            let s = self.start as int;
            let n = self.n as int;
            if s + i < n {
                vstd::arithmetic::div_mod::lemma_small_mod((s + i) as nat, n as nat);
            } else {
                vstd::arithmetic::div_mod::lemma_mod_sub_multiples_vanish(s + i, n);
                vstd::arithmetic::div_mod::lemma_small_mod((s + i - n) as nat, n as nat);
                assert((s + i - n) % n == (s + i) % n);
            }
        }
        self.tried = i + 1;
        PoolNext::Try(idx)
    }

    /// How a confirmed publish goes on after a member's answer: only a missing connection leads
    /// to the next member.
    pub fn after_publish(&mut self, result: Result<(), PublishError>) -> (r: PoolNext)
        requires
            old(self).wf(),
        ensures
            final(self).wf(),
            result == Err::<(), PublishError>(PublishError::NotConnected) ==> {
                &&& old(self).tried < old(self).n ==> {
                    &&& r matches PoolNext::Try(idx)
                    &&& idx == visited(
                        old(self).start as int,
                        old(self).tried as int,
                        old(self).n as int,
                    )
                    &&& *final(self) == (Failover {
                        tried: (old(self).tried + 1) as usize,
                        ..*old(self)
                    })
                }
                &&& old(self).tried == old(self).n ==> {
                    &&& r == PoolNext::Return(Err(PublishError::NotConnected))
                    &&& *final(self) == *old(self)
                }
            },
            result != Err::<(), PublishError>(PublishError::NotConnected) ==> {
                &&& r == PoolNext::Return(result)
                &&& *final(self) == *old(self)
            },
    {
        let elsewhere = match &result {
            Err(PublishError::NotConnected) => true,
            _ => false,
        };
        if elsewhere {
            self.next_member()
        } else {
            PoolNext::Return(result)
        }
    }
}

impl<C> ClientPool<C> {
    /// A pool of members that are connected already. An empty one is refused by
    /// [`check_size`] before.
    pub fn from_clients(members: Vec<C>) -> (r: Self)
        requires
            members@.len() > 0,
        ensures
            r.members == members,
            r.next == 0,
    {
        ClientPool { members, next: 0 }
    }

    /// Number of pool members.
    pub fn len(&self) -> (r: usize)
        ensures
            r == self.members@.len(),
    {
        self.members.len()
    }

    /// Whether the pool is empty.
    pub fn is_empty(&self) -> (r: bool)
        ensures
            r == (self.members@.len() == 0),
    {
        self.members.len() == 0
    }

    /// A specific member, for what is bound to one connection.
    pub fn member(&self, idx: usize) -> (r: &C)
        requires
            idx < self.members@.len(),
        ensures
            *r == self.members@[idx as int],
    {
        &self.members[idx]
    }

    /// The next round-robin index.
    pub fn next_idx(&mut self) -> (r: usize)
        requires
            old(self).members@.len() > 0,
        ensures
            r == old(self).next as int % old(self).members@.len() as int,
            r < old(self).members@.len(),
            final(self).next == old(self).next.wrapping_add(1),
            final(self).members == old(self).members,
    {
        let n: usize = self.members.len();
        let prev: usize = self.next;
        self.next = prev.wrapping_add(1);
        prev % n
    }

    /// Starts a publish: the members are tried from the next round-robin index on.
    pub fn publish(&mut self) -> (r: Failover)
        requires
            old(self).members@.len() > 0,
        ensures
            r.wf(),
            r.start == old(self).next as int % old(self).members@.len() as int,
            r.tried == 0,
            r.n == old(self).members@.len(),
            final(self).next == old(self).next.wrapping_add(1),
            final(self).members == old(self).members,
    {
        let start: usize = self.next_idx();
        Failover { start, tried: 0, n: self.members.len() }
    }
}

/// How many members a walk from `start` visits before this one.
pub open spec fn turn(start: int, member: int, n: int) -> int {
    if member >= start {
        member - start
    } else {
        member - start + n
    }
}

/// A publish was handed to the first `k` members from `start` on, and to no other. All but the
/// last of them refused it; whether that one did is `taken`.
pub open spec fn walked(
    before: Seq<Client>,
    after: Seq<Client>,
    start: int,
    k: int,
    topic: Seq<char>,
    payload: Seq<u8>,
    taken: bool,
) -> bool {
    let n = before.len() as int;
    &&& after.len() == n
    &&& 1 <= k <= n
    &&& forall|m: int|
        0 <= m < n ==> if #[trigger] turn(start, m, n) < k {
            publish_queued(
                before[m],
                after[m],
                topic,
                payload,
                taken && turn(start, m, n) == k - 1,
            )
        } else {
            after[m] == before[m]
        }
}

impl ClientPool<Client> {
    /// Fire-and-forget publish: the members are tried from the next round-robin index on, until
    /// one takes it. It is refused only where every member refuses.
    pub fn try_publish<P: Payload>(&mut self, topic: &str, payload: P) -> (r: Result<
        (),
        PublishError,
    >)
        requires
            old(self).members@.len() > 0,
        ensures
            final(self).next == old(self).next.wrapping_add(1),
            exists|k: int|
                {
                    &&& #[trigger] walked(
                        old(self).members@,
                        final(self).members@,
                        old(self).next as int % old(self).members@.len() as int,
                        k,
                        topic@,
                        payload.payload_bytes(),
                        r is Ok,
                    )
                    &&& r is Err ==> k == old(self).members@.len()
                },
            r matches Err(e) ==> e == PublishError::NotConnected,
    {
        let ghost body = payload.payload_bytes();
        let bytes = payload.into_bytes();
        let start: usize = self.next_idx();
        let n: usize = self.members.len();
        let ghost before = self.members@;
        let ghost from = start as int;
        let mut i: usize = 0;
        while i < n
            invariant
                i <= n,
                start < n,
                from == start,
                n == before.len(),
                self.members@.len() == n,
                before == old(self).members@,
                bytes.payload_bytes() == body,
                body == payload.payload_bytes(),
                from == old(self).next as int % old(self).members@.len() as int,
                self.next == old(self).next.wrapping_add(1),
                forall|m: int|
                    0 <= m < n ==> if #[trigger] turn(from, m, n as int) < i {
                        publish_queued(before[m], self.members@[m], topic@, body, false)
                    } else {
                        self.members@[m] == before[m]
                    },
            decreases n - i,
        {
            let idx: usize = if start < n - i {
                start + i
            } else {
                start - (n - i)
            };
            assert(turn(from, idx as int, n as int) == i);
            let ghost earlier = self.members@;
            let sent = self.members[idx].try_publish(topic, buf::share(&bytes));
            assert(self.members@ == earlier.update(idx as int, self.members@[idx as int]));
            i += 1;
            if sent.is_ok() {
                assert(walked(before, self.members@, from, i as int, topic@, body, true));
                return sent;
            }
        }
        assert(walked(before, self.members@, from, n as int, topic@, body, false));
        Err(PublishError::NotConnected)
    }
}

/// The sum of some numbers.
pub open spec fn sum(counts: Seq<usize>) -> nat
    decreases counts.len(),
{
    if counts.len() == 0 {
        0
    } else {
        sum(counts.drop_last()) + counts.last() as nat
    }
}

/// Total bytes pending over all members, from what is pending on each; the largest number there
/// is where they are more.
pub fn pending_bytes(counts: &Vec<usize>) -> (r: usize)
    ensures
        r == if sum(counts@) <= usize::MAX {
            sum(counts@) as int
        } else {
            usize::MAX as int
        },
{
    let mut total: usize = 0;
    let mut i: usize = 0;
    assert(counts@.take(0) =~= Seq::empty());
    while i < counts.len()
        invariant
            i <= counts@.len(),
            total == if sum(counts@.take(i as int)) <= usize::MAX {
                sum(counts@.take(i as int)) as int
            } else {
                usize::MAX as int
            },
        decreases counts@.len() - i,
    {
        total = total.saturating_add(counts[i]);
        i += 1;
        assert(counts@.take(i as int).drop_last() =~= counts@.take(i - 1));
    }
    assert(counts@.take(i as int) =~= counts@);
    total
}

/// Closing every member: the first error is the pool's, the others are swallowed.
pub struct CloseAll {
    /// The first error so far.
    pub first_err: Option<ConnectError>,
}

impl CloseAll {
    /// No error yet.
    pub fn new() -> (r: Self)
        ensures
            r.first_err is None,
    {
        CloseAll { first_err: None }
    }

    /// Takes in one member's outcome.
    pub fn closed(self, outcome: Result<(), ConnectError>) -> (r: Self)
        ensures
            r.first_err == match (self.first_err, outcome) {
                (Some(e), _) => Some(e),
                (None, Ok(_)) => None,
                (None, Err(e)) => Some(e),
            },
    {
        match self.first_err {
            Some(e) => CloseAll { first_err: Some(e) },
            None => match outcome {
                Ok(_) => CloseAll { first_err: None },
                Err(e) => CloseAll { first_err: Some(e) },
            },
        }
    }

    /// The outcome of it all.
    pub fn result(self) -> (r: Result<(), ConnectError>)
        ensures
            match self.first_err {
                Some(e) => r == Err::<(), ConnectError>(e),
                None => r is Ok,
            },
    {
        match self.first_err {
            Some(e) => Err(e),
            None => Ok(()),
        }
    }
}

/// A walk leaves no member out and visits none twice: each has its turn, and one only.
pub proof fn law_failover_visits_every_member_once(start: int, n: int, member: int)
    requires
        0 <= start < n,
        0 <= member < n,
    ensures
        0 <= turn(start, member, n) < n,
        visited(start, turn(start, member, n), n) == member,
        forall|j: int|
            0 <= j < n && #[trigger] visited(start, j, n) == member ==> j == turn(
                start,
                member,
                n,
            ),
{
    lemma_visited(start, turn(start, member, n), n);
    assert forall|j: int| 0 <= j < n && #[trigger] visited(start, j, n) == member implies j
        == turn(start, member, n) by {
        lemma_visited(start, j, n);
    }
}

/// Where a walk comes to, without the remainder.
proof fn lemma_visited(start: int, i: int, n: int)
    requires
        0 <= start < n,
        0 <= i < n,
    ensures
        visited(start, i, n) == if start + i < n {
            start + i
        } else {
            start + i - n
        },
{
    if start + i < n {
        vstd::arithmetic::div_mod::lemma_small_mod((start + i) as nat, n as nat);
    } else {
        vstd::arithmetic::div_mod::lemma_mod_sub_multiples_vanish(start + i, n);
        vstd::arithmetic::div_mod::lemma_small_mod((start + i - n) as nat, n as nat);
    }
}

/// Publishes go round: as long as the counter does not wrap, each starts one member further.
pub proof fn law_publishes_go_round(next: int, n: int)
    requires
        0 <= next,
        0 < n,
    ensures
        (next + 1) % n == if next % n + 1 == n {
            0
        } else {
            next % n + 1
        },
{
    vstd::arithmetic::div_mod::lemma_fundamental_div_mod(next, n);
    let q = next / n;
    let r = next % n;
    if r + 1 == n {
        assert((q + 1) * n == n * q + n) by (nonlinear_arith);
        vstd::arithmetic::div_mod::lemma_fundamental_div_mod_converse(next + 1, n, q + 1, 0);
    } else {
        assert(q * n == n * q) by (nonlinear_arith);
        vstd::arithmetic::div_mod::lemma_fundamental_div_mod_converse(next + 1, n, q, r + 1);
    }
}

} // verus!
