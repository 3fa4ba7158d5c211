//! The lock that lets one transaction at a time at a shard, and those that wait for it.
use flume::Sender;
use std::collections::VecDeque;
use vstd::prelude::*;

verus! {

/// The lock of a shard: the transaction that holds it, and those that wait, the longest first, each
/// with what wakes it.
pub struct TxLock {
    pub holder: Option<u64>,
    pub waiters: VecDeque<(u64, Sender<()>)>,
}

/// The transactions that wait, the longest first.
pub open spec fn queue(waiters: Seq<(u64, Sender<()>)>) -> Seq<u64> {
    waiters.map_values(|w: (u64, Sender<()>)| w.0)
}

impl TxLock {
    /// Nobody waits for a lock that nobody holds.
    pub open spec fn wf(&self) -> bool {
        self.holder is None ==> self.waiters@.len() == 0
    }

    /// A lock that nobody holds.
    pub fn new() -> (r: Self)
        ensures
            r.wf(),
            r.holder is None,
            r.waiters@.len() == 0,
    {
        TxLock { holder: None, waiters: VecDeque::new() }
    }

    /// Takes the lock for a transaction if nobody holds it, and says so; else the transaction waits
    /// at the end of the queue.
    pub fn acquire(&mut self, tx_id: u64, wake: Sender<()>) -> (r: bool)
        requires
            old(self).wf(),
        ensures
            final(self).wf(),
            r == (old(self).holder is None),
            r ==> final(self).holder == Some(tx_id) && final(self).waiters@ == old(self).waiters@,
            !r ==> final(self).holder == old(self).holder && final(self).waiters@
                == old(self).waiters@.push((tx_id, wake)),
            asked_for(*old(self), *final(self), tx_id, r),
    {
        if self.holder.is_none() {
            self.holder = Some(tx_id);
            true
        } else {
            self.waiters.push_back((tx_id, wake));
            assert(queue(self.waiters@) =~= queue(old(self).waiters@).push(tx_id));
            false
        }
    }

    /// Gives the lock of a transaction to the one that has waited the longest, and gives what wakes
    /// it; frees the lock if none waits. A transaction that does not hold the lock changes nothing.
    pub fn release(&mut self, tx_id: u64) -> (r: Option<Sender<()>>)
        requires
            old(self).wf(),
        ensures
            final(self).wf(),
            old(self).holder != Some(tx_id) ==> r is None && final(self).holder
                == old(self).holder && final(self).waiters@ == old(self).waiters@,
            old(self).holder == Some(tx_id) && old(self).waiters@.len() == 0 ==> r is None
                && final(self).waiters@ == old(self).waiters@,
            old(self).holder == Some(tx_id) && old(self).waiters@.len() > 0 ==> r == Some(
                old(self).waiters@[0].1,
            ) && final(self).waiters@ == old(self).waiters@.skip(1),
            old(self).holder == Some(tx_id) ==> (final(self).holder, queue(final(self).waiters@))
                == released(queue(old(self).waiters@)),
            given_up(*old(self), *final(self), tx_id, r),
    {
        match self.holder {
            Some(holder) => {
                if holder != tx_id {
                    return None;
                }
            },
            None => {
                return None;
            },
        }
        match self.waiters.pop_front() {
            Some((next, wake)) => {
                assert(self.waiters@ =~= old(self).waiters@.skip(1));
                assert(queue(self.waiters@) =~= queue(old(self).waiters@).skip(1));
                self.holder = Some(next);
                Some(wake)
            },
            None => {
                self.holder = None;
                None
            },
        }
    }
}

/// The holder and the queue once the holder has released the lock.
pub open spec fn released(waiting: Seq<u64>) -> (Option<u64>, Seq<u64>) {
    if waiting.len() > 0 {
        (Some(waiting[0]), waiting.skip(1))
    } else {
        (None, waiting)
    }
}

/// The holder and the queue after a number of releases by whoever held the lock.
pub open spec fn after_releases(holder: Option<u64>, waiting: Seq<u64>, n: nat) -> (
    Option<u64>,
    Seq<u64>,
)
    decreases n,
{
    if n == 0 {
        (holder, waiting)
    } else {
        released(after_releases(holder, waiting, (n - 1) as nat).1)
    }
}

/// The lock is passed on in the order in which it was asked for.
pub proof fn law_lock_is_fair(holder: u64, waiting: Seq<u64>, k: nat)
    requires
        k < waiting.len(),
    ensures
        after_releases(Some(holder), waiting, k + 1) == (
            Some(waiting[k as int]),
            waiting.skip(k as int + 1),
        ),
    decreases k,
{
    if k == 0 {
        assert(after_releases(Some(holder), waiting, 0) == (Some(holder), waiting));
    } else {
        law_lock_is_fair(holder, waiting, (k - 1) as nat);
        assert(waiting.skip(k as int).skip(1) =~= waiting.skip(k as int + 1));
    }
}

/// A lock before and after a transaction asked for it, and whether it has it.
pub open spec fn asked_for(before: TxLock, after: TxLock, tx: u64, granted: bool) -> bool {
    if before.holder is None {
        &&& granted
        &&& after.holder == Some(tx)
        &&& queue(after.waiters@) == queue(before.waiters@)
    } else {
        &&& !granted
        &&& after.holder == before.holder
        &&& queue(after.waiters@) == queue(before.waiters@).push(tx)
    }
}

/// A lock before and after a transaction gave it up, and what wakes the one that has it now.
pub open spec fn given_up(
    before: TxLock,
    after: TxLock,
    tx: u64,
    woken: Option<Sender<()>>,
) -> bool {
    if before.holder == Some(tx) {
        &&& (after.holder, queue(after.waiters@)) == released(queue(before.waiters@))
        &&& woken == if before.waiters@.len() > 0 {
            Some(before.waiters@[0].1)
        } else {
            None
        }
    } else {
        &&& after.holder == before.holder
        &&& queue(after.waiters@) == queue(before.waiters@)
        &&& woken is None
    }
}

/// A lock has one holder at a time. Who asks for it has it exactly where nobody held it, and is else
/// the last to wait; who gives it up without having it changes nothing; and who had it leaves it to
/// the first that waits, who is woken, or to nobody where none waits.
pub proof fn law_one_holder_at_a_time(
    before: TxLock,
    asked: TxLock,
    freed: TxLock,
    tx: u64,
    granted: bool,
    woken: Option<Sender<()>>,
)
    requires
        asked_for(before, asked, tx, granted),
        given_up(before, freed, tx, woken),
    ensures
        granted <==> before.holder is None,
        granted ==> asked.holder == Some(tx),
        !granted ==> asked.holder == before.holder && asked.waiters@.len() == before.waiters@.len()
            + 1 && asked.waiters@.last().0 == tx,
        before.holder != Some(tx) ==> freed.holder == before.holder && woken is None
            && freed.waiters@.len() == before.waiters@.len(),
        before.holder == Some(tx) && before.waiters@.len() == 0 ==> freed.holder is None && woken
            is None,
        before.holder == Some(tx) && before.waiters@.len() > 0 ==> freed.holder == Some(
            before.waiters@[0].0,
        ) && woken == Some(before.waiters@[0].1) && freed.waiters@.len() == before.waiters@.len() - 1,
{
    let b = queue(before.waiters@);
    let a = queue(asked.waiters@);
    let f = queue(freed.waiters@);
    assert(a.len() == asked.waiters@.len() && f.len() == freed.waiters@.len());
    if before.waiters@.len() > 0 {
        assert(b[0] == before.waiters@[0].0);
    }
    if !granted {
        assert(a.last() == tx);
        assert(a[a.len() - 1] == asked.waiters@[a.len() - 1].0);
    }
}

} // verus!
