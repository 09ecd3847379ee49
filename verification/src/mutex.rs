//! Mutual exclusion primitives useful for protecting shared data.
//!
//! [`TicketMutex`] models a fair spinlock, or ticket lock: every requester
//! draws a ticket from a monotonically increasing counter and is admitted
//! when a second counter, counting releases, reaches its ticket. Service is
//! therefore strictly first-in, first-out, which rules out starvation.
//!
//! The two counters and the protected data are modelled directly. The
//! surrounding program performs the atomic accesses and the busy-wait loop;
//! it calls [`TicketMutex::lock`] only once the lock is free, and hands the
//! data back through [`TicketMutex::unlock`].

use vstd::prelude::*;

verus! {

/// A mutex based on a ticket lock.
///
/// This type of spin lock ensures FIFO service by granting the lock to
/// requesters in the same order in which they first requested it. A ticket
/// lock is fair in a strong sense; it eliminates the possibility of
/// starvation.
pub struct TicketMutex<T> {
    /// Number of requests to acquire the lock.
    next_ticket: usize,

    /// Number of times the lock has been released.
    now_serving: usize,

    /// Protected data. It is absent exactly while a guard is outstanding.
    data: Option<T>,
}

/// A scoped lock on a mutex: while the guard exists, its holder owns the
/// protected data exclusively. Handing the guard back through
/// [`TicketMutex::unlock`] releases the lock.
///
/// The data protected by the mutex can be accessed through the guard's
/// `data` field.
pub struct TicketMutexGuard<T> {
    /// The ticket that was being served when this guard was granted.
    pub ticket: usize,

    /// The protected data.
    pub data: T,
}

impl<T> TicketMutexGuard<T> {
    /// The ticket of the guard, for specifications.
    pub open spec fn spec_ticket(self) -> usize {
        self.ticket
    }
}

impl<T> TicketMutex<T> {
    /// The ticket counter, for specifications.
    pub closed spec fn spec_next_ticket(self) -> usize {
        self.next_ticket
    }

    /// The release counter, for specifications.
    pub closed spec fn spec_now_serving(self) -> usize {
        self.now_serving
    }

    /// The protected data, for specifications: absent while locked.
    pub closed spec fn spec_data(self) -> Option<T> {
        self.data
    }

    /// Whether a guard is currently outstanding.
    pub open spec fn spec_locked(self) -> bool {
        self.spec_data() is None
    }

    /// The protocol invariant: each drawn ticket is either served and
    /// released, or held by the single outstanding guard.
    pub open spec fn inv(self) -> bool {
        if self.spec_locked() {
            self.spec_next_ticket() == self.spec_now_serving() + 1
        } else {
            self.spec_next_ticket() == self.spec_now_serving()
        }
    }

    /// Returns a new [`TicketMutex`] protecting `data`.
    pub fn new(data: T) -> (r: TicketMutex<T>)
        ensures
            r.inv(),
            !r.spec_locked(),
            r.spec_data() == Some(data),
            r.spec_next_ticket() == 0,
            r.spec_now_serving() == 0,
    {
        TicketMutex { next_ticket: 0, now_serving: 0, data: Some(data) }
    }

    /// Returns `true` if a guard is currently outstanding.
    pub fn is_locked(&self) -> (r: bool)
        ensures
            r == self.spec_locked(),
    {
        self.data.is_none()
    }

    /// Locks the mutex and returns a [`TicketMutexGuard`] that grants
    /// exclusive access to the protected data until it is handed back.
    ///
    /// The guard's ticket equals the release count at the time of the call:
    /// tickets are served strictly in the order they are drawn. Waiting for
    /// that condition is the caller's busy-wait loop; here the lock must be
    /// free, since with a single holder admitted at a time a re-entrant call
    /// would spin forever.
    pub fn lock(&mut self) -> (guard: TicketMutexGuard<T>)
        requires
            old(self).inv(),
            !old(self).spec_locked(),
            old(self).spec_next_ticket() < usize::MAX,
        ensures
            final(self).inv(),
            final(self).spec_locked(),
            guard.spec_ticket() == old(self).spec_next_ticket(),
            guard.spec_ticket() == old(self).spec_now_serving(),
            final(self).spec_next_ticket() == old(self).spec_next_ticket() + 1,
            final(self).spec_now_serving() == old(self).spec_now_serving(),
            old(self).spec_data() == Some(guard.data),
    {
        let my_ticket = self.next_ticket;
        self.next_ticket = self.next_ticket + 1;
        let data = self.data.take();
        match data {
            Some(data) => TicketMutexGuard { ticket: my_ticket, data },
            None => {
                proof {
                    assert(false);
                }
                vstd::pervasive::unreached()
            },
        }
    }

    /// Releases the lock, storing the guard's data back into the mutex and
    /// waking the holder of the next ticket.
    pub fn unlock(&mut self, guard: TicketMutexGuard<T>)
        requires
            old(self).inv(),
            old(self).spec_locked(),
            guard.spec_ticket() == old(self).spec_now_serving(),
            old(self).spec_now_serving() < usize::MAX,
        ensures
            final(self).inv(),
            !final(self).spec_locked(),
            final(self).spec_data() == Some(guard.data),
            final(self).spec_next_ticket() == old(self).spec_next_ticket(),
            final(self).spec_now_serving() == old(self).spec_now_serving() + 1,
    {
        let TicketMutexGuard { ticket: _, data } = guard;
        self.data = Some(data);
        self.now_serving = self.now_serving + 1;
    }
}

} // verus!
