//! Tests for the ticket lock model.

use expi::mutex::TicketMutex;

#[test]
fn mutex_lock() {
    let mut mutex = TicketMutex::new(0);

    let mut x = mutex.lock();
    x.data += 1;
    mutex.unlock(x);

    let mut x = mutex.lock();
    x.data += 1;
    mutex.unlock(x);

    let x = mutex.lock();
    assert_eq!(x.data, 2);
}

#[test]
fn mutex_fifo_tickets() {
    let mut mutex = TicketMutex::new(7u64);

    assert!(!mutex.is_locked());
    let g = mutex.lock();
    assert!(mutex.is_locked());
    assert_eq!(g.ticket, 0);
    assert_eq!(g.data, 7);
    mutex.unlock(g);
    assert!(!mutex.is_locked());

    let g = mutex.lock();
    assert_eq!(g.ticket, 1);
    mutex.unlock(g);
}
