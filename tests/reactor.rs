use line_reactor::event_loop::EventLoop;
use line_reactor::reactor::{PollOutcome, Reactor, Registration, WaitStep, WAKER_TOKEN};
use line_reactor::server::{AcceptOutcome, AsyncTcpCommandServer, ServerAction};

#[test]
fn register_once_per_token() {
    let mut r: Reactor<u32> = Reactor::new();
    assert_eq!(r.register(5), Registration::Fresh);
    assert!(!r.is_registered(5));
    r.confirm_registered(5);
    assert_eq!(r.register(5), Registration::Known);
    assert!(r.is_registered(5));
    assert_eq!(r.register(WAKER_TOKEN), Registration::Reserved);
    assert!(!r.is_registered(WAKER_TOKEN));
}

#[test]
fn run_queue_is_fifo_and_keeps_duplicates() {
    let mut r: Reactor<u32> = Reactor::new();
    r.schedule(3);
    r.schedule(1);
    r.schedule(3);
    assert!(r.has_tasks());
    assert_eq!(r.next_task(), Some(3));
    assert_eq!(r.next_task(), Some(1));
    assert_eq!(r.next_task(), Some(3));
    assert_eq!(r.next_task(), None);
    assert!(!r.has_tasks());
}

#[test]
fn new_connection_is_queued_and_scheduled() {
    let mut r: Reactor<&str> = Reactor::new();
    r.add_new_connection(8, "a");
    assert_eq!(r.next_task(), Some(8));
    assert_eq!(r.next_new_connection(), Some((8, "a")));
    assert_eq!(r.next_new_connection(), None);
}

#[test]
fn old_connection_is_forgotten_and_queued() {
    let mut r: Reactor<u32> = Reactor::new();
    r.confirm_registered(4);
    r.remove_old_connection(4);
    assert!(!r.is_registered(4));
    assert_eq!(r.next_old_connection(), Some(4));
    assert_eq!(r.next_old_connection(), None);
}

#[test]
fn wait_decisions() {
    let mut r: Reactor<u32> = Reactor::new();
    assert_eq!(r.wait(PollOutcome::Events(0)), WaitStep::Again);
    assert_eq!(r.wait(PollOutcome::Events(2)), WaitStep::Done);
    assert_eq!(r.wait(PollOutcome::Interrupted), WaitStep::Done);
    assert_eq!(r.wait(PollOutcome::Failed), WaitStep::Fail);
    r.schedule(1);
    assert_eq!(r.wait(PollOutcome::Events(0)), WaitStep::Done);
}

#[test]
fn install_and_retire_connections() {
    let mut r: Reactor<&str> = Reactor::new();
    let mut el: EventLoop<&str> = EventLoop::new();
    r.add_new_connection(10, "a");
    r.add_new_connection(11, "b");
    assert_eq!(el.handle_new_connections(&mut r), vec![10, 11]);
    assert!(el.contains(10) && el.contains(11));
    assert_eq!(r.next_new_connection(), None);
    assert_eq!(r.register(10), Registration::Fresh);
    r.confirm_registered(10);
    r.remove_old_connection(10);
    assert_eq!(el.handle_dead_connections(&mut r), vec!["a"]);
    assert!(!el.contains(10));
    assert!(el.contains(11));
    assert!(!r.is_registered(10));
}

#[test]
fn table_insert_and_remove() {
    let mut el: EventLoop<u8> = EventLoop::new();
    el.insert(3, 30);
    assert_eq!(el.remove(3), Some(30));
    assert_eq!(el.remove(3), None);
}

#[test]
fn accept_fsm_transitions() {
    let mut s: AsyncTcpCommandServer<u32> = AsyncTcpCommandServer::new(6);
    assert_eq!(s.id(), 6);
    assert!(matches!(s.poll(), ServerAction::Nothing));
    assert!(s.handle_event(AcceptOutcome::Accepted(42)));
    assert!(matches!(s.poll(), ServerAction::Install(42)));
    assert!(matches!(s.poll(), ServerAction::Nothing));
    assert!(!s.handle_event(AcceptOutcome::WouldBlock));
    assert!(matches!(s.poll(), ServerAction::Nothing));
    assert!(s.handle_event(AcceptOutcome::Failed));
    assert!(matches!(s.poll(), ServerAction::Retire));
    assert!(matches!(s.poll(), ServerAction::Nothing));
}

#[test]
fn install_keeps_other_entries_and_last_queued_wins() {
    let mut r: Reactor<&str> = Reactor::new();
    let mut el: EventLoop<&str> = EventLoop::new();
    el.insert(1, "server");
    r.add_new_connection(20, "old");
    r.add_new_connection(20, "new");
    assert_eq!(el.handle_new_connections(&mut r), vec![20, 20]);
    assert_eq!(el.remove(1), Some("server"));
    assert_eq!(el.remove(20), Some("new"));
}

#[test]
fn retire_hands_back_listeners_in_queue_order() {
    let mut r: Reactor<&str> = Reactor::new();
    let mut el: EventLoop<&str> = EventLoop::new();
    el.insert(1, "a");
    el.insert(2, "b");
    el.insert(3, "c");
    r.remove_old_connection(3);
    r.remove_old_connection(9);
    r.remove_old_connection(1);
    r.remove_old_connection(3);
    assert_eq!(el.handle_dead_connections(&mut r), vec!["c", "a"]);
    assert_eq!(el.remove(2), Some("b"));
    assert!(!el.contains(1) && !el.contains(3));
}
