use std::time::Duration;

use shroom::srv::clock::{try_tick_at, wait_duration_ms, GameTime};
use shroom::srv::delay_queue::DelayQueue;
use shroom::srv::interval::GameInterval;

#[test]
fn delay_queue_test() {
    let t = GameTime::default();
    let mut q = DelayQueue::new();
    q.push(1i32, t.add_dur(Duration::from_millis(10)));
    q.push(2, t.add_ms(20));

    assert_eq!(q.pop(t), None);
    let t = t.add_ms(10);
    assert_eq!(q.pop(t), Some(1));
    assert_eq!(q.pop(t), None);
    let t = t.add_ms(10);
    assert_eq!(q.pop(t), Some(2));
    assert_eq!(q.pop(t), None);

    q.push(4, t.add_ms(5));
    q.push(5, t.add_ms(10));

    let t = t.add_ms(10);
    assert_eq!(q.drain_expired(t).collect_vec(), vec![4, 5]);
}

#[test]
fn delay_queue_same_timeout_keeps_push_order() {
    let t = GameTime::default().add_ms(5);
    let mut q = DelayQueue::new();
    q.push("a", t);
    q.push("b", t);
    q.push("c", GameTime::default());
    assert_eq!(q.pop(t), Some("c"));
    assert_eq!(q.pop(t), Some("a"));
    assert_eq!(q.pop(t), Some("b"));
    assert!(q.is_empty());
}

#[test]
fn delay_queue_drain_leaves_later_items() {
    let t = GameTime::default();
    let mut q = DelayQueue::new();
    q.push(1, t.add_ms(30));
    q.push(2, t.add_ms(10));
    let mut d = q.drain_expired(t.add_ms(20));
    assert_eq!(d.next(), Some(2));
    assert_eq!(d.next(), None);
    assert!(!q.is_empty());
    assert_eq!(q.pop(t.add_ms(30)), Some(1));
}

#[test]
fn interval() {
    // The clock after its first and second tick.
    let mut iv = GameInterval::new(1);
    let t1 = GameTime::default().add_ticks(1);
    assert!(iv.update(t1));
    assert!(!iv.update(t1));

    let t2 = t1.add_ticks(1);
    assert!(iv.update(t2));
    assert!(!iv.update(t2));
}

#[test]
fn game_time_arithmetic() {
    let t = GameTime::default().add_ms(125);
    assert_eq!(t.ticks(), 2);
    assert!(t.expired(GameTime::default().add_ms(125)));
    assert!(!t.expired(GameTime::default().add_ms(126)));
    assert_eq!(GameTime::default().add_ms(25).delta(t).ticks(), 2);
}

#[test]
fn keep_up() {
    let mut time = GameTime::default();
    // Unable to tick while the shared clock stands at zero.
    assert!(!try_tick_at(0, &mut time));
    // The shared clock ticked twice.
    let cur = 100;
    assert!(try_tick_at(cur, &mut time));
    assert!(try_tick_at(cur, &mut time));
    assert!(!try_tick_at(cur, &mut time));
    assert_eq!(time.ticks(), 2);
}

#[test]
fn wait_duration() {
    let t = GameTime::default();
    assert_eq!(wait_duration_ms(t, 10), 40);
    assert_eq!(wait_duration_ms(t, 50), 0);
    assert_eq!(wait_duration_ms(t, 70), 0);
}

use shroom::pkt::Packet;
use shroom::srv::pump::{run_drain, DrainAction, MsgDrain, OnClosed, RecvOutcome};
use shroom::srv::room::{decide_shutdown, RoomLife, ShutdownCheck, ShutdownDecision, ShutdownFlags};
use shroom::srv::roster::{BroadcastSet, SessionRoster};
use shroom::srv::session::{SessionError, SessionRegistry};
use shroom::srv::socket::PktMsg;
use shroom::util::packet_buf::PacketBuf;

#[test]
fn drain_stops_at_limit_and_on_empty() {
    let mut d = MsgDrain::new(2, OnClosed::Fail);
    let acts = run_drain(&mut d, &[RecvOutcome::Item, RecvOutcome::Item, RecvOutcome::Item]);
    assert_eq!(acts, vec![DrainAction::Handle, DrainAction::Handle]);
    assert!(!d.wants_more());

    let mut d = MsgDrain::new(5, OnClosed::Fail);
    assert_eq!(d.on_recv(RecvOutcome::Item), DrainAction::Handle);
    assert_eq!(d.on_recv(RecvOutcome::Closed), DrainAction::Fail);
    assert!(!d.wants_more());

    let mut d = MsgDrain::new(5, OnClosed::Stop);
    assert_eq!(d.on_recv(RecvOutcome::Closed), DrainAction::Stop);
    let mut d = MsgDrain::new(5, OnClosed::Stop);
    assert_eq!(d.on_recv(RecvOutcome::Empty), DrainAction::Stop);
    assert_eq!(d.handled(), 0);
}

#[test]
fn room_asks_for_shutdown_after_empty_ticks() {
    let mut life = RoomLife::new();
    let mut flags = ShutdownFlags::new();
    for _ in 0..50 {
        assert_eq!(life.check_shutdown(true, &mut flags), ShutdownCheck::Keep);
    }
    assert_eq!(life.check_shutdown(true, &mut flags), ShutdownCheck::RequestShutdown);
    assert!(flags.can_shutdown());
    // The request stands: no second one.
    assert_eq!(life.check_shutdown(true, &mut flags), ShutdownCheck::Keep);
    assert_eq!(life.check_shutdown(false, &mut flags), ShutdownCheck::Keep);
    assert_eq!(life.empty_counter, 0);
}

#[test]
fn join_cancels_shutdown() {
    let mut f = ShutdownFlags::new();
    f.start_shutdown();
    let (d, _) = decide_shutdown(Some(f));
    assert_eq!(d, ShutdownDecision::Granted);

    f.cancel_shutdown();
    let (d, f2) = decide_shutdown(Some(f));
    assert_eq!(d, ShutdownDecision::Kept);
    assert!(!f2.unwrap().has_pending_shutdown());
    assert_eq!(decide_shutdown(None).0, ShutdownDecision::Missing);
}

#[test]
fn session_man() {
    let mut sm = SessionRegistry::new();
    assert!(sm.create::<()>(1).is_ok());
    assert!(sm.try_claim::<()>(1).is_ok());
    assert!(matches!(sm.try_claim::<()>(1), Err(SessionError::UnableToLockSession)));

    // No sessions should be removed
    assert!(sm.remove_unowned().is_empty());
    assert_eq!(sm.len(), 1);
    // Drop our session handle
    sm.release(1);
    assert_eq!(sm.len(), 1);

    // Now the sessions should be removed
    assert_eq!(sm.remove_unowned(), vec![1]);
    assert_eq!(sm.len(), 0);

    // Create a new session and close it properly
    assert!(sm.create::<()>(1).is_ok());
    assert!(sm.try_claim::<()>(1).is_ok());
    assert_eq!(sm.len(), 1);
    sm.close(1);
    assert_eq!(sm.len(), 0);
}

#[test]
fn session_errors() {
    let mut sm = SessionRegistry::new();
    assert!(matches!(sm.try_claim::<()>(3), Err(SessionError::SessionKeyNotExists)));
    assert!(sm.create::<()>(3).is_ok());
    assert!(matches!(sm.create::<()>(3), Err(SessionError::SessionKeyAlreadyExists)));
}

#[test]
fn roster_update_plan() {
    let mut r = SessionRoster::new();
    r.add(1);
    r.add(2);
    r.add(3);
    r.add(2);
    assert_eq!(r.len(), 3);
    r.register_transition(3, 10);
    r.register_transition(1, 11);
    r.register_transition(3, 12);
    r.mark_failed(1);
    r.remove_error_sessions();
    assert!(!r.contains(1));
    let moves = r.take_switches();
    assert_eq!(moves, vec![(3, 12)]);
    assert!(r.contains(2));
    assert!(!r.contains(3));
    assert!(!r.is_empty());
}

#[test]
fn socket_frames() {
    let m = PktMsg::from(Packet::from_vec(vec![1, 2]));
    assert_eq!(m.frames(), vec![vec![1, 2]]);
    let m = PktMsg::from(PacketBuf::new());
    assert!(m.frames().is_empty());
}

#[test]
fn broadcast_skips_failed_sessions() {

    let mut b = BroadcastSet::new();
    let a = b.add();
    let c = b.add();
    let d = b.add();
    assert_eq!(b.targets(), vec![a, c, d]);
    b.mark_failed(c);
    assert_eq!(b.targets(), vec![a, d]);

    let mut r = SessionRoster::new();
    r.add(5);
    r.add(6);
    r.add(7);
    assert_eq!(r.others(6), vec![5, 7]);
}

use shroom::srv::system::{JoinRoute, RoomDirectory};

#[test]
fn room_directory_creates_then_closes_rooms() {
    let mut dir = RoomDirectory::new();
    assert_eq!(dir.route_join(7), JoinRoute::Create);
    dir.opened(7);
    assert!(dir.is_open(7));
    assert_eq!(dir.route_join(7), JoinRoute::Open);

    // A request for a room that is not open is missing.
    let (d, f) = dir.answer_shutdown(8, Some(ShutdownFlags::new()));
    assert_eq!(d, ShutdownDecision::Missing);
    assert_eq!(f, None);

    // A session joined after the request: the room stays, the request closes.
    let mut flags = ShutdownFlags::new();
    flags.start_shutdown();
    flags.cancel_shutdown();
    let (d, f) = dir.answer_shutdown(7, Some(flags));
    assert_eq!(d, ShutdownDecision::Kept);
    assert!(!f.unwrap().has_pending_shutdown());
    assert!(dir.is_open(7));

    // A request that stands closes the room.
    let mut flags = ShutdownFlags::new();
    flags.start_shutdown();
    let (d, _) = dir.answer_shutdown(7, Some(flags));
    assert_eq!(d, ShutdownDecision::Granted);
    assert!(!dir.is_open(7));
    assert_eq!(dir.route_join(7), JoinRoute::Create);
}

#[test]
fn add_dur_adds_whole_millis() {
    let t = GameTime::default();
    assert_eq!(t.add_dur(Duration::from_millis(10)), t.add_ms(10));
    assert_eq!(t.add_dur(Duration::from_micros(2500)), t.add_ms(2));
}

