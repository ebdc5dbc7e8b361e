use emufight::pacing::{after_listening, another_round, left_waiting, rounds, Heard, Pacer, PeerWait};

#[test]
fn deadlines_are_a_frame_apart() {
    let mut p = Pacer::new(10, 100);
    assert_eq!((p.wait(105), p.wait(110), p.wait(200)), (5, 0, 0));
    p.advance(110);
    assert_eq!(p.next, 120);
    // Late by a frame: the schedule stays.
    p.advance(140);
    assert_eq!(p.next, 130);
    // Late by more: it starts anew.
    p.advance(151);
    assert_eq!(p.next, 161);
    p.restart(500);
    assert_eq!(p.next, 510);
}

#[test]
fn synchronising_peers_are_served_often() {
    assert_eq!((rounds(true), rounds(false)), (1, 16));
}

#[test]
fn waiting_for_a_peer() {
    assert_eq!(left_waiting(true, false), None);
    for (running, quit) in [(false, false), (true, true)] {
        assert_eq!(left_waiting(running, quit).as_deref(), Some("quit while waiting for joiner"));
    }
    assert!(matches!(after_listening(Heard::Packet), PeerWait::Found));
    assert!(matches!(after_listening(Heard::Nothing), PeerWait::Sleep));
    match after_listening(Heard::Failure("gone".to_string())) {
        PeerWait::Stop(m) => assert_eq!(m, "UDP recv while waiting for joiner: gone"),
        _ => panic!("a failure stops the wait"),
    }
}

#[test]
fn deadlines_reach_the_end_of_the_clock() {
    let end = u64::MAX;
    let mut p = Pacer::new(10, end - 40);
    assert_eq!(p.next, end - 30);
    assert!(p.can_advance(end - 10));
    assert!(!p.can_advance(end - 9));
    p.advance(end - 10);
    assert_eq!(p.next, end - 20);
    assert!(p.can_advance(0));
    p.advance(0);
    assert!(!p.can_advance(0));
    p.restart(end - 10);
    assert_eq!(p.next, end);
}

#[test]
fn a_shown_frame_or_a_failure_ends_the_rounds() {
    assert!(another_round(0, 1, false, false));
    assert!(another_round(15, 16, false, false));
    assert!(!another_round(16, 16, false, false));
    assert!(!another_round(3, 16, true, false));
    assert!(!another_round(3, 16, false, true));
}
