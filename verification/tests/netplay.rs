use emufight::io::{pack_input, InputState};
use emufight::netplay::checksums::{fnv1a, pack_checksums, record, unpack_checksums};
use emufight::netplay::link::{LinkQueue, SimAddr};
use emufight::netplay::session::{Batch, Gate, LinkStats, OnlineSession, SessionEvent};
use emufight::netplay::spectator::{step_cap, OnlineSpectatorSession, SeekAction, SeekProgress};
use std::collections::BTreeMap;

#[test]
fn checksum_lanes_pack_and_unpack() {
    let lanes = [1, 2, 3, 4, 5, 6, 7, 0xFFFF];
    let word = pack_checksums(&lanes);
    assert_eq!(word, 0xFFFF_0007_0006_0005_0004_0003_0002_0001);
    assert_eq!(unpack_checksums(word), lanes);
}

#[test]
fn fnv1a_has_its_published_values() {
    assert_eq!(fnv1a(b""), 0xcbf2_9ce4_8422_2325);
    assert_eq!(fnv1a(b"a"), 0xaf63_dc4c_8601_ec8c);
    assert_eq!(emufight::save_state::fnv1a_16(b""), 0x811c ^ 0x9dc5);
}

#[test]
fn checksum_history_is_short_and_sorted() {
    let mut h = BTreeMap::new();
    for f in 0..200 {
        record(&mut h, f, [f as u16; 8]);
    }
    assert_eq!(h.len(), 120);
    record(&mut h, 150, [7; 8]);
    assert_eq!(h.len(), 120);
    assert_eq!(h.keys().copied().collect::<Vec<i32>>(), (80..200).collect::<Vec<i32>>());
    assert_eq!(h[&150], [7; 8]);
    record(&mut h, 3, [3; 8]);
    assert_eq!((h.len(), h.contains_key(&3)), (120, false));
    record(&mut h, 200, [1; 8]);
    assert_eq!((h.len(), h.contains_key(&80), h[&200]), (120, false, [1; 8]));
}

#[test]
fn packets_arrive_when_they_are_due() {
    let (a, b) = (SimAddr(0), SimAddr(1));
    assert_eq!(b.name(), "sim:1");
    let mut link = LinkQueue::new();
    link.send(a, b, "late", 20);
    link.send(a, b, "early", 10);
    link.send(b, a, "back", 5);
    assert_eq!(link.receive(b, 15), vec![(a, "early")]);
    assert_eq!(link.packets_in_flight(), 2);
    assert_eq!(link.receive(b, 20), vec![(a, "late")]);
    assert_eq!(link.receive(b, 99), vec![]);
    assert_eq!(link.receive(a, 5), vec![(b, "back")]);
}

fn held(p1: u8) -> u32 {
    pack_input(&InputState { p1, ..InputState::default() })
}

#[test]
fn a_rollback_replaces_frames() {
    let mut s = OnlineSession::new(true);
    assert_eq!((s.local_handle, s.remote_handle), (0, 1));
    assert_eq!(s.last_inputs(), None);
    s.begin_advance();
    assert_eq!(s.gate(), Gate::Proceed);
    let mut batch = Batch::new(1);
    let run = s.on_advance(&mut batch, held(0xFE), 0);
    assert!(run.shown);
    assert_eq!(run.input.p1, 0xFE);
    assert_eq!(s.finish(&batch, true), Some(false));
    assert_eq!(s.last_inputs(), Some((held(0xFE), 0)));

    // Frame 0 again with another input, then frame 1.
    s.begin_advance();
    let mut batch = Batch::new(2);
    s.on_load(&mut batch, 0);
    assert!(!s.on_advance(&mut batch, held(0xFD), 0).shown);
    assert!(s.on_advance(&mut batch, held(0xFB), 0).shown);
    assert_eq!(s.finish(&batch, true), Some(true));
    assert_eq!(s.get_full_replay_data(), vec![(held(0xFD), 0), (held(0xFB), 0)]);
    assert_eq!(s.get_stats(None).rollback_frames, 1);
    assert_eq!(s.total_advance_calls(), 2);
}

#[test]
fn polls_hand_out_confirmed_frames_once() {
    let mut s = OnlineSession::new(false);
    for f in 0..4 {
        let mut batch = Batch::new(1);
        s.on_advance(&mut batch, held(f), 0);
    }
    assert_eq!(s.pull_recent_inputs(false, 2), vec![]);
    assert_eq!(s.pull_recent_inputs(true, 1), vec![(held(0), 0), (held(1), 0)]);
    assert_eq!(s.pull_recent_inputs(true, 1), vec![]);
    assert_eq!(s.pull_recent_inputs(true, 2), vec![(held(2), 0)]);
    assert_eq!(s.pull_recent_inputs(true, -1), vec![]);
}

#[test]
fn waits_are_bounded_and_counted_down() {
    let mut s = OnlineSession::new(true);
    s.on_event(SessionEvent::WaitRecommendation(3));
    s.on_event(SessionEvent::WaitRecommendation(9));
    assert_eq!(s.get_stats(None).frames_to_wait, 4);
    for _ in 0..4 {
        assert_eq!(s.gate(), Gate::Wait);
    }
    assert_eq!(s.gate(), Gate::Proceed);
}

#[test]
fn fatal_events_end_the_session() {
    let mut s = OnlineSession::new(true);
    s.on_event(SessionEvent::Other);
    assert_eq!(s.gate(), Gate::Proceed);
    s.on_event(SessionEvent::Desync { frame: 12, local: 0xAB, remote: 1 });
    assert_eq!(
        s.error.as_deref(),
        Some(
            "Desync at frame 12 (local=000000000000000000000000000000ab \
             remote=00000000000000000000000000000001)"
        )
    );
    assert_eq!(s.gate(), Gate::Stop);
    let mut s = OnlineSession::new(true);
    s.on_event(SessionEvent::Disconnected);
    assert_eq!(s.error.as_deref(), Some("Remote player disconnected"));
    let mut s = OnlineSession::new(true);
    s.on_save_failed("x");
    assert_eq!(s.error.as_deref(), Some("save_state failed: x"));
    s.on_load_failed("y");
    assert_eq!(s.error.as_deref(), Some("load_state failed: y"));
    s.on_empty_cell(-3);
    assert_eq!(s.error.as_deref(), Some("load_state: empty GGRS cell at frame -3"));
}

#[test]
fn saved_states_get_a_checksum() {
    let mut s = OnlineSession::new(true);
    assert_eq!(s.on_saved(3, b"a", None), 0xaf63_dc4c_8601_ec8c);
    assert!(s.local_checksums.is_empty());
    assert_eq!(s.on_saved(3, b"a", Some([1, 0, 0, 0, 0, 0, 0, 0])), 1);
    assert_eq!(s.local_checksums.len(), 1);
    let stats = s.get_stats(Some(LinkStats {
        ping_ms: 30,
        local_frames_behind: 1,
        remote_frames_behind: -1,
        send_queue_len: 2,
        kbps_sent: 9,
    }));
    assert_eq!((stats.ping_ms, stats.remote_frames_behind, stats.kbps_sent), (30, -1, 9));
}

fn payload(frames: &[(u32, u32)]) -> Vec<u8> {
    let mut v = Vec::new();
    for (a, b) in frames {
        v.extend(a.to_le_bytes());
        v.extend(b.to_le_bytes());
    }
    v
}

#[test]
fn spectators_take_whole_frames_only() {
    let mut s = OnlineSpectatorSession::new(vec![9]);
    assert_eq!(s.status(), "WAITING FOR INPUTS…");
    assert_eq!(s.advance(), None);
    let mut bytes = payload(&[(held(0xFE), 0), (held(0xFD), 0)]);
    bytes.push(1);
    s.push_inputs(&bytes);
    s.push_catchup(&[1, 2, 3]);
    assert_eq!((s.total_frames(), s.buffered_frames()), (2, 2));
    assert_eq!(s.status(), "SPECTATING  (2 buffered)");
    assert_eq!(s.advance().unwrap().p1, 0xFE);
    assert_eq!(s.last_inputs(), (held(0xFE), 0));
    assert_eq!(s.current_frame(), 1);
    assert_eq!(s.catch_up_batch(9).len(), 1);
    assert_eq!(s.advance(), None);
    s.push_inputs(&payload(&[(0, 0); 61]));
    assert_eq!(s.status(), "CATCHING UP  (61 behind)");
}

#[test]
fn checkpoints_shorten_rewinds() {
    let mut s = OnlineSpectatorSession::new(vec![0]);
    s.push_inputs(&payload(&[(0, 0); 400]));
    for f in 1..=400usize {
        s.advance();
        if s.wants_checkpoint() {
            assert_eq!(f % 180, 0);
            s.store_checkpoint(vec![f as u8]);
        }
    }
    assert_eq!(s.checkpoints.iter().map(|c| c.cursor).collect::<Vec<_>>(), vec![180, 360]);
    assert_eq!(s.best_checkpoint_cursor(359), Some(180));
    assert_eq!(s.best_checkpoint_cursor(100), None);
    let mut last = None;
    for max in 0..=400 {
        let best = s.best_checkpoint_cursor(max);
        assert!(best >= last && best.map_or(true, |c| c <= max && c % 180 == 0));
        last = best;
    }
    assert_eq!(last, Some(360));
    let anchors = s.anchors(359);
    assert_eq!(anchors.iter().map(|c| c.cursor).collect::<Vec<_>>(), vec![180, 0]);
    assert_eq!(
        s.seek_progress(200, 0, 5, false),
        SeekAction::Restore { max_cursor: 199, target: 200 }
    );
    assert!(s.anchor_restored(Some(180)));
    assert!(matches!(s.seek_progress(200, 0, 5, false), SeekAction::Headless(_)));
    assert_eq!(
        s.seek_progress(200, 5, 5, false),
        SeekAction::Report(SeekProgress::InProgress { cursor: 181, target: 200 })
    );
    assert!(!s.anchor_restored(None));
}

#[test]
fn seeks_stay_within_the_log() {
    let mut s = OnlineSpectatorSession::new(vec![0]);
    assert_eq!(s.seek_progress(5, 0, 5, false), SeekAction::Report(SeekProgress::Failed));
    s.push_inputs(&payload(&[(0, 0); 3]));
    assert!(matches!(s.seek_progress(-4, 0, 5, false), SeekAction::Visible(_)));
    assert!(matches!(s.seek_progress(99, 0, 5, false), SeekAction::Headless(_)));
    assert!(matches!(s.seek_progress(99, 0, 5, true), SeekAction::Visible(_)));
    assert_eq!(
        s.seek_progress(99, 0, 5, false),
        SeekAction::Report(SeekProgress::Done { cursor: 3 })
    );
    assert_eq!((step_cap(100, true), step_cap(100, false), step_cap(5, true)), (12, 100, 5));
}

#[test]
fn a_seed_moves_the_origin() {
    let mut s = OnlineSpectatorSession::new(vec![0]);
    s.push_inputs(&payload(&[(0, 0); 3]));
    assert!(!s.seed_from_checkpoint(false, 50, &[1]));
    assert_eq!(s.total_frames(), 3);
    assert!(s.seed_from_checkpoint(true, 50, &[1]));
    assert_eq!((s.total_frames(), s.current_frame()), (0, 50));
    assert_eq!(s.boot_state, vec![1]);
}
