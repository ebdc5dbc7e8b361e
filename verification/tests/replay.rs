use emufight::io::InputState;
use emufight::replay::{compressed_file, DeflateError, InputDriver, ReplaySession};

fn make_input(p1: u8) -> InputState {
    InputState { p1, p2: 0xFF, sys: 0xFF, coin: 0xFF, ext: 0x0F }
}

#[test]
fn live_driver_passes_through_input() {
    let mut driver = InputDriver::live();
    let live = make_input(0xFE); // button A held
    let out = driver.next_frame(0, live.clone());
    assert_eq!(out.p1, 0xFE);
}

#[test]
fn record_stores_and_replay_reproduces() {
    let (path, file) = {
        let mut driver = InputDriver::new_record("neo_test_replay.nrb");
        driver.next_frame(0, make_input(0xFF)); // idle
        driver.next_frame(1, make_input(0xFE)); // A pressed
        driver.next_frame(2, make_input(0xFD)); // B pressed
        driver.save_if_recording().unwrap().unwrap()
    };
    assert_eq!(path, "neo_test_replay.nrb");
    assert_eq!(&file[..2], &[0x78, 0x9C]);

    let mut driver = InputDriver::new_replay(&file).unwrap_or_else(|e| panic!("{e}"));
    let f0 = driver.next_frame(0, make_input(0x00));
    let f1 = driver.next_frame(1, make_input(0x00));
    let f2 = driver.next_frame(2, make_input(0x00));
    assert_eq!(f0.p1, 0xFF, "frame 0: idle");
    assert_eq!(f1.p1, 0xFE, "frame 1: A pressed");
    assert_eq!(f2.p1, 0xFD, "frame 2: B pressed");
}

#[test]
fn live_play_has_nothing_to_save() {
    assert!(InputDriver::live().save_if_recording().unwrap().is_none());
}

#[test]
fn plain_replays_are_read_too() {
    let mut raw = Vec::new();
    raw.extend(0x0000_0001u32.to_le_bytes());
    raw.extend(0u32.to_le_bytes());
    let mut s = ReplaySession::from_bytes(&raw).unwrap_or_else(|e| panic!("{e}"));
    assert!(!s.is_done(0));
    assert_eq!(s.next_frame(0).p1, 0xFE);
    assert!(s.is_done(1));
    // The last frame repeats.
    assert_eq!(s.next_frame(1).p1, 0xFE);
}

#[test]
fn broken_replays_are_refused() {
    let err = ReplaySession::from_bytes(&[1, 2, 3]).err().unwrap();
    assert_eq!(err, "replay bytemuck cast: OutputSliceWouldHaveSlop");
    let err = ReplaySession::from_bytes(&[0x78, 0x9C, 0xFF, 0xFF]).err().unwrap();
    assert!(err.starts_with("replay decompress: "), "{err}");
}

#[test]
fn empty_replays_press_nothing() {
    let mut s = ReplaySession::from_raw(&[]).unwrap_or_else(|e| panic!("{e}"));
    assert_eq!(s.next_frame(0), InputState::default());
    assert!(s.is_done(0));
}

#[test]
fn compressor_errors_are_reported() {
    assert_eq!(compressed_file(Ok(vec![1])), Ok(vec![1]));
    let full = || "full".to_string();
    assert_eq!(
        compressed_file(Err(DeflateError::Write(full()))),
        Err("replay compress: full".to_string())
    );
    assert_eq!(
        compressed_file(Err(DeflateError::Finish(full()))),
        Err("replay compress finish: full".to_string())
    );
}

#[test]
fn both_players_survive_a_recording() {
    let mut rec = InputDriver::new_record("x");
    let frame = InputState { p1: 0xEF, p2: 0xDF, sys: 0xFA, coin: 0x3D, ext: 0b0110 };
    rec.next_frame(0, frame);
    let (_, file) = rec.save_if_recording().unwrap().unwrap();
    let mut play = InputDriver::new_replay(&file).unwrap_or_else(|e| panic!("{e}"));
    assert_eq!(play.next_frame(0, InputState::default()), frame);
}

#[test]
fn equal_recordings_make_equal_files() {
    let record = |frames: u32| {
        let mut rec = InputDriver::new_record("x");
        for f in 0..frames {
            rec.next_frame(u64::from(f), make_input((f.wrapping_mul(2_654_435_761) >> 24) as u8));
        }
        rec.save_if_recording().unwrap().unwrap().1
    };
    assert_eq!(record(20_000), record(20_000));
    assert_ne!(record(3), record(4));
    let mut play = InputDriver::new_replay(&record(20_000)).unwrap_or_else(|e| panic!("{e}"));
    for f in 0..20_000u32 {
        let seen = play.next_frame(u64::from(f), InputState::default());
        assert_eq!(seen, make_input((f.wrapping_mul(2_654_435_761) >> 24) as u8));
    }
}

#[test]
fn an_empty_recording_can_be_saved() {
    let (path, file) = InputDriver::new_record("e").save_if_recording().unwrap().unwrap();
    assert_eq!(path, "e");
    let mut play = InputDriver::new_replay(&file).unwrap_or_else(|e| panic!("{e}"));
    assert_eq!(play.next_frame(0, make_input(0)), InputState::default());
}
