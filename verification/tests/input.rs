use emufight::io::{combine_ext, combine_peers, pack_input, unpack_input, InputState};

#[test]
fn pack_unpack_round_trips_per_peer_fields() {
    // A single peer's input: joystick+buttons in p1, own E/F in ext bits 0-1.
    let peer = InputState {
        p1: 0b1010_0101,
        p2: 0xFF, // unused on the wire
        sys: 0b1111_1010,
        coin: 0b0011_1110,
        ext: 0b0000_1101,
    };
    let back = unpack_input(pack_input(&peer));
    assert_eq!(back.p1, peer.p1);
    assert_eq!(back.sys, peer.sys);
    assert_eq!(back.coin, peer.coin);
    assert_eq!(back.ext, peer.ext, "ext must survive the wire round-trip");
    assert_eq!(back.p2, 0xFF, "p2 is not carried per-peer");
}

#[test]
fn idle_input_encodes_to_zero_for_ggrs_blank_frames() {
    // Blank and predicted inputs are all-zero words, so "nothing pressed" has to encode to
    // zero.
    assert_eq!(pack_input(&InputState::default()), 0, "idle input must pack to zero");

    let blank = unpack_input(0);
    assert_eq!(blank.p1, 0xFF, "blank frame: no P1 buttons pressed");
    assert_eq!(blank.sys, 0xFF, "blank frame: no Start/Select pressed");
    assert_eq!(blank.coin, 0x3F, "blank frame: no coin inserted");
    assert_eq!(blank.ext, 0x0F, "blank frame: no E/F pressed");
}

#[test]
fn combine_ext_maps_each_peer_to_correct_player() {
    // All released.
    assert_eq!(combine_ext(0x0F, 0x0F), 0x0F);

    // Peer 0 presses E (bit0=0) -> combined P1E (bit0=0).
    assert_eq!(combine_ext(0b1110, 0x0F) & 0x01, 0x00);
    // Peer 1 presses F (bit1=0) -> combined P2F (bit3=0).
    assert_eq!(combine_ext(0x0F, 0b1101) & 0x08, 0x00);
    // Peer 0's buttons never leak into the P2 nibble.
    assert_eq!(combine_ext(0b1100, 0x0F) & 0x0C, 0x0C);
}

#[test]
fn peers_combine_into_two_players() {
    let host = InputState { p1: 0xEF, p2: 0xFF, sys: 0xFE, coin: 0x3F, ext: 0x0E };
    let guest = InputState { p1: 0xDF, p2: 0xFF, sys: 0xFE, coin: 0x3E, ext: 0x0D };
    let both = combine_peers(pack_input(&host), pack_input(&guest));
    assert_eq!(both.p1, 0xEF);
    assert_eq!(both.p2, 0xDF);
    // The guest's Start and coin arrive as those of player 2.
    assert_eq!(both.sys, 0xFA);
    assert_eq!(both.coin, 0x3D);
    assert_eq!(both.ext, 0b0110);
}
