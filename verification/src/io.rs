//! Player input: the per-frame input state and its 32-bit per-peer wire form.

use vstd::prelude::*;

verus! {

/// One frame of player input.  All bytes are **active-low**: a cleared bit
/// means the button or switch is pressed.
///
/// | field  | register     | bits                                        |
/// |--------|--------------|---------------------------------------------|
/// | `p1`   | REG_P1CNT    | 0=Up 1=Down 2=Left 3=Right 4=A 5=B 6=C 7=D  |
/// | `p2`   | REG_P2CNT    | same as `p1`                                |
/// | `sys`  | REG_STATUS_B | 0=P1-Start 1=P1-Sel 2=P2-Start 3=P2-Sel     |
/// |        |              | 4=memcard-in(0=in) 5=WP 7=MVS(1)/AES(0)     |
/// | `coin` | REG_STATUS_A | coin slots and service (active low)         |
/// | `ext`  | -            | 0=P1E 1=P1F 2=P2E 3=P2F (6-button games)    |
#[derive(Debug, Clone, Copy, PartialEq, Eq, Structural)]
pub struct InputState {
    pub p1: u8,
    pub p2: u8,
    pub sys: u8,
    pub coin: u8,
    pub ext: u8,
}

impl InputState {
    /// The state in which nothing is pressed.
    pub open spec fn idle() -> InputState {
        InputState { p1: 0xFF, p2: 0xFF, sys: 0xFF, coin: 0x3F, ext: 0x0F }
    }
}

impl Default for InputState {
    /// "No buttons pressed": MVS idle (bit 7 high), all coin slots idle.
    fn default() -> (r: Self)
        ensures
            r == InputState::idle(),
    {
        InputState { p1: 0xFF, p2: 0xFF, sys: 0xFF, coin: 0x3F, ext: 0x0F }
    }
}

/// One peer's input as it travels over the network and into replay files.
pub type PackedInput = u32;

/// Raw active-low packing of the idle [`InputState`].  Every packed value is
/// XORed with it, so that "nothing pressed" is the all-zero word which rollback
/// sessions use for blank and predicted frames.
pub const PACK_IDLE_XOR: u32 = 0x3FFF_0FFF;

/// The wire form of one peer's input: `p1`, `ext`, `sys` and `coin` from the low
/// byte up, relative to the idle state.
pub open spec fn packed(input: InputState) -> u32 {
    ((input.p1 as u32) | ((input.ext as u32) << 8) | ((input.sys as u32) << 16) | ((
    input.coin as u32) << 24)) ^ PACK_IDLE_XOR
}

/// The input state that a wire word stands for.
pub open spec fn unpacked(word: u32) -> InputState {
    let raw = word ^ PACK_IDLE_XOR;
    InputState {
        p1: (raw & 0xff) as u8,
        p2: 0xFF,
        sys: ((raw >> 16) & 0xff) as u8,
        coin: ((raw >> 24) & 0xff) as u8,
        ext: ((raw >> 8) & 0xff) as u8,
    }
}

/// E/F buttons of two peers merged: the first peer's in bits 0-1, the second's in
/// bits 2-3.
pub open spec fn combined_ext(p0_ext: u8, p1_ext: u8) -> u8 {
    (p0_ext & 0x03) | ((p1_ext & 0x03) << 2)
}

/// Pack a single peer's input.  `p2` does not travel: the other peer's `p1`
/// supplies it.
pub fn pack_input(input: &InputState) -> (r: PackedInput)
    ensures
        r == packed(*input),
{
    let raw: u32 = (input.p1 as u32) | ((input.ext as u32) << 8) | ((input.sys as u32) << 16) | ((
    input.coin as u32) << 24);
    raw ^ PACK_IDLE_XOR
}

/// Decode a single peer's input; `p2` reads as "released".
pub fn unpack_input(packed: PackedInput) -> (r: InputState)
    ensures
        r == unpacked(packed),
{
    let raw: u32 = packed ^ PACK_IDLE_XOR;
    InputState {
        p1: (raw & 0xff) as u8,
        p2: 0xFF,
        sys: ((raw >> 16) & 0xff) as u8,
        coin: ((raw >> 24) & 0xff) as u8,
        ext: ((raw >> 8) & 0xff) as u8,
    }
}

/// Merge two per-peer `ext` nibbles into the combined layout (P1 E/F in bits 0-1,
/// P2 E/F in bits 2-3).
pub fn combine_ext(p0_ext: u8, p1_ext: u8) -> (r: u8)
    ensures
        r == combined_ext(p0_ext, p1_ext),
{
    (p0_ext & 0x03) | ((p1_ext & 0x03) << 2)
}

/// The input of both players from two peers who each play with the first player's
/// controls: the second peer's Start and coin become player 2's.
pub open spec fn peers_combined(p0: InputState, p1: InputState) -> InputState {
    InputState {
        p1: p0.p1,
        p2: p1.p1,
        sys: if p1.sys & 0x01 == 0 { p0.sys & 0xFB } else { p0.sys },
        coin: if p1.coin & 0x01 == 0 { p0.coin & 0xFD } else { p0.coin },
        ext: combined_ext(p0.ext, p1.ext),
    }
}

/// Combine two peers' packed inputs into one frame's input.
pub fn combine_peers(p0_packed: PackedInput, p1_packed: PackedInput) -> (r: InputState)
    ensures
        r == peers_combined(unpacked(p0_packed), unpacked(p1_packed)),
{
    let p0 = unpack_input(p0_packed);
    let p1 = unpack_input(p1_packed);
    let mut sys: u8 = p0.sys;
    if p1.sys & 0x01 == 0 {
        sys = sys & 0xFB;
    }
    let mut coin: u8 = p0.coin;
    if p1.coin & 0x01 == 0 {
        coin = coin & 0xFD;
    }
    InputState { p1: p0.p1, p2: p1.p1, sys, coin, ext: combine_ext(p0.ext, p1.ext) }
}

/// Decoding undoes packing on every field that travels, and packing undoes
/// decoding on every word.
pub proof fn pack_unpack_inverse(input: InputState, word: u32)
    ensures
        unpacked(packed(input)) == (InputState { p2: 0xFF, ..input }),
        packed(unpacked(word)) == word,
{
    let p1 = input.p1;
    let ext = input.ext;
    let sys = input.sys;
    let coin = input.coin;
    assert({
        let raw = (((p1 as u32) | ((ext as u32) << 8) | ((sys as u32) << 16) | ((coin as u32)
            << 24)) ^ 0x3FFF_0FFF) ^ 0x3FFF_0FFF;
        &&& (raw & 0xff) as u8 == p1
        &&& ((raw >> 8) & 0xff) as u8 == ext
        &&& ((raw >> 16) & 0xff) as u8 == sys
        &&& ((raw >> 24) & 0xff) as u8 == coin
    }) by (bit_vector);
    assert({
        let raw = word ^ 0x3FFF_0FFF;
        ((((raw & 0xff) as u8) as u32) | ((((raw >> 8) & 0xff) as u8 as u32) << 8) | ((((raw >> 16)
            & 0xff) as u8 as u32) << 16) | ((((raw >> 24) & 0xff) as u8 as u32) << 24))
            ^ 0x3FFF_0FFF == word
    }) by (bit_vector);
}

/// The all-zero word and the idle state stand for each other, so blank frames
/// press nothing.
pub proof fn idle_is_zero()
    ensures
        packed(InputState::idle()) == 0,
        unpacked(0) == InputState::idle(),
{
    assert({
        let raw = 0u32 ^ 0x3FFF_0FFF;
        &&& (raw & 0xff) as u8 == 0xFF
        &&& ((raw >> 8) & 0xff) as u8 == 0x0F
        &&& ((raw >> 16) & 0xff) as u8 == 0xFF
        &&& ((raw >> 24) & 0xff) as u8 == 0x3F
    }) by (bit_vector);
    pack_unpack_inverse(InputState::idle(), 0);
}

/// Each peer's own E/F buttons reach exactly that player's two bits of the
/// combined nibble, whatever else the peers send.
pub proof fn combined_ext_routes_each_peer(a: u8, b: u8)
    ensures
        combined_ext(a, b) & 0x03 == a & 0x03,
        combined_ext(a, b) >> 2 == b & 0x03,
        combined_ext(0x0F, 0x0F) == 0x0F,
        combined_ext(a, b) <= 0x0F,
{
    assert({
        let c = (a & 0x03) | ((b & 0x03) << 2);
        &&& c & 0x03 == a & 0x03
        &&& c >> 2 == b & 0x03
        &&& c <= 0x0F
        &&& (0x0Fu8 & 0x03) | ((0x0Fu8 & 0x03) << 2) == 0x0F
    }) by (bit_vector);
}

/// Whether bit `k` of an active-low byte is held down.
pub open spec fn held(b: u8, k: u8) -> bool {
    (b >> k) & 1 == 0
}

/// Each peer plays one player.  The first peer's buttons, switches and coins are player 1's,
/// bit for bit; of the second peer's, the buttons are player 2's, Start (bit 0) shows as player
/// 2's Start (bit 2) and the coin (bit 0) as the second slot (bit 1), and nothing else of it
/// shows anywhere.  E and F go to the two low bits for the first and to the next two for the
/// second.
pub proof fn peers_keep_to_their_players(a: InputState, b: InputState, k: u8)
    requires
        k < 8,
    ensures
        ({
            let r = peers_combined(a, b);
            &&& held(r.p1, k) == held(a.p1, k)
            &&& held(r.p2, k) == held(b.p1, k)
            &&& k != 2 ==> held(r.sys, k) == held(a.sys, k)
            &&& held(r.sys, 2) == (held(a.sys, 2) || held(b.sys, 0))
            &&& k != 1 ==> held(r.coin, k) == held(a.coin, k)
            &&& held(r.coin, 1) == (held(a.coin, 1) || held(b.coin, 0))
            &&& k < 2 ==> held(r.ext, k) == held(a.ext, k)
            &&& k < 2 ==> held(r.ext, (k + 2) as u8) == held(b.ext, k)
            &&& r.ext < 16
        }),
{
    let (s, c, x, y) = (a.sys, a.coin, a.ext, b.ext);
    let e = combined_ext(x, y);
    let k2 = (k + 2) as u8;
    let (u, w) = (b.sys, b.coin);
    assert((k != 2 ==> ((s & 0xFB) >> k) & 1 == (s >> k) & 1) && ((s & 0xFB) >> 2) & 1 == 0 && (k != 1 ==> ((c
        & 0xFD) >> k) & 1 == (c >> k) & 1) && ((c & 0xFD) >> 1) & 1 == 0 && (k < 2 ==> (e >> k) & 1 == (x >> k)
        & 1) && (k < 2 ==> (e >> k2) & 1 == (y >> k) & 1) && e < 16 && u >> 0 == u && w >> 0 == w) by (bit_vector)
        requires
            k < 8,
            k2 == k + 2,
            e == (x & 0x03) | ((y & 0x03) << 2),
    ;
}

/// What the second peer holds never changes what player 1 holds, and the first peer's buttons
/// never show as player 2's.
pub proof fn peers_do_not_touch_each_other(a: InputState, b: InputState, c: InputState, k: u8)
    requires
        k < 8,
    ensures
        peers_combined(a, b).p1 == peers_combined(a, c).p1,
        k != 2 ==> held(peers_combined(a, b).sys, k) == held(peers_combined(a, c).sys, k),
        k != 1 ==> held(peers_combined(a, b).coin, k) == held(peers_combined(a, c).coin, k),
        k < 2 ==> held(peers_combined(a, b).ext, k) == held(peers_combined(a, c).ext, k),
        peers_combined(a, b).p2 == peers_combined(c, b).p2,
        k < 2 ==> held(peers_combined(a, b).ext, (k + 2) as u8) == held(
            peers_combined(c, b).ext,
            (k + 2) as u8,
        ),
{
    peers_keep_to_their_players(a, b, k);
    peers_keep_to_their_players(a, c, k);
    peers_keep_to_their_players(c, b, k);
}

/// The wire word, byte by byte from the low end: buttons, E and F, switches, coins; a set bit is
/// one that differs from the idle state.
pub proof fn wire_word_by_bytes(input: InputState)
    ensures
        packed(input) % 0x100 == input.p1 ^ 0xFF,
        (packed(input) / 0x100) % 0x100 == input.ext ^ 0x0F,
        (packed(input) / 0x1_0000) % 0x100 == input.sys ^ 0xFF,
        packed(input) / 0x100_0000 == input.coin ^ 0x3F,
        unpacked(packed(input)).p2 == InputState::idle().p2,
{
    let w = packed(input);
    let (p, e, s, c) = (input.p1, input.ext, input.sys, input.coin);
    assert(w % 0x100 == (p ^ 0xFF) && (w / 0x100) % 0x100 == (e ^ 0x0F) && (w / 0x1_0000) % 0x100 == (s
        ^ 0xFF) && w / 0x100_0000 == (c ^ 0x3F)) by (bit_vector)
        requires
            w == ((p as u32) | ((e as u32) << 8) | ((s as u32) << 16) | ((c as u32) << 24)) ^ 0x3FFF_0FFF,
    ;
    pack_unpack_inverse(input, 0);
}

/// Receives one rendered RGB24 frame.
pub trait VideoSink {
    fn present(&mut self, frame: &[u8]);
}

/// Polls the host's events and returns the current input state.
pub trait InputSource {
    /// Process pending events and return the inputs, and whether the user wants to quit.
    fn poll(&mut self) -> (InputState, bool);
}

} // verus!
