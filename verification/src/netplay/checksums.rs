//! State checksums that peers compare: eight 16-bit lanes in one 128-bit word, and the
//! recent history of them.

use std::collections::BTreeMap;
use vstd::prelude::*;
use vstd::std_specs::cmp::OrdSpec;

verus! {

/// Frames whose checksums are remembered.
pub const HISTORY_FRAMES: usize = 120;

/// 64-bit FNV-1a hash.
pub open spec fn fnv1a_64(data: Seq<u8>) -> u64
    decreases data.len(),
{
    if data.len() == 0 {
        0xcbf2_9ce4_8422_2325
    } else {
        (fnv1a_64(data.drop_last()) ^ (data.last() as u64)).wrapping_mul(0x0000_0100_0000_01b3)
    }
}

/// Compute the 64-bit FNV-1a hash of some bytes.
pub fn fnv1a(data: &[u8]) -> (r: u64)
    ensures
        r == fnv1a_64(data@),
{
    let mut hash: u64 = 0xcbf2_9ce4_8422_2325;
    let mut i: usize = 0;
    assert(data@.take(0) =~= Seq::<u8>::empty());
    while i < data.len()
        invariant
            i <= data@.len(),
            hash == fnv1a_64(data@.take(i as int)),
        decreases data@.len() - i,
    {
        assert(data@.take(i + 1).drop_last() =~= data@.take(i as int));
        hash = (hash ^ data[i] as u64).wrapping_mul(0x0000_0100_0000_01b3);
        i = i + 1;
    }
    assert(data@.take(i as int) =~= data@);
    hash
}

/// Eight lanes in one word, the first in the low bits.
pub open spec fn packed_lanes(h: Seq<u16>) -> u128 {
    (h[0] as u128) | ((h[1] as u128) << 16) | ((h[2] as u128) << 32) | ((h[3] as u128) << 48) | ((
    h[4] as u128) << 64) | ((h[5] as u128) << 80) | ((h[6] as u128) << 96) | ((h[7] as u128) << 112)
}

/// The lanes of a word.
pub open spec fn lanes_of(c: u128) -> Seq<u16> {
    seq![
        (c & 0xFFFF) as u16,
        ((c >> 16) & 0xFFFF) as u16,
        ((c >> 32) & 0xFFFF) as u16,
        ((c >> 48) & 0xFFFF) as u16,
        ((c >> 64) & 0xFFFF) as u16,
        ((c >> 80) & 0xFFFF) as u16,
        ((c >> 96) & 0xFFFF) as u16,
        ((c >> 112) & 0xFFFF) as u16,
    ]
}

/// Pack eight lanes into one word.
pub fn pack_checksums(hashes: &[u16; 8]) -> (r: u128)
    ensures
        r == packed_lanes(hashes@),
{
    (hashes[0] as u128) | ((hashes[1] as u128) << 16) | ((hashes[2] as u128) << 32) | ((
    hashes[3] as u128) << 48) | ((hashes[4] as u128) << 64) | ((hashes[5] as u128) << 80) | ((
    hashes[6] as u128) << 96) | ((hashes[7] as u128) << 112)
}

/// The eight lanes of a word.
pub fn unpack_checksums(checksum: u128) -> (r: [u16; 8])
    ensures
        r@ == lanes_of(checksum),
{
    let r = [
        (checksum & 0xFFFF) as u16,
        ((checksum >> 16) & 0xFFFF) as u16,
        ((checksum >> 32) & 0xFFFF) as u16,
        ((checksum >> 48) & 0xFFFF) as u16,
        ((checksum >> 64) & 0xFFFF) as u16,
        ((checksum >> 80) & 0xFFFF) as u16,
        ((checksum >> 96) & 0xFFFF) as u16,
        ((checksum >> 112) & 0xFFFF) as u16,
    ];
    assert(r@ =~= lanes_of(checksum));
    r
}

/// Frames and their lanes.
pub type History = Map<i32, [u16; 8]>;

/// Whether `frame` is the first one of a history.
pub open spec fn is_oldest(h: History, frame: i32) -> bool {
    h.contains_key(frame) && forall|f: i32| #[trigger] h.contains_key(f) ==> frame <= f
}

/// The first frame of a history.
pub open spec fn oldest(h: History) -> i32 {
    choose|frame: i32| is_oldest(h, frame)
}

/// The history after a frame was saved: no more than the allowed frames, the oldest goes.
pub open spec fn recorded(h: History, frame: i32, lanes: [u16; 8]) -> History {
    let w = h.insert(frame, lanes);
    if w.dom().len() > HISTORY_FRAMES { w.remove(oldest(w)) } else { w }
}

/// Record the lanes of a frame.
pub fn record(history: &mut BTreeMap<i32, [u16; 8]>, frame: i32, lanes: [u16; 8])
    ensures
        final(history)@ == recorded(old(history)@, frame, lanes),
{
    broadcast use {vstd::std_specs::btree::group_btree_axioms, vstd::laws_cmp::group_laws_cmp};

    let _ = history.insert(frame, lanes);
    if history.len() > HISTORY_FRAMES {
        let first = first_frame(history);
        if let Some(min) = first {
            let _ = history.remove(&min);
        }
    }
}

/// The first frame of a history.
fn first_frame(history: &BTreeMap<i32, [u16; 8]>) -> (r: Option<i32>)
    ensures
        history@.dom().len() == 0 <==> r is None,
        r matches Some(frame) ==> is_oldest(history@, frame) && frame == oldest(history@),
{
    broadcast use {vstd::std_specs::btree::group_btree_axioms, vstd::laws_cmp::group_laws_cmp};

    for frame in keys: history.keys()
        invariant
            keys.index() == 0,
            keys.seq().unref().to_set() == history@.dom(),
            keys.seq().len() == history@.dom().len(),
            vstd::std_specs::btree::increasing_seq(keys.seq()),
    {
        proof {
            let all = keys.seq().unref();
            assert(vstd::laws_cmp::obeys_cmp::<&i32>());
            assert(all[0] == *frame);
            assert(all.to_set().contains(*frame));
            assert forall|f: i32| #[trigger] history@.contains_key(f) implies *frame <= f by {
                assert(all.to_set().contains(f));
                let i = all.index_of(f);
                assert(all[i] == *keys.seq()[i]);
                if i > 0 {
                    assert(OrdSpec::cmp_spec(&keys.seq()[0], &keys.seq()[i]) is Less);
                }
            }
            assert(is_oldest(history@, *frame));
        }
        return Some(*frame);
    }
    None
}

// ── Laws ─────────────────────────────────────────────────────────────────────

/// Packing keeps every lane: unpacking gives them back.
pub proof fn packed_lanes_unpack(h: Seq<u16>)
    requires
        h.len() == 8,
    ensures
        lanes_of(packed_lanes(h)) == h,
{
    let (a, b, c, d) = (h[0], h[1], h[2], h[3]);
    let (e, f, g, k) = (h[4], h[5], h[6], h[7]);
    let w = packed_lanes(h);
    assert((w & 0xFFFF) as u16 == a && ((w >> 16) & 0xFFFF) as u16 == b && ((w >> 32) & 0xFFFF) as u16 == c
        && ((w >> 48) & 0xFFFF) as u16 == d && ((w >> 64) & 0xFFFF) as u16 == e && ((w >> 80) & 0xFFFF) as u16
        == f && ((w >> 96) & 0xFFFF) as u16 == g && ((w >> 112) & 0xFFFF) as u16 == k) by (bit_vector)
        requires
            w == (a as u128) | ((b as u128) << 16) | ((c as u128) << 32) | ((d as u128) << 48) | ((
            e as u128) << 64) | ((f as u128) << 80) | ((g as u128) << 96) | ((k as u128) << 112),
    ;
    assert(lanes_of(w) =~= h);
}

/// Every word is the packing of its lanes, so equal lanes mean equal checksums.
pub proof fn unpacked_lanes_pack(w: u128)
    ensures
        packed_lanes(lanes_of(w)) == w,
{
    assert((((w & 0xFFFF) as u16) as u128) | ((((w >> 16) & 0xFFFF) as u16) as u128) << 16 | ((((w >> 32)
        & 0xFFFF) as u16) as u128) << 32 | ((((w >> 48) & 0xFFFF) as u16) as u128) << 48 | ((((w >> 64)
        & 0xFFFF) as u16) as u128) << 64 | ((((w >> 80) & 0xFFFF) as u16) as u128) << 80 | ((((w >> 96)
        & 0xFFFF) as u16) as u128) << 96 | ((((w >> 112) & 0xFFFF) as u16) as u128) << 112 == w) by (
        bit_vector);
}

/// The first frame of a history that holds one is found.
proof fn some_frame_is_oldest(h: History)
    requires
        h.dom().finite(),
        h.dom().len() > 0,
    ensures
        is_oldest(h, oldest(h)),
    decreases h.dom().len(),
{
    let k = h.dom().choose();
    let rest = h.remove(k);
    assert(rest.dom() =~= h.dom().remove(k));
    if rest.dom().len() == 0 {
        assert forall|f: i32| #[trigger] h.contains_key(f) implies k <= f by {
            if f != k {
                assert(rest.dom().contains(f));
            }
        }
        assert(is_oldest(h, k));
    } else {
        some_frame_is_oldest(rest);
        let m = oldest(rest);
        let n = if k <= m { k } else { m };
        assert forall|f: i32| #[trigger] h.contains_key(f) implies n <= f by {
            if f != k {
                assert(rest.contains_key(f));
            }
        }
        assert(is_oldest(h, n));
    }
}

/// Recording keeps the history short and drops nothing but its oldest frame; the frame just
/// saved is in it unless it is older than everything in a full history.
pub proof fn history_stays_short(h: History, frame: i32, lanes: [u16; 8])
    requires
        h.dom().finite(),
        h.dom().len() <= HISTORY_FRAMES,
    ensures
        recorded(h, frame, lanes).dom().finite(),
        recorded(h, frame, lanes).dom().len() <= HISTORY_FRAMES,
        forall|f: i32| #[trigger] recorded(h, frame, lanes).contains_key(f) ==> f == frame || h.contains_key(f),
        forall|f: i32| #[trigger] h.contains_key(f) ==> recorded(h, frame, lanes).contains_key(f) || is_oldest(
            h.insert(frame, lanes),
            f,
        ),
        h.dom().len() < HISTORY_FRAMES || h.contains_key(frame) || (exists|f: i32|
            h.contains_key(f) && f < frame) ==> recorded(h, frame, lanes).contains_key(frame) && recorded(
            h,
            frame,
            lanes,
        )[frame] == lanes,
{
    let w = h.insert(frame, lanes);
    assert(w.dom() =~= h.dom().insert(frame));
    if w.dom().len() > HISTORY_FRAMES {
        some_frame_is_oldest(w);
        assert(w.remove(oldest(w)).dom() =~= w.dom().remove(oldest(w)));
        if exists|f: i32| h.contains_key(f) && f < frame {
            let f = choose|f: i32| h.contains_key(f) && f < frame;
            assert(w.contains_key(f));
        }
    }
}

/// The first lane is the lowest: each is worth 65536 times the one before it.
pub proof fn lanes_are_digits(h: Seq<u16>)
    requires
        h.len() == 8,
    ensures
        packed_lanes(h) == h[0] + 0x1_0000 * (h[1] + 0x1_0000 * (h[2] + 0x1_0000 * (h[3] + 0x1_0000 * (h[4] + 0x1_0000
            * (h[5] + 0x1_0000 * (h[6] + 0x1_0000 * h[7])))))),
{
    let (a, b, c, d) = (h[0], h[1], h[2], h[3]);
    let (e, f, g, k) = (h[4], h[5], h[6], h[7]);
    assert((a as u128) | ((b as u128) << 16) | ((c as u128) << 32) | ((d as u128) << 48) | ((e as u128) << 64) | ((
    f as u128) << 80) | ((g as u128) << 96) | ((k as u128) << 112) == a + 0x1_0000 * (b + 0x1_0000 * (c + 0x1_0000 * (d
        + 0x1_0000 * (e + 0x1_0000 * (f + 0x1_0000 * (g + 0x1_0000 * k))))))) by (bit_vector);
}

/// The hash starts from its offset basis and takes each byte in by exclusive or and a
/// multiplication by its prime.
pub proof fn hash_takes_bytes_in_turn(data: Seq<u8>, b: u8)
    ensures
        fnv1a_64(Seq::empty()) == 14695981039346656037,
        fnv1a_64(data.push(b)) == ((fnv1a_64(data) ^ (b as u64)) * 1099511628211) % 0x1_0000_0000_0000_0000,
{
    assert(data.push(b).drop_last() =~= data);
}

/// A history holds 120 frames: a frame after all of a full history goes in and its first one goes
/// out, and before that none goes.
pub proof fn history_slides(h: History, frame: i32, lanes: [u16; 8], f: i32)
    requires
        h.dom().finite(),
        h.dom().len() <= 120,
        forall|g: i32| #[trigger] h.contains_key(g) ==> g < frame,
        h.contains_key(f),
    ensures
        recorded(h, frame, lanes).contains_key(frame),
        recorded(h, frame, lanes)[frame] == lanes,
        h.dom().len() < 120 ==> recorded(h, frame, lanes).contains_key(f),
        h.dom().len() == 120 ==> recorded(h, frame, lanes).contains_key(f) == !is_oldest(h, f),
        recorded(h, frame, lanes).contains_key(f) ==> recorded(h, frame, lanes)[f] == h[f],
{
    let w = h.insert(frame, lanes);
    history_stays_short(h, frame, lanes);
    assert(w.dom() =~= h.dom().insert(frame));
    assert(w.contains_key(f) && w.contains_key(frame));
    some_frame_is_oldest(w);
    assert(is_oldest(h, f) ==> is_oldest(w, f));
    if is_oldest(w, f) {
        assert forall|g: i32| #[trigger] h.contains_key(g) implies f <= g by {
            assert(w.contains_key(g));
        }
    }
    if h.dom().len() == 120 {
        let o = oldest(w);
        assert(is_oldest(w, o));
        if is_oldest(h, f) {
            assert(f <= o && o <= f);
        } else if f == o {
            assert(is_oldest(h, f));
        }
    }
}

} // verus!
