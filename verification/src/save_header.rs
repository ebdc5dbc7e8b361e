//! Identity header of binary save states.

use crate::text::{decimal, push_decimal};
use vstd::prelude::*;

verus! {

/// Magic prefix stamped on binary save states, so that a blob produced by one core
/// is not taken for another core's.
pub const SAVE_MAGIC: [u8; 4] = [0x4E, 0x45, 0x4F, 0x53];

/// Core identifier for NeoGeo save states.
pub const SAVE_CORE_NEOGEO: u8 = 1;

/// Core identifier for CPS-1 save states.
pub const SAVE_CORE_CPS1: u8 = 2;

/// The five header bytes of a core's save states.
pub open spec fn save_header(core_id: u8) -> Seq<u8> {
    SAVE_MAGIC@.push(core_id)
}

/// Whether a blob starts with a header (of any core).
pub open spec fn has_save_header(data: Seq<u8>) -> bool {
    data.len() >= 5 && data.subrange(0, 4) =~= SAVE_MAGIC@
}

/// The message with which a blob of core `core` is refused by core `expected`.
pub open spec fn core_mismatch_text(core: u8, expected: u8) -> Seq<char> {
    "save state core mismatch: blob is for core "@ + decimal(core as nat) + ", this emulator is core "@
        + decimal(expected as nat)
}

/// Prepend the identity header (`SAVE_MAGIC` and `core_id`) to a serialised body.
pub fn with_save_header(core_id: u8, body: Vec<u8>) -> (out: Vec<u8>)
    requires
        body@.len() + 5 <= usize::MAX,
    ensures
        out@ == save_header(core_id) + body@,
{
    let mut out: Vec<u8> = Vec::with_capacity(body.len() + 5);
    out.push(SAVE_MAGIC[0]);
    out.push(SAVE_MAGIC[1]);
    out.push(SAVE_MAGIC[2]);
    out.push(SAVE_MAGIC[3]);
    out.push(core_id);
    out.extend_from_slice(body.as_slice());
    assert(out@ =~= save_header(core_id) + body@);
    out
}

/// Validate and strip the identity header, returning the serialised body.
///
/// A header must match `expected_core`.  A blob without a header is an older one
/// and is handed back whole.
pub fn strip_save_header(data: &[u8], expected_core: u8) -> (r: Result<&[u8], String>)
    ensures
        !has_save_header(data@) ==> r is Ok && r->Ok_0@ == data@,
        has_save_header(data@) && data@[4] == expected_core ==> r is Ok && r->Ok_0@
            == data@.subrange(5, data@.len() as int),
        has_save_header(data@) && data@[4] != expected_core ==> r is Err && r->Err_0@
            == core_mismatch_text(data@[4], expected_core),
{
    if data.len() >= 5 && data[0] == SAVE_MAGIC[0] && data[1] == SAVE_MAGIC[1] && data[2]
        == SAVE_MAGIC[2] && data[3] == SAVE_MAGIC[3] {
        assert(data@.subrange(0, 4) =~= SAVE_MAGIC@);
        let core: u8 = data[4];
        if core != expected_core {
            let mut msg = String::from_str("save state core mismatch: blob is for core ");
            push_decimal(&mut msg, core as u64);
            msg.append(", this emulator is core ");
            push_decimal(&mut msg, expected_core as u64);
            return Err(msg);
        }
        Ok(vstd::slice::slice_subrange(data, 5, data.len()))
    } else {
        proof {
            if has_save_header(data@) {
                let head = data@.subrange(0, 4);
                assert(head[0] == data@[0] && head[1] == data@[1] && head[2] == data@[2] && head[3]
                    == data@[3]);
            }
        }
        Ok(data)
    }
}

/// Stripping undoes stamping for the same core; for any other core the stamped
/// blob is refused, never handed on.
pub proof fn stamped_blob_is_recognised(core_id: u8, body: Seq<u8>)
    ensures
        has_save_header(save_header(core_id) + body),
        (save_header(core_id) + body)[4] == core_id,
        (save_header(core_id) + body).subrange(5, body.len() as int + 5) == body,
{
    let framed = save_header(core_id) + body;
    assert(framed.subrange(0, 4) =~= SAVE_MAGIC@);
    assert(framed.subrange(5, body.len() as int + 5) =~= body);
}

/// A save state starts with the letters NEOS and the number of its core, 1 or 2; a blob without the
/// letters has no header.
pub proof fn header_is_four_letters_and_core(core_id: u8, data: Seq<u8>)
    ensures
        save_header(core_id) == seq!['N' as u8, 'E' as u8, 'O' as u8, 'S' as u8, core_id],
        has_save_header(data) == (data.len() >= 5 && data[0] == 'N' as u8 && data[1] == 'E' as u8 && data[2]
            == 'O' as u8 && data[3] == 'S' as u8),
        SAVE_CORE_NEOGEO == 1,
        SAVE_CORE_CPS1 == 2,
{
    assert(save_header(core_id) =~= seq!['N' as u8, 'E' as u8, 'O' as u8, 'S' as u8, core_id]);
    if data.len() >= 5 {
        let d = data.subrange(0, 4);
        assert(d[0] == data[0] && d[1] == data[1] && d[2] == data[2] && d[3] == data[3]);
        assert(has_save_header(data) ==> d =~= SAVE_MAGIC@);
    }
}

} // verus!
