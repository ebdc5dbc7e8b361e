//! Loading a NeoGeo game from files held in memory.

use crate::bytes::copied;
use crate::neogeo::bus::{bios_corrected, BusView, RomsView, SystemBus};
use crate::neogeo::cart::{cart_for, cart_model_for, cart_state_for};
use crate::neogeo::machine::{Emulator, EmulatorView};
use crate::rom_files::{
    any_ext, by_ext, ext_flags, find_by_ext, find_last_with_suffix, first_lower, flags_ext,
    flags_minus, flags_part, flags_suffix, interleaved, join_by_ext, joined_data, largest,
    last_with_suffix, part_flags, pick_first_lower, pick_largest, push_interleaved,
    suffix_flags, without, RomFile,
};
use vstd::array::array_as_slice;
use vstd::prelude::*;

verus! {

/// Extensions of the program ROM parts, in order.
pub open spec fn p_rom_exts() -> Seq<&'static str> {
    seq!["p1", "p2", "sp2", "p3", "p4", "p5", "p6", "p7", "p8"]
}

/// Extensions of the sprite ROMs; each odd one is interleaved with the even one after it.
pub open spec fn c_rom_exts() -> Seq<&'static str> {
    seq![
        "c1", "c2", "c3", "c4", "c5", "c6", "c7", "c8", "c9", "c10", "c11", "c12", "c13", "c14",
        "c15", "c16",
    ]
}

/// Sample ROMs of boards with two sample buses: the first bus.
pub open spec fn adpcm_a_exts() -> Seq<&'static str> {
    seq!["v11", "v12", "v13", "v14", "v15", "v16", "v17", "v18", "v19"]
}

/// Sample ROMs of boards with two sample buses: the second bus.
pub open spec fn adpcm_b_exts() -> Seq<&'static str> {
    seq!["v21", "v22", "v23", "v24", "v25", "v26", "v27", "v28", "v29"]
}

/// Sample ROMs of boards with one set for both buses.
pub open spec fn adpcm_exts() -> Seq<&'static str> {
    seq!["v1", "v2", "v3", "v4"]
}

/// The BIOS among several: the standard MVS one, else the `.sp1` whose name comes first,
/// else the first that is named like a BIOS.
pub open spec fn bios_choice(files: Seq<RomFile>) -> Option<int> {
    let n = files.len() as int;
    let standard = first_lower(files, suffix_flags(files, "sp-s2.sp1"@), n);
    let any = first_lower(files, suffix_flags(files, ".sp1"@), n);
    if standard is Some {
        standard
    } else if any is Some {
        any
    } else {
        first_lower(files, part_flags(files, "bios"@, "sp-"@), n)
    }
}

/// The Z80 program among several: the largest `.m1` that is not the system's.
pub open spec fn m1_choice(files: Seq<RomFile>) -> Option<int> {
    largest(
        files,
        flags_minus(suffix_flags(files, ".m1"@), suffix_flags(files, "sm1.sm1"@)),
        files.len() as int,
    )
}

/// The fix tiles among several: the largest `.s1`.
pub open spec fn s1_choice(files: Seq<RomFile>) -> Option<int> {
    largest(files, ext_flags(files, "s1"@), files.len() as int)
}

/// The contents of a chosen file, or what was there before.
pub open spec fn chosen_or(files: Seq<RomFile>, choice: Option<int>, before: Seq<u8>) -> Seq<u8> {
    match choice {
        Some(i) => files[i].data@,
        None => before,
    }
}

/// The system ROMs, the Z80 program and the fix tiles taken from the files; what is not
/// among them stays.
pub open spec fn roms_from_files(roms: RomsView, files: Seq<RomFile>) -> RomsView {
    let n = files.len() as int;
    RomsView {
        bios_rom: match bios_choice(files) {
            Some(i) => bios_corrected(files[i].data@),
            None => roms.bios_rom,
        },
        sfix_rom: chosen_or(files, last_with_suffix(files, "sfix.sfix"@, n), roms.sfix_rom),
        sm1_rom: chosen_or(files, last_with_suffix(files, "sm1.sm1"@, n), roms.sm1_rom),
        lo_rom: chosen_or(files, last_with_suffix(files, "000-lo.lo"@, n), roms.lo_rom),
        m1_rom: chosen_or(files, m1_choice(files), roms.m1_rom),
        s_rom: chosen_or(files, s1_choice(files), roms.s_rom),
        ..roms
    }
}

/// The program ROM: its parts one after the other.
pub open spec fn p_rom_from_files(files: Seq<RomFile>) -> Seq<u8> {
    joined_data(files, p_rom_exts())
}

/// The sprite ROM from pair `k` on: pairs are interleaved until one is incomplete.
pub open spec fn c_rom_from_pair(files: Seq<RomFile>, k: int) -> Seq<u8>
    decreases 8 - k,
{
    if k < 0 || k >= 8 {
        Seq::empty()
    } else {
        let odd = by_ext(files, c_rom_exts()[2 * k]@);
        let even = by_ext(files, c_rom_exts()[2 * k + 1]@);
        if odd is None || even is None {
            Seq::empty()
        } else {
            interleaved(files[odd->0].data@, files[even->0].data@) + c_rom_from_pair(files, k + 1)
        }
    }
}

/// Whether the sample ROMs are split over two buses.
pub open spec fn has_two_sample_buses(files: Seq<RomFile>) -> bool {
    any_ext(files, adpcm_a_exts()) || any_ext(files, adpcm_b_exts())
}

/// The samples of the first and of the second bus; with one set both have all of it.
pub open spec fn samples_from_files(files: Seq<RomFile>) -> (Seq<u8>, Seq<u8>) {
    if has_two_sample_buses(files) {
        (joined_data(files, adpcm_a_exts()), joined_data(files, adpcm_b_exts()))
    } else {
        (joined_data(files, adpcm_exts()), joined_data(files, adpcm_exts()))
    }
}

/// The bus with a game's cartridge in the slot and everything but program and sprites
/// loaded.
pub open spec fn bus_with_files(bus: BusView, game: Seq<char>, files: Seq<RomFile>) -> BusView {
    BusView {
        cart: cart_model_for(game),
        chip: cart_state_for(game),
        roms: roms_from_files(bus.roms, files),
        ..bus
    }
}

/// The bus with a whole game loaded.
pub open spec fn bus_with_game(bus: BusView, game: Seq<char>, files: Seq<RomFile>) -> BusView {
    let b = bus_with_files(bus, game, files);
    let rom = (b.cart.rom)(p_rom_from_files(files));
    let c_rom = c_rom_from_pair(files, 0);
    BusView {
        roms: RomsView {
            p_rom: rom,
            c_rom: if c_rom.len() > 0 { c_rom } else { b.roms.c_rom },
            ..b.roms
        },
        chip: (b.cart.chip.loaded)(b.chip, rom),
        ..b
    }
}

/// Refusal of an empty file list.
pub open spec fn empty_files_text(game: Seq<char>) -> Seq<char> {
    "NeoGeo: empty ROM file map for '"@ + game + "'"@
}

/// Refusal of files without a program.
pub open spec fn no_program_text(game: Seq<char>) -> Seq<char> {
    "NeoGeo: no program ROM (*.p1/…) found in file map for '"@ + game + "'"@
}

fn choose_bios(files: &Vec<RomFile>) -> (r: Option<usize>)
    ensures
        r is Some <==> bios_choice(files@) is Some,
        r matches Some(i) ==> i < files@.len() && i == bios_choice(files@)->0,
{
    let standard = pick_first_lower(files, &flags_suffix(files, "sp-s2.sp1"));
    if standard.is_some() {
        return standard;
    }
    let any = pick_first_lower(files, &flags_suffix(files, ".sp1"));
    if any.is_some() {
        return any;
    }
    pick_first_lower(files, &flags_part(files, "bios", "sp-"))
}

fn load_rom_images(bus: &mut SystemBus, files: &Vec<RomFile>)
    ensures
        final(bus)@ == (BusView {
            roms: roms_from_files(old(bus)@.roms, files@),
            ..old(bus)@
        }),
{
    if let Some(i) = choose_bios(files) {
        let _ = bus.load_bios_bytes(files[i].data.as_slice());
    }
    if let Some(i) = find_last_with_suffix(files, "sfix.sfix") {
        bus.load_sfix_bytes(files[i].data.as_slice());
    }
    if let Some(i) = find_last_with_suffix(files, "sm1.sm1") {
        bus.load_sm1_bytes(files[i].data.as_slice());
    }
    if let Some(i) = find_last_with_suffix(files, "000-lo.lo") {
        bus.load_lo_rom_bytes(files[i].data.as_slice());
    }
    let m1_flags = without(&flags_suffix(files, ".m1"), &flags_suffix(files, "sm1.sm1"));
    if let Some(i) = pick_largest(files, &m1_flags) {
        bus.load_m1_bytes(copied(files[i].data.as_slice()));
    }
    if let Some(i) = pick_largest(files, &flags_ext(files, "s1")) {
        bus.load_s_rom_bytes(copied(files[i].data.as_slice()));
    }
}

/// Join the program ROM parts (`.p1`, `.p2`, the alternative `.sp2`, ... `.p8`).
pub fn collect_p_rom(files: &Vec<RomFile>) -> (r: Vec<u8>)
    ensures
        r@ == p_rom_from_files(files@),
{
    let exts = ["p1", "p2", "sp2", "p3", "p4", "p5", "p6", "p7", "p8"];
    assert(exts@ =~= p_rom_exts());
    let (rom, _any) = join_by_ext(files, array_as_slice(&exts));
    rom
}

/// Interleave the sprite ROM pairs (`.c1` with `.c2`, ...), up to the first incomplete one.
pub fn interleave_c_roms(files: &Vec<RomFile>) -> (r: Vec<u8>)
    ensures
        r@ == c_rom_from_pair(files@, 0),
{
    let exts = [
        "c1", "c2", "c3", "c4", "c5", "c6", "c7", "c8", "c9", "c10", "c11", "c12", "c13", "c14",
        "c15", "c16",
    ];
    assert(exts@ =~= c_rom_exts());
    let mut out: Vec<u8> = Vec::new();
    let mut k: usize = 0;
    assert(out@ + c_rom_from_pair(files@, 0) =~= c_rom_from_pair(files@, 0));
    while k < 8
        invariant
            exts@ == c_rom_exts(),
            k <= 8,
            out@ + c_rom_from_pair(files@, k as int) == c_rom_from_pair(files@, 0),
        decreases 8 - k,
    {
        let odd = find_by_ext(files, exts[2 * k]);
        let even = find_by_ext(files, exts[2 * k + 1]);
        let ghost before = out@;
        match (odd, even) {
            (Some(d1), Some(d2)) => {
                push_interleaved(&mut out, d1, d2);
                assert(out@ + c_rom_from_pair(files@, k + 1) =~= before + c_rom_from_pair(
                    files@,
                    k as int,
                ));
            },
            _ => {
                assert(c_rom_from_pair(files@, k as int) =~= Seq::<u8>::empty());
                assert(out@ =~= c_rom_from_pair(files@, 0));
                return out;
            },
        }
        k = k + 1;
    }
    assert(out@ =~= c_rom_from_pair(files@, 0));
    out
}

/// The sample ROMs of both buses.
pub fn collect_samples(files: &Vec<RomFile>) -> (r: (Vec<u8>, Vec<u8>))
    ensures
        (r.0@, r.1@) == samples_from_files(files@),
{
    let a_exts = ["v11", "v12", "v13", "v14", "v15", "v16", "v17", "v18", "v19"];
    let b_exts = ["v21", "v22", "v23", "v24", "v25", "v26", "v27", "v28", "v29"];
    assert(a_exts@ =~= adpcm_a_exts());
    assert(b_exts@ =~= adpcm_b_exts());
    let (a, any_a) = join_by_ext(files, array_as_slice(&a_exts));
    let (b, any_b) = join_by_ext(files, array_as_slice(&b_exts));
    if any_a || any_b {
        return (a, b);
    }
    let exts = ["v1", "v2", "v3", "v4"];
    assert(exts@ =~= adpcm_exts());
    let (all, _any) = join_by_ext(files, array_as_slice(&exts));
    let mirror = copied(all.as_slice());
    (all, mirror)
}

/// Load a game from named files.  The cartridge handler is installed first, so that it
/// processes the program ROM.
pub fn load_roms_from_memory(emu: &mut Emulator, game_id: &str, files: &Vec<RomFile>) -> (r: Result<
    (),
    String,
>)
    ensures
        files@.len() == 0 ==> r is Err && r->Err_0@ == empty_files_text(game_id@) && final(emu)@ == old(
            emu,
        )@,
        files@.len() > 0 && p_rom_from_files(files@).len() == 0 ==> {
            &&& r is Err && r->Err_0@ == no_program_text(game_id@)
            &&& final(emu)@ == (EmulatorView {
                bus: bus_with_files(old(emu)@.bus, game_id@, files@),
                ..old(emu)@
            })
        },
        files@.len() > 0 && p_rom_from_files(files@).len() > 0 ==> {
            let (a, b) = samples_from_files(files@);
            &&& r is Ok
            &&& final(emu)@ == (EmulatorView {
                bus: bus_with_game(old(emu)@.bus, game_id@, files@),
                adpcm_a: a,
                adpcm_b: b,
                ..old(emu)@
            })
        },
{
    if files.len() == 0 {
        let mut msg = String::from_str("NeoGeo: empty ROM file map for '");
        msg.append(game_id);
        msg.append("'");
        return Err(msg);
    }
    emu.bus.cart = cart_for(game_id);
    load_rom_images(&mut emu.bus, files);
    let p_rom = collect_p_rom(files);
    if p_rom.len() == 0 {
        let mut msg = String::from_str("NeoGeo: no program ROM (*.p1/…) found in file map for '");
        msg.append(game_id);
        msg.append("'");
        return Err(msg);
    }
    emu.bus.load_p_rom_bytes(p_rom);
    let c_rom = interleave_c_roms(files);
    if c_rom.len() > 0 {
        emu.bus.load_c_rom_bytes(c_rom);
    }
    let (a, b) = collect_samples(files);
    emu.load_adpcm_bytes(a.as_slice(), b.as_slice());
    Ok(())
}

} // verus!
