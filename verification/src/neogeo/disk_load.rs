//! Loading a NeoGeo game from the files of its directory.
//!
//! Extensions are those of file names, compared without regard to ASCII case; of several
//! files with one extension the one whose name comes first is meant, except for program and
//! sample parts, which are joined in the order of their names.

use crate::bytes::copied;
use crate::neogeo::bus::{BusView, RomsView, SystemBus};
use crate::neogeo::cart::{byteswap_corrected, cart_for, cart_model_for, cart_state_for};
use crate::neogeo::memory_load::{adpcm_a_exts, adpcm_b_exts, adpcm_exts, c_rom_exts, p_rom_exts};
use crate::rom_files::{interleaved, last_part, last_part_of, push_interleaved, same_chars, RomFile};
use crate::neogeo::machine::{Emulator, EmulatorView};
use crate::text::{ascii_lowered, chars_of, comes_before, text_less};
use vstd::array::array_as_slice;
use vstd::prelude::*;

verus! {

/// Whether a file name has an extension, whatever the case; a leading dot starts no
/// extension.
pub open spec fn ext_is(name: Seq<char>, ext: Seq<char>) -> bool {
    name.len() > last_part(name).len() + 1 && ascii_lowered(last_part(name)) == ascii_lowered(ext)
}

fn lowered(s: &Vec<char>) -> (r: Vec<char>)
    ensures
        r@ == ascii_lowered(s@),
{
    let mut r: Vec<char> = Vec::new();
    let mut i: usize = 0;
    while i < s.len()
        invariant
            i <= s@.len(),
            r@.len() == i,
            forall|k: int| 0 <= k < i ==> r@[k] == ascii_lowered(s@)[k],
        decreases s@.len() - i,
    {
        let c: char = s[i];
        if 'A' <= c && c <= 'Z' {
            r.push((c as u8 + 32) as char);
        } else {
            r.push(c);
        }
        i = i + 1;
    }
    assert(r@ =~= ascii_lowered(s@));
    r
}

fn has_file_ext(name: &str, ext: &str) -> (r: bool)
    ensures
        r == ext_is(name@, ext@),
{
    let chars = chars_of(name);
    let part = last_part_of(&chars);
    let n: usize = chars.len();
    let m: usize = part.len();
    if n <= m || n - m <= 1 {
        return false;
    }
    let a = lowered(&part);
    let b = lowered(&chars_of(ext));
    same_chars(&a, &b)
}

/// Position `i` put into a list of positions before the first whose file name comes after.
pub open spec fn inserted(files: Seq<RomFile>, list: Seq<usize>, i: usize) -> Seq<usize>
    decreases list.len(),
{
    if list.len() == 0 {
        seq![i]
    } else if text_less(files[i as int].name@, files[list[0] as int].name@) {
        seq![i] + list
    } else {
        seq![list[0]] + inserted(files, list.skip(1), i)
    }
}

/// Positions of the files with an extension among the first `n`, by name.
pub open spec fn sorted_with_ext(files: Seq<RomFile>, ext: Seq<char>, n: int) -> Seq<usize>
    decreases n,
{
    if n <= 0 {
        Seq::empty()
    } else if ext_is(files[n - 1].name@, ext) {
        inserted(files, sorted_with_ext(files, ext, n - 1), (n - 1) as usize)
    } else {
        sorted_with_ext(files, ext, n - 1)
    }
}

/// Positions of the files with an extension, by name.
pub open spec fn matches_of(files: Seq<RomFile>, ext: Seq<char>) -> Seq<usize> {
    sorted_with_ext(files, ext, files.len() as int)
}

/// Inserting at the right place is what `inserted` says.
pub proof fn inserted_at(files: Seq<RomFile>, list: Seq<usize>, i: usize, k: int)
    requires
        0 <= k <= list.len(),
        forall|j: int|
            0 <= j < k ==> !text_less(files[i as int].name@, files[#[trigger] list[j] as int].name@),
        k < list.len() ==> text_less(files[i as int].name@, files[list[k] as int].name@),
    ensures
        inserted(files, list, i) == list.insert(k, i),
    decreases list.len(),
{
    if list.len() == 0 {
        assert(list.insert(k, i) =~= seq![i]);
    } else if k == 0 {
        assert(list.insert(0, i) =~= seq![i] + list);
    } else {
        assert(!text_less(files[i as int].name@, files[list[0] as int].name@));
        assert forall|j: int| 0 <= j < k - 1 implies !text_less(
            files[i as int].name@,
            files[#[trigger] list.skip(1)[j] as int].name@,
        ) by {
            assert(list.skip(1)[j] == list[j + 1]);
        }
        inserted_at(files, list.skip(1), i, k - 1);
        assert(list.insert(k, i) =~= seq![list[0]] + list.skip(1).insert(k - 1, i));
    }
}

/// All files with an extension, by name.
pub fn files_with_ext(files: &Vec<RomFile>, ext: &str) -> (r: Vec<usize>)
    ensures
        r@ == matches_of(files@, ext@),
        forall|k: int| 0 <= k < r@.len() ==> #[trigger] r@[k] < files@.len(),
{
    let mut list: Vec<usize> = Vec::new();
    let mut i: usize = 0;
    while i < files.len()
        invariant
            i <= files@.len(),
            list@ == sorted_with_ext(files@, ext@, i as int),
            forall|k: int| 0 <= k < list@.len() ==> #[trigger] list@[k] < i,
        decreases files@.len() - i,
    {
        if has_file_ext(files[i].name.as_str(), ext) {
            let mut k: usize = 0;
            while k < list.len() && !comes_before(
                files[i].name.as_str(),
                files[list[k]].name.as_str(),
            )
                invariant
                    i < files@.len(),
                    k <= list@.len(),
                    forall|j: int| 0 <= j < list@.len() ==> #[trigger] list@[j] < i,
                    forall|j: int|
                        0 <= j < k ==> !text_less(
                            files@[i as int].name@,
                            files@[#[trigger] list@[j] as int].name@,
                        ),
                decreases list@.len() - k,
            {
                k = k + 1;
            }
            proof {
                inserted_at(files@, list@, i, k as int);
            }
            list.insert(k, i);
        }
        i = i + 1;
    }
    list
}

/// The first file with an extension.
pub open spec fn first_match(files: Seq<RomFile>, ext: Seq<char>) -> Option<int> {
    if matches_of(files, ext).len() > 0 { Some(matches_of(files, ext)[0] as int) } else { None }
}

fn find_first(files: &Vec<RomFile>, ext: &str) -> (r: Option<usize>)
    ensures
        r is Some <==> first_match(files@, ext@) is Some,
        r matches Some(i) ==> i < files@.len() && Some(i as int) == first_match(files@, ext@),
{
    let list = files_with_ext(files, ext);
    if list.len() > 0 { Some(list[0]) } else { None }
}

/// The contents of the files at the first `n` positions of a list, joined.
pub open spec fn contents(files: Seq<RomFile>, list: Seq<usize>, n: int) -> Seq<u8>
    decreases n,
{
    if n <= 0 {
        Seq::empty()
    } else {
        contents(files, list, n - 1) + files[list[n - 1] as int].data@
    }
}

/// The contents of all files with each extension of a list in turn.
pub open spec fn all_contents(files: Seq<RomFile>, exts: Seq<&str>) -> Seq<u8>
    decreases exts.len(),
{
    if exts.len() == 0 {
        Seq::empty()
    } else {
        let list = matches_of(files, exts.last()@);
        all_contents(files, exts.drop_last()) + contents(files, list, list.len() as int)
    }
}

/// Whether some file has one of the extensions.
pub open spec fn any_match(files: Seq<RomFile>, exts: Seq<&str>) -> bool {
    exists|k: int| 0 <= k < exts.len() && #[trigger] matches_of(files, exts[k]@).len() > 0
}

fn join_all(files: &Vec<RomFile>, exts: &[&str]) -> (r: (Vec<u8>, bool))
    ensures
        r.0@ == all_contents(files@, exts@),
        r.1 == any_match(files@, exts@),
{
    let mut out: Vec<u8> = Vec::new();
    let mut any = false;
    let mut k: usize = 0;
    assert(exts@.take(0) =~= Seq::<&str>::empty());
    while k < exts.len()
        invariant
            k <= exts@.len(),
            out@ == all_contents(files@, exts@.take(k as int)),
            any == (exists|j: int| 0 <= j < k && #[trigger] matches_of(files@, exts@[j]@).len() > 0),
        decreases exts@.len() - k,
    {
        assert(exts@.take(k + 1).drop_last() =~= exts@.take(k as int));
        assert(exts@.take(k + 1).last() == exts@[k as int]);
        let list = files_with_ext(files, exts[k]);
        if list.len() > 0 {
            any = true;
        }
        let ghost before = out@;
        let mut j: usize = 0;
        assert(before + contents(files@, list@, 0) =~= before);
        while j < list.len()
            invariant
                j <= list@.len(),
                forall|q: int| 0 <= q < list@.len() ==> #[trigger] list@[q] < files@.len(),
                out@ == before + contents(files@, list@, j as int),
            decreases list@.len() - j,
        {
            let ghost mid = out@;
            out.extend_from_slice(files[list[j]].data.as_slice());
            assert(out@ =~= before + contents(files@, list@, j + 1));
            j = j + 1;
        }
        k = k + 1;
    }
    assert(exts@.take(k as int) =~= exts@);
    (out, any)
}

/// The program ROM of a directory.
pub fn collect_p_rom(files: &Vec<RomFile>) -> (r: Vec<u8>)
    ensures
        r@ == all_contents(files@, p_rom_exts()),
{
    let exts = ["p1", "p2", "sp2", "p3", "p4", "p5", "p6", "p7", "p8"];
    assert(exts@ =~= p_rom_exts());
    let (rom, _any) = join_all(files, array_as_slice(&exts));
    rom
}

/// The sprite ROM from pair `k` on, up to the first incomplete pair.
pub open spec fn c_rom_from(files: Seq<RomFile>, k: int) -> Seq<u8>
    decreases 8 - k,
{
    if k < 0 || k >= 8 {
        Seq::empty()
    } else {
        let odd = first_match(files, c_rom_exts()[2 * k]@);
        let even = first_match(files, c_rom_exts()[2 * k + 1]@);
        if odd is None || even is None {
            Seq::empty()
        } else {
            interleaved(files[odd->0].data@, files[even->0].data@) + c_rom_from(files, k + 1)
        }
    }
}

/// The sprite ROM of a directory.
pub fn interleave_c_roms(files: &Vec<RomFile>) -> (r: Vec<u8>)
    ensures
        r@ == c_rom_from(files@, 0),
{
    let exts = [
        "c1", "c2", "c3", "c4", "c5", "c6", "c7", "c8", "c9", "c10", "c11", "c12", "c13", "c14",
        "c15", "c16",
    ];
    assert(exts@ =~= c_rom_exts());
    let mut out: Vec<u8> = Vec::new();
    let mut k: usize = 0;
    assert(out@ + c_rom_from(files@, 0) =~= c_rom_from(files@, 0));
    while k < 8
        invariant
            exts@ == c_rom_exts(),
            k <= 8,
            out@ + c_rom_from(files@, k as int) == c_rom_from(files@, 0),
        decreases 8 - k,
    {
        let odd = find_first(files, exts[2 * k]);
        let even = find_first(files, exts[2 * k + 1]);
        let ghost before = out@;
        match (odd, even) {
            (Some(i), Some(j)) => {
                push_interleaved(&mut out, &files[i].data, &files[j].data);
                assert(out@ + c_rom_from(files@, k + 1) =~= before + c_rom_from(files@, k as int));
            },
            _ => {
                assert(c_rom_from(files@, k as int) =~= Seq::<u8>::empty());
                assert(out@ =~= c_rom_from(files@, 0));
                return out;
            },
        }
        k = k + 1;
    }
    assert(out@ =~= c_rom_from(files@, 0));
    out
}

/// Sample ROMs of a directory: split over two buses where two-digit extensions say so, else
/// all on the first.
pub open spec fn samples_of(files: Seq<RomFile>) -> (Seq<u8>, Seq<u8>) {
    if any_match(files, adpcm_a_exts()) || any_match(files, adpcm_b_exts()) {
        (all_contents(files, adpcm_a_exts()), all_contents(files, adpcm_b_exts()))
    } else {
        (all_contents(files, adpcm_exts()), Seq::empty())
    }
}

/// The sample ROMs (first bus, second bus) of a directory.
pub fn collect_adpcm_roms_for(files: &Vec<RomFile>) -> (r: (Vec<u8>, Vec<u8>))
    ensures
        (r.0@, r.1@) == samples_of(files@),
{
    let a_exts = ["v11", "v12", "v13", "v14", "v15", "v16", "v17", "v18", "v19"];
    let b_exts = ["v21", "v22", "v23", "v24", "v25", "v26", "v27", "v28", "v29"];
    assert(a_exts@ =~= adpcm_a_exts());
    assert(b_exts@ =~= adpcm_b_exts());
    let (a, any_a) = join_all(files, array_as_slice(&a_exts));
    let (b, any_b) = join_all(files, array_as_slice(&b_exts));
    if any_a || any_b {
        return (a, b);
    }
    let exts = ["v1", "v2", "v3", "v4"];
    assert(exts@ =~= adpcm_exts());
    let (all, _any) = join_all(files, array_as_slice(&exts));
    (all, Vec::new())
}

/// The bus with the Z80 program of a directory, else the system's, else what was there.
pub open spec fn m1_loaded(roms: RomsView, files: Seq<RomFile>) -> Seq<u8> {
    match first_match(files, "m1"@) {
        Some(i) => files[i].data@,
        None => if roms.sm1_rom.len() > 0 { roms.sm1_rom } else { roms.m1_rom },
    }
}

/// The bus with a game's directory loaded.
pub open spec fn bus_with_directory(bus: BusView, files: Seq<RomFile>, game: Seq<char>) -> BusView {
    let p = all_contents(files, p_rom_exts());
    let c = c_rom_from(files, 0);
    let rom = (cart_model_for(game).rom)(p);
    let roms = RomsView {
        m1_rom: m1_loaded(bus.roms, files),
        p_rom: if p.len() > 0 { rom } else { bus.roms.p_rom },
        s_rom: match first_match(files, "s1"@) {
            Some(i) => files[i].data@,
            None => bus.roms.s_rom,
        },
        c_rom: if c.len() > 0 { c } else { bus.roms.c_rom },
        ..bus.roms
    };
    if p.len() > 0 {
        BusView {
            roms,
            cart: cart_model_for(game),
            chip: (cart_model_for(game).chip.loaded)(cart_state_for(game), rom),
            ..bus
        }
    } else {
        BusView { roms, ..bus }
    }
}

fn load_m1_fallback(bus: &mut SystemBus)
    ensures
        final(bus)@ == (BusView {
            roms: RomsView {
                m1_rom: if old(bus)@.roms.sm1_rom.len() > 0 {
                    old(bus)@.roms.sm1_rom
                } else {
                    old(bus)@.roms.m1_rom
                },
                ..old(bus)@.roms
            },
            ..old(bus)@
        }),
{
    if bus.roms.sm1_rom.len() > 0 {
        let sm1 = copied(bus.roms.sm1_rom.as_slice());
        bus.load_m1_bytes(sm1);
    }
}

/// Load the files of a game's directory; the system ROMs are loaded beforehand.
pub fn load_into_bus(bus: &mut SystemBus, files: &Vec<RomFile>, game_name: &str)
    ensures
        final(bus)@ == bus_with_directory(old(bus)@, files@, game_name@),
{
    match find_first(files, "m1") {
        Some(i) => {
            bus.load_m1_bytes(copied(files[i].data.as_slice()));
        },
        None => {
            load_m1_fallback(bus);
        },
    }
    let p_data = collect_p_rom(files);
    if p_data.len() > 0 {
        bus.cart = cart_for(game_name);
        bus.load_p_rom_bytes(p_data);
    }
    if let Some(i) = find_first(files, "s1") {
        bus.load_s_rom_bytes(copied(files[i].data.as_slice()));
    }
    let c_data = interleave_c_roms(files);
    if c_data.len() > 0 {
        bus.load_c_rom_bytes(c_data);
    }
}

/// File names of the system BIOS, the preferred first.
pub open spec fn bios_names() -> Seq<&'static str> {
    seq!["sp-s2.sp1", "sp-e.sp1", "uni-bios.rom", "uni-bios_4_0.rom"]
}

/// The file with exactly this name.
pub open spec fn named_file(files: Seq<RomFile>, name: Seq<char>, n: int) -> Option<int>
    decreases n,
{
    if n <= 0 {
        None
    } else if files[n - 1].name@ == name {
        Some(n - 1)
    } else {
        named_file(files, name, n - 1)
    }
}

fn find_named(files: &Vec<RomFile>, name: &str) -> (r: Option<usize>)
    ensures
        r is Some <==> named_file(files@, name@, files@.len() as int) is Some,
        r matches Some(i) ==> i < files@.len() && Some(i as int) == named_file(
            files@,
            name@,
            files@.len() as int,
        ),
{
    let mut i: usize = files.len();
    while i > 0
        invariant
            i <= files@.len(),
            named_file(files@, name@, files@.len() as int) == named_file(files@, name@, i as int),
        decreases i,
    {
        if crate::text::str_eq(files[i - 1].name.as_str(), name) {
            return Some(i - 1);
        }
        i = i - 1;
    }
    None
}

/// The BIOS of a system directory: the first of the known names that is there.
pub open spec fn bios_of(files: Seq<RomFile>, k: int) -> Option<int>
    decreases bios_names().len() - k,
{
    if k < 0 || k >= bios_names().len() {
        None
    } else if named_file(files, bios_names()[k]@, files.len() as int) is Some {
        named_file(files, bios_names()[k]@, files.len() as int)
    } else {
        bios_of(files, k + 1)
    }
}

/// The ROM images with a system directory's files loaded.
pub open spec fn system_roms(roms: RomsView, files: Seq<RomFile>, bios: int) -> RomsView {
    let n = files.len() as int;
    RomsView {
        bios_rom: crate::neogeo::bus::bios_corrected(files[bios].data@),
        sfix_rom: match named_file(files, "sfix.sfix"@, n) {
            Some(i) => files[i].data@,
            None => roms.sfix_rom,
        },
        sm1_rom: match named_file(files, "sm1.sm1"@, n) {
            Some(i) => files[i].data@,
            None => roms.sm1_rom,
        },
        lo_rom: match named_file(files, "000-lo.lo"@, n) {
            Some(i) => files[i].data@,
            None => roms.lo_rom,
        },
        ..roms
    }
}

fn find_bios(files: &Vec<RomFile>) -> (r: Option<usize>)
    ensures
        r is Some <==> bios_of(files@, 0) is Some,
        r matches Some(i) ==> i < files@.len() && Some(i as int) == bios_of(files@, 0),
{
    let names = ["sp-s2.sp1", "sp-e.sp1", "uni-bios.rom", "uni-bios_4_0.rom"];
    assert(names@ =~= bios_names());
    let mut k: usize = 0;
    while k < 4
        invariant
            names@ == bios_names(),
            k <= 4,
            bios_of(files@, 0) == bios_of(files@, k as int),
        decreases 4 - k,
    {
        let found = find_named(files, names[k]);
        if found.is_some() {
            return found;
        }
        k = k + 1;
    }
    None
}

/// Why a system directory cannot be used; `None` where it can.
pub open spec fn system_error(files: Option<&Vec<RomFile>>, dir: Seq<char>) -> Option<Seq<char>> {
    match files {
        None => Some("not a directory: "@ + dir),
        Some(f) => if bios_of(f@, 0) is None { Some("no BIOS found in "@ + dir) } else { None },
    }
}

/// The bus with a system directory's files loaded; unchanged where it cannot be used.
pub open spec fn bus_with_system(bus: BusView, files: Option<&Vec<RomFile>>) -> BusView {
    match files {
        None => bus,
        Some(f) => match bios_of(f@, 0) {
            None => bus,
            Some(b) => BusView { roms: system_roms(bus.roms, f@, b), ..bus },
        },
    }
}

/// Load BIOS, fix tiles, Z80 program and zoom table from the files of a system directory
/// (`None` where there is no such directory).
pub fn try_load_system_roms_from_dir(bus: &mut SystemBus, files: Option<&Vec<RomFile>>, dir: &str) -> (r: Result<
    (),
    String,
>)
    ensures
        r is Err <==> system_error(files, dir@) is Some,
        r matches Err(e) ==> system_error(files, dir@) == Some(e@),
        final(bus)@ == bus_with_system(old(bus)@, files),
{
    let files = match files {
        None => {
            let mut msg = String::from_str("not a directory: ");
            msg.append(dir);
            return Err(msg);
        },
        Some(f) => f,
    };
    match find_bios(files) {
        None => {
            let mut msg = String::from_str("no BIOS found in ");
            msg.append(dir);
            return Err(msg);
        },
        Some(i) => {
            let _ = bus.load_bios_bytes(files[i].data.as_slice());
        },
    }
    if let Some(i) = find_named(files, "sfix.sfix") {
        bus.load_sfix_bytes(files[i].data.as_slice());
    }
    if let Some(i) = find_named(files, "sm1.sm1") {
        bus.load_sm1_bytes(files[i].data.as_slice());
    }
    if let Some(i) = find_named(files, "000-lo.lo") {
        bus.load_lo_rom_bytes(files[i].data.as_slice());
    }
    Ok(())
}

/// The bus with the system ROMs of the first directory that can be used.
pub open spec fn bus_with_host_system(bus: BusView, data_dir: Option<&Vec<RomFile>>, roms_dir: Option<&Vec<RomFile>>) -> BusView {
    if system_error(data_dir, "data/neogeo"@) is None {
        bus_with_system(bus, data_dir)
    } else {
        bus_with_system(bus, roms_dir)
    }
}

/// Load the system ROMs from `data/neogeo`, else from `roms/neogeo`; `false` where neither has
/// a BIOS.
pub fn load_host_system_roms(bus: &mut SystemBus, data_dir: Option<&Vec<RomFile>>, roms_dir: Option<&Vec<RomFile>>) -> (r: bool)
    ensures
        r == (system_error(data_dir, "data/neogeo"@) is None || system_error(roms_dir, "roms/neogeo"@) is None),
        final(bus)@ == bus_with_host_system(old(bus)@, data_dir, roms_dir),
{
    match try_load_system_roms_from_dir(bus, data_dir, "data/neogeo") {
        Ok(()) => true,
        Err(_) => match try_load_system_roms_from_dir(bus, roms_dir, "roms/neogeo") {
            Ok(()) => true,
            Err(_) => false,
        },
    }
}

/// Load a game whose files are in place: the system ROMs first, then those of the game's own
/// directory.
pub fn load_prepared_game(
    bus: &mut SystemBus,
    name: &str,
    game_dir: &Vec<RomFile>,
    data_dir: Option<&Vec<RomFile>>,
    roms_dir: Option<&Vec<RomFile>>,
)
    ensures
        final(bus)@ == bus_with_directory(
            bus_with_host_system(old(bus)@, data_dir, roms_dir),
            game_dir@,
            name@,
        ),
{
    let _ = load_host_system_roms(bus, data_dir, roms_dir);
    load_into_bus(bus, game_dir, name);
}

/// What a ROM argument asks for.
pub enum RomRequest {
    /// A set below `roms/`.
    Folder(String),
    /// A file that is the program ROM.
    ProgramFile(String),
}

/// A ROM argument names a set: it is no path, and there is no file of that name.
pub open spec fn is_set_name(arg: Seq<char>, present: bool) -> bool {
    !arg.contains('/') && !arg.contains('\\') && !present
}

/// What a ROM argument asks for; `present` says whether there is a file or directory of that
/// name.
pub fn rom_request(name: Option<&str>, present: bool) -> (r: Result<RomRequest, String>)
    ensures
        match r {
            Ok(RomRequest::Folder(s)) => name matches Some(n) && is_set_name(n@, present) && s@ == n@,
            Ok(RomRequest::ProgramFile(s)) => name matches Some(n) && !is_set_name(n@, present) && s@ == n@,
            Err(e) => name is None && e@ == "No ROM name given"@,
        },
{
    match name {
        None => Err(String::from_str("No ROM name given")),
        Some(arg) => {
            let c = chars_of(arg);
            let mut path = false;
            let mut i: usize = 0;
            while i < c.len()
                invariant
                    i <= c@.len(),
                    c@ == arg@,
                    path == (exists|k: int| 0 <= k < i && (#[trigger] c@[k] == '/' || c@[k] == '\\')),
                decreases c@.len() - i,
            {
                if c[i] == '/' || c[i] == '\\' {
                    path = true;
                    assert(c@[i as int] == '/' || c@[i as int] == '\\');
                }
                i = i + 1;
            }
            proof {
                if path {
                    let k = choose|k: int| 0 <= k < c@.len() && (#[trigger] c@[k] == '/' || c@[k] == '\\');
                    assert(arg@.contains(c@[k]));
                } else {
                    assert forall|k: int| 0 <= k < arg@.len() implies arg@[k] != '/' && arg@[k] != '\\' by {
                        assert(c@[k] == arg@[k]);
                    }
                }
            }
            if !path && !present {
                Ok(RomRequest::Folder(String::from_str(arg)))
            } else {
                Ok(RomRequest::ProgramFile(String::from_str(arg)))
            }
        },
    }
}

/// Load a set whose files are in place, with its samples.
pub fn load_set(
    emu: &mut Emulator,
    name: &str,
    game_dir: &Vec<RomFile>,
    data_dir: Option<&Vec<RomFile>>,
    roms_dir: Option<&Vec<RomFile>>,
)
    ensures
        final(emu)@ == (EmulatorView {
            bus: bus_with_directory(
                bus_with_host_system(old(emu)@.bus, data_dir, roms_dir),
                game_dir@,
                name@,
            ),
            adpcm_a: samples_of(game_dir@).0,
            adpcm_b: samples_of(game_dir@).1,
            rom_set_name: Some(name@),
            ..old(emu)@
        }),
{
    load_prepared_game(&mut emu.bus, name, game_dir, data_dir, roms_dir);
    let (a, b) = collect_adpcm_roms_for(game_dir);
    emu.load_adpcm_bytes(a.as_slice(), b.as_slice());
    emu.rom_set_name = Some(String::from_str(name));
}

/// Load a bare program ROM and the system ROMs.
pub fn load_program_file(
    emu: &mut Emulator,
    p_rom: Vec<u8>,
    data_dir: Option<&Vec<RomFile>>,
    roms_dir: Option<&Vec<RomFile>>,
)
    ensures
        ({
            let before = old(emu)@.bus;
            let loaded = BusView {
                roms: RomsView { p_rom: byteswap_corrected(p_rom@), ..before.roms },
                ..before
            };
            final(emu)@ == (EmulatorView {
                bus: bus_with_host_system(loaded, data_dir, roms_dir),
                rom_set_name: None,
                ..old(emu)@
            })
        }),
{
    emu.bus.load_p_rom(p_rom);
    let _ = load_host_system_roms(&mut emu.bus, data_dir, roms_dir);
    emu.rom_set_name = None;
}

} // verus!
