//! CPS1 ROM sets: where each file of a dump goes in the four regions of the board.
//!
//! | Region     | Role                                    |
//! |------------|-----------------------------------------|
//! | `maincpu`  | 68000 program, stored byte-swapped      |
//! | `gfx`      | Tile and sprite graphics                |
//! | `audiocpu` | Z80 sound program and banked data       |
//! | `oki`      | ADPCM samples                           |

use crate::boot::{joined, path_join};
use crate::bytes::{pairs_swapped, swap_pairs};
use crate::rom_files::RomFile;
use crate::text::str_eq;
use vstd::prelude::*;

verus! {

/// The four assembled regions.
pub struct CpsRoms {
    pub program: Vec<u8>,
    pub gfx: Vec<u8>,
    pub z80: Vec<u8>,
    pub oki: Vec<u8>,
}

/// How a file's bytes are placed.
#[derive(Clone, Copy)]
pub enum Load {
    /// One after the other.
    Contiguous,
    /// A 16-bit word every eight bytes: four chips side by side.
    Word64,
}

/// A file of a dump and where it goes.
#[derive(Clone, Copy)]
pub struct RomEntry {
    pub file: &'static str,
    pub offset: usize,
    pub mode: Load,
}

/// A contiguous file.
pub open spec fn bytes_at(file: &'static str, offset: usize) -> RomEntry {
    RomEntry { file, offset, mode: Load::Contiguous }
}

/// An interleaved file.
pub open spec fn words_at(file: &'static str, offset: usize) -> RomEntry {
    RomEntry { file, offset, mode: Load::Word64 }
}

pub open spec fn sf2_program() -> Seq<RomEntry> {
    seq![
        bytes_at("sf2_30f.11f", 0x00000),
        bytes_at("sf2_31f.12f", 0x40000),
        bytes_at("sf2_28f.9f", 0x80000),
    ]
}

pub open spec fn sf2_gfx() -> Seq<RomEntry> {
    seq![
        words_at("sf2_06.8a", 0x000000),
        words_at("sf2_08.10a", 0x000002),
        words_at("sf2_05.7a", 0x000004),
        words_at("sf2_07.9a", 0x000006),
        words_at("sf2_15.3a", 0x200000),
        words_at("sf2_17.5a", 0x200002),
        words_at("sf2_14.2a", 0x200004),
        words_at("sf2_16.4a", 0x200006),
    ]
}

pub open spec fn sf2_z80() -> Seq<RomEntry> {
    seq![bytes_at("sf2_09.12a", 0x00000)]
}

pub open spec fn sf2_oki() -> Seq<RomEntry> {
    seq![bytes_at("sf2_18.11c", 0x00000), bytes_at("sf2_19.12c", 0x20000)]
}

pub open spec fn sf2ce_program() -> Seq<RomEntry> {
    seq![
        bytes_at("s92e_23b.8f", 0x000000),
        bytes_at("s92_22b.7f", 0x080000),
        bytes_at("s92_21a.6f", 0x100000),
    ]
}

pub open spec fn sf2ce_gfx() -> Seq<RomEntry> {
    seq![
        words_at("s92-1m.3a", 0x000000),
        words_at("s92-3m.5a", 0x000002),
        words_at("s92-2m.4a", 0x000004),
        words_at("s92-4m.6a", 0x000006),
        words_at("s92-5m.7a", 0x200000),
        words_at("s92-7m.9a", 0x200002),
        words_at("s92-6m.8a", 0x200004),
        words_at("s92-8m.10a", 0x200006),
        words_at("s92-10m.3c", 0x400000),
        words_at("s92-12m.5c", 0x400002),
        words_at("s92-11m.4c", 0x400004),
        words_at("s92-13m.6c", 0x400006),
    ]
}

pub open spec fn sf2ce_z80() -> Seq<RomEntry> {
    seq![bytes_at("s92_09.11a", 0x00000)]
}

pub open spec fn sf2ce_oki() -> Seq<RomEntry> {
    seq![bytes_at("s92_18.11c", 0x00000), bytes_at("s92_19.12c", 0x20000)]
}

/// The bytes of the first file of a name.
pub open spec fn file_bytes(files: Seq<RomFile>, name: Seq<char>) -> Option<Seq<u8>>
    decreases files.len(),
{
    if files.len() == 0 {
        None
    } else if files[0].name@ == name {
        Some(files[0].data@)
    } else {
        file_bytes(files.skip(1), name)
    }
}

/// Where a file ends in its region.
pub open spec fn placed_end(e: RomEntry, len: int) -> int {
    match e.mode {
        Load::Contiguous => e.offset + len,
        Load::Word64 => e.offset + (if len / 2 >= 1 { len / 2 - 1 } else { 0 }) * 8 + 2,
    }
}

/// Byte of the file that goes to position `i` of the region, if one does.
pub open spec fn source_of(e: RomEntry, len: int, i: int) -> Option<int> {
    let d = i - e.offset;
    match e.mode {
        Load::Contiguous => if 0 <= d < len { Some(d) } else { None },
        Load::Word64 => if d >= 0 && d % 8 < 2 && d / 8 < len / 2 {
            Some(2 * (d / 8) + d % 8)
        } else {
            None
        },
    }
}

/// A region after a file was placed in it: it grows to hold the file, with zeros in gaps.
pub open spec fn placed(region: Seq<u8>, e: RomEntry, data: Seq<u8>) -> Seq<u8> {
    let end = placed_end(e, data.len() as int);
    Seq::new(
        (if region.len() < end { end } else { region.len() as int }) as nat,
        |i: int|
            match source_of(e, data.len() as int, i) {
                Some(k) => data[k],
                None => if i < region.len() { region[i] } else { 0 },
            },
    )
}

/// A region assembled from the first `n` entries; files that are missing are left out.
pub open spec fn assembled(files: Seq<RomFile>, entries: Seq<RomEntry>, n: int) -> Seq<u8>
    decreases n,
{
    if n <= 0 {
        Seq::empty()
    } else {
        let before = assembled(files, entries, n - 1);
        match file_bytes(files, entries[n - 1].file@) {
            Some(data) => placed(before, entries[n - 1], data),
            None => before,
        }
    }
}

/// A whole region.
pub open spec fn region(files: Seq<RomFile>, entries: Seq<RomEntry>) -> Seq<u8> {
    assembled(files, entries, entries.len() as int)
}

/// The sizes of files leave room for the interleave in memory.
pub open spec fn files_fit(files: Seq<RomFile>) -> bool {
    forall|i: int| 0 <= i < files.len() ==> (#[trigger] files[i]).data@.len() * 4 + 0x80_0000 <= usize::MAX
}

/// Where entries may start.
pub open spec fn offsets_fit(entries: Seq<RomEntry>) -> bool {
    forall|i: int| 0 <= i < entries.len() ==> (#[trigger] entries[i]).offset <= 0x40_0006
}

fn find_file<'a>(files: &'a Vec<RomFile>, name: &str) -> (r: Option<&'a Vec<u8>>)
    ensures
        r is Some <==> file_bytes(files@, name@) is Some,
        r matches Some(d) ==> file_bytes(files@, name@) == Some(d@),
        r matches Some(d) ==> files_fit(files@) ==> d@.len() * 4 + 0x80_0000 <= usize::MAX,
{
    let mut i: usize = 0;
    assert(files@.skip(0) =~= files@);
    while i < files.len()
        invariant
            i <= files@.len(),
            file_bytes(files@, name@) == file_bytes(files@.skip(i as int), name@),
        decreases files@.len() - i,
    {
        if str_eq(files[i].name.as_str(), name) {
            assert(files@[i as int].data@.len() == files[i as int].data@.len());
            return Some(&files[i].data);
        }
        assert(files@.skip(i as int).skip(1) =~= files@.skip(i + 1));
        i = i + 1;
    }
    None
}

fn grow(dest: &mut Vec<u8>, end: usize)
    ensures
        final(dest)@ == Seq::new(
            (if old(dest)@.len() < end { end as nat } else { old(dest)@.len() }),
            |i: int| if i < old(dest)@.len() { old(dest)@[i] } else { 0 },
        ),
{
    let ghost before = dest@;
    while dest.len() < end
        invariant
            before.len() <= dest@.len(),
            dest@.len() <= (if before.len() < end { end as nat } else { before.len() }),
            forall|i: int| 0 <= i < dest@.len() ==> dest@[i] == (if i < before.len() { before[i] } else { 0 }),
        decreases end - dest@.len(),
    {
        dest.push(0);
    }
    assert(dest@ =~= Seq::new(
        (if before.len() < end { end as nat } else { before.len() }),
        |i: int| if i < before.len() { before[i] } else { 0 },
    ));
}

fn place(dest: &mut Vec<u8>, e: &RomEntry, data: &Vec<u8>)
    requires
        e.offset <= 0x40_0006,
        data@.len() * 4 + 0x80_0000 <= usize::MAX,
    ensures
        final(dest)@ == placed(old(dest)@, *e, data@),
{
    let ghost before = dest@;
    let ghost len = data@.len() as int;
    let total: usize = data.len();
    match e.mode {
        Load::Contiguous => {
            let end: usize = e.offset + total;
            grow(dest, end);
            let ghost grown = dest@;
            let mut k: usize = 0;
            while k < total
                invariant
                    k <= total,
                    total == data@.len(),
                    e.offset <= 0x40_0006,
                    data@.len() * 4 + 0x80_0000 <= usize::MAX,
                    dest@.len() == grown.len(),
                    e.offset + total <= dest@.len(),
                    forall|i: int|
                        0 <= i < dest@.len() ==> #[trigger] dest@[i] == (if e.offset <= i < e.offset + k {
                            data@[i - e.offset]
                        } else {
                            grown[i]
                        }),
                decreases total - k,
            {
                dest.set(e.offset + k, data[k]);
                k = k + 1;
            }
        },
        Load::Word64 => {
            let words: usize = total / 2;
            let end: usize = e.offset + (if words >= 1 { words - 1 } else { 0 }) * 8 + 2;
            grow(dest, end);
            let ghost grown = dest@;
            let mut w: usize = 0;
            while w < words
                invariant
                    w <= words,
                    words == total / 2,
                    total == data@.len(),
                    e.offset <= 0x40_0006,
                    data@.len() * 4 + 0x80_0000 <= usize::MAX,
                    dest@.len() == grown.len(),
                    words >= 1 ==> e.offset + (words - 1) * 8 + 2 <= dest@.len(),
                    forall|i: int|
                        0 <= i < dest@.len() ==> #[trigger] dest@[i] == (if i >= e.offset && (i - e.offset) % 8
                            < 2 && (i - e.offset) / 8 < w {
                            data@[2 * ((i - e.offset) / 8) + (i - e.offset) % 8]
                        } else {
                            grown[i]
                        }),
                decreases words - w,
            {
                let base: usize = e.offset + w * 8;
                dest.set(base, data[w * 2]);
                dest.set(base + 1, data[w * 2 + 1]);
                w = w + 1;
            }
        },
    }
    assert(dest@ =~= placed(before, *e, data@));
}

/// Assemble a region.
fn assemble(files: &Vec<RomFile>, entries: &Vec<RomEntry>) -> (r: Vec<u8>)
    requires
        files_fit(files@),
        offsets_fit(entries@),
    ensures
        r@ == region(files@, entries@),
{
    let mut dest: Vec<u8> = Vec::new();
    let mut i: usize = 0;
    while i < entries.len()
        invariant
            i <= entries@.len(),
            files_fit(files@),
            offsets_fit(entries@),
            dest@ == assembled(files@, entries@, i as int),
        decreases entries@.len() - i,
    {
        let e = entries[i];
        assert(e == entries@[i as int]);
        match find_file(files, e.file) {
            Some(data) => {
                place(&mut dest, &e, data);
            },
            None => {},
        }
        i = i + 1;
    }
    dest
}

fn entry(file: &'static str, offset: usize, interleaved: bool) -> (r: RomEntry)
    ensures
        r == (if interleaved { words_at(file, offset) } else { bytes_at(file, offset) }),
{
    RomEntry { file, offset, mode: if interleaved { Load::Word64 } else { Load::Contiguous } }
}

/// The files of a set, region by region.
pub struct Manifest {
    pub program: Vec<RomEntry>,
    pub gfx: Vec<RomEntry>,
    pub z80: Vec<RomEntry>,
    pub oki: Vec<RomEntry>,
}

fn sf2_manifest() -> (r: Manifest)
    ensures
        r.program@ == sf2_program(),
        r.gfx@ == sf2_gfx(),
        r.z80@ == sf2_z80(),
        r.oki@ == sf2_oki(),
{
    let program: Vec<RomEntry> = vec![
        entry("sf2_30f.11f", 0x00000, false),
        entry("sf2_31f.12f", 0x40000, false),
        entry("sf2_28f.9f", 0x80000, false),
    ];
    let gfx: Vec<RomEntry> = vec![
        entry("sf2_06.8a", 0x000000, true),
        entry("sf2_08.10a", 0x000002, true),
        entry("sf2_05.7a", 0x000004, true),
        entry("sf2_07.9a", 0x000006, true),
        entry("sf2_15.3a", 0x200000, true),
        entry("sf2_17.5a", 0x200002, true),
        entry("sf2_14.2a", 0x200004, true),
        entry("sf2_16.4a", 0x200006, true),
    ];
    let z80: Vec<RomEntry> = vec![entry("sf2_09.12a", 0x00000, false)];
    let oki: Vec<RomEntry> = vec![
        entry("sf2_18.11c", 0x00000, false),
        entry("sf2_19.12c", 0x20000, false),
    ];
    assert(program@ =~= sf2_program());
    assert(gfx@ =~= sf2_gfx());
    assert(z80@ =~= sf2_z80());
    assert(oki@ =~= sf2_oki());
    Manifest { program, gfx, z80, oki }
}

fn sf2ce_manifest() -> (r: Manifest)
    ensures
        r.program@ == sf2ce_program(),
        r.gfx@ == sf2ce_gfx(),
        r.z80@ == sf2ce_z80(),
        r.oki@ == sf2ce_oki(),
{
    let program: Vec<RomEntry> = vec![
        entry("s92e_23b.8f", 0x000000, false),
        entry("s92_22b.7f", 0x080000, false),
        entry("s92_21a.6f", 0x100000, false),
    ];
    let gfx: Vec<RomEntry> = vec![
        entry("s92-1m.3a", 0x000000, true),
        entry("s92-3m.5a", 0x000002, true),
        entry("s92-2m.4a", 0x000004, true),
        entry("s92-4m.6a", 0x000006, true),
        entry("s92-5m.7a", 0x200000, true),
        entry("s92-7m.9a", 0x200002, true),
        entry("s92-6m.8a", 0x200004, true),
        entry("s92-8m.10a", 0x200006, true),
        entry("s92-10m.3c", 0x400000, true),
        entry("s92-12m.5c", 0x400002, true),
        entry("s92-11m.4c", 0x400004, true),
        entry("s92-13m.6c", 0x400006, true),
    ];
    let z80: Vec<RomEntry> = vec![entry("s92_09.11a", 0x00000, false)];
    let oki: Vec<RomEntry> = vec![
        entry("s92_18.11c", 0x00000, false),
        entry("s92_19.12c", 0x20000, false),
    ];
    assert(program@ =~= sf2ce_program());
    assert(gfx@ =~= sf2ce_gfx());
    assert(z80@ =~= sf2ce_z80());
    assert(oki@ =~= sf2ce_oki());
    Manifest { program, gfx, z80, oki }
}

/// There is a manifest for a set.
pub open spec fn has_manifest(name: Seq<char>) -> bool {
    name == "sf2"@ || name == "sf2ce"@
}

/// The program files of a set.
pub open spec fn program_of(name: Seq<char>) -> Seq<RomEntry> {
    if name == "sf2"@ { sf2_program() } else { sf2ce_program() }
}

pub open spec fn gfx_of(name: Seq<char>) -> Seq<RomEntry> {
    if name == "sf2"@ { sf2_gfx() } else { sf2ce_gfx() }
}

pub open spec fn z80_of(name: Seq<char>) -> Seq<RomEntry> {
    if name == "sf2"@ { sf2_z80() } else { sf2ce_z80() }
}

pub open spec fn oki_of(name: Seq<char>) -> Seq<RomEntry> {
    if name == "sf2"@ { sf2_oki() } else { sf2ce_oki() }
}

fn manifest_for(name: &str) -> (r: Option<Manifest>)
    ensures
        r is Some <==> has_manifest(name@),
        r matches Some(m) ==> m.program@ == program_of(name@) && m.gfx@ == gfx_of(name@) && m.z80@ == z80_of(
            name@,
        ) && m.oki@ == oki_of(name@),
{
    if str_eq(name, "sf2") {
        Some(sf2_manifest())
    } else if str_eq(name, "sf2ce") {
        Some(sf2ce_manifest())
    } else {
        None
    }
}

/// Why a set could not be loaded; `None` where it can.
pub open spec fn load_error(name: Seq<char>, files: Option<&Vec<RomFile>>) -> Option<Seq<char>> {
    if !has_manifest(name) {
        Some("no CPS1 manifest for '"@ + name + "'"@)
    } else {
        match files {
            None => Some("ROM directory "@ + joined("roms"@, name) + " not found"@),
            Some(f) => if region(f@, program_of(name)).len() == 0 {
                Some(
                    "CPS1: no program ROM files found in roms/"@ + name
                        + "/  — place the ROM dump there and retry"@,
                )
            } else {
                None
            },
        }
    }
}

/// Assemble the regions of a set from the files of its directory (`None` where there is no
/// such directory).  The program is stored byte-swapped and is turned to 68000 order.
pub fn load(name: &str, files: Option<&Vec<RomFile>>) -> (r: Result<CpsRoms, String>)
    requires
        files matches Some(f) ==> files_fit(f@),
    ensures
        r is Err <==> load_error(name@, files) is Some,
        r matches Err(e) ==> load_error(name@, files) == Some(e@),
        r matches Ok(roms) ==> files matches Some(f) && roms.program@ == pairs_swapped(
            region(f@, program_of(name@)),
        ) && roms.gfx@ == region(f@, gfx_of(name@)) && roms.z80@ == region(f@, z80_of(name@)) && roms.oki@
            == region(f@, oki_of(name@)),
{
    match manifest_for(name) {
        None => {
            let mut e = String::from_str("no CPS1 manifest for '");
            e.append(name);
            e.append("'");
            Err(e)
        },
        Some(m) => match files {
            None => {
                let dir = path_join("roms", name);
                let mut e = String::from_str("ROM directory ");
                e.append(dir.as_str());
                e.append(" not found");
                Err(e)
            },
            Some(f) => {
                let mut program = assemble(f, &m.program);
                let gfx = assemble(f, &m.gfx);
                let z80 = assemble(f, &m.z80);
                let oki = assemble(f, &m.oki);
                if program.len() == 0 {
                    let mut e = String::from_str("CPS1: no program ROM files found in roms/");
                    e.append(name);
                    e.append("/  — place the ROM dump there and retry");
                    Err(e)
                } else {
                    swap_pairs(&mut program);
                    Ok(CpsRoms { program, gfx, z80, oki })
                }
            },
        },
    }
}

// ── Laws ─────────────────────────────────────────────────────────────────────

/// Four interleaved chips do not disturb each other: a file placed at another of the four
/// word positions leaves every byte of the first as it was.
pub proof fn interleaved_chips_are_disjoint(region: Seq<u8>, a: RomEntry, x: Seq<u8>, b: RomEntry, y: Seq<u8>, i: int)
    requires
        a.mode is Word64,
        b.mode is Word64,
        a.offset % 8 != b.offset % 8,
        a.offset % 2 == 0,
        b.offset % 2 == 0,
        source_of(a, x.len() as int, i) is Some,
    ensures
        i < placed_end(a, x.len() as int),
        placed(placed(region, a, x), b, y)[i] == x[source_of(a, x.len() as int, i)->0],
{
    assert(source_of(b, y.len() as int, i) is None);
}

/// The entry that is placed last at a position decides what stands there.
proof fn placed_byte_stays(files: Seq<RomFile>, entries: Seq<RomEntry>, m: int, n: int, i: int)
    requires
        0 <= m < n <= entries.len(),
        file_bytes(files, entries[m].file@) is Some,
        source_of(entries[m], file_bytes(files, entries[m].file@)->0.len() as int, i) is Some,
        forall|k: int, len: int| m < k < n ==> #[trigger] source_of(entries[k], len, i) is None || file_bytes(
            files,
            entries[k].file@,
        ) is None || len != file_bytes(files, entries[k].file@)->0.len(),
    ensures
        i < assembled(files, entries, n).len(),
        0 <= i,
        assembled(files, entries, n)[i] == file_bytes(files, entries[m].file@)->0[source_of(
            entries[m],
            file_bytes(files, entries[m].file@)->0.len() as int,
            i,
        )->0],
    decreases n,
{
    if n > m + 1 {
        placed_byte_stays(files, entries, m, n - 1, i);
        if file_bytes(files, entries[n - 1].file@) is Some {
            assert(source_of(
                entries[n - 1],
                file_bytes(files, entries[n - 1].file@)->0.len() as int,
                i,
            ) is None);
        }
    }
}

/// The words of four graphics chips stand side by side: a row of eight bytes holds a word of each,
/// in the order in which the set lists the chips, and a second four start where the first end.
pub proof fn graphics_chips_stand_side_by_side(files: Seq<RomFile>, chip: int, k: int, b: int)
    requires
        0 <= chip < 8,
        0 <= k < 0x4_0000,
        0 <= b < 2,
        forall|c: int|
            0 <= c < 8 ==> (#[trigger] file_bytes(files, sf2_gfx()[c].file@)) is Some && file_bytes(
                files,
                sf2_gfx()[c].file@,
            )->0.len() == 0x8_0000,
    ensures
        ({
            let data = file_bytes(files, sf2_gfx()[chip].file@)->0;
            let row = if chip < 4 { 8 * k } else { 0x20_0000 + 8 * k };
            &&& row + 2 * (chip % 4) + b < region(files, gfx_of("sf2"@)).len()
            &&& region(files, gfx_of("sf2"@))[row + 2 * (chip % 4) + b] == data[2 * k + b]
        }),
        sf2_gfx()[0].file@ == "sf2_06.8a"@,
        sf2_gfx()[1].file@ == "sf2_08.10a"@,
        sf2_gfx()[2].file@ == "sf2_05.7a"@,
        sf2_gfx()[3].file@ == "sf2_07.9a"@,
        sf2_gfx()[4].file@ == "sf2_15.3a"@,
        sf2_gfx()[5].file@ == "sf2_17.5a"@,
        sf2_gfx()[6].file@ == "sf2_14.2a"@,
        sf2_gfx()[7].file@ == "sf2_16.4a"@,
{
    let e = sf2_gfx();
    let row = if chip < 4 { 8 * k } else { 0x20_0000 + 8 * k };
    let i = row + 2 * (chip % 4) + b;
    assert(e[chip].offset == (if chip < 4 { 0int } else { 0x20_0000 }) + 2 * (chip % 4));
    assert(source_of(e[chip], 0x8_0000, i) == Some(2 * k + b));
    assert forall|c: int, len: int| chip < c < 8 && len == 0x8_0000 implies #[trigger] source_of(e[c], len, i) is None by {
        assert(e[c].offset == (if c < 4 { 0int } else { 0x20_0000 }) + 2 * (c % 4));
    }
    placed_byte_stays(files, e, chip, 8, i);
}

/// Program and samples follow each other without a gap: 256 KB chips of the first set's program,
/// 512 KB chips of the second's, 128 KB chips of samples.
pub proof fn chips_follow_each_other(k: int)
    requires
        0 <= k < 3,
    ensures
        program_of("sf2"@)[k].offset == k * 0x4_0000,
        program_of("sf2ce"@)[k].offset == k * 0x8_0000,
        program_of("sf2"@)[k].mode is Contiguous,
        program_of("sf2ce"@)[k].mode is Contiguous,
        k < 2 ==> oki_of("sf2"@)[k].offset == k * 0x2_0000 && oki_of("sf2"@)[k].mode is Contiguous,
        k < 2 ==> oki_of("sf2ce"@)[k].offset == k * 0x2_0000 && oki_of("sf2ce"@)[k].mode is Contiguous,
        program_of("sf2"@).len() == 3,
        program_of("sf2ce"@).len() == 3,
{
    reveal_strlit("sf2");
    reveal_strlit("sf2ce");
    assert("sf2"@.len() != "sf2ce"@.len());
}

/// The second set's twelve graphics chips stand side by side in the same way, four to each of three
/// parts of two megabytes.
pub proof fn second_set_stands_side_by_side(files: Seq<RomFile>, chip: int, k: int, b: int)
    requires
        0 <= chip < 12,
        0 <= k < 0x4_0000,
        0 <= b < 2,
        forall|c: int|
            0 <= c < 12 ==> (#[trigger] file_bytes(files, sf2ce_gfx()[c].file@)) is Some && file_bytes(
                files,
                sf2ce_gfx()[c].file@,
            )->0.len() == 0x8_0000,
    ensures
        ({
            let data = file_bytes(files, sf2ce_gfx()[chip].file@)->0;
            let row = 0x20_0000 * (chip / 4) + 8 * k;
            &&& row + 2 * (chip % 4) + b < region(files, gfx_of("sf2ce"@)).len()
            &&& region(files, gfx_of("sf2ce"@))[row + 2 * (chip % 4) + b] == data[2 * k + b]
        }),
        z80_of("sf2"@).len() == 1 && z80_of("sf2"@)[0].offset == 0 && z80_of("sf2"@)[0].mode is Contiguous,
        z80_of("sf2ce"@).len() == 1 && z80_of("sf2ce"@)[0].offset == 0 && z80_of("sf2ce"@)[0].mode is Contiguous,
{
    reveal_strlit("sf2");
    reveal_strlit("sf2ce");
    assert("sf2"@.len() != "sf2ce"@.len());
    let e = sf2ce_gfx();
    let row = 0x20_0000 * (chip / 4) + 8 * k;
    let i = row + 2 * (chip % 4) + b;
    assert(e[chip].offset == 0x20_0000 * (chip / 4) + 2 * (chip % 4));
    assert(source_of(e[chip], 0x8_0000, i) == Some(2 * k + b));
    assert forall|c: int, len: int| chip < c < 12 && len == 0x8_0000 implies #[trigger] source_of(e[c], len, i) is None by {
        assert(e[c].offset == 0x20_0000 * (c / 4) + 2 * (c % 4));
    }
    placed_byte_stays(files, e, chip, 12, i);
}

} // verus!
