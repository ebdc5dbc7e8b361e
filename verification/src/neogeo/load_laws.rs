//! Laws of loading.  Loading from files in memory does not depend on the order in which a host
//! hands them over, so that every peer and every run loads the same ROMs; files of a directory
//! come by name.

use crate::neogeo::bus::{BusView, RomsView};
use crate::neogeo::cart::{cart_model_for, cart_state_for, chip_form_is_kept};
use crate::neogeo::disk_load::{
    all_contents, bios_names, bios_of, bus_with_directory, c_rom_from, ext_is, first_match, inserted_at, matches_of,
    named_file, samples_of, sorted_with_ext, system_error,
};
use crate::neogeo::memory_load::{
    adpcm_a_exts, adpcm_b_exts, adpcm_exts, bios_choice, bus_with_files, bus_with_game, c_rom_exts,
    c_rom_from_pair, m1_choice, p_rom_exts, p_rom_from_files, roms_from_files, s1_choice, samples_from_files,
};
use crate::rom_files::{
    any_ext, by_ext, by_ext_is_first, ext_data, ext_flags, extension_follows_the_last_dot, first_lower, flags_minus,
    joined_data, largest, last_with_suffix_is_last, largest_is_largest, larger, name_has_ext, part_flags, suffix_flags,
    RomFile,
};
use crate::text::{bytes_less_is_order, has_part, has_suffix, lowercase, text_less};
use vstd::prelude::*;

verus! {

/// One of the files has this name and these bytes.
pub open spec fn holds(files: Seq<RomFile>, name: Seq<char>, data: Seq<u8>) -> bool {
    exists|i: int| 0 <= i < files.len() && (#[trigger] files[i]).name@ == name && files[i].data@ == data
}

/// The same files, in any order.
pub open spec fn same_files(a: Seq<RomFile>, b: Seq<RomFile>) -> bool {
    forall|name: Seq<char>, data: Seq<u8>| #[trigger] holds(a, name, data) == holds(b, name, data)
}

/// No two files have the same name.
pub open spec fn distinct_names(files: Seq<RomFile>) -> bool {
    forall|i: int, j: int|
        0 <= i < files.len() && 0 <= j < files.len() && (#[trigger] files[i]).name@ == (#[trigger] files[j]).name@
            ==> i == j
}

/// No two names differ in the case of their letters only.
pub open spec fn distinct_in_lower_case(files: Seq<RomFile>) -> bool {
    forall|i: int, j: int|
        0 <= i < files.len() && 0 <= j < files.len() && lowercase((#[trigger] files[i]).name@) == lowercase(
            (#[trigger] files[j]).name@,
        ) ==> i == j
}

/// Two choices fall on the same file, or both on none.
pub open spec fn same_choice(a: Seq<RomFile>, i: Option<int>, b: Seq<RomFile>, j: Option<int>) -> bool {
    match (i, j) {
        (Some(i), Some(j)) => a[i].name@ == b[j].name@ && a[i].data@ == b[j].data@,
        (None, None) => true,
        _ => false,
    }
}

/// Flags that follow from the names.
pub open spec fn named_flags(files: Seq<RomFile>, want: spec_fn(Seq<char>) -> bool) -> Seq<bool> {
    Seq::new(files.len(), |i: int| want(files[i].name@))
}

proof fn same_text(x: Seq<char>, y: Seq<char>)
    requires
        !text_less(x, y),
        !text_less(y, x),
    ensures
        x == y,
{
    let a = vstd::utf8::encode_utf8(x);
    let b = vstd::utf8::encode_utf8(y);
    bytes_less_is_order(a, b, a);
    vstd::utf8::encode_utf8_decode_utf8(x);
    vstd::utf8::encode_utf8_decode_utf8(y);
}

/// A file of one list has its place in the other.
proof fn place_of(a: Seq<RomFile>, b: Seq<RomFile>, i: int) -> (j: int)
    requires
        same_files(a, b),
        0 <= i < a.len(),
    ensures
        0 <= j < b.len(),
        b[j].name@ == a[i].name@,
        b[j].data@ == a[i].data@,
{
    assert(holds(a, a[i].name@, a[i].data@));
    assert(holds(b, a[i].name@, a[i].data@));
    choose|j: int| 0 <= j < b.len() && (#[trigger] b[j]).name@ == a[i].name@ && b[j].data@ == a[i].data@
}

proof fn largest_ignores_order(a: Seq<RomFile>, b: Seq<RomFile>, want: spec_fn(Seq<char>) -> bool)
    requires
        same_files(a, b),
        distinct_names(b),
    ensures
        same_choice(
            a,
            largest(a, named_flags(a, want), a.len() as int),
            b,
            largest(b, named_flags(b, want), b.len() as int),
        ),
{
    let wa = named_flags(a, want);
    let wb = named_flags(b, want);
    largest_is_largest(a, wa, a.len() as int);
    largest_is_largest(b, wb, b.len() as int);
    assert(same_files(b, a)) by {
        assert forall|n: Seq<char>, d: Seq<u8>| #[trigger] holds(b, n, d) == holds(a, n, d) by {
            assert(holds(a, n, d) == holds(b, n, d));
        }
    }
    let ca = largest(a, wa, a.len() as int);
    let cb = largest(b, wb, b.len() as int);
    if let Some(i) = ca {
        let k = place_of(a, b, i);
        assert(wb[k]);
        assert(cb is Some);
        let j = cb->0;
        let m = place_of(b, a, j);
        assert(wa[m]);
        assert(!larger(b, k, j) && !larger(a, m, i));
        assert(a[i].data@.len() == b[j].data@.len());
        same_text(a[i].name@, b[j].name@);
        assert(k == j);
    } else if let Some(j) = cb {
        let m = place_of(b, a, j);
        assert(wa[m]);
    }
}

proof fn first_lower_is_first(files: Seq<RomFile>, want: Seq<bool>, n: int)
    requires
        0 <= n <= files.len(),
        want.len() == files.len(),
    ensures
        first_lower(files, want, n) is None ==> forall|j: int| 0 <= j < n ==> !#[trigger] want[j],
        first_lower(files, want, n) matches Some(i) ==> {
            &&& 0 <= i < n
            &&& want[i]
            &&& forall|j: int|
                0 <= j < n && #[trigger] want[j] ==> !text_less(
                    lowercase(files[j].name@),
                    lowercase(files[i].name@),
                )
        },
    decreases n,
{
    if n > 0 {
        first_lower_is_first(files, want, n - 1);
        if let Some(i) = first_lower(files, want, n) {
            assert forall|j: int| 0 <= j < n && #[trigger] want[j] implies !text_less(
                lowercase(files[j].name@),
                lowercase(files[i].name@),
            ) by {
                let x = vstd::utf8::encode_utf8(lowercase(files[j].name@));
                let y = vstd::utf8::encode_utf8(lowercase(files[i].name@));
                bytes_less_is_order(x, y, x);
                if first_lower(files, want, n - 1) is Some {
                    let p = first_lower(files, want, n - 1)->0;
                    let z = vstd::utf8::encode_utf8(lowercase(files[p].name@));
                    bytes_less_is_order(x, y, z);
                    bytes_less_is_order(y, z, x);
                    bytes_less_is_order(x, z, y);
                }
            }
        }
    }
}

proof fn first_lower_ignores_order(a: Seq<RomFile>, b: Seq<RomFile>, want: spec_fn(Seq<char>) -> bool)
    requires
        same_files(a, b),
        distinct_in_lower_case(b),
    ensures
        same_choice(
            a,
            first_lower(a, named_flags(a, want), a.len() as int),
            b,
            first_lower(b, named_flags(b, want), b.len() as int),
        ),
{
    let wa = named_flags(a, want);
    let wb = named_flags(b, want);
    first_lower_is_first(a, wa, a.len() as int);
    first_lower_is_first(b, wb, b.len() as int);
    assert(same_files(b, a)) by {
        assert forall|n: Seq<char>, d: Seq<u8>| #[trigger] holds(b, n, d) == holds(a, n, d) by {
            assert(holds(a, n, d) == holds(b, n, d));
        }
    }
    let ca = first_lower(a, wa, a.len() as int);
    let cb = first_lower(b, wb, b.len() as int);
    if let Some(i) = ca {
        let k = place_of(a, b, i);
        assert(wb[k]);
        assert(cb is Some);
        let j = cb->0;
        let m = place_of(b, a, j);
        assert(wa[m]);
        same_text(lowercase(a[i].name@), lowercase(b[j].name@));
        assert(k == j);
    } else if let Some(j) = cb {
        let m = place_of(b, a, j);
        assert(wa[m]);
    }
}

proof fn by_ext_ignores_order(a: Seq<RomFile>, b: Seq<RomFile>, ext: Seq<char>)
    requires
        same_files(a, b),
        distinct_names(b),
    ensures
        same_choice(a, by_ext(a, ext), b, by_ext(b, ext)),
        ext_data(a, ext) == ext_data(b, ext),
{
    by_ext_is_first(a, ext, a.len() as int);
    by_ext_is_first(b, ext, b.len() as int);
    assert(same_files(b, a)) by {
        assert forall|n: Seq<char>, d: Seq<u8>| #[trigger] holds(b, n, d) == holds(a, n, d) by {
            assert(holds(a, n, d) == holds(b, n, d));
        }
    }
    if let Some(i) = by_ext(a, ext) {
        let k = place_of(a, b, i);
        assert(name_has_ext(b[k].name@, ext));
        assert(by_ext(b, ext) is Some);
        let j = by_ext(b, ext)->0;
        let m = place_of(b, a, j);
        assert(name_has_ext(a[m].name@, ext));
        same_text(a[i].name@, b[j].name@);
        assert(k == j);
    } else if let Some(j) = by_ext(b, ext) {
        let m = place_of(b, a, j);
        assert(name_has_ext(a[m].name@, ext));
    }
}

proof fn joined_ignores_order(a: Seq<RomFile>, b: Seq<RomFile>, exts: Seq<&str>)
    requires
        same_files(a, b),
        distinct_names(b),
    ensures
        joined_data(a, exts) == joined_data(b, exts),
    decreases exts.len(),
{
    if exts.len() > 0 {
        joined_ignores_order(a, b, exts.drop_last());
        by_ext_ignores_order(a, b, exts.last()@);
    }
}

proof fn any_ext_ignores_order(a: Seq<RomFile>, b: Seq<RomFile>, exts: Seq<&str>)
    requires
        same_files(a, b),
        distinct_names(b),
    ensures
        any_ext(a, exts) == any_ext(b, exts),
{
    assert forall|k: int| 0 <= k < exts.len() implies (#[trigger] by_ext(a, exts[k]@) is Some) == (by_ext(
        b,
        exts[k]@,
    ) is Some) by {
        by_ext_ignores_order(a, b, exts[k]@);
    }
    if any_ext(a, exts) {
        let k = choose|k: int| 0 <= k < exts.len() && #[trigger] by_ext(a, exts[k]@) is Some;
        assert(by_ext(b, exts[k]@) is Some);
    }
    if any_ext(b, exts) {
        let k = choose|k: int| 0 <= k < exts.len() && #[trigger] by_ext(b, exts[k]@) is Some;
        by_ext_ignores_order(a, b, exts[k]@);
        assert(by_ext(a, exts[k]@) is Some);
    }
}

proof fn c_rom_ignores_order(a: Seq<RomFile>, b: Seq<RomFile>, k: int)
    requires
        same_files(a, b),
        distinct_names(b),
    ensures
        c_rom_from_pair(a, k) == c_rom_from_pair(b, k),
    decreases 8 - k,
{
    if 0 <= k < 8 {
        by_ext_ignores_order(a, b, c_rom_exts()[2 * k]@);
        by_ext_ignores_order(a, b, c_rom_exts()[2 * k + 1]@);
        c_rom_ignores_order(a, b, k + 1);
    }
}

/// Every peer picks the same Z80 program and fix tiles, in whatever order it has the files; the
/// same BIOS too, where no two names differ in the case of their letters only.
pub proof fn choices_ignore_order(a: Seq<RomFile>, b: Seq<RomFile>)
    requires
        same_files(a, b),
        distinct_names(b),
    ensures
        distinct_in_lower_case(b) ==> same_choice(a, bios_choice(a), b, bios_choice(b)),
        same_choice(a, m1_choice(a), b, m1_choice(b)),
        same_choice(a, s1_choice(a), b, s1_choice(b)),
{
    let standard = |n: Seq<char>| has_suffix(lowercase(n), "sp-s2.sp1"@);
    let any = |n: Seq<char>| has_suffix(lowercase(n), ".sp1"@);
    let named = |n: Seq<char>| has_part(lowercase(n), "bios"@) || has_part(lowercase(n), "sp-"@);
    let m1 = |n: Seq<char>| has_suffix(lowercase(n), ".m1"@) && !has_suffix(lowercase(n), "sm1.sm1"@);
    let s1 = |n: Seq<char>| name_has_ext(n, "s1"@);
    if distinct_in_lower_case(b) {
        first_lower_ignores_order(a, b, standard);
        first_lower_ignores_order(a, b, any);
        first_lower_ignores_order(a, b, named);
    }
    largest_ignores_order(a, b, m1);
    largest_ignores_order(a, b, s1);
    assert(named_flags(a, standard) =~= suffix_flags(a, "sp-s2.sp1"@));
    assert(named_flags(b, standard) =~= suffix_flags(b, "sp-s2.sp1"@));
    assert(named_flags(a, any) =~= suffix_flags(a, ".sp1"@));
    assert(named_flags(b, any) =~= suffix_flags(b, ".sp1"@));
    assert(named_flags(a, named) =~= part_flags(a, "bios"@, "sp-"@));
    assert(named_flags(b, named) =~= part_flags(b, "bios"@, "sp-"@));
    assert(named_flags(a, m1) =~= flags_minus(suffix_flags(a, ".m1"@), suffix_flags(a, "sm1.sm1"@)));
    assert(named_flags(b, m1) =~= flags_minus(suffix_flags(b, ".m1"@), suffix_flags(b, "sm1.sm1"@)));
    assert(named_flags(a, s1) =~= ext_flags(a, "s1"@));
    assert(named_flags(b, s1) =~= ext_flags(b, "s1"@));
}

/// Every peer assembles the same program, sprites and samples, in whatever order it has the
/// files.
pub proof fn assembly_ignores_order(a: Seq<RomFile>, b: Seq<RomFile>)
    requires
        same_files(a, b),
        distinct_names(b),
    ensures
        p_rom_from_files(a) == p_rom_from_files(b),
        c_rom_from_pair(a, 0) == c_rom_from_pair(b, 0),
        samples_from_files(a) == samples_from_files(b),
{
    joined_ignores_order(a, b, p_rom_exts());
    c_rom_ignores_order(a, b, 0);
    joined_ignores_order(a, b, adpcm_a_exts());
    joined_ignores_order(a, b, adpcm_b_exts());
    joined_ignores_order(a, b, adpcm_exts());
    any_ext_ignores_order(a, b, adpcm_a_exts());
    any_ext_ignores_order(a, b, adpcm_b_exts());
}

/// Loading a game, from files in memory or from its directory, makes the board that game's
/// board; no swap of the sound CPU's ROM is queued while it loads.
pub proof fn loaded_board_runs_game(bus: BusView, game: Seq<char>, files: Seq<RomFile>)
    requires
        bus.pending_m1_rom is None,
    ensures
        bus_with_files(bus, game, files).runs_game(game),
        bus_with_game(bus, game, files).runs_game(game),
        all_contents(files, p_rom_exts()).len() > 0 ==> bus_with_directory(bus, files, game).runs_game(game),
{
    let s = cart_state_for(game);
    let rom = (cart_model_for(game).rom)(p_rom_from_files(files));
    chip_form_is_kept(game, s, rom, 0, 0, 0, Seq::empty());
    let disk_rom = (cart_model_for(game).rom)(all_contents(files, p_rom_exts()));
    chip_form_is_kept(game, s, disk_rom, 0, 0, 0, Seq::empty());
}

/// Where a name belongs in a list of positions that ascends by name: behind those that do not
/// come after it.
proof fn place_in(files: Seq<RomFile>, list: Seq<usize>, i: usize) -> (k: int)
    ensures
        0 <= k <= list.len(),
        forall|j: int|
            0 <= j < k ==> !text_less(files[i as int].name@, files[#[trigger] list[j] as int].name@),
        k < list.len() ==> text_less(files[i as int].name@, files[list[k] as int].name@),
    decreases list.len(),
{
    if list.len() == 0 || text_less(files[i as int].name@, files[list[0] as int].name@) {
        0
    } else {
        let t = list.skip(1);
        let k = place_in(files, t, i);
        assert forall|j: int| 0 <= j < k + 1 implies !text_less(
            files[i as int].name@,
            files[#[trigger] list[j] as int].name@,
        ) by {
            if j > 0 {
                assert(t[j - 1] == list[j]);
            }
        }
        k + 1
    }
}

/// Positions ascend by name, and those of equal names by themselves.
pub open spec fn by_name(files: Seq<RomFile>, list: Seq<usize>) -> bool {
    forall|j: int, k: int|
        0 <= j < k < list.len() ==> {
            let (x, y) = (#[trigger] list[j], #[trigger] list[k]);
            &&& !text_less(files[y as int].name@, files[x as int].name@)
            &&& files[x as int].name@ == files[y as int].name@ ==> x < y
        }
}

/// A list holds exactly the positions below `n` whose file has the extension, each once.
pub open spec fn holds_each_once(files: Seq<RomFile>, ext: Seq<char>, list: Seq<usize>, n: int) -> bool {
    &&& list.no_duplicates()
    &&& forall|k: int|
        0 <= k < list.len() ==> (#[trigger] list[k]) < n && ext_is(files[list[k] as int].name@, ext)
    &&& forall|i: usize|
        i < n && ext_is(#[trigger] files[i as int].name@, ext) ==> list.contains(i)
}

/// What comes after the place of a name comes after the name.
proof fn place_splits(files: Seq<RomFile>, list: Seq<usize>, i: usize, k: int, j: int)
    requires
        by_name(files, list),
        0 <= k <= j < list.len(),
        text_less(files[i as int].name@, files[list[k] as int].name@),
    ensures
        text_less(files[i as int].name@, files[list[j] as int].name@),
{
    if j > k {
        let x = vstd::utf8::encode_utf8(files[i as int].name@);
        let y = vstd::utf8::encode_utf8(files[list[k] as int].name@);
        let z = vstd::utf8::encode_utf8(files[list[j] as int].name@);
        assert(!text_less(files[list[j] as int].name@, files[list[k] as int].name@));
        bytes_less_is_order(x, y, z);
        bytes_less_is_order(y, z, x);
    }
}

/// A later position inserted at the place of its name keeps the order.
proof fn insertion_keeps_order(files: Seq<RomFile>, list: Seq<usize>, i: usize, k: int)
    requires
        by_name(files, list),
        0 <= k <= list.len(),
        forall|j: int| 0 <= j < list.len() ==> (#[trigger] list[j]) < i,
        forall|j: int|
            0 <= j < k ==> !text_less(files[i as int].name@, files[#[trigger] list[j] as int].name@),
        k < list.len() ==> text_less(files[i as int].name@, files[list[k] as int].name@),
    ensures
        by_name(files, list.insert(k, i)),
{
    let after = list.insert(k, i);
    assert forall|p: int, q: int| 0 <= p < q < after.len() implies ({
        let (x, y) = (#[trigger] after[p], #[trigger] after[q]);
        &&& !text_less(files[y as int].name@, files[x as int].name@)
        &&& files[x as int].name@ == files[y as int].name@ ==> x < y
    }) by {
        if p == k {
            assert(after[q] == list[q - 1]);
            place_splits(files, list, i, k, q - 1);
            let a = vstd::utf8::encode_utf8(files[i as int].name@);
            let b = vstd::utf8::encode_utf8(files[list[q - 1] as int].name@);
            bytes_less_is_order(a, b, a);
        } else if q == k {
            assert(after[p] == list[p]);
        } else {
            let p0 = if p < k { p } else { p - 1 };
            let q0 = if q < k { q } else { q - 1 };
            assert(after[p] == list[p0] && after[q] == list[q0]);
        }
    }
}

/// The next position with the extension, inserted anywhere, joins those of the list.
proof fn insertion_adds_one(files: Seq<RomFile>, ext: Seq<char>, list: Seq<usize>, i: usize, k: int)
    requires
        holds_each_once(files, ext, list, i as int),
        0 <= k <= list.len(),
        ext_is(files[i as int].name@, ext),
    ensures
        holds_each_once(files, ext, list.insert(k, i), i + 1),
{
    let after = list.insert(k, i);
    assert forall|p: int| 0 <= p < after.len() implies (#[trigger] after[p]) < i + 1 && ext_is(
        files[after[p] as int].name@,
        ext,
    ) by {
        if p != k {
            assert(after[p] == list[if p < k { p } else { p - 1 }]);
        }
    }
    assert forall|p: int, q: int| 0 <= p < after.len() && 0 <= q < after.len() && p != q implies after[p]
        != after[q] by {
        let p0 = if p < k { p } else { p - 1 };
        let q0 = if q < k { q } else { q - 1 };
        assert(p != k ==> after[p] == list[p0] && list[p0] < i);
        assert(q != k ==> after[q] == list[q0] && list[q0] < i);
    }
    assert forall|f: usize| f < i + 1 && ext_is(#[trigger] files[f as int].name@, ext) implies after.contains(f) by {
        if f == i {
            assert(after[k] == i);
        } else {
            assert(list.contains(f));
            let q = choose|q: int| 0 <= q < list.len() && list[q] == f;
            assert(after[if q < k { q } else { q + 1 }] == f);
        }
    }
}

proof fn sorted_step(files: Seq<RomFile>, ext: Seq<char>, n: int)
    requires
        0 <= n <= files.len() <= usize::MAX,
    ensures
        by_name(files, sorted_with_ext(files, ext, n)),
        holds_each_once(files, ext, sorted_with_ext(files, ext, n), n),
    decreases n,
{
    if n > 0 {
        sorted_step(files, ext, n - 1);
        let list = sorted_with_ext(files, ext, n - 1);
        let i = (n - 1) as usize;
        if ext_is(files[n - 1].name@, ext) {
            let k = place_in(files, list, i);
            inserted_at(files, list, i, k);
            insertion_keeps_order(files, list, i, k);
            insertion_adds_one(files, ext, list, i, k);
        }
    }
}

/// The files with an extension come by ascending name, those of equal names in the order of the
/// list, and each of them exactly once; no other file is among them.
pub proof fn matches_ascend(files: Seq<RomFile>, ext: Seq<char>)
    requires
        files.len() <= usize::MAX,
    ensures
        by_name(files, matches_of(files, ext)),
        holds_each_once(files, ext, matches_of(files, ext), files.len() as int),
{
    sorted_step(files, ext, files.len() as int);
}

// ── Assembly ─────────────────────────────────────────────────────────────────

/// The program is its parts one after the other, in the order of their numbers with the bank chip
/// `sp2` after the second.
pub proof fn program_parts_follow_each_other(files: Seq<RomFile>)
    ensures
        p_rom_from_files(files) == ext_data(files, "p1"@) + ext_data(files, "p2"@) + ext_data(files, "sp2"@)
            + ext_data(files, "p3"@) + ext_data(files, "p4"@) + ext_data(files, "p5"@) + ext_data(files, "p6"@)
            + ext_data(files, "p7"@) + ext_data(files, "p8"@),
{
    let e = p_rom_exts();
    joined_up_to(files, e, 9);
    joined_up_to(files, e, 8);
    joined_up_to(files, e, 7);
    joined_up_to(files, e, 6);
    joined_up_to(files, e, 5);
    joined_up_to(files, e, 4);
    joined_up_to(files, e, 3);
    joined_up_to(files, e, 2);
    joined_up_to(files, e, 1);
    assert(e.take(9) =~= e);
    assert(e.take(0) =~= Seq::<&str>::empty());
    assert(joined_data(files, e.take(1)) =~= ext_data(files, "p1"@));
}

proof fn joined_up_to(files: Seq<RomFile>, exts: Seq<&str>, n: int)
    requires
        0 < n <= exts.len(),
    ensures
        joined_data(files, exts.take(n)) == joined_data(files, exts.take(n - 1)) + ext_data(files, exts[n - 1]@),
{
    assert(exts.take(n).drop_last() =~= exts.take(n - 1));
}

/// The samples: with files for either of the two buses, those from `v11` on for the first and those
/// from `v21` on for the second; else those from `v1` to `v4` for both.
pub proof fn samples_go_to_their_buses(files: Seq<RomFile>)
    ensures
        ({
            let (a, b) = samples_from_files(files);
            let one = ext_data(files, "v1"@) + ext_data(files, "v2"@) + ext_data(files, "v3"@) + ext_data(files, "v4"@);
            &&& by_ext(files, "v11"@) is Some || by_ext(files, "v21"@) is Some ==> {
                &&& a.len() >= ext_data(files, "v11"@).len()
                &&& a.take(ext_data(files, "v11"@).len() as int) == ext_data(files, "v11"@)
                &&& b.len() >= ext_data(files, "v21"@).len()
                &&& b.take(ext_data(files, "v21"@).len() as int) == ext_data(files, "v21"@)
            }
            &&& !any_ext(files, adpcm_a_exts()) && !any_ext(files, adpcm_b_exts()) ==> a == one && b == one
        }),
{
    let e = adpcm_exts();
    joined_up_to(files, e, 4);
    joined_up_to(files, e, 3);
    joined_up_to(files, e, 2);
    joined_up_to(files, e, 1);
    assert(e.take(4) =~= e);
    assert(e.take(0) =~= Seq::<&str>::empty());
    assert(joined_data(files, e.take(1)) =~= ext_data(files, "v1"@));
    assert(adpcm_a_exts()[0]@ == "v11"@ && adpcm_b_exts()[0]@ == "v21"@);
    joined_starts_with_first(files, adpcm_a_exts());
    joined_starts_with_first(files, adpcm_b_exts());
}

proof fn joined_starts_with_first(files: Seq<RomFile>, exts: Seq<&str>)
    requires
        exts.len() >= 1,
    ensures
        joined_data(files, exts).len() >= ext_data(files, exts[0]@).len(),
        joined_data(files, exts).take(ext_data(files, exts[0]@).len() as int) == ext_data(files, exts[0]@),
    decreases exts.len(),
{
    let first = ext_data(files, exts[0]@);
    if exts.len() == 1 {
        assert(exts.drop_last() =~= Seq::<&str>::empty());
        assert(joined_data(files, exts.drop_last()) =~= Seq::<u8>::empty());
        assert(exts.last() == exts[0]);
        assert(joined_data(files, exts) =~= first);
        assert(first.take(first.len() as int) =~= first);
    } else {
        joined_starts_with_first(files, exts.drop_last());
        let before = joined_data(files, exts.drop_last());
        assert(joined_data(files, exts).take(first.len() as int) =~= before.take(first.len() as int));
    }
}

/// Sprite ROMs come in pairs whose bytes alternate, the odd-numbered one's first; the pairs follow
/// each other.
pub proof fn sprite_pairs_alternate(files: Seq<RomFile>, k: int)
    requires
        by_ext(files, "c1"@) is Some,
        by_ext(files, "c2"@) is Some,
        ext_data(files, "c1"@).len() == ext_data(files, "c2"@).len(),
    ensures
        ({
            let (a, b) = (ext_data(files, "c1"@), ext_data(files, "c2"@));
            let rom = c_rom_from_pair(files, 0);
            &&& rom.len() >= 2 * a.len()
            &&& 0 <= k < a.len() ==> rom[2 * k] == a[k] && rom[2 * k + 1] == b[k]
            &&& by_ext(files, "c3"@) is None ==> rom.len() == 2 * a.len()
            &&& by_ext(files, "c3"@) is Some && by_ext(files, "c4"@) is Some && ext_data(files, "c3"@).len()
                == ext_data(files, "c4"@).len() && 0 <= k < ext_data(files, "c3"@).len() ==> rom[2 * a.len() + 2 * k]
                == ext_data(files, "c3"@)[k] && rom[2 * a.len() + 2 * k + 1] == ext_data(files, "c4"@)[k]
        }),
{
    reveal_with_fuel(c_rom_from_pair, 3);
    assert(c_rom_exts()[0]@ == "c1"@ && c_rom_exts()[1]@ == "c2"@ && c_rom_exts()[2]@ == "c3"@ && c_rom_exts()[3]@
        == "c4"@);
}

/// Of several BIOS files in a directory the standard one is taken, then the European one, then
/// either of the universal ones.
pub proof fn preferred_bios_is_taken(files: Seq<RomFile>)
    ensures
        ({
            let n = files.len() as int;
            let standard = named_file(files, "sp-s2.sp1"@, n);
            let european = named_file(files, "sp-e.sp1"@, n);
            let universal = named_file(files, "uni-bios.rom"@, n);
            let newer = named_file(files, "uni-bios_4_0.rom"@, n);
            &&& standard is Some ==> bios_of(files, 0) == standard
            &&& standard is None && european is Some ==> bios_of(files, 0) == european
            &&& standard is None && european is None && universal is Some ==> bios_of(files, 0) == universal
            &&& standard is None && european is None && universal is None ==> bios_of(files, 0) == newer
        }),
{
    reveal_with_fuel(bios_of, 5);
    assert(bios_names()[0]@ == "sp-s2.sp1"@ && bios_names()[1]@ == "sp-e.sp1"@ && bios_names()[2]@ == "uni-bios.rom"@
        && bios_names()[3]@ == "uni-bios_4_0.rom"@);
}

/// A file that is found by its name has it; where none is found none has.
pub proof fn named_file_has_its_name(files: Seq<RomFile>, name: Seq<char>, n: int)
    requires
        0 <= n <= files.len(),
    ensures
        named_file(files, name, n) matches Some(i) ==> 0 <= i < n && files[i].name@ == name,
        named_file(files, name, n) is None ==> forall|j: int| 0 <= j < n ==> (#[trigger] files[j]).name@ != name,
    decreases n,
{
    if n > 0 {
        named_file_has_its_name(files, name, n - 1);
    }
}

/// Sprite ROMs of a directory come in pairs whose bytes alternate, the odd-numbered one's first.
pub proof fn directory_sprite_pairs_alternate(files: Seq<RomFile>, k: int)
    requires
        first_match(files, "c1"@) is Some,
        first_match(files, "c2"@) is Some,
    ensures
        ({
            let (a, b) = (files[first_match(files, "c1"@)->0].data@, files[first_match(files, "c2"@)->0].data@);
            0 <= k < a.len() && k < b.len() ==> c_rom_from(files, 0)[2 * k] == a[k] && c_rom_from(files, 0)[2 * k + 1]
                == b[k]
        }),
{
    reveal_with_fuel(c_rom_from, 2);
    assert(c_rom_exts()[0]@ == "c1"@ && c_rom_exts()[1]@ == "c2"@);
}

/// Of the files in memory the standard BIOS is taken where there is one, else one that ends in
/// `.sp1`, else one that is named like a BIOS.
pub proof fn preferred_bios_in_memory_is_taken(files: Seq<RomFile>, i: int)
    requires
        0 <= i < files.len(),
    ensures
        ({
            let name = lowercase(files[i].name@);
            &&& has_suffix(name, "sp-s2.sp1"@) ==> (bios_choice(files) matches Some(j) && 0 <= j < files.len()
                && has_suffix(lowercase(files[j].name@), "sp-s2.sp1"@) && !text_less(name, lowercase(files[j].name@)))
            &&& has_suffix(name, ".sp1"@) ==> (bios_choice(files) matches Some(j) && 0 <= j < files.len() && (has_suffix(
                lowercase(files[j].name@),
                ".sp1"@,
            ) || has_suffix(lowercase(files[j].name@), "sp-s2.sp1"@)))
            &&& has_part(name, "bios"@) || has_part(name, "sp-"@) ==> bios_choice(files) is Some
        }),
{
    let n = files.len() as int;
    let (a, b, c) = (
        suffix_flags(files, "sp-s2.sp1"@),
        suffix_flags(files, ".sp1"@),
        part_flags(files, "bios"@, "sp-"@),
    );
    first_lower_is_first(files, a, n);
    first_lower_is_first(files, b, n);
    first_lower_is_first(files, c, n);
    let name = lowercase(files[i].name@);
    assert(a[i] == has_suffix(name, "sp-s2.sp1"@));
    assert(b[i] == has_suffix(name, ".sp1"@));
    assert(c[i] == (has_part(name, "bios"@) || has_part(name, "sp-"@)));
}

/// The sound program is the largest file that ends in `.m1` and is not the system's; the fix tiles
/// are the largest with the extension `s1`.
pub proof fn game_files_are_the_largest(files: Seq<RomFile>, i: int)
    requires
        0 <= i < files.len(),
    ensures
        ({
            let name = lowercase(files[i].name@);
            &&& has_suffix(name, ".m1"@) && !has_suffix(name, "sm1.sm1"@) ==> (m1_choice(files) matches Some(j) && 0 <= j
                < files.len() && files[j].data@.len() >= files[i].data@.len() && has_suffix(
                lowercase(files[j].name@),
                ".m1"@,
            ) && !has_suffix(lowercase(files[j].name@), "sm1.sm1"@))
            &&& name_has_ext(files[i].name@, "s1"@) ==> (s1_choice(files) matches Some(j) && 0 <= j < files.len()
                && files[j].data@.len() >= files[i].data@.len() && name_has_ext(files[j].name@, "s1"@))
        }),
{
    let n = files.len() as int;
    let m = flags_minus(suffix_flags(files, ".m1"@), suffix_flags(files, "sm1.sm1"@));
    let s = ext_flags(files, "s1"@);
    largest_is_largest(files, m, n);
    largest_is_largest(files, s, n);
    let name = lowercase(files[i].name@);
    assert(m[i] == (has_suffix(name, ".m1"@) && !has_suffix(name, "sm1.sm1"@)));
    assert(s[i] == name_has_ext(files[i].name@, "s1"@));
}

/// The system's files in memory are known by how their names end, the last one of each: fix tiles,
/// sound program and zoom table.
pub proof fn system_files_go_to_their_places(roms: RomsView, files: Seq<RomFile>, i: int)
    requires
        0 <= i < files.len(),
        forall|j: int| i < j < files.len() ==> !has_suffix(lowercase(#[trigger] files[j].name@), "sfix.sfix"@) && !has_suffix(
            lowercase(files[j].name@),
            "sm1.sm1"@,
        ) && !has_suffix(lowercase(files[j].name@), "000-lo.lo"@),
    ensures
        ({
            let name = lowercase(files[i].name@);
            let r = roms_from_files(roms, files);
            &&& has_suffix(name, "sfix.sfix"@) ==> r.sfix_rom == files[i].data@
            &&& has_suffix(name, "sm1.sm1"@) ==> r.sm1_rom == files[i].data@
            &&& has_suffix(name, "000-lo.lo"@) ==> r.lo_rom == files[i].data@
            &&& r.p_rom == roms.p_rom
            &&& r.c_rom == roms.c_rom
        }),
{
    let n = files.len() as int;
    last_with_suffix_is_last(files, "sfix.sfix"@, n);
    last_with_suffix_is_last(files, "sm1.sm1"@, n);
    last_with_suffix_is_last(files, "000-lo.lo"@, n);
    assert(files[i].name@ == files[i].name@);
}

/// Files without sprites leave those that are there; with sprites, program and sprites are the
/// files' own.
pub proof fn game_brings_its_program_and_sprites(bus: BusView, game: Seq<char>, files: Seq<RomFile>)
    ensures
        c_rom_from_pair(files, 0).len() == 0 ==> bus_with_game(bus, game, files).roms.c_rom == bus.roms.c_rom,
        c_rom_from_pair(files, 0).len() > 0 ==> bus_with_game(bus, game, files).roms.c_rom == c_rom_from_pair(files, 0),
        bus_with_game(bus, game, files).roms.p_rom == (cart_model_for(game).rom)(p_rom_from_files(files)),
        bus_with_game(bus, game, files).wram == bus.wram,
{
}

/// A file of a directory has the extension that follows its last dot, in either case, unless the dot
/// is the first character.
pub proof fn leading_dot_starts_no_extension(stem: Seq<char>, ext: Seq<char>)
    requires
        !ext.contains('.'),
    ensures
        ext_is(stem.push('.') + ext, ext) == (stem.len() > 0),
{
    extension_follows_the_last_dot(stem, ext);
}

/// The file that stands for an extension in a directory is the first by name of those that have it.
pub proof fn first_match_is_first(files: Seq<RomFile>, ext: Seq<char>)
    ensures
        matches_of(files, ext).len() > 0 ==> first_match(files, ext) == Some(matches_of(files, ext)[0] as int),
        matches_of(files, ext).len() == 0 ==> first_match(files, ext) is None,
{
}

/// A directory with any of the known BIOS files is a system directory; one without is refused, and
/// so is what is no directory.
pub proof fn system_directory_has_a_bios(files: &Vec<RomFile>, dir: Seq<char>)
    ensures
        ({
            let n = files@.len() as int;
            let any = named_file(files@, "sp-s2.sp1"@, n) is Some || named_file(files@, "sp-e.sp1"@, n) is Some
                || named_file(files@, "uni-bios.rom"@, n) is Some || named_file(files@, "uni-bios_4_0.rom"@, n) is Some;
            &&& any ==> system_error(Some(files), dir) is None
            &&& !any ==> system_error(Some(files), dir) == Some("no BIOS found in "@ + dir)
            &&& system_error(None, dir) == Some("not a directory: "@ + dir)
        }),
{
    preferred_bios_is_taken(files@);
}

/// The samples of a directory: with a file for the first or the second bus, each bus has its own
/// files; with none, all of `v1` to `v4` go to the first bus and the second has nothing.
pub proof fn directory_samples_go_to_their_buses(files: Seq<RomFile>, k: int)
    requires
        0 <= k < 9,
    ensures
        matches_of(files, adpcm_a_exts()[k]@).len() > 0 || matches_of(files, adpcm_b_exts()[k]@).len() > 0
            ==> samples_of(files) == (all_contents(files, adpcm_a_exts()), all_contents(files, adpcm_b_exts())),
        (forall|j: int| 0 <= j < 9 ==> (#[trigger] matches_of(files, adpcm_a_exts()[j]@)).len() == 0) && (forall|j: int|
            0 <= j < 9 ==> (#[trigger] matches_of(files, adpcm_b_exts()[j]@)).len() == 0) ==> samples_of(files).1
            == Seq::<u8>::empty() && samples_of(files).0 == all_contents(files, seq!["v1", "v2", "v3", "v4"]),
        adpcm_a_exts()[0]@ == "v11"@,
        adpcm_a_exts()[8]@ == "v19"@,
        adpcm_b_exts()[0]@ == "v21"@,
        adpcm_b_exts()[8]@ == "v29"@,
{
    assert(adpcm_exts() =~= seq!["v1", "v2", "v3", "v4"]);
}

} // verus!
