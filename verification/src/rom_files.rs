//! Named ROM files held in memory, and how one of several is chosen.
//!
//! Choices by extension, by size and by name depend on names and contents alone, not on the
//! order in which a host hands the files over.

use crate::text::{bytes_less_is_order, comes_before, has_part, has_suffix, lowercase, text_less, to_lower};
use crate::text::{chars_of, contains_part, ends_with};
use vstd::prelude::*;

verus! {

/// One file: its base name and its bytes.
pub struct RomFile {
    pub name: String,
    pub data: Vec<u8>,
}

/// What follows the last dot; everything without a dot.
pub open spec fn last_part(s: Seq<char>) -> Seq<char>
    decreases s.len(),
{
    if s.len() == 0 || s.last() == '.' {
        Seq::empty()
    } else {
        last_part(s.drop_last()).push(s.last())
    }
}

/// Whether a file name has an extension (given in lower case).
pub open spec fn name_has_ext(name: Seq<char>, ext: Seq<char>) -> bool {
    last_part(lowercase(name)) == ext
}

/// What follows the last dot of some characters.
pub fn last_part_of(s: &Vec<char>) -> (r: Vec<char>)
    ensures
        r@ == last_part(s@),
{
    let mut out: Vec<char> = Vec::new();
    let mut i: usize = 0;
    assert(s@.take(0) =~= Seq::<char>::empty());
    while i < s.len()
        invariant
            i <= s@.len(),
            out@ == last_part(s@.take(i as int)),
        decreases s@.len() - i,
    {
        assert(s@.take(i + 1).drop_last() =~= s@.take(i as int));
        if s[i] == '.' {
            out = Vec::new();
        } else {
            out.push(s[i]);
        }
        i = i + 1;
    }
    assert(s@.take(i as int) =~= s@);
    out
}

/// Whether two character vectors are the same.
pub fn same_chars(a: &Vec<char>, b: &Vec<char>) -> (r: bool)
    ensures
        r == (a@ == b@),
{
    if a.len() != b.len() {
        return false;
    }
    let mut i: usize = 0;
    while i < a.len()
        invariant
            a@.len() == b@.len(),
            i <= a@.len(),
            forall|k: int| 0 <= k < i ==> a@[k] == b@[k],
        decreases a@.len() - i,
    {
        if a[i] != b[i] {
            return false;
        }
        i = i + 1;
    }
    assert(a@ =~= b@);
    true
}

/// Whether a file name has an extension (given in lower case).
pub fn has_ext(filename: &str, ext: &str) -> (r: bool)
    ensures
        r == name_has_ext(filename@, ext@),
{
    let lower = to_lower(filename);
    let chars = chars_of(lower.as_str());
    let part = last_part_of(&chars);
    let want = chars_of(ext);
    same_chars(&part, &want)
}

/// Among the first `n` files with an extension, the one whose name comes first.
pub open spec fn first_with_ext(files: Seq<RomFile>, ext: Seq<char>, n: int) -> Option<int>
    decreases n,
{
    if n <= 0 {
        None
    } else {
        let prev = first_with_ext(files, ext, n - 1);
        if name_has_ext(files[n - 1].name@, ext) && (prev is None || text_less(
            files[n - 1].name@,
            files[prev->0].name@,
        )) {
            Some(n - 1)
        } else {
            prev
        }
    }
}

/// The file that stands for an extension.
pub open spec fn by_ext(files: Seq<RomFile>, ext: Seq<char>) -> Option<int> {
    first_with_ext(files, ext, files.len() as int)
}

proof fn first_with_ext_bound(files: Seq<RomFile>, ext: Seq<char>, n: int)
    requires
        0 <= n <= files.len(),
    ensures
        first_with_ext(files, ext, n) matches Some(i) ==> 0 <= i < n,
    decreases n,
{
    if n > 0 {
        first_with_ext_bound(files, ext, n - 1);
    }
}

/// The file that stands for an extension: of several, the one whose name comes first.
pub fn find_by_ext<'a>(files: &'a Vec<RomFile>, ext: &str) -> (r: Option<&'a Vec<u8>>)
    ensures
        r is Some <==> by_ext(files@, ext@) is Some,
        r matches Some(d) ==> d@ == files@[by_ext(files@, ext@)->0].data@,
{
    let mut best: Option<usize> = None;
    let mut i: usize = 0;
    while i < files.len()
        invariant
            i <= files@.len(),
            best is Some <==> first_with_ext(files@, ext@, i as int) is Some,
            best matches Some(b) ==> b == first_with_ext(files@, ext@, i as int)->0 && b < i,
        decreases files@.len() - i,
    {
        if has_ext(files[i].name.as_str(), ext) {
            match best {
                None => {
                    best = Some(i);
                },
                Some(b) => {
                    if comes_before(files[i].name.as_str(), files[b].name.as_str()) {
                        best = Some(i);
                    }
                },
            }
        }
        i = i + 1;
    }
    match best {
        Some(b) => Some(&files[b].data),
        None => None,
    }
}

/// The contents that stand for an extension; empty without such a file.
pub open spec fn ext_data(files: Seq<RomFile>, ext: Seq<char>) -> Seq<u8> {
    match by_ext(files, ext) {
        Some(i) => files[i].data@,
        None => Seq::empty(),
    }
}

/// The contents that stand for each extension of a list, one after the other.
pub open spec fn joined_data(files: Seq<RomFile>, exts: Seq<&str>) -> Seq<u8>
    decreases exts.len(),
{
    if exts.len() == 0 {
        Seq::empty()
    } else {
        joined_data(files, exts.drop_last()) + ext_data(files, exts.last()@)
    }
}

/// Whether some file has one of the extensions.
pub open spec fn any_ext(files: Seq<RomFile>, exts: Seq<&str>) -> bool {
    exists|k: int| 0 <= k < exts.len() && #[trigger] by_ext(files, exts[k]@) is Some
}

/// Join the contents that stand for each extension of a list, and say whether there was
/// any such file.
pub fn join_by_ext(files: &Vec<RomFile>, exts: &[&str]) -> (r: (Vec<u8>, bool))
    ensures
        r.0@ == joined_data(files@, exts@),
        r.1 == any_ext(files@, exts@),
{
    let mut out: Vec<u8> = Vec::new();
    let mut any = false;
    let mut k: usize = 0;
    assert(exts@.take(0) =~= Seq::<&str>::empty());
    while k < exts.len()
        invariant
            k <= exts@.len(),
            out@ == joined_data(files@, exts@.take(k as int)),
            any == (exists|j: int| 0 <= j < k && #[trigger] by_ext(files@, exts@[j]@) is Some),
        decreases exts@.len() - k,
    {
        assert(exts@.take(k + 1).drop_last() =~= exts@.take(k as int));
        assert(exts@.take(k + 1).last() == exts@[k as int]);
        let ghost before = out@;
        match find_by_ext(files, exts[k]) {
            Some(d) => {
                out.extend_from_slice(d.as_slice());
                any = true;
                assert(out@ =~= before + d@);
            },
            None => {
                assert(out@ =~= before + Seq::<u8>::empty());
            },
        }
        k = k + 1;
    }
    assert(exts@.take(k as int) =~= exts@);
    (out, any)
}

/// Two ROMs byte by byte in turn, as far as both reach.
pub open spec fn interleaved(a: Seq<u8>, b: Seq<u8>) -> Seq<u8> {
    let n = if a.len() <= b.len() { a.len() } else { b.len() };
    Seq::new(2 * n, |i: int| if i % 2 == 0 { a[i / 2] } else { b[i / 2] })
}

/// Append two ROMs byte by byte in turn.
pub fn push_interleaved(out: &mut Vec<u8>, a: &Vec<u8>, b: &Vec<u8>)
    ensures
        final(out)@ == old(out)@ + interleaved(a@, b@),
{
    let n: usize = if a.len() <= b.len() { a.len() } else { b.len() };
    let ghost start = out@;
    let mut i: usize = 0;
    while i < n
        invariant
            i <= n,
            n <= a@.len(),
            n <= b@.len(),
            n == (if a@.len() <= b@.len() { a@.len() } else { b@.len() }),
            out@ == start + interleaved(a@, b@).take(2 * i),
        decreases n - i,
    {
        out.push(a[i]);
        out.push(b[i]);
        assert(out@ =~= start + interleaved(a@, b@).take(2 * (i + 1)));
        i = i + 1;
    }
    assert(interleaved(a@, b@).take(2 * n) =~= interleaved(a@, b@));
}

/// The larger file wins; of equal ones the one whose name comes first.
pub open spec fn larger(files: Seq<RomFile>, i: int, j: int) -> bool {
    files[i].data@.len() > files[j].data@.len() || (files[i].data@.len() == files[j].data@.len()
        && text_less(files[i].name@, files[j].name@))
}

/// The largest of the first `n` files among those that are wanted.
pub open spec fn largest(files: Seq<RomFile>, want: Seq<bool>, n: int) -> Option<int>
    decreases n,
{
    if n <= 0 {
        None
    } else {
        let prev = largest(files, want, n - 1);
        if want[n - 1] && (prev is None || larger(files, n - 1, prev->0)) { Some(n - 1) } else { prev }
    }
}

/// Choose the largest wanted file.
pub fn pick_largest(files: &Vec<RomFile>, want: &Vec<bool>) -> (r: Option<usize>)
    requires
        want@.len() == files@.len(),
    ensures
        r is Some <==> largest(files@, want@, files@.len() as int) is Some,
        r matches Some(i) ==> i < files@.len() && i == largest(files@, want@, files@.len() as int)->0,
{
    let mut best: Option<usize> = None;
    let mut i: usize = 0;
    while i < files.len()
        invariant
            want@.len() == files@.len(),
            i <= files@.len(),
            best is Some <==> largest(files@, want@, i as int) is Some,
            best matches Some(b) ==> b < i && b == largest(files@, want@, i as int)->0,
        decreases files@.len() - i,
    {
        if want[i] {
            match best {
                None => {
                    best = Some(i);
                },
                Some(b) => {
                    let x: usize = files[i].data.len();
                    let y: usize = files[b].data.len();
                    if x > y || (x == y && comes_before(
                        files[i].name.as_str(),
                        files[b].name.as_str(),
                    )) {
                        best = Some(i);
                    }
                },
            }
        }
        i = i + 1;
    }
    best
}

/// Among the first `n` files that are wanted, the one whose lower-case name comes first.
pub open spec fn first_lower(files: Seq<RomFile>, want: Seq<bool>, n: int) -> Option<int>
    decreases n,
{
    if n <= 0 {
        None
    } else {
        let prev = first_lower(files, want, n - 1);
        if want[n - 1] && (prev is None || text_less(
            lowercase(files[n - 1].name@),
            lowercase(files[prev->0].name@),
        )) {
            Some(n - 1)
        } else {
            prev
        }
    }
}

/// Choose the wanted file whose lower-case name comes first.
pub fn pick_first_lower(files: &Vec<RomFile>, want: &Vec<bool>) -> (r: Option<usize>)
    requires
        want@.len() == files@.len(),
    ensures
        r is Some <==> first_lower(files@, want@, files@.len() as int) is Some,
        r matches Some(i) ==> i < files@.len() && i == first_lower(
            files@,
            want@,
            files@.len() as int,
        )->0,
{
    let mut best: Option<usize> = None;
    let mut i: usize = 0;
    while i < files.len()
        invariant
            want@.len() == files@.len(),
            i <= files@.len(),
            best is Some <==> first_lower(files@, want@, i as int) is Some,
            best matches Some(b) ==> b < i && b == first_lower(files@, want@, i as int)->0,
        decreases files@.len() - i,
    {
        if want[i] {
            match best {
                None => {
                    best = Some(i);
                },
                Some(b) => {
                    let x = to_lower(files[i].name.as_str());
                    let y = to_lower(files[b].name.as_str());
                    if comes_before(x.as_str(), y.as_str()) {
                        best = Some(i);
                    }
                },
            }
        }
        i = i + 1;
    }
    best
}

/// Of the first `n` files, the last whose lower-case name ends with `suffix`.
pub open spec fn last_with_suffix(files: Seq<RomFile>, suffix: Seq<char>, n: int) -> Option<int>
    decreases n,
{
    if n <= 0 {
        None
    } else if has_suffix(lowercase(files[n - 1].name@), suffix) {
        Some(n - 1)
    } else {
        last_with_suffix(files, suffix, n - 1)
    }
}

/// Find the last file whose lower-case name ends with `suffix`.
pub fn find_last_with_suffix(files: &Vec<RomFile>, suffix: &str) -> (r: Option<usize>)
    ensures
        r is Some <==> last_with_suffix(files@, suffix@, files@.len() as int) is Some,
        r matches Some(i) ==> i < files@.len() && i == last_with_suffix(
            files@,
            suffix@,
            files@.len() as int,
        )->0,
{
    let mut i: usize = files.len();
    while i > 0
        invariant
            i <= files@.len(),
            last_with_suffix(files@, suffix@, files@.len() as int) == last_with_suffix(
                files@,
                suffix@,
                i as int,
            ),
        decreases i,
    {
        let lower = to_lower(files[i - 1].name.as_str());
        if ends_with(lower.as_str(), suffix) {
            return Some(i - 1);
        }
        i = i - 1;
    }
    None
}

/// For each file, whether its lower-case name ends with `suffix`.
pub fn flags_suffix(files: &Vec<RomFile>, suffix: &str) -> (r: Vec<bool>)
    ensures
        r@ == suffix_flags(files@, suffix@),
{
    let mut r: Vec<bool> = Vec::new();
    let mut i: usize = 0;
    while i < files.len()
        invariant
            i <= files@.len(),
            r@.len() == i,
            forall|k: int| 0 <= k < i ==> r@[k] == suffix_flags(files@, suffix@)[k],
        decreases files@.len() - i,
    {
        let lower = to_lower(files[i].name.as_str());
        r.push(ends_with(lower.as_str(), suffix));
        i = i + 1;
    }
    assert(r@ =~= suffix_flags(files@, suffix@));
    r
}

/// For each file, whether its lower-case name ends with `suffix`.
pub open spec fn suffix_flags(files: Seq<RomFile>, suffix: Seq<char>) -> Seq<bool> {
    Seq::new(files.len(), |i: int| has_suffix(lowercase(files[i].name@), suffix))
}

/// For each file, whether its lower-case name contains one of two parts.
pub open spec fn part_flags(files: Seq<RomFile>, a: Seq<char>, b: Seq<char>) -> Seq<bool> {
    Seq::new(
        files.len(),
        |i: int| has_part(lowercase(files[i].name@), a) || has_part(lowercase(files[i].name@), b),
    )
}

/// For each file, whether its lower-case name contains one of two parts.
pub fn flags_part(files: &Vec<RomFile>, a: &str, b: &str) -> (r: Vec<bool>)
    ensures
        r@ == part_flags(files@, a@, b@),
{
    let mut r: Vec<bool> = Vec::new();
    let mut i: usize = 0;
    while i < files.len()
        invariant
            i <= files@.len(),
            r@.len() == i,
            forall|k: int| 0 <= k < i ==> r@[k] == part_flags(files@, a@, b@)[k],
        decreases files@.len() - i,
    {
        let lower = to_lower(files[i].name.as_str());
        r.push(contains_part(lower.as_str(), a) || contains_part(lower.as_str(), b));
        i = i + 1;
    }
    assert(r@ =~= part_flags(files@, a@, b@));
    r
}

/// For each file, whether it has an extension.
pub open spec fn ext_flags(files: Seq<RomFile>, ext: Seq<char>) -> Seq<bool> {
    Seq::new(files.len(), |i: int| name_has_ext(files[i].name@, ext))
}

/// For each file, whether it has an extension.
pub fn flags_ext(files: &Vec<RomFile>, ext: &str) -> (r: Vec<bool>)
    ensures
        r@ == ext_flags(files@, ext@),
{
    let mut r: Vec<bool> = Vec::new();
    let mut i: usize = 0;
    while i < files.len()
        invariant
            i <= files@.len(),
            r@.len() == i,
            forall|k: int| 0 <= k < i ==> r@[k] == ext_flags(files@, ext@)[k],
        decreases files@.len() - i,
    {
        r.push(has_ext(files[i].name.as_str(), ext));
        i = i + 1;
    }
    assert(r@ =~= ext_flags(files@, ext@));
    r
}

/// For each file, whether it is wanted by the first flags and not by the second.
pub open spec fn flags_minus(a: Seq<bool>, b: Seq<bool>) -> Seq<bool> {
    Seq::new(a.len(), |i: int| a[i] && !b[i])
}

/// Flags of the first list without those of the second.
pub fn without(a: &Vec<bool>, b: &Vec<bool>) -> (r: Vec<bool>)
    requires
        a@.len() == b@.len(),
    ensures
        r@ == flags_minus(a@, b@),
{
    let mut r: Vec<bool> = Vec::new();
    let mut i: usize = 0;
    while i < a.len()
        invariant
            a@.len() == b@.len(),
            i <= a@.len(),
            r@.len() == i,
            forall|k: int| 0 <= k < i ==> r@[k] == flags_minus(a@, b@)[k],
        decreases a@.len() - i,
    {
        r.push(a[i] && !b[i]);
        i = i + 1;
    }
    assert(r@ =~= flags_minus(a@, b@));
    r
}

// ── Laws ─────────────────────────────────────────────────────────────────────

/// Taking an interleaved pair apart gives the two ROMs back, as far as both reached.
pub proof fn deinterleave(a: Seq<u8>, b: Seq<u8>)
    ensures
        ({
            let n = if a.len() <= b.len() { a.len() } else { b.len() };
            let m = interleaved(a, b);
            &&& m.len() == 2 * n
            &&& Seq::new(n, |i: int| m[2 * i]) == a.take(n as int)
            &&& Seq::new(n, |i: int| m[2 * i + 1]) == b.take(n as int)
        }),
{
    let n = if a.len() <= b.len() { a.len() } else { b.len() };
    let m = interleaved(a, b);
    assert(Seq::new(n, |i: int| m[2 * i]) =~= a.take(n as int));
    assert(Seq::new(n, |i: int| m[2 * i + 1]) =~= b.take(n as int));
}

/// The file chosen for an extension has it, and no other file with it has a name that
/// comes before.
pub proof fn by_ext_is_first(files: Seq<RomFile>, ext: Seq<char>, n: int)
    requires
        0 <= n <= files.len(),
    ensures
        first_with_ext(files, ext, n) is None ==> forall|j: int|
            0 <= j < n ==> !name_has_ext(#[trigger] files[j].name@, ext),
        first_with_ext(files, ext, n) matches Some(i) ==> {
            &&& 0 <= i < n
            &&& name_has_ext(files[i].name@, ext)
            &&& forall|j: int|
                0 <= j < n && name_has_ext(files[j].name@, ext) ==> !text_less(
                    #[trigger] files[j].name@,
                    files[i].name@,
                )
        },
    decreases n,
{
    if n > 0 {
        by_ext_is_first(files, ext, n - 1);
        first_with_ext_bound(files, ext, n - 1);
        if let Some(i) = first_with_ext(files, ext, n) {
            assert forall|j: int| 0 <= j < n && name_has_ext(files[j].name@, ext) implies !text_less(
                #[trigger] files[j].name@,
                files[i].name@,
            ) by {
                let x = vstd::utf8::encode_utf8(files[j].name@);
                let y = vstd::utf8::encode_utf8(files[i].name@);
                bytes_less_is_order(x, y, x);
                if first_with_ext(files, ext, n - 1) is Some {
                    let p = first_with_ext(files, ext, n - 1)->0;
                    let z = vstd::utf8::encode_utf8(files[p].name@);
                    bytes_less_is_order(x, y, z);
                    bytes_less_is_order(y, z, x);
                    bytes_less_is_order(x, z, y);
                }
            }
        }
    }
}

/// The file chosen as the largest is wanted, and no wanted file is larger.
pub proof fn largest_is_largest(files: Seq<RomFile>, want: Seq<bool>, n: int)
    requires
        0 <= n <= files.len(),
        want.len() == files.len(),
    ensures
        largest(files, want, n) is None ==> forall|j: int| 0 <= j < n ==> !#[trigger] want[j],
        largest(files, want, n) matches Some(i) ==> {
            &&& 0 <= i < n
            &&& want[i]
            &&& forall|j: int| 0 <= j < n && #[trigger] want[j] ==> !larger(files, j, i)
        },
    decreases n,
{
    if n > 0 {
        largest_is_largest(files, want, n - 1);
        if let Some(i) = largest(files, want, n) {
            assert forall|j: int| 0 <= j < n && #[trigger] want[j] implies !larger(files, j, i) by {
                let x = vstd::utf8::encode_utf8(files[j].name@);
                let y = vstd::utf8::encode_utf8(files[i].name@);
                bytes_less_is_order(x, y, x);
                if largest(files, want, n - 1) is Some {
                    let p = largest(files, want, n - 1)->0;
                    let z = vstd::utf8::encode_utf8(files[p].name@);
                    bytes_less_is_order(x, y, z);
                    bytes_less_is_order(y, z, x);
                    bytes_less_is_order(x, z, y);
                }
            }
        }
    }
}

/// An extension is what follows the last dot, whatever dots come before it.
pub proof fn extension_follows_the_last_dot(stem: Seq<char>, ext: Seq<char>)
    requires
        !ext.contains('.'),
    ensures
        last_part(stem.push('.') + ext) == ext,
        last_part(ext) == ext,
    decreases ext.len(),
{
    let s = stem.push('.') + ext;
    if ext.len() == 0 {
        assert(s.last() == '.');
        assert(last_part(s) =~= ext);
        assert(last_part(ext) =~= ext);
    } else {
        let shorter = ext.drop_last();
        assert(!shorter.contains('.')) by {
            if shorter.contains('.') {
                let k = choose|k: int| 0 <= k < shorter.len() && shorter[k] == '.';
                assert(ext[k] == '.');
            }
        }
        assert(ext.last() != '.') by {
            assert(ext.contains(ext.last()));
        }
        extension_follows_the_last_dot(stem, shorter);
        assert(s.drop_last() =~= stem.push('.') + shorter);
        assert(s.last() == ext.last());
        assert(shorter.push(ext.last()) =~= ext);
    }
}

/// The file that is found by its ending has it, and none after it has.
pub proof fn last_with_suffix_is_last(files: Seq<RomFile>, suffix: Seq<char>, n: int)
    requires
        0 <= n <= files.len(),
    ensures
        last_with_suffix(files, suffix, n) is None ==> forall|j: int|
            0 <= j < n ==> !has_suffix(lowercase(#[trigger] files[j].name@), suffix),
        last_with_suffix(files, suffix, n) matches Some(i) ==> {
            &&& 0 <= i < n
            &&& has_suffix(lowercase(files[i].name@), suffix)
            &&& forall|j: int| i < j < n ==> !has_suffix(lowercase(#[trigger] files[j].name@), suffix)
        },
    decreases n,
{
    if n > 0 {
        last_with_suffix_is_last(files, suffix, n - 1);
    }
}

/// The largest file has at least as many bytes as any other that is wanted, and a name no later
/// than those of the same size.
pub proof fn largest_has_most_bytes(files: Seq<RomFile>, want: Seq<bool>, j: int)
    requires
        want.len() == files.len(),
        0 <= j < files.len(),
        want[j],
    ensures
        largest(files, want, files.len() as int) matches Some(i) && files[i].data@.len() >= files[j].data@.len() && (
        files[i].data@.len() == files[j].data@.len() ==> !text_less(files[j].name@, files[i].name@)),
{
    largest_is_largest(files, want, files.len() as int);
}

} // verus!
