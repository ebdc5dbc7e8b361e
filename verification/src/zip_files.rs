//! ROM sets in ZIP archives: which entries are taken out, and under which names.

use crate::rom_files::RomFile;
use crate::text::{chars_of, decimal, push_decimal};
use vstd::prelude::*;

verus! {

/// What the ZIP reader finds of an archive: the number of its entries, or an error.
pub uninterp spec fn zip_count_of(data: Seq<u8>) -> Result<nat, Seq<char>>;

/// The name of an entry of an archive, or an error.
pub uninterp spec fn zip_name_of(data: Seq<u8>, index: int) -> Result<Seq<char>, Seq<char>>;

/// The uncompressed bytes of an entry of an archive, or an error.
pub uninterp spec fn zip_data_of(data: Seq<u8>, index: int) -> Result<Seq<u8>, Seq<char>>;

/// `zip::ZipArchive::new` and `len`: how many entries the central directory lists, or the
/// text of the error.
#[verifier::external_body]
fn zip_count(data: &[u8]) -> (r: Result<usize, String>)
    ensures
        (match r {
            Ok(n) => zip_count_of(data@) == Ok::<nat, Seq<char>>(n as nat),
            Err(e) => zip_count_of(data@) == Err::<nat, Seq<char>>(e@),
        }),
{
    match zip::ZipArchive::new(std::io::Cursor::new(data)) {
        Ok(archive) => Ok(archive.len()),
        Err(e) => Err(e.to_string()),
    }
}

/// `zip::ZipArchive::by_index` and `ZipFile::name`: the name of an entry as the archive has
/// it, or the text of the error.
#[verifier::external_body]
fn zip_name(data: &[u8], index: usize) -> (r: Result<String, String>)
    ensures
        (match r {
            Ok(n) => zip_name_of(data@, index as int) == Ok::<Seq<char>, Seq<char>>(n@),
            Err(e) => zip_name_of(data@, index as int) == Err::<Seq<char>, Seq<char>>(e@),
        }),
{
    let mut archive = match zip::ZipArchive::new(std::io::Cursor::new(data)) {
        Ok(archive) => archive,
        Err(e) => return Err(e.to_string()),
    };
    let r = match archive.by_index(index) {
        Ok(entry) => Ok(entry.name().to_string()),
        Err(e) => Err(e.to_string()),
    };
    r
}

/// `zip::ZipArchive::by_index`, read to its end: the uncompressed bytes of an entry that is
/// stored or deflated, or the text of the error; an entry of another method, or an encrypted
/// one, is an error.
#[verifier::external_body]
fn zip_data(data: &[u8], index: usize) -> (r: Result<Vec<u8>, String>)
    ensures
        (match r {
            Ok(d) => zip_data_of(data@, index as int) == Ok::<Seq<u8>, Seq<char>>(d@),
            Err(e) => zip_data_of(data@, index as int) == Err::<Seq<u8>, Seq<char>>(e@),
        }),
{
    let mut archive = match zip::ZipArchive::new(std::io::Cursor::new(data)) {
        Ok(archive) => archive,
        Err(e) => return Err(e.to_string()),
    };
    let mut out = Vec::new();
    let r = match archive.by_index(index) {
        Ok(mut entry) => std::io::Read::read_to_end(&mut entry, &mut out).map_err(|e| e.to_string()),
        Err(e) => Err(e.to_string()),
    };
    r.map(|_| out)
}

/// An entry is a directory: its name ends in a separator.
pub open spec fn is_directory(name: Seq<char>) -> bool {
    name.len() > 0 && (name.last() == '/' || name.last() == '\\')
}

/// Where the last component of a path starts.
pub open spec fn last_component(s: Seq<char>) -> int
    decreases s.len(),
{
    if s.len() == 0 || s.last() == '/' { s.len() as int } else { last_component(s.drop_last()) }
}

/// A path without separators and current-directory components at its end.
pub open spec fn normalised(s: Seq<char>) -> Seq<char>
    decreases s.len(),
{
    if s.len() > 0 && s.last() == '/' {
        normalised(s.drop_last())
    } else if s.len() > 1 && s.last() == '.' && s[s.len() - 2] == '/' {
        normalised(s.drop_last())
    } else {
        s
    }
}

/// The bare file name of a path.
pub open spec fn base_name(s: Seq<char>) -> Seq<char> {
    normalised(s).skip(last_component(normalised(s)))
}

/// Whether an entry of this name is taken out: no directories, no hidden or nameless files.
pub open spec fn is_taken(name: Seq<char>) -> bool {
    !is_directory(name) && base_name(name).len() > 0 && base_name(name)[0] != '.'
}

/// A file: name and bytes.
pub type FileView = (Seq<char>, Seq<u8>);

/// Names and bytes of some files.
pub open spec fn files_of(files: Seq<RomFile>) -> Seq<FileView> {
    Seq::new(files.len(), |i: int| (files[i].name@, files[i].data@))
}

/// The first `n` entries taken out of an archive, in order, or the first error.
pub open spec fn taken_out(data: Seq<u8>, n: int) -> Result<Seq<FileView>, Seq<char>>
    decreases n,
{
    if n <= 0 {
        Ok(Seq::empty())
    } else {
        match taken_out(data, n - 1) {
            Err(e) => Err(e),
            Ok(before) => match zip_name_of(data, n - 1) {
                Err(e) => Err(
                    "zip entry error at index "@ + decimal((n - 1) as nat) + ": "@ + e,
                ),
                Ok(name) => if !is_taken(name) {
                    Ok(before)
                } else {
                    match zip_data_of(data, n - 1) {
                        Err(e) => Err(
                            "extraction error for '"@ + base_name(name) + "': "@ + e,
                        ),
                        Ok(bytes) => Ok(before.push((base_name(name), bytes))),
                    }
                },
            },
        }
    }
}

/// The files of an archive, or the error.
pub open spec fn archive_files(data: Seq<u8>) -> Result<Seq<FileView>, Seq<char>> {
    match zip_count_of(data) {
        Err(e) => Err("invalid zip archive: "@ + e),
        Ok(n) => taken_out(data, n as int),
    }
}

proof fn last_component_bound(s: Seq<char>)
    ensures
        0 <= last_component(s) <= s.len(),
        forall|k: int| last_component(s) <= k < s.len() ==> s[k] != '/',
        last_component(s) > 0 ==> s[last_component(s) - 1] == '/',
    decreases s.len(),
{
    if s.len() > 0 && s.last() != '/' {
        last_component_bound(s.drop_last());
        assert forall|k: int| last_component(s) <= k < s.len() implies s[k] != '/' by {
            if k < s.len() - 1 {
                assert(s.drop_last()[k] == s[k]);
            }
        }
    }
}

/// The bare file name of a path, without any directory.
pub fn file_name(path: &str) -> (r: String)
    ensures
        r@ == base_name(path@),
{
    let s = chars_of(path);
    let mut end: usize = s.len();
    assert(s@.take(end as int) =~= s@);
    while (end > 0 && s[end - 1] == '/') || (end > 1 && s[end - 1] == '.' && s[end - 2] == '/')
        invariant
            end <= s@.len(),
            normalised(s@) == normalised(s@.take(end as int)),
        decreases end,
    {
        assert(s@.take(end as int).drop_last() =~= s@.take(end - 1));
        end = end - 1;
    }
    let ghost n = s@.take(end as int);
    assert(normalised(s@) == n);
    let mut from: usize = end;
    assert(n.take(end as int) =~= n);
    while from > 0 && s[from - 1] != '/'
        invariant
            from <= end <= s@.len(),
            n == s@.take(end as int),
            last_component(n) == last_component(n.take(from as int)),
        decreases from,
    {
        assert(n.take(from as int).drop_last() =~= n.take(from - 1));
        from = from - 1;
    }
    assert(last_component(n) == from);
    assert(path@.subrange(from as int, end as int) =~= n.skip(from as int));
    String::from_str(path.substring_char(from, end))
}

/// The name under which an entry is taken out; `None` for one that is left in the archive.
pub fn name_taken(name: &str) -> (r: Option<String>)
    ensures
        r is Some <==> is_taken(name@),
        r matches Some(b) ==> b@ == base_name(name@),
{
    let n: usize = name.unicode_len();
    if n > 0 && (name.get_char(n - 1) == '/' || name.get_char(n - 1) == '\\') {
        return None;
    }
    let base = file_name(name);
    if base.as_str().unicode_len() > 0 && base.as_str().get_char(0) != '.' { Some(base) } else { None }
}

/// How many entries to go through, given how the archive opened.
pub fn entry_count(found: Result<usize, String>) -> (r: Result<usize, String>)
    ensures
        match found {
            Ok(n) => r == Ok::<usize, String>(n),
            Err(e) => r matches Err(m) && m@ == "invalid zip archive: "@ + e@,
        },
{
    match found {
        Ok(n) => Ok(n),
        Err(e) => {
            let mut s = String::from_str("invalid zip archive: ");
            s.append(e.as_str());
            Err(s)
        },
    }
}

/// The name under which an entry is taken out, given how reading its own name ended; `None`
/// for one that is left in the archive.
pub fn entry_name(index: usize, name: Result<String, String>) -> (r: Result<Option<String>, String>)
    ensures
        match name {
            Ok(n) => r matches Ok(b) && (b is Some <==> is_taken(n@)) && (b matches Some(t) ==> t@
                == base_name(n@)),
            Err(e) => r matches Err(m) && m@ == "zip entry error at index "@ + decimal(index as nat)
                + ": "@ + e@,
        },
{
    match name {
        Ok(n) => Ok(name_taken(n.as_str())),
        Err(e) => {
            let mut s = String::from_str("zip entry error at index ");
            push_decimal(&mut s, index as u64);
            s.append(": ");
            s.append(e.as_str());
            Err(s)
        },
    }
}

/// The file of an entry, given how reading its bytes ended.
pub fn entry_file(name: String, bytes: Result<Vec<u8>, String>) -> (r: Result<RomFile, String>)
    ensures
        match bytes {
            Ok(b) => r matches Ok(f) && f.name@ == name@ && f.data@ == b@,
            Err(e) => r matches Err(m) && m@ == "extraction error for '"@ + name@ + "': "@ + e@,
        },
{
    match bytes {
        Ok(b) => Ok(RomFile { name, data: b }),
        Err(e) => {
            let mut s = String::from_str("extraction error for '");
            s.append(name.as_str());
            s.append("': ");
            s.append(e.as_str());
            Err(s)
        },
    }
}

/// Take the files out of an archive; directories inside it are not kept.
pub fn extract(data: &[u8]) -> (r: Result<Vec<RomFile>, String>)
    ensures
        (match r {
            Ok(f) => archive_files(data@) == Ok::<Seq<FileView>, Seq<char>>(files_of(f@)),
            Err(e) => archive_files(data@) == Err::<Seq<FileView>, Seq<char>>(e@),
        }),
{
    let count: usize = match entry_count(zip_count(data)) {
        Ok(n) => n,
        Err(e) => return Err(e),
    };
    let mut files: Vec<RomFile> = Vec::new();
    let mut i: usize = 0;
    assert(files_of(files@) =~= Seq::<FileView>::empty());
    while i < count
        invariant
            i <= count,
            zip_count_of(data@) == Ok::<nat, Seq<char>>(count as nat),
            taken_out(data@, i as int) == Ok::<Seq<FileView>, Seq<char>>(files_of(files@)),
        decreases count - i,
    {
        proof {
            errors_stay(data@, i + 1, count as int);
        }
        let name = match entry_name(i, zip_name(data, i)) {
            Ok(n) => n,
            Err(e) => return Err(e),
        };
        if let Some(base) = name {
            match entry_file(base, zip_data(data, i)) {
                Ok(file) => {
                    let ghost before = files_of(files@);
                    let ghost taken = (file.name@, file.data@);
                    files.push(file);
                    assert(files_of(files@) =~= before.push(taken));
                },
                Err(e) => return Err(e),
            }
        }
        i = i + 1;
    }
    Ok(files)
}

/// An error among the first entries is that of the whole archive.
proof fn errors_stay(data: Seq<u8>, n: int, m: int)
    requires
        0 <= n <= m,
    ensures
        taken_out(data, n) is Err ==> taken_out(data, m) == taken_out(data, n),
    decreases m - n,
{
    if n < m {
        errors_stay(data, n, m - 1);
    }
}

/// No file leaves its directory: a name that is taken out has no separator in it and does not
/// start with a dot.
pub proof fn taken_names_stay_inside(data: Seq<u8>, n: int, k: int)
    requires
        taken_out(data, n) is Ok,
        0 <= k < taken_out(data, n)->Ok_0.len(),
    ensures
        taken_out(data, n)->Ok_0[k].0.len() > 0,
        taken_out(data, n)->Ok_0[k].0[0] != '.',
        !taken_out(data, n)->Ok_0[k].0.contains('/'),
    decreases n,
{
    if n > 0 {
        let before = taken_out(data, n - 1)->Ok_0;
        if k < before.len() {
            taken_names_stay_inside(data, n - 1, k);
        } else {
            let name = zip_name_of(data, n - 1)->Ok_0;
            last_component_bound(normalised(name));
            let b = base_name(name);
            assert forall|i: int| 0 <= i < b.len() implies b[i] != '/' by {
                assert(b[i] == normalised(name)[last_component(normalised(name)) + i]);
            }
        }
    }
}

/// The bare name of a file is what follows the directories before it.
pub proof fn bare_name_follows_directories(dir: Seq<char>, name: Seq<char>)
    requires
        name.len() > 0,
        !name.contains('/'),
        name != seq!['.'],
    ensures
        base_name(dir.push('/') + name) == name,
        base_name(name) == name,
        is_taken(dir.push('/') + name) == (name[0] != '.' && name.last() != '\\'),
        !is_taken((dir.push('/') + name).push('/')),
{
    let s = dir.push('/') + name;
    assert(name.last() != '/') by {
        assert(name.contains(name.last()));
    }
    assert(s.last() == name.last());
    if name.len() == 1 {
        assert(name[0] != '.') by {
            if name[0] == '.' {
                assert(name =~= seq!['.']);
            }
        }
    } else {
        assert(s[s.len() - 2] == name[name.len() - 2]);
        assert(name.contains(name[name.len() - 2]));
    }
    assert(normalised(s) == s);
    assert(normalised(name) == name);
    last_component_after(dir, name);
    assert(s.skip(dir.len() as int + 1) =~= name);
    assert(name.skip(0) =~= name);
}

proof fn last_component_after(dir: Seq<char>, name: Seq<char>)
    requires
        !name.contains('/'),
    ensures
        last_component(dir.push('/') + name) == dir.len() + 1,
        last_component(name) == 0,
    decreases name.len(),
{
    let s = dir.push('/') + name;
    if name.len() == 0 {
        assert(s =~= dir.push('/'));
    } else {
        let shorter = name.drop_last();
        assert(!shorter.contains('/')) by {
            if shorter.contains('/') {
                let k = choose|k: int| 0 <= k < shorter.len() && shorter[k] == '/';
                assert(name[k] == '/');
            }
        }
        assert(name.last() != '/') by {
            assert(name.contains(name.last()));
        }
        last_component_after(dir, shorter);
        assert(s.drop_last() =~= dir.push('/') + shorter);
        assert(s.last() == name.last());
    }
}

/// Separators and components that stand for the same directory at the end of a path do not matter.
pub proof fn trailing_components_do_not_matter(dir: Seq<char>)
    ensures
        base_name(dir.push('/')) == base_name(dir),
        base_name(dir.push('/').push('.')) == base_name(dir),
        is_directory(dir.push('/')),
        is_directory(dir.push('\\')),
{
    assert(dir.push('/').drop_last() =~= dir);
    let s = dir.push('/').push('.');
    assert(s.drop_last() =~= dir.push('/'));
    assert(s.last() == '.' && s[s.len() - 2] == '/');
    assert(normalised(dir.push('/')) == normalised(dir));
    assert(normalised(s) == normalised(dir.push('/')));
}

} // verus!
