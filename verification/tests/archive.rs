use emufight::zip_files::{entry_count, entry_file, entry_name, extract, file_name, name_taken};
use std::io::Write;

fn archive(entries: &[(&str, &[u8])]) -> Vec<u8> {
    let mut w = zip::ZipWriter::new(std::io::Cursor::new(Vec::new()));
    let options = zip::write::SimpleFileOptions::default();
    for (name, data) in entries {
        if name.ends_with('/') {
            w.add_directory(name.trim_end_matches('/'), options).unwrap();
        } else {
            w.start_file(*name, options).unwrap();
            w.write_all(data).unwrap();
        }
    }
    w.finish().unwrap().into_inner()
}

#[test]
fn archives_are_flattened() {
    let long = vec![7u8; 5000];
    let z = archive(&[
        ("set/", b""),
        ("set/242-p1.p1", b"program"),
        ("242-c1.c1", &long),
        ("set/.hidden", b"no"),
        ("../up.bin", b"up"),
    ]);
    let files = extract(&z).unwrap_or_else(|e| panic!("{e}"));
    let seen: Vec<(&str, usize)> = files.iter().map(|f| (f.name.as_str(), f.data.len())).collect();
    assert_eq!(seen, vec![("242-p1.p1", 7), ("242-c1.c1", 5000), ("up.bin", 2)]);
    assert_eq!(files[0].data, b"program");
    assert_eq!(files[1].data, long);
}

#[test]
fn broken_archives_are_refused() {
    let e = extract(b"not a zip").err().unwrap();
    assert!(e.starts_with("invalid zip archive: "), "{e}");
    // A damaged entry is reported by its name.
    let mut z = archive(&[("a.bin", b"some bytes that are long enough to be stored")]);
    z[35 + 8] ^= 0xFF;
    let e = extract(&z).err().unwrap();
    assert!(e.starts_with("extraction error for 'a.bin': "), "{e}");
}

#[test]
fn bare_names_are_taken() {
    assert_eq!(file_name("a/b/c.bin"), "c.bin");
    assert_eq!(file_name("a/b/"), "b");
    assert_eq!(file_name("a/."), "a");
    assert_eq!(file_name("c.bin"), "c.bin");
    assert_eq!(name_taken("a/c.bin"), Some("c.bin".to_string()));
    assert_eq!(name_taken("a/"), None);
    assert_eq!(name_taken("a\\"), None);
    assert_eq!(name_taken("a/.."), None);
    assert_eq!(name_taken(""), None);
}

#[test]
fn archive_errors_are_worded() {
    let e = || "bad".to_string();
    assert_eq!(entry_count(Ok(3)), Ok(3));
    assert_eq!(entry_count(Err(e())), Err("invalid zip archive: bad".to_string()));
    assert_eq!(entry_name(4, Ok("x/y".to_string())), Ok(Some("y".to_string())));
    assert_eq!(entry_name(4, Err(e())), Err("zip entry error at index 4: bad".to_string()));
    assert_eq!(
        entry_file("y".to_string(), Err(e())).err().unwrap(),
        "extraction error for 'y': bad"
    );
    assert_eq!(entry_file("y".to_string(), Ok(vec![1])).unwrap_or_else(|e| panic!("{e}")).data, vec![1]);
}
