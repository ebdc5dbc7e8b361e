use emufight::trace::{check_pc, check_read, check_write, parse_hex, watch_report, Watch};

#[test]
fn watch_lists_are_read() {
    assert!(!Watch::none().is_active());
    assert!(!Watch::parse("").is_active());
    assert!(!Watch::parse("X:1,R:zz,PC:1-").is_active());
    let w = Watch::parse(" R : $D00100 , w:10FD82,\u{3000}PC:9F30-9F50");
    assert!(w.is_active());
    assert_eq!(
        check_read(&w, 0xD00100, 0x1234, 16).as_deref(),
        Some("[watch] R16 $D00100 = $1234")
    );
    assert_eq!(check_write(&w, 0xD00100, 0x1234, 16), None);
    assert_eq!(
        check_write(&w, 0x10FD82, 0x80, 8).as_deref(),
        Some("[watch] W8  $10FD82 = $80")
    );
    assert_eq!(check_read(&w, 0x10FD82, 0x80, 8), None);
    assert_eq!(check_pc(&w, 0x9F30).as_deref(), Some("[watch] PC=$009F30"));
    assert!(check_pc(&w, 0x9F50).is_some());
    assert_eq!(check_pc(&w, 0x9F51), None);
}

#[test]
fn hexadecimal_numbers_may_have_dollar_signs() {
    assert_eq!(parse_hex("D00100"), Some(0xD00100));
    assert_eq!(parse_hex(" $d00100\t"), Some(0xD00100));
    assert_eq!(parse_hex("FFFFFFFF"), Some(u32::MAX));
    assert_eq!(parse_hex("100000000"), None);
    assert_eq!(parse_hex("zz"), None);
    assert_eq!(parse_hex(""), None);
}

#[test]
fn watchpoints_are_announced() {
    assert_eq!(watch_report(&Watch::none()), None);
    let w = Watch::parse("R:D00100,R:0,W:10FD82,PC:9F30-9F50,PC:100");
    assert_eq!(
        watch_report(&w).as_deref(),
        Some("[watch] active — reads=[D00100, 0] writes=[10FD82] pc=[(9F30, 9F50), (100, 100)]")
    );
    let w = Watch::parse("W:1");
    assert_eq!(watch_report(&w).as_deref(), Some("[watch] active — reads=[] writes=[1] pc=[]"));
}

#[test]
fn every_unicode_blank_is_trimmed() {
    let blanks = "\t\n\u{B}\u{C}\r \u{85}\u{A0}\u{1680}\u{2000}\u{2001}\u{2002}\u{2003}\u{2004}\u{2005}\
                  \u{2006}\u{2007}\u{2008}\u{2009}\u{200A}\u{2028}\u{2029}\u{202F}\u{205F}\u{3000}";
    for c in blanks.chars() {
        assert_eq!(parse_hex(&format!("{c}1F{c}")), Some(0x1F), "{:x}", c as u32);
    }
    for c in "\u{8}\u{E}\u{1F}\u{180E}\u{200B}\u{2060}\u{FEFF}".chars() {
        assert_eq!(parse_hex(&format!("{c}1F")), None, "{:x}", c as u32);
    }
}

#[test]
fn the_list_of_blanks_is_complete() {
    let white = |n: u32| {
        matches!(n, 0x09..=0x0D | 0x20 | 0x85 | 0xA0 | 0x1680 | 0x2000..=0x200A)
            || matches!(n, 0x2028 | 0x2029 | 0x202F | 0x205F | 0x3000)
    };
    for c in '\0'..=char::MAX {
        assert_eq!(c.is_whitespace(), white(c as u32), "{:x}", c as u32);
    }
}
