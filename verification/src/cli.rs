//! Command line of the desktop host.

use crate::text::{decimal, chars_of, str_eq};
use vstd::prelude::*;

verus! {

/// The help text.
pub const USAGE: &'static str = "Usage: emufight-sdl [OPTIONS] <rom-name>\n\nOffline:\nemufight-sdl kof98\n\nOnline (host / join — joiner only needs host address):\nhost:  --listen <host:port>\njoin:  --connect <host:port>\n\nLocal example:\nhost:  … --listen 127.0.0.1:7000\njoin:  … --connect 127.0.0.1:7000\n\nJoin may also pass --listen <local> for a fixed local UDP port.\n\nOptions:\n--input-delay <n>   GGRS delay frames (default 2)\n--scale <n>         Window scale (default 2)\n\nKeys (product defaults): WASD + IJOK (NeoGeo) or IOP/JKL (6-btn);\n1 Start, 3 Select, 5 Coin, Esc quit.\nROMs: roms/<name>/  boot: boot/<name>/charselect.bin";

/// What the command line asks for.
pub struct Args {
    pub rom: String,
    /// Host: address of the room.
    pub listen: Option<String>,
    /// Join: address of the host.
    pub connect: Option<String>,
    pub input_delay: u32,
    pub scale: u32,
}

/// How a game is played.
pub enum Mode {
    Offline,
    /// Player 0: wait for a joiner at an address.
    Host { bind: String },
    /// Player 1: connect to a host, from a local address.
    Join { bind: String, host: String },
}

/// What has been read of a command line.
pub struct ArgsView {
    pub rom: Option<Seq<char>>,
    pub listen: Option<Seq<char>>,
    pub connect: Option<Seq<char>>,
    pub input_delay: u32,
    pub scale: u32,
}

/// Text of an optional string.
pub open spec fn text_of(s: Option<String>) -> Option<Seq<char>> {
    match s {
        Some(x) => Some(x@),
        None => None,
    }
}

/// Value of a decimal digit.
pub open spec fn digit_value(c: char) -> Option<int> {
    if '0' <= c && c <= '9' { Some(c as int - '0' as int) } else { None }
}

/// Value of decimal digits, where all are digits.
pub open spec fn digits_value(s: Seq<char>) -> Option<int>
    decreases s.len(),
{
    if s.len() == 0 {
        Some(0)
    } else {
        match (digits_value(s.drop_last()), digit_value(s.last())) {
            (Some(v), Some(d)) => Some(v * 10 + d),
            _ => None,
        }
    }
}

/// A 32-bit decimal number: at least one digit, with a plus sign before them allowed.
pub open spec fn number(s: Seq<char>) -> Option<u32> {
    let digits = if s.len() > 0 && s[0] == '+' { s.skip(1) } else { s };
    match digits_value(digits) {
        Some(v) => if digits.len() > 0 && v <= u32::MAX { Some(v as u32) } else { None },
        None => None,
    }
}

proof fn digits_value_natural(s: Seq<char>)
    requires
        digits_value(s) is Some,
    ensures
        digits_value(s)->0 >= 0,
    decreases s.len(),
{
    if s.len() > 0 {
        digits_value_natural(s.drop_last());
    }
}

proof fn digits_value_grows(s: Seq<char>, n: int)
    requires
        0 <= n <= s.len(),
        digits_value(s) is Some,
    ensures
        digits_value(s.take(n)) is Some,
        0 <= digits_value(s.take(n))->0 <= digits_value(s)->0,
    decreases s.len() - n,
{
    if n == s.len() {
        assert(s.take(n) =~= s);
        digits_value_natural(s);
    } else {
        digits_value_grows(s, n + 1);
        assert(s.take(n + 1).drop_last() =~= s.take(n));
        digits_value_natural(s.take(n));
    }
}

/// Read a 32-bit decimal number.
pub fn parse_number(text: &str) -> (r: Option<u32>)
    ensures
        r == number(text@),
{
    let s = chars_of(text);
    let from: usize = if s.len() > 0 && s[0] == '+' { 1 } else { 0 };
    let ghost digits = if s@.len() > 0 && s@[0] == '+' { s@.skip(1) } else { s@ };
    assert(digits =~= s@.skip(from as int));
    if from >= s.len() {
        return None;
    }
    let mut v: u64 = 0;
    let mut i: usize = from;
    assert(digits.take(0) =~= Seq::<char>::empty());
    while i < s.len()
        invariant
            from <= i <= s@.len(),
            from < s@.len(),
            digits == s@.skip(from as int),
            digits == (if s@.len() > 0 && s@[0] == '+' { s@.skip(1) } else { s@ }),
            s@ == text@,
            v <= u32::MAX,
            digits_value(digits.take(i - from)) == Some(v as int),
        decreases s@.len() - i,
    {
        assert(digits.take(i + 1 - from).drop_last() =~= digits.take(i - from));
        assert(digits[i - from] == s@[i as int]);
        let c: char = s[i];
        if !('0' <= c && c <= '9') {
            proof {
                if digits_value(digits) is Some {
                    digits_value_grows(digits, i + 1 - from);
                }
            }
            return None;
        }
        v = v * 10 + (c as u32 - 48) as u64;
        if v > 0xFFFF_FFFF {
            proof {
                if digits_value(digits) is Some {
                    digits_value_grows(digits, i + 1 - from);
                }
            }
            return None;
        }
        i = i + 1;
    }
    assert(digits.take(i - from) =~= digits);
    Some(v as u32)
}

/// The texts of some arguments.
pub open spec fn texts(argv: Seq<String>) -> Seq<Seq<char>> {
    Seq::new(argv.len(), |i: int| argv[i]@)
}

impl ArgsView {
    /// Before the first argument.
    pub open spec fn defaults() -> ArgsView {
        ArgsView { rom: None, listen: None, connect: None, input_delay: 2, scale: 2 }
    }
}

/// The error of an address that cannot be read.
pub open spec fn bad_address_text(s: Seq<char>) -> Seq<char> {
    "invalid address '"@ + s + "' (expected host:port)"@
}

/// The arguments from `i` on, after what was read before; `is_addr` says which arguments are
/// socket addresses.
pub open spec fn parsed(argv: Seq<Seq<char>>, is_addr: Seq<bool>, i: int, st: ArgsView) -> Result<ArgsView, Seq<char>>
    decreases argv.len() - i,
{
    if i >= argv.len() {
        if st.rom is Some { Ok(st) } else { Err("missing <rom-name>"@) }
    } else {
        let a = argv[i];
        if a == "-h"@ || a == "--help"@ {
            Err(USAGE@)
        } else if a == "--listen"@ {
            if i + 1 >= argv.len() {
                Err("--listen needs ADDR"@)
            } else if !is_addr[i + 1] {
                Err(bad_address_text(argv[i + 1]))
            } else {
                parsed(argv, is_addr, i + 2, ArgsView { listen: Some(argv[i + 1]), ..st })
            }
        } else if a == "--connect"@ {
            if i + 1 >= argv.len() {
                Err("--connect needs ADDR"@)
            } else if !is_addr[i + 1] {
                Err(bad_address_text(argv[i + 1]))
            } else {
                parsed(argv, is_addr, i + 2, ArgsView { connect: Some(argv[i + 1]), ..st })
            }
        } else if a == "--input-delay"@ {
            if i + 1 >= argv.len() {
                Err("--input-delay needs N"@)
            } else {
                match number(argv[i + 1]) {
                    Some(n) => parsed(argv, is_addr, i + 2, ArgsView { input_delay: n, ..st }),
                    None => Err("bad --input-delay"@),
                }
            }
        } else if a == "--scale"@ {
            if i + 1 >= argv.len() {
                Err("--scale needs N"@)
            } else {
                match number(argv[i + 1]) {
                    Some(n) => parsed(
                        argv,
                        is_addr,
                        i + 2,
                        ArgsView { scale: if n < 1 { 1 } else { n }, ..st },
                    ),
                    None => Err("bad --scale"@),
                }
            }
        } else if a.len() > 0 && a[0] == '-' {
            Err("unknown option: "@ + a)
        } else if st.rom is Some {
            Err("multiple ROM names"@)
        } else {
            parsed(argv, is_addr, i + 1, ArgsView { rom: Some(a), ..st })
        }
    }
}

impl Args {
    /// What the arguments say.
    pub open spec fn model(self) -> ArgsView {
        ArgsView {
            rom: Some(self.rom@),
            listen: text_of(self.listen),
            connect: text_of(self.connect),
            input_delay: self.input_delay,
            scale: self.scale,
        }
    }

    pub fn usage() -> (r: &'static str)
        ensures
            r@ == USAGE@,
    {
        USAGE
    }

    /// Read a command line; `is_addr` says for every argument whether it is a socket address.
    pub fn parse(argv: &Vec<String>, is_addr: &Vec<bool>) -> (r: Result<Args, String>)
        requires
            is_addr@.len() == argv@.len(),
        ensures
            match r {
                Ok(a) => parsed(texts(argv@), is_addr@, 0, ArgsView::defaults()) == Ok::<ArgsView, Seq<char>>(
                    a.model(),
                ),
                Err(e) => parsed(texts(argv@), is_addr@, 0, ArgsView::defaults()) == Err::<ArgsView, Seq<char>>(
                    e@,
                ),
            },
    {
        let ghost words = texts(argv@);
        let mut rom: Option<String> = None;
        let mut listen: Option<String> = None;
        let mut connect: Option<String> = None;
        let mut input_delay: u32 = 2;
        let mut scale: u32 = 2;
        let n: usize = argv.len();
        let mut i: usize = 0;
        while i < n
            invariant
                i <= n,
                n == argv@.len(),
                is_addr@.len() == argv@.len(),
                words == texts(argv@),
                parsed(words, is_addr@, 0, ArgsView::defaults()) == parsed(
                    words,
                    is_addr@,
                    i as int,
                    ArgsView {
                        rom: text_of(rom),
                        listen: text_of(listen),
                        connect: text_of(connect),
                        input_delay,
                        scale,
                    },
                ),
            decreases n - i,
        {
            let a: &str = argv[i].as_str();
            assert(words[i as int] == a@);
            if str_eq(a, "-h") || str_eq(a, "--help") {
                return Err(String::from_str(USAGE));
            } else if str_eq(a, "--listen") {
                if n - i < 2 {
                    return Err(String::from_str("--listen needs ADDR"));
                }
                assert(words[i + 1] == argv@[i + 1]@);
                if !is_addr[i + 1] {
                    return Err(bad_address(argv[i + 1].as_str()));
                }
                listen = Some(String::from_str(argv[i + 1].as_str()));
                i = i + 2;
            } else if str_eq(a, "--connect") {
                if n - i < 2 {
                    return Err(String::from_str("--connect needs ADDR"));
                }
                assert(words[i + 1] == argv@[i + 1]@);
                if !is_addr[i + 1] {
                    return Err(bad_address(argv[i + 1].as_str()));
                }
                connect = Some(String::from_str(argv[i + 1].as_str()));
                i = i + 2;
            } else if str_eq(a, "--input-delay") {
                if n - i < 2 {
                    return Err(String::from_str("--input-delay needs N"));
                }
                assert(words[i + 1] == argv@[i + 1]@);
                match parse_number(argv[i + 1].as_str()) {
                    Some(v) => {
                        input_delay = v;
                    },
                    None => {
                        return Err(String::from_str("bad --input-delay"));
                    },
                }
                i = i + 2;
            } else if str_eq(a, "--scale") {
                if n - i < 2 {
                    return Err(String::from_str("--scale needs N"));
                }
                assert(words[i + 1] == argv@[i + 1]@);
                match parse_number(argv[i + 1].as_str()) {
                    Some(v) => {
                        scale = if v < 1 { 1 } else { v };
                    },
                    None => {
                        return Err(String::from_str("bad --scale"));
                    },
                }
                i = i + 2;
            } else if a.unicode_len() > 0 && a.get_char(0) == '-' {
                let mut e = String::from_str("unknown option: ");
                e.append(a);
                return Err(e);
            } else {
                if rom.is_some() {
                    return Err(String::from_str("multiple ROM names"));
                }
                rom = Some(String::from_str(a));
                i = i + 1;
            }
        }
        match rom {
            Some(rom) => Ok(Args { rom, listen, connect, input_delay, scale }),
            None => Err(String::from_str("missing <rom-name>")),
        }
    }

    /// How the game is played: alone without addresses, as host with only a local one, else as
    /// the one who joins, from any port where no local address is given.
    pub fn mode(&self) -> (r: Mode)
        ensures
            match r {
                Mode::Offline => self.listen is None && self.connect is None,
                Mode::Host { bind } => self.connect is None && text_of(self.listen) == Some(bind@),
                Mode::Join { bind, host } => text_of(self.connect) == Some(host@) && bind@ == (
                match text_of(self.listen) {
                    Some(l) => l,
                    None => "0.0.0.0:0"@,
                }),
            },
    {
        match &self.connect {
            Some(host) => Mode::Join {
                bind: match &self.listen {
                    Some(l) => String::from_str(l.as_str()),
                    None => String::from_str("0.0.0.0:0"),
                },
                host: String::from_str(host.as_str()),
            },
            None => match &self.listen {
                Some(l) => Mode::Host { bind: String::from_str(l.as_str()) },
                None => Mode::Offline,
            },
        }
    }
}

fn bad_address(s: &str) -> (r: String)
    ensures
        r@ == bad_address_text(s@),
{
    let mut e = String::from_str("invalid address '");
    e.append(s);
    e.append("' (expected host:port)");
    e
}

/// A number reads back from its decimal digits, and a plus sign before them changes nothing.
pub proof fn decimal_reads_back(n: nat)
    requires
        n <= u32::MAX,
    ensures
        number(decimal(n)) == Some(n as u32),
        number(seq!['+'] + decimal(n)) == Some(n as u32),
{
    decimal_digits_read_back(n);
    assert((seq!['+'] + decimal(n)).skip(1) =~= decimal(n));
}

proof fn decimal_digits_read_back(n: nat)
    ensures
        digits_value(decimal(n)) == Some(n as int),
        decimal(n).len() > 0,
        decimal(n)[0] != '+',
    decreases n,
{
    reveal_with_fuel(digits_value, 2);
    if n >= 10 {
        decimal_digits_read_back(n / 10);
        assert(decimal(n).drop_last() =~= decimal(n / 10));
    } else {
        assert(decimal(n).drop_last() =~= Seq::empty());
    }
}

/// The options by what they set: a name alone is the game, with a delay of two frames and twice the
/// size; each option sets its own value and nothing else.
pub proof fn options_set_their_own_values(rom: Seq<char>, text: Seq<char>, n: u32)
    requires
        rom.len() > 0,
        rom[0] != '-',
        number(text) == Some(n),
    ensures
        ({
            let plain = ArgsView { rom: Some(rom), listen: None, connect: None, input_delay: 2, scale: 2 };
            let none = ArgsView::defaults();
            &&& parsed(seq![rom], seq![false], 0, none) == Ok::<ArgsView, Seq<char>>(plain)
            &&& parsed(seq!["--input-delay"@, text, rom], seq![false, false, false], 0, none) == Ok::<
                ArgsView,
                Seq<char>,
            >(ArgsView { input_delay: n, ..plain })
            &&& parsed(seq!["--scale"@, text, rom], seq![false, false, false], 0, none) == Ok::<ArgsView, Seq<char>>(
                ArgsView { scale: if n == 0 { 1 } else { n }, ..plain },
            )
            &&& parsed(seq!["--listen"@, text, rom], seq![false, true, false], 0, none) == Ok::<ArgsView, Seq<char>>(
                ArgsView { listen: Some(text), ..plain },
            )
            &&& parsed(seq!["--connect"@, text, rom], seq![false, true, false], 0, none) == Ok::<ArgsView, Seq<char>>(
                ArgsView { connect: Some(text), ..plain },
            )
        }),
{
    option_names_differ();
    let none = ArgsView::defaults();
    let one = seq![rom];
    name_comes_last(one, seq![false], 0, none);
    let delay = seq!["--input-delay"@, text, rom];
    name_comes_last(delay, seq![false, false, false], 2, ArgsView { input_delay: n, ..none });
    let scale = seq!["--scale"@, text, rom];
    name_comes_last(scale, seq![false, false, false], 2, ArgsView { scale: if n == 0 { 1 } else { n }, ..none });
    let listen = seq!["--listen"@, text, rom];
    name_comes_last(listen, seq![false, true, false], 2, ArgsView { listen: Some(text), ..none });
    let connect = seq!["--connect"@, text, rom];
    name_comes_last(connect, seq![false, true, false], 2, ArgsView { connect: Some(text), ..none });
}

proof fn option_names_differ()
    ensures
        "-h"@.len() == 2,
        "-h"@[0] == '-',
        "--help"@.len() == 6,
        "--help"@[0] == '-',
        "--listen"@.len() == 8,
        "--listen"@[0] == '-',
        "--connect"@.len() == 9,
        "--connect"@[0] == '-',
        "--input-delay"@.len() == 13,
        "--input-delay"@[0] == '-',
        "--scale"@.len() == 7,
        "--scale"@[0] == '-',
{
    reveal_strlit("-h");
    reveal_strlit("--help");
    reveal_strlit("--listen");
    reveal_strlit("--connect");
    reveal_strlit("--input-delay");
    reveal_strlit("--scale");
}

proof fn name_comes_last(argv: Seq<Seq<char>>, is_addr: Seq<bool>, i: int, st: ArgsView)
    requires
        0 <= i,
        i + 1 == argv.len(),
        argv[i].len() > 0,
        argv[i][0] != '-',
        st.rom is None,
    ensures
        parsed(argv, is_addr, i, st) == Ok::<ArgsView, Seq<char>>(ArgsView { rom: Some(argv[i]), ..st }),
{
    option_names_differ();
    reveal_with_fuel(parsed, 2);
}

/// What is refused: no name, two names, an option that is not known, and options without their
/// value or with one that cannot be read.
pub proof fn bad_options_are_refused(rom: Seq<char>, other: Seq<char>, option: Seq<char>)
    requires
        rom.len() > 0,
        rom[0] != '-',
        other.len() > 0,
        other[0] != '-',
        option.len() > 0,
        option[0] == '-',
        option != "-h"@,
        option != "--help"@,
    ensures
        ({
            let none = ArgsView::defaults();
            &&& parsed(Seq::empty(), Seq::empty(), 0, none) == Err::<ArgsView, Seq<char>>("missing <rom-name>"@)
            &&& parsed(seq![rom, other], seq![false, false], 0, none) == Err::<ArgsView, Seq<char>>(
                "multiple ROM names"@,
            )
            &&& parsed(seq![option], seq![false], 0, none) is Err
            &&& number(other) is None ==> parsed(seq!["--scale"@, other, rom], seq![false, false, false], 0, none)
                == Err::<ArgsView, Seq<char>>("bad --scale"@)
            &&& number(other) is None ==> parsed(seq!["--input-delay"@, other, rom], seq![false, false, false], 0, none)
                == Err::<ArgsView, Seq<char>>("bad --input-delay"@)
            &&& parsed(seq!["--listen"@, other, rom], seq![false, false, false], 0, none) == Err::<ArgsView, Seq<char>>(
                bad_address_text(other),
            )
            &&& parsed(seq!["--connect"@, other, rom], seq![false, false, false], 0, none) == Err::<
                ArgsView,
                Seq<char>,
            >(bad_address_text(other))
        }),
{
    option_names_differ();
    let none = ArgsView::defaults();
    let two = seq![rom, other];
    reveal_with_fuel(parsed, 2);
    assert(parsed(two, seq![false, false], 1, ArgsView { rom: Some(rom), ..none }) == Err::<ArgsView, Seq<char>>(
        "multiple ROM names"@,
    ));
}

} // verus!
