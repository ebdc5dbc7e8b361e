//! Watchpoints on bus accesses and program counters, described by a text such as
//! `R:D00100,W:10FD82,PC:9F30-9F50`.
//!
//! - `R:HHHHHH` - reads of an address
//! - `W:HHHHHH` - writes of an address
//! - `PC:HHHHHH`, `PC:LO-HI` - program counter at an address or within a range
//!
//! Hex values may start with `$`; what cannot be understood is passed over.

use crate::text::{chars_of, decimal, digit_char_upper, hex_upper, push_decimal, push_hex_upper};
use vstd::prelude::*;

verus! {

/// Whether a character has the Unicode property `White_Space`.
pub open spec fn is_white(c: char) -> bool {
    let n = c as u32;
    ||| 0x09 <= n <= 0x0D
    ||| n == 0x20
    ||| n == 0x85
    ||| n == 0xA0
    ||| n == 0x1680
    ||| 0x2000 <= n <= 0x200A
    ||| n == 0x2028
    ||| n == 0x2029
    ||| n == 0x202F
    ||| n == 0x205F
    ||| n == 0x3000
}

fn char_is_white(c: char) -> (r: bool)
    ensures
        r == is_white(c),
{
    let n: u32 = c as u32;
    (0x09 <= n && n <= 0x0D) || n == 0x20 || n == 0x85 || n == 0xA0 || n == 0x1680 || (0x2000 <= n && n
        <= 0x200A) || n == 0x2028 || n == 0x2029 || n == 0x202F || n == 0x205F || n == 0x3000
}

/// Without white space at the start.
pub open spec fn trim_start(s: Seq<char>) -> Seq<char>
    decreases s.len(),
{
    if s.len() > 0 && is_white(s[0]) { trim_start(s.skip(1)) } else { s }
}

/// Without white space at the end.
pub open spec fn trim_end(s: Seq<char>) -> Seq<char>
    decreases s.len(),
{
    if s.len() > 0 && is_white(s.last()) { trim_end(s.drop_last()) } else { s }
}

/// Without white space at either end.
pub open spec fn trimmed(s: Seq<char>) -> Seq<char> {
    trim_end(trim_start(s))
}

/// Without dollar signs at the start.
pub open spec fn without_dollars(s: Seq<char>) -> Seq<char>
    decreases s.len(),
{
    if s.len() > 0 && s[0] == '$' { without_dollars(s.skip(1)) } else { s }
}

/// Value of a hexadecimal digit.
pub open spec fn hex_digit(c: char) -> Option<int> {
    if '0' <= c && c <= '9' {
        Some(c as int - '0' as int)
    } else if 'a' <= c && c <= 'f' {
        Some(c as int - 'a' as int + 10)
    } else if 'A' <= c && c <= 'F' {
        Some(c as int - 'A' as int + 10)
    } else {
        None
    }
}

/// Value of hexadecimal digits, where all are digits.
pub open spec fn hex_value(s: Seq<char>) -> Option<int>
    decreases s.len(),
{
    if s.len() == 0 {
        Some(0)
    } else {
        match (hex_value(s.drop_last()), hex_digit(s.last())) {
            (Some(v), Some(d)) => Some(v * 16 + d),
            _ => None,
        }
    }
}

/// A 32-bit hexadecimal number: at least one digit, with a plus sign before them allowed.
pub open spec fn hex_number(s: Seq<char>) -> Option<u32> {
    let digits = if s.len() > 0 && s[0] == '+' { s.skip(1) } else { s };
    match hex_value(digits) {
        Some(v) => if digits.len() > 0 && v <= u32::MAX { Some(v as u32) } else { None },
        None => None,
    }
}

/// The address that a text stands for.
pub open spec fn address_in(s: Seq<char>) -> Option<u32> {
    hex_number(without_dollars(trimmed(s)))
}

/// Position of the first `sep`, or the length.
pub open spec fn first_sep(s: Seq<char>, sep: char) -> int
    decreases s.len(),
{
    if s.len() == 0 || s[0] == sep { 0 } else { 1 + first_sep(s.skip(1), sep) }
}

/// What a description watches.
pub struct WatchView {
    pub reads: Seq<u32>,
    pub writes: Seq<u32>,
    pub pc: Seq<(u32, u32)>,
}

impl WatchView {
    pub open spec fn none() -> WatchView {
        WatchView { reads: Seq::empty(), writes: Seq::empty(), pc: Seq::empty() }
    }

    /// With one item of a description taken in.
    pub open spec fn with_item(self, item: Seq<char>) -> WatchView {
        let tok = trimmed(item);
        let at = first_sep(tok, ':');
        let kind = trimmed(tok.take(at));
        let val = tok.skip(at + 1);
        let dash = first_sep(val, '-');
        if at >= tok.len() {
            self
        } else if kind == seq!['R'] || kind == seq!['r'] {
            match address_in(val) {
                Some(a) => WatchView { reads: self.reads.push(a), ..self },
                None => self,
            }
        } else if kind == seq!['W'] || kind == seq!['w'] {
            match address_in(val) {
                Some(a) => WatchView { writes: self.writes.push(a), ..self },
                None => self,
            }
        } else if kind == seq!['P', 'C'] || kind == seq!['p', 'c'] {
            if dash < val.len() {
                match (address_in(val.take(dash)), address_in(val.skip(dash + 1))) {
                    (Some(l), Some(h)) => WatchView { pc: self.pc.push((l, h)), ..self },
                    _ => self,
                }
            } else {
                match address_in(val) {
                    Some(a) => WatchView { pc: self.pc.push((a, a)), ..self },
                    None => self,
                }
            }
        } else {
            self
        }
    }

    /// With every comma-separated item of a description taken in.
    pub open spec fn with_items(self, text: Seq<char>) -> WatchView
        decreases text.len(),
    {
        let at = first_sep(text, ',');
        if at >= text.len() || at < 0 {
            self.with_item(text)
        } else {
            self.with_item(text.take(at)).with_items(text.skip(at + 1))
        }
    }

    /// A watched address or range holds the program counter.
    pub open spec fn covers_pc(self, pc: u32) -> bool {
        exists|i: int| 0 <= i < self.pc.len() && (#[trigger] self.pc[i]).0 <= pc <= self.pc[i].1
    }

    /// Whether anything is watched.
    pub open spec fn active(self) -> bool {
        self.reads.len() > 0 || self.writes.len() > 0 || self.pc.len() > 0
    }
}

proof fn first_sep_bound(s: Seq<char>, sep: char)
    ensures
        0 <= first_sep(s, sep) <= s.len(),
        first_sep(s, sep) < s.len() ==> s[first_sep(s, sep)] == sep,
        forall|k: int| 0 <= k < first_sep(s, sep) ==> s[k] != sep,
    decreases s.len(),
{
    if s.len() > 0 && s[0] != sep {
        first_sep_bound(s.skip(1), sep);
        assert forall|k: int| 0 <= k < first_sep(s, sep) implies s[k] != sep by {
            if k > 0 {
                assert(s.skip(1)[k - 1] == s[k]);
            }
        }
    }
}

proof fn first_sep_is(s: Seq<char>, sep: char, at: int)
    requires
        0 <= at <= s.len(),
        forall|k: int| 0 <= k < at ==> s[k] != sep,
        at < s.len() ==> s[at] == sep,
    ensures
        first_sep(s, sep) == at,
{
    first_sep_bound(s, sep);
}

fn find_sep(s: &Vec<char>, sep: char) -> (r: usize)
    ensures
        r == first_sep(s@, sep),
        r <= s@.len(),
{
    let mut i: usize = 0;
    while i < s.len() && s[i] != sep
        invariant
            i <= s@.len(),
            forall|k: int| 0 <= k < i ==> s@[k] != sep,
        decreases s@.len() - i,
    {
        i = i + 1;
    }
    proof {
        first_sep_is(s@, sep, i as int);
    }
    i
}

fn part_of(s: &Vec<char>, from: usize, to: usize) -> (r: Vec<char>)
    requires
        from <= to <= s@.len(),
    ensures
        r@ == s@.subrange(from as int, to as int),
{
    let mut r: Vec<char> = Vec::new();
    let mut i: usize = from;
    while i < to
        invariant
            from <= i <= to <= s@.len(),
            r@ == s@.subrange(from as int, i as int),
        decreases to - i,
    {
        r.push(s[i]);
        assert(r@ =~= s@.subrange(from as int, i + 1));
        i = i + 1;
    }
    r
}

fn trim_chars(s: &Vec<char>) -> (r: Vec<char>)
    ensures
        r@ == trimmed(s@),
{
    let mut from: usize = 0;
    assert(s@.skip(0) =~= s@);
    while from < s.len() && char_is_white(s[from])
        invariant
            from <= s@.len(),
            trim_start(s@) == trim_start(s@.skip(from as int)),
        decreases s@.len() - from,
    {
        assert(s@.skip(from as int).skip(1) =~= s@.skip(from + 1));
        from = from + 1;
    }
    let mut to: usize = s.len();
    assert(s@.subrange(from as int, to as int) =~= s@.skip(from as int));
    while to > from && char_is_white(s[to - 1])
        invariant
            from <= to <= s@.len(),
            trimmed(s@) == trim_end(s@.subrange(from as int, to as int)),
        decreases to,
    {
        assert(s@.subrange(from as int, to as int).drop_last() =~= s@.subrange(
            from as int,
            to - 1,
        ));
        to = to - 1;
    }
    part_of(s, from, to)
}

fn digit_of(c: char) -> (r: Option<u32>)
    ensures
        r is Some <==> hex_digit(c) is Some,
        r matches Some(d) ==> d < 16 && hex_digit(c) == Some(d as int),
{
    let n: u32 = c as u32;
    if '0' <= c && c <= '9' {
        Some(n - 48)
    } else if 'a' <= c && c <= 'f' {
        Some(n - 97 + 10)
    } else if 'A' <= c && c <= 'F' {
        Some(n - 65 + 10)
    } else {
        None
    }
}

proof fn hex_value_grows(s: Seq<char>, n: int)
    requires
        0 <= n <= s.len(),
        hex_value(s) is Some,
    ensures
        hex_value(s.take(n)) is Some,
        0 <= hex_value(s.take(n))->0 <= hex_value(s)->0,
    decreases s.len() - n,
{
    if n == s.len() {
        assert(s.take(n) =~= s);
        hex_value_natural(s);
    } else {
        hex_value_grows(s, n + 1);
        assert(s.take(n + 1).drop_last() =~= s.take(n));
        hex_value_natural(s.take(n));
    }
}

proof fn hex_value_natural(s: Seq<char>)
    requires
        hex_value(s) is Some,
    ensures
        hex_value(s)->0 >= 0,
    decreases s.len(),
{
    if s.len() > 0 {
        hex_value_natural(s.drop_last());
    }
}

fn number_in(s: &Vec<char>) -> (r: Option<u32>)
    ensures
        r == hex_number(s@),
{
    let from: usize = if s.len() > 0 && s[0] == '+' { 1 } else { 0 };
    let digits = part_of(s, from, s.len());
    assert(digits@ =~= (if s@.len() > 0 && s@[0] == '+' { s@.skip(1) } else { s@ }));
    if digits.len() == 0 {
        return None;
    }
    let mut v: u64 = 0;
    let mut i: usize = 0;
    assert(digits@.take(0) =~= Seq::<char>::empty());
    while i < digits.len()
        invariant
            i <= digits@.len(),
            v <= u32::MAX,
            hex_value(digits@.take(i as int)) == Some(v as int),
            digits@ == (if s@.len() > 0 && s@[0] == '+' { s@.skip(1) } else { s@ }),
            digits@.len() > 0,
        decreases digits@.len() - i,
    {
        assert(digits@.take(i + 1).drop_last() =~= digits@.take(i as int));
        match digit_of(digits[i]) {
            None => {
                proof {
                    if hex_value(digits@) is Some {
                        hex_value_grows(digits@, i + 1);
                    }
                }
                return None;
            },
            Some(d) => {
                v = v * 16 + d as u64;
                if v > 0xFFFF_FFFF {
                    proof {
                        if hex_value(digits@) is Some {
                            hex_value_grows(digits@, i + 1);
                        }
                    }
                    return None;
                }
            },
        }
        i = i + 1;
    }
    assert(digits@.take(i as int) =~= digits@);
    Some(v as u32)
}

/// The address that a text stands for: hexadecimal, with white space around it and dollar
/// signs before it allowed.
pub fn parse_hex(s: &str) -> (r: Option<u32>)
    ensures
        r == address_in(s@),
{
    address_of(&chars_of(s))
}

fn address_of(s: &Vec<char>) -> (r: Option<u32>)
    ensures
        r == address_in(s@),
{
    let t = trim_chars(s);
    let mut i: usize = 0;
    assert(t@.skip(0) =~= t@);
    while i < t.len() && t[i] == '$'
        invariant
            i <= t@.len(),
            without_dollars(t@) == without_dollars(t@.skip(i as int)),
        decreases t@.len() - i,
    {
        assert(t@.skip(i as int).skip(1) =~= t@.skip(i + 1));
        i = i + 1;
    }
    let rest = part_of(&t, i, t.len());
    assert(rest@ =~= t@.skip(i as int));
    number_in(&rest)
}

/// Watchpoints.
pub struct Watch {
    reads: Vec<u32>,
    writes: Vec<u32>,
    pc: Vec<(u32, u32)>,
    active: bool,
}

impl View for Watch {
    type V = WatchView;

    closed spec fn view(&self) -> WatchView {
        WatchView { reads: self.reads@, writes: self.writes@, pc: self.pc@ }
    }
}

impl Watch {
    /// The flag says whether anything is watched.
    pub closed spec fn wf(&self) -> bool {
        self.active == self@.active()
    }

    /// No watchpoints.
    pub fn none() -> (r: Self)
        ensures
            r@ == WatchView::none(),
            r.wf(),
    {
        Watch { reads: Vec::new(), writes: Vec::new(), pc: Vec::new(), active: false }
    }

    fn take_item(&mut self, item: &Vec<char>)
        ensures
            final(self)@ == old(self)@.with_item(item@),
    {
        let tok = trim_chars(item);
        let at: usize = find_sep(&tok, ':');
        if at >= tok.len() {
            return;
        }
        let head = part_of(&tok, 0, at);
        let kind = trim_chars(&head);
        let val = part_of(&tok, at + 1, tok.len());
        assert(head@ =~= tok@.take(at as int));
        assert(val@ =~= tok@.skip(at + 1));
        if kind.len() == 1 && (kind[0] == 'R' || kind[0] == 'r') {
            assert(kind@ =~= seq![kind@[0]]);
            if let Some(a) = address_of(&val) {
                self.reads.push(a);
            }
        } else if kind.len() == 1 && (kind[0] == 'W' || kind[0] == 'w') {
            assert(kind@ =~= seq![kind@[0]]);
            assert(kind@[0] != 'R' && kind@[0] != 'r');
            if let Some(a) = address_of(&val) {
                self.writes.push(a);
            }
        } else if kind.len() == 2 && ((kind[0] == 'P' && kind[1] == 'C') || (kind[0] == 'p' && kind[1]
            == 'c')) {
            assert(kind@ =~= seq![kind@[0], kind@[1]]);
            let dash: usize = find_sep(&val, '-');
            if dash < val.len() {
                let lo = part_of(&val, 0, dash);
                let hi = part_of(&val, dash + 1, val.len());
                assert(lo@ =~= val@.take(dash as int));
                assert(hi@ =~= val@.skip(dash + 1));
                match (address_of(&lo), address_of(&hi)) {
                    (Some(l), Some(h)) => {
                        self.pc.push((l, h));
                    },
                    _ => {},
                }
            } else if let Some(a) = address_of(&val) {
                self.pc.push((a, a));
            }
        }
    }

    /// The watchpoints that a description asks for.
    pub fn parse(spec_text: &str) -> (r: Self)
        ensures
            r@ == WatchView::none().with_items(spec_text@),
            r.wf(),
    {
        let mut rest = chars_of(spec_text);
        let mut w = Self::none();
        let mut more = true;
        while more
            invariant
                more ==> w@.with_items(rest@) == WatchView::none().with_items(spec_text@),
                !more ==> w@ == WatchView::none().with_items(spec_text@),
            decreases rest@.len() + (if more { 1int } else { 0int }),
        {
            let at: usize = find_sep(&rest, ',');
            if at >= rest.len() {
                w.take_item(&rest);
                more = false;
            } else {
                let item = part_of(&rest, 0, at);
                assert(item@ =~= rest@.take(at as int));
                w.take_item(&item);
                let tail = part_of(&rest, at + 1, rest.len());
                assert(tail@ =~= rest@.skip(at + 1));
                rest = tail;
            }
        }
        w.active = w.reads.len() > 0 || w.writes.len() > 0 || w.pc.len() > 0;
        w
    }

    pub fn is_active(&self) -> (r: bool)
        requires
            self.wf(),
        ensures
            r == self@.active(),
    {
        self.active
    }

    /// Whether a read of `addr` is watched.
    fn watches_read(&self, addr: u32) -> (r: bool)
        requires
            self.wf(),
        ensures
            r == self@.reads.contains(addr),
    {
        if !self.active {
            return false;
        }
        listed(&self.reads, addr)
    }

    /// Whether a write of `addr` is watched.
    fn watches_write(&self, addr: u32) -> (r: bool)
        requires
            self.wf(),
        ensures
            r == self@.writes.contains(addr),
    {
        if !self.active {
            return false;
        }
        listed(&self.writes, addr)
    }

    /// Whether a program counter is watched.
    fn watches_pc(&self, pc: u32) -> (r: bool)
        requires
            self.wf(),
        ensures
            r == self@.covers_pc(pc),
    {
        if !self.active {
            return false;
        }
        let mut i: usize = 0;
        while i < self.pc.len()
            invariant
                i <= self.pc@.len(),
                forall|k: int|
                    0 <= k < i ==> !((#[trigger] self.pc@[k]).0 <= pc <= self.pc@[k].1),
            decreases self.pc@.len() - i,
        {
            if self.pc[i].0 <= pc && pc <= self.pc[i].1 {
                assert(self@.pc[i as int].0 <= pc <= self@.pc[i as int].1);
                return true;
            }
            i = i + 1;
        }
        false
    }
}

/// The report of an access: its kind and width in bits, the address and the value.
pub open spec fn access_line(kind: Seq<char>, addr: u32, val: u32, width: u8) -> Seq<char> {
    "[watch] "@ + kind + decimal(width as nat) + (if width < 10 { seq![' '] } else { Seq::empty() })
        + " $"@ + hex_upper(addr as nat, 6) + " = $"@ + hex_upper(val as nat, (width / 4) as nat)
}

/// The report of a program counter.
pub open spec fn pc_line(pc: u32) -> Seq<char> {
    "[watch] PC=$"@ + hex_upper(pc as nat, 6)
}

fn access_report(kind: &str, addr: u32, val: u32, width: u8) -> (r: String)
    ensures
        r@ == access_line(kind@, addr, val, width),
{
    let mut s = String::from_str("[watch] ");
    s.append(kind);
    push_decimal(&mut s, width as u64);
    if width < 10 {
        proof {
            reveal_strlit(" ");
        }
        s.append(" ");
    }
    s.append(" $");
    push_hex_upper(&mut s, addr, 6);
    s.append(" = $");
    push_hex_upper(&mut s, val, (width / 4) as u32);
    assert(s@ =~= access_line(kind@, addr, val, width)) by {
        reveal_strlit(" ");
    }
    s
}

/// Addresses in capital hexadecimal digits, with commas between them.
pub open spec fn address_list(v: Seq<u32>) -> Seq<char>
    decreases v.len(),
{
    if v.len() == 0 {
        Seq::empty()
    } else if v.len() == 1 {
        hex_upper(v[0] as nat, 1)
    } else {
        address_list(v.drop_last()) + ", "@ + hex_upper(v.last() as nat, 1)
    }
}

/// A range of addresses.
pub open spec fn range_text(range: (u32, u32)) -> Seq<char> {
    "("@ + hex_upper(range.0 as nat, 1) + ", "@ + hex_upper(range.1 as nat, 1) + ")"@
}

/// Ranges of addresses, with commas between them.
pub open spec fn range_list(v: Seq<(u32, u32)>) -> Seq<char>
    decreases v.len(),
{
    if v.len() == 0 {
        Seq::empty()
    } else if v.len() == 1 {
        range_text(v[0])
    } else {
        range_list(v.drop_last()) + ", "@ + range_text(v.last())
    }
}

/// The line that says what is watched.
pub open spec fn active_line(w: WatchView) -> Seq<char> {
    "[watch] active — reads=["@ + address_list(w.reads) + "] writes=["@ + address_list(w.writes) + "] pc=["@
        + range_list(w.pc) + "]"@
}

fn push_addresses(s: &mut String, v: &Vec<u32>)
    ensures
        final(s)@ == old(s)@ + address_list(v@),
{
    let mut i: usize = 0;
    assert(s@ =~= old(s)@ + address_list(v@.take(0)));
    while i < v.len()
        invariant
            i <= v@.len(),
            s@ == old(s)@ + address_list(v@.take(i as int)),
        decreases v@.len() - i,
    {
        if i > 0 {
            s.append(", ");
        }
        push_hex_upper(s, v[i], 1);
        assert(v@.take(i + 1).drop_last() =~= v@.take(i as int));
        assert(s@ =~= old(s)@ + address_list(v@.take(i + 1)));
        i = i + 1;
    }
    assert(v@.take(i as int) =~= v@);
}

fn push_ranges(s: &mut String, v: &Vec<(u32, u32)>)
    ensures
        final(s)@ == old(s)@ + range_list(v@),
{
    let mut i: usize = 0;
    assert(s@ =~= old(s)@ + range_list(v@.take(0)));
    while i < v.len()
        invariant
            i <= v@.len(),
            s@ == old(s)@ + range_list(v@.take(i as int)),
        decreases v@.len() - i,
    {
        if i > 0 {
            s.append(", ");
        }
        let ghost before = s@;
        s.append("(");
        push_hex_upper(s, v[i].0, 1);
        s.append(", ");
        push_hex_upper(s, v[i].1, 1);
        s.append(")");
        assert(s@ =~= before + range_text(v@[i as int]));
        assert(v@.take(i + 1).drop_last() =~= v@.take(i as int));
        assert(s@ =~= old(s)@ + range_list(v@.take(i + 1)));
        i = i + 1;
    }
    assert(v@.take(i as int) =~= v@);
}

/// The line that says what is watched, where anything is.
pub fn watch_report(w: &Watch) -> (r: Option<String>)
    requires
        w.wf(),
    ensures
        r is Some <==> w@.active(),
        r matches Some(line) ==> line@ == active_line(w@),
{
    if !w.is_active() {
        return None;
    }
    let mut s = String::from_str("[watch] active — reads=[");
    push_addresses(&mut s, &w.reads);
    s.append("] writes=[");
    push_addresses(&mut s, &w.writes);
    s.append("] pc=[");
    push_ranges(&mut s, &w.pc);
    s.append("]");
    Some(s)
}

/// The report of a read, where it is watched.
pub fn check_read(w: &Watch, addr: u32, val: u32, width: u8) -> (r: Option<String>)
    requires
        w.wf(),
    ensures
        r is Some <==> w@.reads.contains(addr),
        r matches Some(line) ==> line@ == access_line("R"@, addr, val, width),
{
    if w.watches_read(addr) { Some(access_report("R", addr, val, width)) } else { None }
}

/// The report of a write, where it is watched.
pub fn check_write(w: &Watch, addr: u32, val: u32, width: u8) -> (r: Option<String>)
    requires
        w.wf(),
    ensures
        r is Some <==> w@.writes.contains(addr),
        r matches Some(line) ==> line@ == access_line("W"@, addr, val, width),
{
    if w.watches_write(addr) { Some(access_report("W", addr, val, width)) } else { None }
}

/// The report of a program counter, where it is watched.
pub fn check_pc(w: &Watch, pc: u32) -> (r: Option<String>)
    requires
        w.wf(),
    ensures
        r is Some <==> w@.covers_pc(pc),
        r matches Some(line) ==> line@ == pc_line(pc),
{
    if w.watches_pc(pc) {
        let mut s = String::from_str("[watch] PC=$");
        push_hex_upper(&mut s, pc, 6);
        Some(s)
    } else {
        None
    }
}

fn listed(v: &Vec<u32>, a: u32) -> (r: bool)
    ensures
        r == v@.contains(a),
{
    let mut i: usize = 0;
    while i < v.len()
        invariant
            i <= v@.len(),
            forall|k: int| 0 <= k < i ==> v@[k] != a,
        decreases v@.len() - i,
    {
        if v[i] == a {
            return true;
        }
        i = i + 1;
    }
    false
}

/// A number reads back from its hexadecimal digits, in either case, and from as many dollar signs
/// before them as there are.
pub proof fn hexadecimal_reads_back(n: nat, width: nat)
    requires
        n <= u32::MAX,
    ensures
        hex_number(hex_upper(n, width)) == Some(n as u32),
        hex_number(seq!['+'] + hex_upper(n, width)) == Some(n as u32),
        hex_upper(n, width).len() >= width,
        address_in(hex_upper(n, width)) == Some(n as u32),
        address_in(seq!['$'] + hex_upper(n, width)) == Some(n as u32),
    decreases n, width,
{
    hex_digits_read_back(n, width);
    let h = hex_upper(n, width);
    let d = seq!['$'] + h;
    assert(d.skip(1) =~= h);
    assert((seq!['+'] + h).skip(1) =~= h);
    reveal_with_fuel(trim_start, 2);
    reveal_with_fuel(trim_end, 2);
    reveal_with_fuel(without_dollars, 3);
}

proof fn hex_digits_read_back(n: nat, width: nat)
    ensures
        hex_value(hex_upper(n, width)) == Some(n as int),
        hex_upper(n, width).len() > 0,
        hex_upper(n, width).len() >= width,
        '0' <= hex_upper(n, width)[0] && hex_upper(n, width)[0] <= 'F',
        '0' <= hex_upper(n, width).last() && hex_upper(n, width).last() <= 'F',
    decreases n, width,
{
    reveal_with_fuel(hex_value, 2);
    if n < 16 && width <= 1 {
        assert(hex_upper(n, width).drop_last() =~= Seq::empty());
    } else {
        let w: nat = if width == 0 { 0 } else { (width - 1) as nat };
        hex_digits_read_back(n / 16, w);
        assert(hex_upper(n, width).drop_last() =~= hex_upper(n / 16, w));
    }
}

/// What an item of a description watches: `R:` and `W:` an address, `PC:` an address or a range
/// with a dash.
pub proof fn items_are_watched_by_kind(w: WatchView, a: u32, b: u32)
    ensures
        w.with_item(seq!['R', ':'] + hex_upper(a as nat, 6)) == (WatchView { reads: w.reads.push(a), ..w }),
        w.with_item(seq!['W', ':'] + hex_upper(a as nat, 6)) == (WatchView { writes: w.writes.push(a), ..w }),
        w.with_item(seq!['P', 'C', ':'] + hex_upper(a as nat, 6)) == (WatchView { pc: w.pc.push((a, a)), ..w }),
        w.with_item(seq!['P', 'C', ':'] + hex_upper(a as nat, 6) + seq!['-'] + hex_upper(b as nat, 6)) == (WatchView {
            pc: w.pc.push((a, b)),
            ..w
        }),
{
    let x = hex_upper(a as nat, 6);
    let y = hex_upper(b as nat, 6);
    item_is_taken_apart(w, seq!['R'], x);
    item_is_taken_apart(w, seq!['W'], x);
    item_is_taken_apart(w, seq!['P', 'C'], x);
    let range = x + seq!['-'] + y;
    item_is_taken_apart(w, seq!['P', 'C'], range);
    hexadecimal_reads_back(a as nat, 6);
    hexadecimal_reads_back(b as nat, 6);
    hex_digits_read_back(a as nat, 6);
    hex_digits_read_back(b as nat, 6);
    digits_hold_no_dash(a as nat, 6);
    assert(seq!['R', ':'] + x =~= seq!['R'] + seq![':'] + x);
    assert(seq!['W', ':'] + x =~= seq!['W'] + seq![':'] + x);
    assert(seq!['P', 'C', ':'] + x =~= seq!['P', 'C'] + seq![':'] + x);
    assert(seq!['P', 'C', ':'] + x + seq!['-'] + y =~= seq!['P', 'C'] + seq![':'] + range);
    first_sep_is_first(x, seq!['-'] + y, '-');
    assert(range =~= x + (seq!['-'] + y));
    assert(range.take(x.len() as int) =~= x);
    assert(range.skip(x.len() as int + 1) =~= y);
    first_sep_of_none(x, '-');
    assert(seq!['P', 'C'] != seq!['R'] && seq!['P', 'C'] != seq!['r'] && seq!['P', 'C'] != seq!['W'] && seq!['P', 'C']
        != seq!['w']) by {
        assert(seq!['P', 'C'].len() == 2);
    }
    assert(seq!['W'] != seq!['R'] && seq!['W'] != seq!['r']) by {
        assert(seq!['W'][0] == 'W');
        assert(seq!['R'][0] == 'R');
        assert(seq!['r'][0] == 'r');
    }
}

/// The kind and the value of an item that has no white space in it.
proof fn item_is_taken_apart(w: WatchView, kind: Seq<char>, val: Seq<char>)
    requires
        1 <= kind.len() <= 2,
        val.len() > 0,
        !is_white(val.last()),
        forall|i: int| 0 <= i < kind.len() ==> !is_white(#[trigger] kind[i]) && kind[i] != ':',
    ensures
        ({
            let tok = trimmed(kind + seq![':'] + val);
            &&& tok == kind + seq![':'] + val
            &&& first_sep(tok, ':') == kind.len()
            &&& trimmed(tok.take(kind.len() as int)) == kind
            &&& tok.skip(kind.len() as int + 1) == val
        }),
{
    let item = kind + seq![':'] + val;
    assert(item[0] == kind[0]);
    assert(item.last() == val.last());
    assert(trim_start(item) == item);
    assert(trim_end(item) == item);
    assert(item =~= kind + (seq![':'] + val));
    first_sep_is_first(kind, seq![':'] + val, ':');
    assert(item.take(kind.len() as int) =~= kind);
    assert(kind.last() == kind[kind.len() - 1]);
    assert(trim_start(kind) == kind);
    assert(trim_end(kind) == kind);
    assert(item.skip(kind.len() as int + 1) =~= val);
}

proof fn first_sep_is_first(a: Seq<char>, b: Seq<char>, sep: char)
    requires
        forall|i: int| 0 <= i < a.len() ==> #[trigger] a[i] != sep,
        b.len() > 0,
        b[0] == sep,
    ensures
        first_sep(a + b, sep) == a.len(),
    decreases a.len(),
{
    if a.len() == 0 {
        assert(a + b =~= b);
    } else {
        assert((a + b)[0] == a[0]);
        assert((a + b).skip(1) =~= a.skip(1) + b);
        first_sep_is_first(a.skip(1), b, sep);
    }
}

proof fn first_sep_of_none(a: Seq<char>, sep: char)
    requires
        forall|i: int| 0 <= i < a.len() ==> #[trigger] a[i] != sep,
    ensures
        first_sep(a, sep) == a.len(),
    decreases a.len(),
{
    if a.len() > 0 {
        first_sep_of_none(a.skip(1), sep);
    }
}

proof fn digits_hold_no_dash(n: nat, width: nat)
    ensures
        forall|i: int| 0 <= i < hex_upper(n, width).len() ==> #[trigger] hex_upper(n, width)[i] != '-',
    decreases n, width,
{
    if !(n < 16 && width <= 1) {
        let w: nat = if width == 0 { 0 } else { (width - 1) as nat };
        digits_hold_no_dash(n / 16, w);
        let before = hex_upper(n / 16, w);
        assert(hex_upper(n, width) == before.push(digit_char_upper((n % 16) as int)));
        assert forall|i: int| 0 <= i < hex_upper(n, width).len() implies #[trigger] hex_upper(n, width)[i] != '-' by {
            if i < before.len() {
                assert(hex_upper(n, width)[i] == before[i]);
            }
        }
    }
}

/// A watched range holds its two ends and what lies between them, and nothing else.
pub proof fn ranges_hold_their_ends(w: WatchView, lo: u32, hi: u32, pc: u32)
    requires
        w.pc == seq![(lo, hi)],
    ensures
        w.covers_pc(pc) == (lo <= pc && pc <= hi),
        w.active(),
        !WatchView::none().active(),
        !WatchView::none().covers_pc(pc),
{
    if lo <= pc && pc <= hi {
        assert(w.pc[0].0 <= pc <= w.pc[0].1);
    }
}

/// Items are separated by commas and taken in one after the other.
pub proof fn items_are_taken_in_turn(w: WatchView, item: Seq<char>, rest: Seq<char>)
    requires
        !item.contains(','),
    ensures
        w.with_items(item) == w.with_item(item),
        w.with_items(item + seq![','] + rest) == w.with_item(item).with_items(rest),
{
    assert forall|i: int| 0 <= i < item.len() implies #[trigger] item[i] != ',' by {
        assert(item.contains(item[i]));
    }
    first_sep_of_none(item, ',');
    let text = item + seq![','] + rest;
    assert(text =~= item + (seq![','] + rest));
    first_sep_is_first(item, seq![','] + rest, ',');
    assert(text.take(item.len() as int) =~= item);
    assert(text.skip(item.len() as int + 1) =~= rest);
}

} // verus!
