//! The serial protocol by which a program reads the clock.

use crate::bits::low_bits_are_remainders;
use crate::neogeo::rtc::{bcd, Upd4990a};
use vstd::prelude::*;

verus! {

impl Upd4990a {
    /// One bit offered on DATA: CLK goes up, then down.
    pub open spec fn pulsed(self, data: bool) -> Upd4990a {
        self.pins_written(true, false, data).pins_written(false, false, data)
    }

    /// Four bits clocked in, the low one first.
    pub open spec fn bits_sent(self, c: u8) -> Upd4990a {
        self.pulsed(c & 1 != 0).pulsed(c & 2 != 0).pulsed(c & 4 != 0).pulsed(c & 8 != 0)
    }

    /// A command sent: its four bits, then STB goes up and down.
    pub open spec fn command_sent(self, c: u8) -> Upd4990a {
        self.bits_sent(c).pins_written(false, true, false).pins_written(false, false, false)
    }

    /// After `n` pulses with DATA low.
    pub open spec fn clocked(self, n: nat) -> Upd4990a
        decreases n,
    {
        if n == 0 { self } else { self.clocked((n - 1) as nat).pulsed(false) }
    }

    /// Ready for the time to be clocked out: command 3 takes it, command 1 shifts it.
    pub open spec fn time_requested(self) -> Upd4990a {
        self.command_sent(3).command_sent(1)
    }

    /// Bit `k` of the time as it is clocked out: BCD seconds, minutes, hours and day, the weekday
    /// and the month of four bits each, BCD year.
    pub open spec fn calendar_bit(self, k: u32) -> u32 {
        if k < 8 {
            (bcd(self.seconds) >> k) & 1
        } else if k < 16 {
            (bcd(self.minutes) >> ((k - 8) as u32)) & 1
        } else if k < 24 {
            (bcd(self.hours) >> ((k - 16) as u32)) & 1
        } else if k < 32 {
            (bcd(self.day) >> ((k - 24) as u32)) & 1
        } else if k < 36 {
            (self.weekday as u32 >> ((k - 32) as u32)) & 1
        } else if k < 40 {
            (self.month as u32 >> ((k - 36) as u32)) & 1
        } else {
            (bcd(self.year) >> ((k - 40) as u32)) & 1
        }
    }

    /// The clock registers hold the same time.
    pub open spec fn same_time(self, other: Upd4990a) -> bool {
        &&& self.seconds == other.seconds
        &&& self.minutes == other.minutes
        &&& self.hours == other.hours
        &&& self.day == other.day
        &&& self.weekday == other.weekday
        &&& self.month == other.month
        &&& self.year == other.year
    }

    /// The 48-bit shift register.
    pub open spec fn register(self) -> u64 {
        (self.shift0 as u64) | ((self.shift1 as u64) << 32)
    }

    /// Both control lines are low.
    pub open spec fn lines_low(self) -> bool {
        !self.prev_clk && !self.prev_stb
    }
}

/// Four bits clocked in are the command, whatever the register held, and touch nothing else
/// but the shift register in shift-out mode.
proof fn bits_make_command(r: Upd4990a, c: u8)
    requires
        !r.prev_clk,
        c < 16,
    ensures
        r.bits_sent(c).command == c,
        r.bits_sent(c).lines_low(),
        r.bits_sent(c).mode == r.mode,
        r.bits_sent(c).same_time(r),
        r.mode != 1 ==> r.bits_sent(c) == (Upd4990a { command: c, prev_clk: false, prev_stb: false, ..r }),
{
    let m = r.command;
    let t0 = if c & 1 != 0 { (m >> 1) & 0x7 | 0x8 } else { (m >> 1) & 0x7 };
    let t1 = if c & 2 != 0 { (t0 >> 1) & 0x7 | 0x8 } else { (t0 >> 1) & 0x7 };
    let t2 = if c & 4 != 0 { (t1 >> 1) & 0x7 | 0x8 } else { (t1 >> 1) & 0x7 };
    let t3 = if c & 8 != 0 { (t2 >> 1) & 0x7 | 0x8 } else { (t2 >> 1) & 0x7 };
    assert(t3 == c) by (bit_vector)
        requires
            c < 16,
            t0 == if c & 1 != 0 { (m >> 1) & 0x7 | 0x8 } else { (m >> 1) & 0x7 },
            t1 == if c & 2 != 0 { (t0 >> 1) & 0x7 | 0x8 } else { (t0 >> 1) & 0x7 },
            t2 == if c & 4 != 0 { (t1 >> 1) & 0x7 | 0x8 } else { (t1 >> 1) & 0x7 },
            t3 == if c & 8 != 0 { (t2 >> 1) & 0x7 | 0x8 } else { (t2 >> 1) & 0x7 },
    ;
    let p0 = r.pulsed(c & 1 != 0);
    assert(p0.command == t0 && p0.lines_low() && p0.mode == r.mode && p0.same_time(r));
    let p1 = p0.pulsed(c & 2 != 0);
    assert(p1.command == t1 && p1.lines_low() && p1.mode == r.mode && p1.same_time(r));
    let p2 = p1.pulsed(c & 4 != 0);
    assert(p2.command == t2 && p2.lines_low() && p2.mode == r.mode && p2.same_time(r));
    let p3 = p2.pulsed(c & 8 != 0);
    assert(p3.command == t3 && p3.lines_low() && p3.mode == r.mode && p3.same_time(r));
}

/// The two commands leave the time in the shift register, to be shifted out.
proof fn request_loads_register(r: Upd4990a)
    requires
        !r.prev_clk,
    ensures
        r.time_requested().mode == 1,
        r.time_requested().lines_low(),
        r.time_requested().same_time(r),
        r.time_requested().shift0 == r.time_stored().shift0,
        r.time_requested().shift1 == r.time_stored().shift1,
{
    low_bits_are_remainders();
    bits_make_command(r, 3);
    let taken = r.command_sent(3);
    assert(taken.mode == 0 && taken.lines_low() && taken.same_time(r));
    bits_make_command(taken, 1);
}

/// A pulse in shift-out mode moves every bit one place down.
proof fn pulse_moves_bits(r: Upd4990a, j: u64)
    requires
        r.lines_low(),
        r.mode == 1,
        j < 47,
    ensures
        r.pulsed(false).lines_low(),
        r.pulsed(false).mode == 1,
        r.pulsed(false).same_time(r),
        (r.pulsed(false).register() >> j) & 1 == (r.register() >> ((j + 1) as u64)) & 1,
{
    let (s0, s1, c) = (r.shift0, r.shift1, r.command);
    let t0 = if s1 & 1 != 0 { (s0 >> 1) | 0x8000_0000 } else { s0 >> 1 };
    let t1 = if c & 1 != 0 { ((s1 >> 1) & 0x7FFF) | 0x8000 } else { (s1 >> 1) & 0x7FFF };
    let p = r.pulsed(false);
    assert(p.shift0 == t0 && p.shift1 == t1);
    let i = (j + 1) as u64;
    assert((((t0 as u64) | ((t1 as u64) << 32)) >> j) & 1 == (((s0 as u64) | ((s1 as u64) << 32)) >> i) & 1)
        by (bit_vector)
        requires
            j < 47,
            i == j + 1,
            t0 == if s1 & 1 != 0 { (s0 >> 1) | 0x8000_0000 } else { s0 >> 1 },
            t1 == if c & 1 != 0 { ((s1 >> 1) & 0x7FFF) | 0x8000 } else { (s1 >> 1) & 0x7FFF },
    ;
}

/// Pulses move every bit down by their number.
proof fn pulses_move_bits(r: Upd4990a, n: nat, j: u64)
    requires
        r.lines_low(),
        r.mode == 1,
        j + n < 48,
    ensures
        (r.clocked(n).register() >> j) & 1 == (r.register() >> ((j + n) as u64)) & 1,
    decreases n,
{
    if n > 0 {
        let m = (n - 1) as nat;
        pulses_keep_time(r, m);
        pulse_moves_bits(r.clocked(m), j);
        pulses_move_bits(r, m, (j + 1) as u64);
    }
}

/// Clocking out keeps the time, the mode and the lines.
proof fn pulses_keep_time(r: Upd4990a, n: nat)
    requires
        r.lines_low(),
        r.mode == 1,
    ensures
        r.clocked(n).lines_low(),
        r.clocked(n).mode == 1,
        r.clocked(n).same_time(r),
    decreases n,
{
    if n > 0 {
        pulses_keep_time(r, (n - 1) as nat);
        pulse_moves_bits(r.clocked((n - 1) as nat), 0);
    }
}

/// The shift register, loaded with a calendar time, holds its bits in order.
proof fn register_holds_calendar(r: Upd4990a, k: u32)
    requires
        r.calendar_valid(),
        k < 48,
    ensures
        (r.time_stored().register() >> (k as u64)) & 1 == r.calendar_bit(k),
{
    let (a0, a1, b0, b1) = (
        (r.seconds % 10) as u32,
        (r.seconds / 10) as u32,
        (r.minutes % 10) as u32,
        (r.minutes / 10) as u32,
    );
    let (c0, c1, d0, d1) = (
        (r.hours % 10) as u32,
        (r.hours / 10) as u32,
        (r.day % 10) as u32,
        (r.day / 10) as u32,
    );
    let (a, b, c, d) = (bcd(r.seconds), bcd(r.minutes), bcd(r.hours), bcd(r.day));
    assert(a < 256 && b < 256 && c < 256 && d < 256) by (bit_vector)
        requires
            a == a0 | (a1 << 4),
            b == b0 | (b1 << 4),
            c == c0 | (c1 << 4),
            d == d0 | (d1 << 4),
            a0 < 16,
            a1 < 16,
            b0 < 16,
            b1 < 16,
            c0 < 16,
            c1 < 16,
            d0 < 16,
            d1 < 16,
    ;
    let (w, m) = (r.weekday, r.month);
    let (y0, y1) = ((r.year % 10) as u8, (r.year / 10) as u8);
    let y = bcd(r.year);
    let s0 = r.time_stored().shift0;
    let s1 = r.time_stored().shift1;
    let i = k as u64;
    assert((k < 8 ==> (((s0 as u64) | ((s1 as u64) << 32)) >> i) & 1 == (a >> k) & 1) && (8 <= k < 16 ==> (((
    s0 as u64) | ((s1 as u64) << 32)) >> i) & 1 == (b >> ((k - 8) as u32)) & 1) && (16 <= k < 24 ==> (((
    s0 as u64) | ((s1 as u64) << 32)) >> i) & 1 == (c >> ((k - 16) as u32)) & 1) && (24 <= k < 32 ==> (((
    s0 as u64) | ((s1 as u64) << 32)) >> i) & 1 == (d >> ((k - 24) as u32)) & 1) && (32 <= k < 36 ==> (((
    s0 as u64) | ((s1 as u64) << 32)) >> i) & 1 == (w as u32 >> ((k - 32) as u32)) & 1) && (36 <= k < 40 ==> (((
    s0 as u64) | ((s1 as u64) << 32)) >> i) & 1 == (m as u32 >> ((k - 36) as u32)) & 1) && (40 <= k < 48 ==> (((
    s0 as u64) | ((s1 as u64) << 32)) >> i) & 1 == (y >> ((k - 40) as u32)) & 1)) by (bit_vector)
        requires
            i == k,
            s0 == a | (b << 8) | (c << 16) | (d << 24),
            s1 == (w as u16) | ((m as u16) << 4) | ((y0 as u16) << 8) | ((y1 as u16) << 12),
            y == (y0 as u32) | ((y1 as u32) << 4),
            a < 256,
            b < 256,
            c < 256,
            d < 256,
            w < 16,
            m < 16,
            y0 < 16,
            y1 < 16,
    ;
}

/// Reading the time: with CLK low, after command 3 and command 1 the serial output shows the
/// 48 bits of the calendar one by one, the next after every pulse; the calendar itself stays.
pub proof fn time_is_clocked_out(r: Upd4990a, k: u32)
    requires
        r.calendar_valid(),
        !r.prev_clk,
    ensures
        k < 48 ==> (r.time_requested().clocked(k as nat).outputs() >> 1) & 1 == r.calendar_bit(k),
        r.time_requested().clocked(k as nat).same_time(r),
{
    let t = r.time_requested();
    request_loads_register(r);
    pulses_keep_time(t, k as nat);
    if k < 48 {
        pulses_move_bits(t, k as nat, 0);
        register_holds_calendar(r, k);
        let u = t.clocked(k as nat);
        let (s0, s1, tp) = (u.shift0, u.shift1, if u.tp { 1u8 } else { 0u8 });
        assert(((((s0 & 1) as u8) << 1 | tp) >> 1) & 1 == (((s0 as u64) | ((s1 as u64) << 32)) >> 0) & 1)
            by (bit_vector)
            requires
                tp <= 1,
        ;
    }
}

// ── Calendar ─────────────────────────────────────────────────────────────────

/// Days of a common year before a month.
pub open spec fn days_before(month: u8) -> int {
    if month == 1 { 0 } else if month == 2 { 31 } else if month == 3 { 59 } else if month == 4 { 90 }
    else if month == 5 { 120 } else if month == 6 { 151 } else if month == 7 { 181 } else if month == 8 { 212 }
    else if month == 9 { 243 } else if month == 10 { 273 } else if month == 11 { 304 } else { 334 }
}

impl Upd4990a {
    /// The day of the year, from 1 on.
    pub open spec fn day_of_year(self) -> int {
        days_before(self.month) + (if self.month > 2 && self.year % 4 == 0 { 1int } else { 0 }) + self.day
    }
}

/// A day is one further into the year than the one before it, or the first of the next year after
/// 365 days, 366 in every fourth year; the years of a century and the days of a week go round.  The
/// time of day stays.
pub proof fn days_follow_each_other(r: Upd4990a)
    requires
        r.calendar_valid(),
    ensures
        ({
            let n = r.day_later();
            let length = if r.year % 4 == 0 { 366int } else { 365 };
            &&& n.calendar_valid()
            &&& 1 <= r.day_of_year() <= length
            &&& r.day_of_year() < length ==> n.day_of_year() == r.day_of_year() + 1 && n.year == r.year
            &&& r.day_of_year() == length ==> n.month == 1 && n.day == 1 && n.year == (r.year + 1) % 100
            &&& n.weekday == (r.weekday + 1) % 7
            &&& n.time_of_day() == r.time_of_day()
        }),
{
}

/// Midnight is where the day changes: one second before it the next day comes with it, and at any
/// other time the day stays.
pub proof fn day_changes_at_midnight(r: Upd4990a)
    requires
        r.calendar_valid(),
    ensures
        r.time_of_day() == 86399 ==> r.second_later().day_of_year() == r.day_later().day_of_year()
            && r.second_later().weekday == r.day_later().weekday && r.second_later().year == r.day_later().year,
        r.time_of_day() < 86399 ==> r.second_later().day_of_year() == r.day_of_year() && r.second_later().weekday
            == r.weekday && r.second_later().year == r.year,
{
}

/// A second passes whenever twelve million cycles have, and what is over counts for the next.
pub proof fn seconds_are_twelve_million_cycles(r: Upd4990a, cycles: u64)
    requires
        r.wf(),
        r.sec_count < 12_000_000,
        cycles <= 12_000_000,
    ensures
        ({
            let n = r.later(cycles);
            &&& r.sec_count + cycles < 12_000_000 ==> n.sec_count == r.sec_count + cycles && n.same_time(r)
            &&& r.sec_count + cycles >= 12_000_000 ==> n.sec_count == r.sec_count + cycles - 12_000_000 && n.same_time(
                r.second_later(),
            )
        }),
{
}

// ── Time pulse ───────────────────────────────────────────────────────────────

/// The commands of the time pulse: 0 and 4 to 7 let it run at 64, 64, 256, 2048 and 4096 Hz, 8 to
/// 11 give one pulse of 1, 10, 30 and 60 seconds, 14 stops it.
pub proof fn pulse_commands_have_their_rates(r: Upd4990a, c: u8)
    requires
        r.one_second == 12_000_000,
        r.command == c,
    ensures
        ({
            let n = r.executed();
            &&& c == 0 ==> n.tp_mode == 0 && n.tp_interval == 12_000_000int / 64
            &&& c == 4 ==> n.tp_mode == 0 && n.tp_interval == 12_000_000int / 64
            &&& c == 5 ==> n.tp_mode == 0 && n.tp_interval == 12_000_000int / 256
            &&& c == 6 ==> n.tp_mode == 0 && n.tp_interval == 12_000_000int / 2048
            &&& c == 7 ==> n.tp_mode == 0 && n.tp_interval == 12_000_000int / 4096
            &&& c == 8 ==> n.tp_mode == 1 && n.tp_interval == 12_000_000 && n.tp_count == 0
            &&& c == 9 ==> n.tp_mode == 1 && n.tp_interval == 120_000_000 && n.tp_count == 0
            &&& c == 10 ==> n.tp_mode == 1 && n.tp_interval == 360_000_000 && n.tp_count == 0
            &&& c == 11 ==> n.tp_mode == 1 && n.tp_interval == 720_000_000 && n.tp_count == 0
            &&& c == 14 ==> n.tp_mode == 2
            &&& 4 <= c <= 14 ==> n.mode == r.mode
            &&& c <= 15 && c != 2 ==> n.same_time(r)
        }),
{
    low_bits_are_remainders();
}

/// A running pulse is a square wave: low in the first half of its period and high in the second.
/// A stopped one stays as it is, whatever time passes.
pub proof fn pulse_is_a_square_wave(r: Upd4990a, cycles: u64)
    requires
        r.wf(),
        r.tp_count + cycles < 0x1_0000_0000,
    ensures
        ({
            let n = r.later(cycles);
            &&& r.tp_mode == 0 ==> n.tp_count == (r.tp_count + cycles) % (r.tp_interval as int) && n.tp == (n.tp_count
                >= r.tp_interval / 2)
            &&& r.tp_mode == 2 ==> n.tp == r.tp && n.tp_count == r.tp_count
            &&& n.tp_interval == r.tp_interval
        }),
{
    let i = r.tp_interval;
    assert(i >> 1 == i / 2) by (bit_vector);
}

/// The clock starts at noon of the first day of 1990, a Monday, with its time pulse running.
pub proof fn clock_starts_at_noon()
    ensures
        Upd4990a::power_on().calendar_valid(),
        Upd4990a::power_on().time_of_day() == 43200,
        Upd4990a::power_on().day_of_year() == 1,
        Upd4990a::power_on().year == 90,
        Upd4990a::power_on().weekday == 1,
        Upd4990a::power_on().tp_mode == 0,
        Upd4990a::power_on().tp_interval == 187_500,
{
}

} // verus!
