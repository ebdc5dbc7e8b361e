//! NEC uPD4990A serial real-time clock / calendar.
//!
//! The BIOS clocks commands in through `REG_RTCCTRL` (bit 0 DATA, bit 1 CLK, bit 2
//! STB) and reads the serial output and the time pulse in bits 7 and 6 of
//! `REG_STATUS_A`.

use crate::bits::low_bits_are_remainders;
use vstd::prelude::*;

verus! {

/// One second in 68k CPU cycles at 12 MHz.
pub const ONE_SECOND: u64 = 12_000_000;

/// uPD4990A state.
#[derive(Clone, Copy, Debug, PartialEq, Eq, Structural)]
pub struct Upd4990a {
    pub seconds: u8,
    pub minutes: u8,
    pub hours: u8,
    pub day: u8,
    pub weekday: u8,
    pub month: u8,
    /// 2-digit year (00-99).
    pub year: u8,
    /// Bits 31-0 of the shift register: BCD seconds, minutes, hours, day.
    pub shift0: u32,
    /// Bits 47-32 of the shift register: weekday, month, BCD year.
    pub shift1: u16,
    /// 4-bit command register, shifted in on each CLK rising edge.
    pub command: u8,
    /// 0 = hold, 1 = shift-out, 2 = time-set.
    pub mode: u8,
    /// 0 = free-run, 1 = one-shot, 2 = stopped.
    pub tp_mode: u8,
    /// Time-pulse output.
    pub tp: bool,
    pub prev_clk: bool,
    pub prev_stb: bool,
    /// One second in 68k cycles.
    pub one_second: u64,
    /// Cycles since the last second tick.
    pub sec_count: u64,
    /// Phase of the time-pulse square wave.
    pub tp_count: u64,
    /// Time-pulse period in 68k cycles.
    pub tp_interval: u64,
}

/// Days of a month (1-12; others count as the nearest of these), with a leap year
/// every fourth.
pub open spec fn month_length(month: u8, year: u8) -> u8 {
    if month == 2 {
        if year % 4 == 0 { 29 } else { 28 }
    } else if month == 4 || month == 6 || month == 9 || month == 11 {
        30
    } else {
        31
    }
}

/// Divisors of one second for the free-running time-pulse commands 4-7.
pub open spec fn tp_divisor(c: u8) -> u64 {
    if c & 3 == 0 { 64 } else if c & 3 == 1 { 256 } else if c & 3 == 2 { 2048 } else { 4096 }
}

/// Seconds of the one-shot time-pulse commands 8-11.
pub open spec fn tp_seconds(c: u8) -> u64 {
    if c & 3 == 0 { 1 } else if c & 3 == 1 { 10 } else if c & 3 == 2 { 30 } else { 60 }
}

/// Two decimal digits as BCD bits.
pub open spec fn bcd(v: u8) -> u32 {
    ((v % 10) as u32) | (((v / 10) as u32) << 4)
}

/// The two BCD digits at bit `at` of a word.
pub open spec fn from_bcd(word: u32, at: u32) -> int {
    ((word >> at) & 0xF) + ((word >> ((at + 4) as u32)) & 0xF) * 10
}

impl Upd4990a {
    /// The counters can be counted up and the time pulse has a period.
    pub open spec fn wf(self) -> bool {
        &&& self.one_second == ONE_SECOND
        &&& self.tp_count < self.tp_interval <= 60 * ONE_SECOND
        &&& self.seconds < 255
        &&& self.minutes < 255
        &&& self.hours < 255
        &&& self.day < 255
        &&& self.weekday < 255
        &&& self.month < 255
    }

    /// Whether the counters can be counted up and the time pulse has a period.
    pub fn is_valid(&self) -> (r: bool)
        ensures
            r == self.wf(),
    {
        self.one_second == ONE_SECOND && self.tp_count < self.tp_interval && self.tp_interval <= 60
            * ONE_SECOND && self.seconds < 255 && self.minutes < 255 && self.hours < 255 && self.day < 255
            && self.weekday < 255 && self.month < 255
    }

    /// The clock registers hold a calendar time.
    pub open spec fn calendar_valid(self) -> bool {
        &&& self.seconds < 60
        &&& self.minutes < 60
        &&& self.hours < 24
        &&& self.weekday < 7
        &&& 1 <= self.month <= 12
        &&& 1 <= self.day <= month_length(self.month, self.year)
        &&& self.year < 100
    }

    /// Seconds since midnight.
    pub open spec fn time_of_day(self) -> int {
        self.hours * 3600 + self.minutes * 60 + self.seconds
    }

    /// The fixed power-on state: 1990-01-01 12:00:00, a Monday, 64 Hz time pulse.
    pub open spec fn power_on() -> Upd4990a {
        Upd4990a {
            seconds: 0,
            minutes: 0,
            hours: 12,
            day: 1,
            weekday: 1,
            month: 1,
            year: 90,
            shift0: 0,
            shift1: 0,
            command: 0,
            mode: 0,
            tp_mode: 0,
            tp: false,
            prev_clk: false,
            prev_stb: false,
            one_second: ONE_SECOND,
            sec_count: 0,
            tp_count: 0,
            tp_interval: ONE_SECOND / 64,
        }
    }

    /// One second later.
    pub open spec fn second_later(self) -> Upd4990a {
        if self.seconds + 1 < 60 {
            Upd4990a { seconds: (self.seconds + 1) as u8, ..self }
        } else if self.minutes + 1 < 60 {
            Upd4990a { seconds: 0, minutes: (self.minutes + 1) as u8, ..self }
        } else if self.hours + 1 < 24 {
            Upd4990a { seconds: 0, minutes: 0, hours: (self.hours + 1) as u8, ..self }
        } else {
            Upd4990a { seconds: 0, minutes: 0, hours: 0, ..self.day_later() }
        }
    }

    /// The next day.
    pub open spec fn day_later(self) -> Upd4990a {
        let wd = ((self.weekday + 1) % 7) as u8;
        if self.day + 1 <= month_length(self.month, self.year) {
            Upd4990a { weekday: wd, day: (self.day + 1) as u8, ..self }
        } else if self.month + 1 <= 12 {
            Upd4990a { weekday: wd, day: 1, month: (self.month + 1) as u8, ..self }
        } else {
            Upd4990a {
                weekday: wd,
                day: 1,
                month: 1,
                year: self.year.wrapping_add(1) % 100,
                ..self
            }
        }
    }

    /// The time pulse after `cycles`: a square wave in free run, one period in
    /// one-shot mode, still when stopped.
    pub open spec fn pulse_later(self, cycles: u64) -> Upd4990a {
        let count = self.tp_count + cycles;
        let wrapped = count % (self.tp_interval as int);
        let half = (self.tp_interval >> 1) as int;
        if self.tp_mode == 2 {
            self
        } else if self.tp_mode == 1 && count < self.tp_interval {
            Upd4990a { tp_count: count as u64, ..self }
        } else if self.tp_mode == 1 {
            Upd4990a { tp_mode: 0, tp_count: wrapped as u64, tp: wrapped >= half, ..self }
        } else {
            Upd4990a { tp_count: wrapped as u64, tp: wrapped >= half, ..self }
        }
    }

    /// The calendar after `cycles`; at most one second passes per update.
    pub open spec fn calendar_later(self, cycles: u64) -> Upd4990a {
        let count = self.sec_count + cycles;
        if count >= self.one_second {
            (Upd4990a { sec_count: (count - self.one_second) as u64, ..self }).second_later()
        } else {
            Upd4990a { sec_count: count as u64, ..self }
        }
    }

    /// The state after `cycles` 68k cycles.
    pub open spec fn later(self, cycles: u64) -> Upd4990a {
        self.pulse_later(cycles).calendar_later(cycles)
    }

    /// The shift register loaded from the clock (command 3).
    pub open spec fn time_stored(self) -> Upd4990a {
        Upd4990a {
            shift0: bcd(self.seconds) | (bcd(self.minutes) << 8) | (bcd(self.hours) << 16) | (bcd(
                self.day,
            ) << 24),
            shift1: (self.weekday as u16) | ((self.month as u16) << 4) | (((self.year % 10) as u16)
                << 8) | (((self.year / 10) as u16) << 12),
            ..self
        }
    }

    /// The clock set from the shift register (command 2).
    pub open spec fn time_loaded(self) -> Upd4990a {
        Upd4990a {
            seconds: from_bcd(self.shift0, 0) as u8,
            minutes: from_bcd(self.shift0, 8) as u8,
            hours: from_bcd(self.shift0, 16) as u8,
            day: from_bcd(self.shift0, 24) as u8,
            weekday: (self.shift1 & 0xF) as u8,
            month: ((self.shift1 >> 4) & 0xF) as u8,
            year: (((self.shift1 >> 8) & 0xF) + ((self.shift1 >> 12) & 0xF) * 10) as u8,
            ..self
        }
    }

    /// The latched command carried out.
    pub open spec fn executed(self) -> Upd4990a {
        let c = self.command & 0x0F;
        if c == 0 {
            Upd4990a {
                mode: 0,
                tp_mode: 0,
                tp_interval: self.one_second / 64,
                tp_count: self.tp_count % (self.one_second / 64),
                ..self
            }
        } else if c == 1 {
            Upd4990a { mode: 1, ..self }
        } else if c == 2 {
            Upd4990a { mode: 2, ..self }.time_loaded()
        } else if c == 3 {
            Upd4990a { mode: 0, ..self }.time_stored()
        } else if c <= 7 {
            Upd4990a {
                tp_mode: 0,
                tp_interval: self.one_second / tp_divisor(c),
                tp_count: self.tp_count % (self.one_second / tp_divisor(c)),
                ..self
            }
        } else if c <= 11 {
            Upd4990a {
                tp_interval: (tp_seconds(c) * self.one_second) as u64,
                tp_count: 0,
                tp_mode: 1,
                ..self
            }
        } else if c == 12 {
            Upd4990a { tp_mode: 1, tp: true, ..self }
        } else if c == 13 {
            Upd4990a { tp_mode: 0, ..self }
        } else if c == 14 {
            Upd4990a { tp_mode: 2, ..self }
        } else {
            self
        }
    }

    /// One bit shifted: the 48-bit register moves right in shift-out mode, the command
    /// register always takes the data bit on top.
    pub open spec fn shifted(self, data: bool) -> Upd4990a {
        let cmd = (self.command >> 1) & 0x7;
        let out = if self.mode == 1 {
            let s1 = (self.shift1 >> 1) & 0x7FFF;
            let s0 = self.shift0 >> 1;
            Upd4990a {
                shift1: if self.command & 1 != 0 { s1 | 0x8000 } else { s1 },
                shift0: if self.shift1 & 1 != 0 { s0 | 0x8000_0000 } else { s0 },
                ..self
            }
        } else {
            self
        };
        Upd4990a { command: if data { cmd | 0x8 } else { cmd }, ..out }
    }

    /// The state after one write to the control pins.
    pub open spec fn pins_written(self, clk: bool, stb: bool, data: bool) -> Upd4990a {
        let strobed = if stb && !self.prev_stb { self.executed() } else { self };
        let clocked = if !stb && clk && !self.prev_clk { strobed.shifted(data) } else { strobed };
        Upd4990a { prev_clk: clk, prev_stb: stb, ..clocked }
    }

    /// Serial output in bit 1 and time pulse in bit 0.
    pub open spec fn outputs(self) -> u8 {
        let out: u8 = if self.mode == 1 { (self.shift0 & 1) as u8 } else { 0 };
        (out << 1) | (if self.tp { 1u8 } else { 0u8 })
    }

    /// The fixed power-on state, which keeps two emulators in step whatever the host's
    /// clock shows.
    pub fn new() -> (r: Self)
        ensures
            r == Upd4990a::power_on(),
            r.wf(),
            r.calendar_valid(),
    {
        Upd4990a {
            seconds: 0,
            minutes: 0,
            hours: 12,
            day: 1,
            weekday: 1,
            month: 1,
            year: 90,
            shift0: 0,
            shift1: 0,
            command: 0,
            mode: 0,
            tp_mode: 0,
            tp: false,
            prev_clk: false,
            prev_stb: false,
            one_second: ONE_SECOND,
            sec_count: 0,
            tp_count: 0,
            tp_interval: ONE_SECOND / 64,
        }
    }

    /// Advance the internal clocks by `cycles` 68k CPU cycles.
    pub fn update(&mut self, cycles: u64)
        requires
            old(self).wf(),
            old(self).tp_count + cycles <= u64::MAX,
            old(self).sec_count + cycles <= u64::MAX,
        ensures
            *final(self) == old(self).later(cycles),
            final(self).wf(),
            old(self).calendar_valid() ==> final(self).calendar_valid(),
    {
        if self.tp_mode != 2 {
            self.tp_count = self.tp_count + cycles;
            if self.tp_mode == 1 {
                if self.tp_count >= self.tp_interval {
                    self.tp_mode = 0;
                    self.tp_count = self.tp_count % self.tp_interval;
                    self.tp = self.tp_count >= (self.tp_interval >> 1);
                }
            } else {
                proof {
                    if self.tp_count < self.tp_interval {
                        vstd::arithmetic::div_mod::lemma_small_mod(
                            self.tp_count as nat,
                            self.tp_interval as nat,
                        );
                    }
                }
                if self.tp_count >= self.tp_interval {
                    self.tp_count = self.tp_count % self.tp_interval;
                }
                self.tp = self.tp_count >= (self.tp_interval >> 1);
            }
        }
        assert(*self == old(self).pulse_later(cycles));
        self.sec_count = self.sec_count + cycles;
        if self.sec_count >= self.one_second {
            self.sec_count = self.sec_count - self.one_second;
            self.tick_second();
        }
    }

    fn tick_second(&mut self)
        requires
            old(self).wf(),
        ensures
            *final(self) == old(self).second_later(),
            final(self).wf(),
            old(self).calendar_valid() ==> final(self).calendar_valid(),
    {
        self.seconds = self.seconds + 1;
        if self.seconds < 60 {
            return;
        }
        self.seconds = 0;
        self.minutes = self.minutes + 1;
        if self.minutes < 60 {
            return;
        }
        self.minutes = 0;
        self.hours = self.hours + 1;
        if self.hours < 24 {
            return;
        }
        self.hours = 0;
        self.weekday = (self.weekday + 1) % 7;
        let is_leap = self.year % 4 == 0;
        let feb: u8 = if is_leap { 29 } else { 28 };
        let month_len: [u8; 12] = [31, feb, 31, 30, 31, 30, 31, 31, 30, 31, 30, 31];
        self.day = self.day + 1;
        let back: u8 = if self.month == 0 { 0 } else { self.month - 1 };
        let at: usize = if back > 11 { 11 } else { back as usize };
        assert(month_len[at as int] == month_length(self.month, self.year));
        if self.day <= month_len[at] {
            return;
        }
        self.day = 1;
        self.month = self.month + 1;
        if self.month <= 12 {
            return;
        }
        self.month = 1;
        self.year = self.year.wrapping_add(1) % 100;
    }

    /// Process a write to `REG_RTCCTRL`: STB rising carries out the latched command,
    /// CLK rising with STB low shifts one bit.
    pub fn write(&mut self, clk: bool, stb: bool, data: bool)
        requires
            old(self).wf(),
        ensures
            *final(self) == old(self).pins_written(clk, stb, data),
            final(self).wf(),
            final(self).sec_count == old(self).sec_count,
    {
        if stb && !self.prev_stb {
            self.execute_command();
        }
        if !stb && clk && !self.prev_clk {
            if self.mode == 1 {
                let carry = self.shift1 & 1 != 0;
                self.shift1 = (self.shift1 >> 1) & 0x7FFF;
                if self.command & 1 != 0 {
                    self.shift1 = self.shift1 | 0x8000;
                }
                self.shift0 = self.shift0 >> 1;
                if carry {
                    self.shift0 = self.shift0 | 0x8000_0000;
                }
            }
            self.command = (self.command >> 1) & 0x7;
            if data {
                self.command = self.command | 0x8;
            }
        }
        self.prev_clk = clk;
        self.prev_stb = stb;
    }

    fn execute_command(&mut self)
        requires
            old(self).wf(),
        ensures
            *final(self) == old(self).executed(),
            final(self).wf(),
            final(self).sec_count == old(self).sec_count,
            final(self).prev_clk == old(self).prev_clk,
    {
        let c: u8 = self.command & 0x0F;
        if c == 0x00 {
            self.mode = 0;
            self.tp_mode = 0;
            self.tp_interval = self.one_second / 64;
            self.tp_count = self.tp_count % self.tp_interval;
        } else if c == 0x01 {
            self.mode = 1;
        } else if c == 0x02 {
            self.mode = 2;
            self.load_time_from_registers();
        } else if c == 0x03 {
            self.mode = 0;
            self.store_time_to_registers();
        } else if c <= 0x07 {
            let at: u8 = c & 3;
            let n: u64 = if at == 0 { 64 } else if at == 1 { 256 } else if at == 2 { 2048 } else { 4096 };
            self.tp_mode = 0;
            self.tp_interval = self.one_second / n;
            self.tp_count = self.tp_count % self.tp_interval;
        } else if c <= 0x0B {
            let at: u8 = c & 3;
            let n: u64 = if at == 0 { 1 } else if at == 1 { 10 } else if at == 2 { 30 } else { 60 };
            self.tp_interval = n * self.one_second;
            self.tp_count = 0;
            self.tp_mode = 1;
        } else if c == 0x0C {
            self.tp_mode = 1;
            self.tp = true;
        } else if c == 0x0D {
            self.tp_mode = 0;
        } else if c == 0x0E {
            self.tp_mode = 2;
        }
    }

    /// Load the clock into the 48-bit shift register.
    fn store_time_to_registers(&mut self)
        ensures
            *final(self) == old(self).time_stored(),
    {
        let s: u32 = ((self.seconds % 10) as u32) | (((self.seconds / 10) as u32) << 4);
        let m: u32 = ((self.minutes % 10) as u32) | (((self.minutes / 10) as u32) << 4);
        let h: u32 = ((self.hours % 10) as u32) | (((self.hours / 10) as u32) << 4);
        let d: u32 = ((self.day % 10) as u32) | (((self.day / 10) as u32) << 4);
        self.shift0 = s | (m << 8) | (h << 16) | (d << 24);
        self.shift1 = (self.weekday as u16) | ((self.month as u16) << 4) | (((self.year % 10) as u16)
            << 8) | (((self.year / 10) as u16) << 12);
    }

    /// Set the clock from the shift register.
    fn load_time_from_registers(&mut self)
        ensures
            *final(self) == old(self).time_loaded(),
            old(self).wf() ==> final(self).wf(),
    {
        let r: u32 = self.shift0;
        let q: u16 = self.shift1;
        proof {
            low_bits_are_remainders();
        }
        self.seconds = (r & 0xF) as u8 + ((r >> 4) & 0xF) as u8 * 10;
        self.minutes = ((r >> 8) & 0xF) as u8 + ((r >> 12) & 0xF) as u8 * 10;
        self.hours = ((r >> 16) & 0xF) as u8 + ((r >> 20) & 0xF) as u8 * 10;
        self.day = ((r >> 24) & 0xF) as u8 + ((r >> 28) & 0xF) as u8 * 10;
        self.weekday = (q & 0xF) as u8;
        self.month = ((q >> 4) & 0xF) as u8;
        self.year = ((q >> 8) & 0xF) as u8 + ((q >> 12) & 0xF) as u8 * 10;
        assert(r >> 0u32 == r) by (bit_vector);
    }

    /// The two output bits of `REG_STATUS_A`: serial OUT in bit 1, time pulse in bit 0.
    pub fn read(&self) -> (r: u8)
        ensures
            r == self.outputs(),
    {
        let out: u8 = if self.mode == 1 { (self.shift0 & 1) as u8 } else { 0 };
        (out << 1) | (if self.tp { 1 } else { 0 })
    }
}

impl Default for Upd4990a {
    fn default() -> (r: Self)
        ensures
            r == Upd4990a::power_on(),
    {
        Self::new()
    }
}

/// A second moves the time of day on by one, wrapping at midnight, and keeps a valid
/// calendar valid.
pub proof fn second_advances_time(s: Upd4990a)
    requires
        s.calendar_valid(),
    ensures
        s.second_later().calendar_valid(),
        s.second_later().time_of_day() == (s.time_of_day() + 1) % 86400,
{
}

/// Reading the clock into the shift register and setting the clock from it gives the
/// same time back.
pub proof fn store_then_load_keeps_time(s: Upd4990a)
    requires
        s.calendar_valid(),
    ensures
        s.time_stored().time_loaded() == s.time_stored(),
{
    let (a, b, c, d) = (s.seconds, s.minutes, s.hours, s.day);
    let r = s.time_stored().shift0;
    let q = s.time_stored().shift1;
    let (a0, a1, b0, b1) = ((a % 10) as u32, (a / 10) as u32, (b % 10) as u32, (b / 10) as u32);
    let (c0, c1, d0, d1) = ((c % 10) as u32, (c / 10) as u32, (d % 10) as u32, (d / 10) as u32);
    assert(r & 0xF == a0 && (r >> 0) & 0xF == a0 && (r >> 4) & 0xF == a1 && (r >> 8) & 0xF == b0 && (
    r >> 12) & 0xF == b1 && (r >> 16) & 0xF == c0 && (r >> 20) & 0xF == c1 && (r >> 24) & 0xF == d0
        && (r >> 28) & 0xF == d1) by (bit_vector)
        requires
            r == (a0 | (a1 << 4)) | ((b0 | (b1 << 4)) << 8) | ((c0 | (c1 << 4)) << 16) | ((d0 | (d1
                << 4)) << 24),
            a0 < 16,
            a1 < 16,
            b0 < 16,
            b1 < 16,
            c0 < 16,
            c1 < 16,
            d0 < 16,
            d1 < 16,
    ;
    let (w, m, y0, y1) = (
        s.weekday as u16,
        s.month as u16,
        (s.year % 10) as u16,
        (s.year / 10) as u16,
    );
    assert(q & 0xF == w && (q >> 4) & 0xF == m && (q >> 8) & 0xF == y0 && (q >> 12) & 0xF == y1)
        by (bit_vector)
        requires
            q == w | (m << 4) | (y0 << 8) | (y1 << 12),
            w < 16,
            m < 16,
            y0 < 16,
            y1 < 16,
    ;
}

} // verus!
