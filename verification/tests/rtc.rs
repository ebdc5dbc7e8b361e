use emufight::neogeo::rtc::Upd4990a;

#[test]
fn shift0_encodes_bcd_seconds() {
    let mut rtc = Upd4990a::new();
    rtc.shift0 = 0x0000_0059; // BCD 59 seconds
    rtc.mode = 1; // shift-out mode
    let bit = rtc.read();
    assert!(bit <= 3, "read() returns at most 2 bits");
}

#[test]
fn tp_toggles_after_enough_cycles() {
    let mut rtc = Upd4990a::new();
    assert!(!rtc.tp, "TP starts low");
    // The period is 187_500 cycles, half of it 93_750.
    rtc.update(93_751);
    assert!(rtc.tp, "TP should be high after advancing past one half-period");
}

#[test]
fn clone_produces_equal_state() {
    let mut rtc = Upd4990a::new();
    rtc.update(100);
    let clone = rtc.clone();
    assert_eq!(rtc.tp, clone.tp);
    assert_eq!(rtc.mode, clone.mode);
    assert_eq!(rtc.shift0, clone.shift0);
}

#[test]
fn a_second_of_cycles_advances_the_clock() {
    let mut rtc = Upd4990a::new();
    let before = rtc;
    rtc.update(12_000_000);
    assert_eq!(rtc.seconds, (before.seconds + 1) % 60);
    assert_eq!(rtc.sec_count, before.sec_count);
}

#[test]
fn minute_and_hour_carry() {
    let mut rtc = Upd4990a::new();
    rtc.seconds = 59;
    rtc.minutes = 59;
    rtc.hours = 22;
    rtc.update(12_000_000);
    assert_eq!((rtc.hours, rtc.minutes, rtc.seconds), (23, 0, 0));
}

fn send_command(rtc: &mut Upd4990a, command: u8) {
    for i in 0..4 {
        let bit = (command >> i) & 1 != 0;
        rtc.write(false, false, bit);
        rtc.write(true, false, bit);
    }
    rtc.write(false, false, false);
    rtc.write(false, true, false);
    rtc.write(false, false, false);
}

#[test]
fn reading_the_time_shifts_out_bcd() {
    let mut rtc = Upd4990a::new();
    rtc.seconds = 37;
    send_command(&mut rtc, 3);
    assert_eq!(rtc.shift0 & 0xFF, 0x37);
    send_command(&mut rtc, 1);
    let mut seconds = 0u32;
    for i in 0..8 {
        seconds |= (((rtc.read() >> 1) & 1) as u32) << i;
        rtc.write(true, false, false);
        rtc.write(false, false, false);
    }
    assert_eq!(seconds, 0x37);
}

fn pulse(rtc: &mut Upd4990a, data: bool) {
    rtc.write(true, false, data);
    rtc.write(false, false, data);
}

fn command(rtc: &mut Upd4990a, c: u8) {
    for bit in 0..4 {
        pulse(rtc, c >> bit & 1 != 0);
    }
    rtc.write(false, true, false);
    rtc.write(false, false, false);
}

#[test]
fn the_time_is_clocked_out_bit_by_bit() {
    let mut rtc = Upd4990a::new();
    rtc.seconds = 57;
    rtc.minutes = 34;
    rtc.hours = 21;
    rtc.day = 28;
    rtc.weekday = 5;
    rtc.month = 11;
    rtc.year = 97;
    let before = rtc;
    command(&mut rtc, 3);
    command(&mut rtc, 1);
    let mut word = 0u64;
    for k in 0..48 {
        word |= u64::from(rtc.read() >> 1 & 1) << k;
        pulse(&mut rtc, false);
    }
    assert_eq!(word, 0x97B5_2821_3457);
    assert_eq!((rtc.seconds, rtc.minutes, rtc.hours), (before.seconds, before.minutes, before.hours));
    assert_eq!((rtc.day, rtc.weekday, rtc.month, rtc.year), (28, 5, 11, 97));
}
