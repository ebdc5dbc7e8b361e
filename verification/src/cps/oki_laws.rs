//! Laws of the sample player: what a nibble codes and how a phrase is played.

use crate::cps::oki::{
    decoded, delta, nibble_at, rom_address, voice_after, voice_output, volume_of, OkiView, OkiVoice,
    ADPCM_STEP_TABLE,
};
use crate::cps::save_state::OkiVoiceSnap;
use vstd::prelude::*;

verus! {

/// `base` to the power of `n`.
pub open spec fn power(base: int, n: int) -> int
    decreases n,
{
    if n <= 0 { 1 } else { base * power(base, n - 1) }
}

/// The step sizes grow by a tenth: size `i` is 16 times 1.1 to the power of `i`, rounded down.
#[verifier::rlimit(50)]
pub proof fn step_sizes_grow_by_a_tenth(i: int)
    requires
        0 <= i <= 48,
    ensures
        ({
            let size = ADPCM_STEP_TABLE@[i] as int;
            size * power(10, i) <= 16 * power(11, i) < (size + 1) * power(10, i)
        }),
{
    assert(power(11, 0) == 1int && power(10, 0) == 1int);
    assert(power(11, 1) == 11int && power(10, 1) == 10int);
    assert(power(11, 2) == 121int && power(10, 2) == 100int);
    assert(power(11, 3) == 1331int && power(10, 3) == 1000int);
    assert(power(11, 4) == 14641int && power(10, 4) == 10000int);
    assert(power(11, 5) == 161051int && power(10, 5) == 100000int);
    assert(power(11, 6) == 1771561int && power(10, 6) == 1000000int);
    assert(power(11, 7) == 19487171int && power(10, 7) == 10000000int);
    assert(power(11, 8) == 214358881int && power(10, 8) == 100000000int);
    assert(power(11, 9) == 2357947691int && power(10, 9) == 1000000000int);
    assert(power(11, 10) == 25937424601int && power(10, 10) == 10000000000int);
    assert(power(11, 11) == 285311670611int && power(10, 11) == 100000000000int);
    assert(power(11, 12) == 3138428376721int && power(10, 12) == 1000000000000int);
    assert(power(11, 13) == 34522712143931int && power(10, 13) == 10000000000000int);
    assert(power(11, 14) == 379749833583241int && power(10, 14) == 100000000000000int);
    assert(power(11, 15) == 4177248169415651int && power(10, 15) == 1000000000000000int);
    assert(power(11, 16) == 45949729863572161int && power(10, 16) == 10000000000000000int);
    assert(power(11, 17) == 505447028499293771int && power(10, 17) == 100000000000000000int);
    assert(power(11, 18) == 5559917313492231481int && power(10, 18) == 1000000000000000000int);
    assert(power(11, 19) == 61159090448414546291int && power(10, 19) == 10000000000000000000int);
    assert(power(11, 20) == 672749994932560009201int && power(10, 20) == 100000000000000000000int);
    assert(power(11, 21) == 7400249944258160101211int && power(10, 21) == 1000000000000000000000int);
    assert(power(11, 22) == 81402749386839761113321int && power(10, 22) == 10000000000000000000000int);
    assert(power(11, 23) == 895430243255237372246531int && power(10, 23) == 100000000000000000000000int);
    assert(power(11, 24) == 9849732675807611094711841int && power(10, 24) == 1000000000000000000000000int);
    assert(power(11, 25) == 108347059433883722041830251int && power(10, 25) == 10000000000000000000000000int);
    assert(power(11, 26) == 1191817653772720942460132761int && power(10, 26) == 100000000000000000000000000int);
    assert(power(11, 27) == 13109994191499930367061460371int && power(10, 27) == 1000000000000000000000000000int);
    assert(power(11, 28) == 144209936106499234037676064081int && power(10, 28) == 10000000000000000000000000000int);
    assert(power(11, 29) == 1586309297171491574414436704891int && power(10, 29) == 100000000000000000000000000000int);
    assert(power(11, 30) == 17449402268886407318558803753801int && power(10, 30) == 1000000000000000000000000000000int);
    assert(power(11, 31) == 191943424957750480504146841291811int && power(10, 31) == 10000000000000000000000000000000int);
    assert(power(11, 32) == 2111377674535255285545615254209921int && power(10, 32) == 100000000000000000000000000000000int);
    assert(power(11, 33) == 23225154419887808141001767796309131int && power(10, 33) == 1000000000000000000000000000000000int);
    assert(power(11, 34) == 255476698618765889551019445759400441int && power(10, 34) == 10000000000000000000000000000000000int);
    assert(power(11, 35) == 2810243684806424785061213903353404851int && power(10, 35) == 100000000000000000000000000000000000int);
    assert(power(11, 36) == 30912680532870672635673352936887453361int && power(10, 36) == 1000000000000000000000000000000000000int);
    assert(power(11, 37) == 340039485861577398992406882305761986971int && power(10, 37) == 10000000000000000000000000000000000000int);
    assert(power(11, 38) == 3740434344477351388916475705363381856681int && power(10, 38) == 100000000000000000000000000000000000000int);
    assert(power(11, 39) == 41144777789250865278081232758997200423491int && power(10, 39) == 1000000000000000000000000000000000000000int);
    assert(power(11, 40) == 452592555681759518058893560348969204658401int && power(10, 40) == 10000000000000000000000000000000000000000int);
    assert(power(11, 41) == 4978518112499354698647829163838661251242411int && power(10, 41) == 100000000000000000000000000000000000000000int);
    assert(power(11, 42) == 54763699237492901685126120802225273763666521int && power(10, 42) == 1000000000000000000000000000000000000000000int);
    assert(power(11, 43) == 602400691612421918536387328824478011400331731int && power(10, 43) == 10000000000000000000000000000000000000000000int);
    assert(power(11, 44) == 6626407607736641103900260617069258125403649041int && power(10, 44) == 100000000000000000000000000000000000000000000int);
    assert(power(11, 45) == 72890483685103052142902866787761839379440139451int && power(10, 45) == 1000000000000000000000000000000000000000000000int);
    assert(power(11, 46) == 801795320536133573571931534665380233173841533961int && power(10, 46) == 10000000000000000000000000000000000000000000000int);
    assert(power(11, 47) == 8819748525897469309291246881319182564912256873571int && power(10, 47) == 100000000000000000000000000000000000000000000000int);
    assert(power(11, 48) == 97017233784872162402203715694511008214034825609281int && power(10, 48) == 1000000000000000000000000000000000000000000000000int);
}

/// Bit 3 of a nibble is the sign: the changes coded by `n` and `n + 8` are opposite, and that of
/// `n` is an increase.
pub proof fn nibble_signs_are_opposite(step_size: int, n: int)
    requires
        0 <= n < 8,
    ensures
        delta(step_size, n + 8) == -delta(step_size, n),
        step_size >= 8 ==> delta(step_size, n) > 0,
{
}

/// A nibble `n` below 8 codes `2 * n + 1` eighths of the step size: exactly so where eight divides
/// it, and short of it by less than three otherwise.  A larger nibble codes a larger change.
pub proof fn nibble_counts_eighths(step_size: int, n: int)
    requires
        0 <= n < 8,
        step_size >= 8,
    ensures
        8 * delta(step_size, n) <= (2 * n + 1) * step_size < 8 * delta(step_size, n) + 24,
        step_size % 8 == 0 ==> 8 * delta(step_size, n) == (2 * n + 1) * step_size,
        n < 7 ==> delta(step_size, n) < delta(step_size, n + 1),
{
    assert((2 * n + 1) * step_size == 2 * (n * step_size) + step_size) by (nonlinear_arith);
    if n == 0 {
        assert(n * step_size == 0);
    } else if n == 1 {
        assert(n * step_size == step_size);
    } else if n == 2 {
        assert(n * step_size == 2 * step_size);
    } else if n == 3 {
        assert(n * step_size == 3 * step_size);
    } else if n == 4 {
        assert(n * step_size == 4 * step_size);
    } else if n == 5 {
        assert(n * step_size == 5 * step_size);
    } else if n == 6 {
        assert(n * step_size == 6 * step_size);
    } else {
        assert(n * step_size == 7 * step_size);
    }
}

/// A voice that decodes a nibble with bit 3 set does not rise, and one with it clear does not
/// fall; away from the ends of the twelve-bit range it moves strictly, and by the same amount up
/// or down.
pub proof fn signal_follows_the_sign(v: OkiVoice, n: int)
    requires
        v.wf(),
        0 <= n < 8,
    ensures
        ({
            let (up, down) = (decoded(v, n).signal, decoded(v, n + 8).signal);
            &&& v.signal <= up <= 2047
            &&& -2048 <= down <= v.signal
            &&& v.signal < 2047 ==> v.signal < up
            &&& v.signal > -2048 ==> down < v.signal
            &&& up < 2047 && down > -2048 ==> up - v.signal == v.signal - down
            &&& up < 2047 ==> up == v.signal + delta(ADPCM_STEP_TABLE@[v.step as int] as int, n)
            &&& up == 2047 ==> v.signal + delta(ADPCM_STEP_TABLE@[v.step as int] as int, n) >= 2047
            &&& down == -2048 ==> v.signal - delta(ADPCM_STEP_TABLE@[v.step as int] as int, n) <= -2048
        }),
{
    let size = ADPCM_STEP_TABLE@[v.step as int] as int;
    assert(size >= 16);
    nibble_signs_are_opposite(size, n);
}

/// Small nibbles, whatever their sign, bring the step size down by one place, larger ones up by
/// two, four, six or eight; it stays among the 49 sizes.  Nothing else of the voice changes.
pub proof fn step_follows_the_size(v: OkiVoice, n: int, sign: int)
    requires
        v.wf(),
        0 <= n < 8,
        sign == 0 || sign == 8,
    ensures
        ({
            let w = decoded(v, n + sign);
            let up = if n == 4 { 2int } else if n == 5 { 4 } else if n == 6 { 6 } else { 8 };
            &&& n < 4 && v.step > 0 ==> w.step == v.step - 1
            &&& n < 4 && v.step == 0 ==> w.step == 0
            &&& n >= 4 && v.step + up <= 48 ==> w.step == v.step + up
            &&& n >= 4 && v.step + up > 48 ==> w.step == 48
            &&& w == (OkiVoiceSnap { signal: w.signal, step: w.step, ..v })
        }),
{
}

/// The two nibbles of a byte are played high one first.
pub proof fn nibbles_are_played_high_first(rom: Seq<u8>, k: int)
    requires
        0 <= k < rom.len(),
    ensures
        nibble_at(rom, 2 * k) * 16 + nibble_at(rom, 2 * k + 1) == rom[k],
        0 <= nibble_at(rom, 2 * k) < 16,
        0 <= nibble_at(rom, 2 * k + 1) < 16,
{
}

/// Volume falls with each step of attenuation, down to an eighth.
pub proof fn attenuation_lowers_volume(a: int)
    requires
        0 <= a < 16,
    ensures
        a < 8 ==> volume_of(a) == seq![32i32, 27, 22, 18, 14, 11, 8, 6][a],
        a >= 8 ==> volume_of(a) == 4,
        a < 8 ==> volume_of(a + 1) < volume_of(a),
{
}

/// A byte with the bits `b4` to `b7` above an attenuation selects the first voice by `b4`, the
/// second by `b5`, the third by `b6` and the fourth by `b7`.
pub proof fn high_bits_select_voices(data: u8, b4: bool, b5: bool, b6: bool, b7: bool, a: int)
    requires
        0 <= a < 16,
        data == a + (if b4 { 16int } else { 0 }) + (if b5 { 32int } else { 0 }) + (if b6 { 64int } else { 0 }) + (
        if b7 { 128int } else { 0 }),
    ensures
        OkiView::selects(data, 0) == b4,
        OkiView::selects(data, 1) == b5,
        OkiView::selects(data, 2) == b6,
        OkiView::selects(data, 3) == b7,
        data % 16 == a,
{
}

/// A phrase is found by the eight bytes of its entry: three for where it starts, three for where
/// it ends, high byte first, two nibbles to the byte.
pub proof fn phrase_entry_holds_start_and_end(o: OkiView, attenuation: int)
    requires
        o.wf(),
        o.command >= 0,
        8 * o.command + 5 < o.rom.len(),
    ensures
        ({
            let e = 8 * o.command;
            let v = o.started(attenuation);
            &&& v.position == 2 * (o.rom[e] * 0x1_0000 + o.rom[e + 1] * 0x100 + o.rom[e + 2])
            &&& v.stop == 2 * (o.rom[e + 3] * 0x1_0000 + o.rom[e + 4] * 0x100 + o.rom[e + 5])
            &&& v.playing == (v.position < v.stop)
            &&& v.signal == 0
            &&& v.step == 0
            &&& v.phase == 0
        }),
{
    assert(rom_address(o.rom, o.command * 8) == o.rom[8 * o.command] * 0x1_0000 + o.rom[8 * o.command + 1] * 0x100
        + o.rom[8 * o.command + 2]);
}

/// With nothing armed, a byte below 128 silences the voices it selects and leaves the others; one
/// of 128 or more changes no voice.
pub proof fn unarmed_byte_silences_selected_voices(o: OkiView, data: u8, k: int)
    requires
        o.wf(),
        o.command == -1,
        0 <= k < 4,
    ensures
        ({
            let p = o.commanded(data);
            &&& data < 128 ==> p.command == -1
            &&& data < 128 && OkiView::selects(data, k) ==> !p.voices[k].playing
            &&& data >= 128 || !OkiView::selects(data, k) ==> p.voices[k] == o.voices[k]
            &&& p.rom == o.rom
            &&& p.rate == o.rate
            &&& p.ring == o.ring
        }),
{
}

/// A voice `n` output samples later.
pub open spec fn voice_later(rom: Seq<u8>, rate: u32, v: OkiVoice, n: int) -> OkiVoice
    decreases n,
{
    if n <= 0 { v } else { voice_after(rom, rate, voice_later(rom, rate, v, n - 1)) }
}

/// A voice takes `rate` nibbles in 44100 output samples, evenly: after `n` samples, as many as
/// have gone into its phase.
pub proof fn voice_keeps_its_rate(rom: Seq<u8>, rate: u32, v: OkiVoice, n: int)
    requires
        v.playing,
        v.phase < 44100,
        rate <= 44100,
        n >= 0,
        v.position + n < v.stop,
    ensures
        ({
            let w = voice_later(rom, rate, v, n);
            &&& w.playing
            &&& w.stop == v.stop
            &&& w.volume == v.volume
            &&& w.position <= v.position + n
            &&& w.phase < 44100
            &&& 44100 * (w.position - v.position) + w.phase == v.phase + n * rate
        }),
    decreases n,
{
    if n > 0 {
        voice_keeps_its_rate(rom, rate, v, n - 1);
        assert(n * rate == (n - 1) * rate + rate) by (nonlinear_arith);
    }
}

/// A voice stops at the end of its phrase, is silent from then on, and is heard as its signal
/// times its volume as long as it plays.
pub proof fn voice_stops_at_its_end(rom: Seq<u8>, rate: u32, v: OkiVoice)
    ensures
        v.playing && v.position >= v.stop && v.phase + rate >= 44100 ==> !voice_after(rom, rate, v).playing,
        v.playing && v.position < v.stop ==> voice_after(rom, rate, v).playing,
        !v.playing ==> voice_after(rom, rate, v) == v && voice_output(rom, rate, v) == 0,
        v.playing && v.phase + rate < 44100 ==> voice_output(rom, rate, v) == v.signal * v.volume,
{
}

/// The voices are added up: to silence one of them takes away what it plays, and silence is all
/// that is left without voices.
pub proof fn voices_are_added_up(o: OkiView, k: int)
    requires
        o.wf(),
        0 <= k < 4,
    ensures
        ({
            let muted = OkiVoiceSnap { playing: false, ..o.voices[k] };
            let rest = OkiView { voices: o.voices.update(k, muted), ..o };
            let after = voice_after(o.rom, o.rate, o.voices[k]);
            &&& o.voices[k].playing ==> o.sample() == rest.sample() + after.signal * after.volume
            &&& !o.voices[k].playing ==> o.sample() == rest.sample()
        }),
        !o.voices[0].playing && !o.voices[1].playing && !o.voices[2].playing && !o.voices[3].playing ==> o.sample()
            == 0,
{
}

/// Output waits in order, newest last; of more than 11760 samples the oldest goes.
pub proof fn output_waits_in_order(o: OkiView, s: i32)
    ensures
        o.ring.len() < 11760 ==> o.with_output(s).ring == o.ring.push(s),
        o.ring.len() >= 11760 ==> o.with_output(s).ring.len() == o.ring.len(),
        o.ring.len() >= 11760 ==> o.with_output(s).ring.last() == s,
        o.ring.len() >= 11760 ==> forall|i: int|
            0 <= i < o.ring.len() - 1 ==> #[trigger] o.with_output(s).ring[i] == o.ring[i + 1],
{
}

/// An output sample moves all four voices on, each by itself.
pub proof fn voices_move_on_together(o: OkiView, k: int)
    requires
        o.wf(),
        0 <= k < 4,
    ensures
        o.stepped().voices.len() == 4,
        o.stepped().voices[k] == voice_after(o.rom, o.rate, o.voices[k]),
        o.stepped() == (OkiView { voices: o.stepped().voices, ..o }),
        o.advanced(1).ring.last() == o.sample() as i32,
        o.advanced(1).voices == o.stepped().voices,
{
    reveal_with_fuel(OkiView::advanced, 2);
}

} // verus!
