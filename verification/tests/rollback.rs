use emufight::io::{combine_ext, pack_input, unpack_input, InputState};
use emufight::neogeo::cart::{cart_for, Cartridge};
use emufight::neogeo::machine::Emulator;
use emufight::netplay::spectator::{OnlineSpectatorSession, SeekAction, SeekProgress};
use emufight::save_state::{M68kSnapshot, SaveState};

const FRAME_45_AT: usize = 44;

fn charselect_input(frame: usize) -> InputState {
    let mut inp = InputState::default();
    let f = frame as u8;
    if f % 7 == 0 { inp.p1 &= !0x10; }
    if f % 11 == 0 { inp.p1 &= !0x20; }
    if f % 13 == 0 { inp.p1 &= !0x40; }
    if f % 17 == 0 { inp.p1 &= !0x80; }
    if f % 5 == 0 { inp.p1 &= !0x01; }
    if f % 6 == 0 { inp.p1 &= !0x02; }
    if f % 9 == 0 { inp.p2 &= !0x10; }
    if f % 14 == 0 { inp.p2 &= !0x20; }
    if f % 19 == 0 { inp.p2 &= !0x40; }
    if frame == 0 || frame == 1 {
        inp.coin &= !0x01;
        inp.coin &= !0x02;
    }
    if frame == 2 || frame == 3 {
        inp.sys &= !0x01;
        inp.sys &= !0x04;
    }
    inp
}

fn registers() -> M68kSnapshot {
    M68kSnapshot {
        dar: [0; 16],
        dar_save: [0; 16],
        sr_save: 0,
        ppc: 0,
        pc: 0xC00402,
        sp: [0; 8],
        vbr: 0,
        sfc: 0,
        dfc: 0,
        cacr: 0,
        caar: 0,
        ir: 0,
        t1_flag: 0,
        t0_flag: 0,
        s_flag: 4,
        m_flag: 0,
        x_flag: 0,
        n_flag: 0,
        not_z_flag: 0,
        v_flag: 0,
        c_flag: 0,
        int_mask: 0x0700,
        int_level: 0,
        stopped: 0,
        cycles_remaining: 0,
        initial_cycles: 0,
        change_of_flow: false,
        pref_addr: 0,
        pref_data: 0,
        instr_mode: 0,
        run_mode: 0,
        exception_processing: false,
        virq_state: 0,
        nmi_pending: 0,
    }
}

/// Everything that a state holds, for comparison.
fn flat(s: &SaveState) -> Vec<u8> {
    let mut v = s.version.as_bytes().to_vec();
    v.extend(s.frame.to_le_bytes());
    v.extend(s.m68k.pc.to_le_bytes());
    v.extend(&s.z80.cpu_bytes);
    v.extend(&s.z80.wram);
    v.extend(s.z80.cycle_target.to_le_bytes());
    v.extend(s.z80.subcycle.to_le_bytes());
    v.push(s.z80.active_m1_rom);
    v.extend(&s.bus.work_ram);
    v.extend(&s.bus.backup_ram);
    v.extend(&s.bus.mem_card);
    v.extend(&s.bus.lspc.vram);
    v.extend(&s.bus.lspc.pal_ram);
    v.extend(s.bus.lspc.beam_cycles.to_le_bytes());
    v.extend([s.bus.lspc.pending_irq, s.bus.lspc.auto_anim_frame, s.bus.lspc.auto_anim_timer]);
    v.extend(s.bus.rtc.sec_count.to_le_bytes());
    v.extend(s.bus.rtc.tp_count.to_le_bytes());
    v.extend([s.bus.sound_cmd, s.bus.sound_reply, s.bus.sound_status, s.bus.hw_dips]);
    v.extend(&s.bus.cart_state);
    v.extend([s.bus.input.p1, s.bus.input.p2, s.bus.input.sys, s.bus.input.coin, s.bus.input.ext]);
    v.extend(&s.ym2610);
    v
}

/// One frame of the board, with a program that stores what it reads from the controls.
fn step(emu: &mut Emulator) {
    emu.begin_frame();
    run(emu, 170_000);
    emu.vblank();
    run(emu, 30_000);
    emu.render();
}

fn run(emu: &mut Emulator, cycles: i32) {
    let mut rem = cycles;
    while let Some(batch) = emu.timing.next_batch(rem) {
        let at = 0x100000 + (rem as u32 & 0xFFFE);
        let seen = emu.bus.read_16(0x300000) ^ emu.bus.read_16(at);
        emu.bus.write_16(at, seen.wrapping_add(rem as u16));
        rem = emu.timing.after_batch(&mut emu.bus, rem, batch);
        let _ = emu.sound.begin_slice(batch as usize, &mut emu.bus);
    }
}

fn booted() -> Emulator {
    let mut emu = Emulator::new();
    emu.bus.cart = cart_for("kof98");
    emu.bus.roms.bios_rom = vec![0xFF; 0x80000];
    emu.reset();
    emu
}

fn save(emu: &Emulator) -> SaveState {
    emu.build_save_state(registers(), vec![1, 2, 3], vec![4, 5])
}

fn restored(checkpoint: SaveState) -> Emulator {
    let mut emu = booted();
    let core = emu.apply_save_state(checkpoint);
    assert!(core.version_matches);
    assert_eq!(core.z80_cpu, vec![1, 2, 3]);
    assert_eq!(core.ym2610, vec![4, 5]);
    emu
}

fn assert_single_frame_rollback(at: usize, inputs: &[InputState]) {
    let mut runner = booted();
    for f in 0..at {
        runner.set_input(inputs[f]);
        step(&mut runner);
    }
    let first = save(&runner);
    let second = save(&runner);
    let step_input = inputs[at];
    drop(runner);

    let mut expected = restored(first);
    expected.set_input(step_input);
    step(&mut expected);
    let expected_bytes = flat(&save(&expected));
    drop(expected);

    let mut replay = restored(second);
    replay.set_input(step_input);
    step(&mut replay);
    assert_eq!(
        flat(&save(&replay)),
        expected_bytes,
        "rollback desync at frame {} -> {}",
        at,
        at + 1
    );
}

#[test]
fn charselect_frame45_rollback_regression() {
    let inputs: Vec<InputState> = (0..=FRAME_45_AT + 1).map(charselect_input).collect();
    assert_single_frame_rollback(FRAME_45_AT, &inputs);
}

#[test]
fn kof98_cart_initial_match_state_is_optional() {
    let cart = cart_for("kof98");
    // The core holds no boot state; a host may inject one.
    assert!(cart.handler.initial_match_state().is_none());
}

#[test]
fn a_restored_machine_goes_on_as_the_saved_one() {
    let mut emu = booted();
    for f in 0..5 {
        emu.set_input(charselect_input(f));
        step(&mut emu);
    }
    let mut other = restored(save(&emu));
    assert_eq!(other.frame(), 5);
    for f in 5..8 {
        emu.set_input(charselect_input(f));
        step(&mut emu);
        other.set_input(charselect_input(f));
        step(&mut other);
    }
    assert_eq!(flat(&save(&emu)), flat(&save(&other)));
    assert_eq!(emu.framebuffer(), other.framebuffer());
}

#[test]
fn a_foreign_version_is_reported() {
    let emu = booted();
    let mut state = save(&emu);
    assert_eq!(state.version, "neo-3.5");
    state.version = String::from("neo-3.4");
    let mut other = booted();
    assert!(!other.apply_save_state(state).version_matches);
}

#[test]
fn end_to_end_replay_is_perfectly_deterministic() {
    const FRAMES: usize = 40;
    let mut emu = booted();
    let boot = save(&emu);
    let mut recorded_states = Vec::new();
    let mut replay_log: Vec<u8> = Vec::new();
    let mut recorded_inputs = Vec::new();

    // Record
    for f in 0..FRAMES {
        let mut p0 = InputState::default();
        if f % 2 == 0 {
            p0.p1 &= !0x10;
        }
        let mut p1 = InputState::default();
        if f % 3 == 0 {
            p1.p1 &= !0x20;
        }
        let mut combined_sys = p0.sys;
        if (p1.sys & 0x01) == 0 { combined_sys &= !0x04u8; }
        let mut combined_coin = p0.coin;
        if (p1.coin & 0x01) == 0 { combined_coin &= !0x02u8; }
        let combined = InputState {
            p1: p0.p1,
            p2: p1.p1,
            sys: combined_sys,
            coin: combined_coin,
            ext: combine_ext(p0.ext, p1.ext),
        };
        recorded_inputs.push(combined);
        emu.set_input(combined);
        step(&mut emu);
        replay_log.extend_from_slice(&pack_input(&p0).to_le_bytes());
        replay_log.extend_from_slice(&pack_input(&p1).to_le_bytes());
        recorded_states.push(flat(&save(&emu)));
    }

    // Play back
    let mut session = OnlineSpectatorSession::new(vec![0]);
    session.push_inputs(&replay_log);
    let mut replay_emu = restored(boot);
    for f in 0..FRAMES {
        let p0_state = unpack_input(session.log[f].0);
        let p1_state = unpack_input(session.log[f].1);
        assert_eq!(p0_state.p1, recorded_inputs[f].p1, "Input p1 mismatch at frame {}", f);
        assert_eq!(p1_state.p1, recorded_inputs[f].p2, "Input p2 mismatch at frame {}", f);

        let input = session.advance().unwrap();
        assert_eq!(input.p1, recorded_inputs[f].p1);
        assert_eq!(input.p2, recorded_inputs[f].p2);
        assert_eq!(input.sys, recorded_inputs[f].sys, "Input sys mismatch at frame {}", f);
        assert_eq!(input.coin, recorded_inputs[f].coin, "Input coin mismatch at frame {}", f);
        assert_eq!(input.ext, recorded_inputs[f].ext, "Input ext mismatch at frame {}", f);

        replay_emu.set_input(input);
        step(&mut replay_emu);
        assert_eq!(flat(&save(&replay_emu)), recorded_states[f], "Mismatch at frame {}", f);
    }

    // Seek back
    let seek_frame = 10;
    let mut fresh = rebooted();
    let mut steps = 0;
    loop {
        match session.seek_progress(seek_frame, steps, 1000, false) {
            SeekAction::Restore { max_cursor, target } => {
                assert_eq!((max_cursor, target), (9, 10));
                let anchors = session.anchors(max_cursor);
                assert_eq!(anchors[anchors.len() - 1].cursor, 0);
                assert!(session.anchor_restored(Some(0)));
                fresh = rebooted();
            }
            SeekAction::Headless(input) => {
                fresh.set_input(input);
                step(&mut fresh);
                steps += 1;
            }
            SeekAction::Visible(input) => {
                fresh.set_input(input);
                step(&mut fresh);
                break;
            }
            SeekAction::Report(p) => panic!("{p:?}"),
        }
    }
    assert_eq!(steps, 9);
    let cs = flat(&save(&fresh));
    assert_eq!(cs, recorded_states[seek_frame as usize - 1], "Mismatch at seek frame {}", seek_frame);
    assert_eq!(
        session.seek_progress(seek_frame, 0, 1, false),
        SeekAction::Report(SeekProgress::Done { cursor: 10 })
    );
}

fn rebooted() -> Emulator {
    restored(save(&booted()))
}
