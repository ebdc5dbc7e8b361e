use emufight::boot::{
    boot_search, default_capture_path, initial_match_state_paths, path_join, BootSearch,
};
use emufight::capture::{default_platform, ppm_picture, recipe, Recipe};
use emufight::cli::{parse_number, Args, Mode};
use emufight::io::InputState;
use emufight::keys::{is_six_button, Key, Keys};

fn args(words: &[&str]) -> Result<Args, String> {
    let argv: Vec<String> = words.iter().map(|w| w.to_string()).collect();
    let is_addr: Vec<bool> = words.iter().map(|w| w.contains(':')).collect();
    Args::parse(&argv, &is_addr)
}

#[test]
fn command_lines_are_read() {
    let a = args(&["kof98"]).unwrap_or_else(|e| panic!("{e}"));
    assert_eq!((a.rom.as_str(), a.input_delay, a.scale), ("kof98", 2, 2));
    assert!(matches!(a.mode(), Mode::Offline));

    let a = args(&["--listen", "0.0.0.0:7000", "--scale", "0", "sf2", "--input-delay", "+3"])
        .unwrap_or_else(|e| panic!("{e}"));
    assert_eq!((a.input_delay, a.scale), (3, 1));
    match a.mode() {
        Mode::Host { bind } => assert_eq!(bind, "0.0.0.0:7000"),
        _ => panic!("not hosting"),
    }

    let a = args(&["--connect", "10.0.0.1:7000", "sf2"]).unwrap_or_else(|e| panic!("{e}"));
    match a.mode() {
        Mode::Join { bind, host } => {
            assert_eq!(bind, "0.0.0.0:0");
            assert_eq!(host, "10.0.0.1:7000");
        }
        _ => panic!("not joining"),
    }
}

#[test]
fn bad_command_lines_are_refused() {
    let err = |words: &[&str]| args(words).err().unwrap();
    assert_eq!(err(&[]), "missing <rom-name>");
    assert_eq!(err(&["a", "b"]), "multiple ROM names");
    assert_eq!(err(&["--listen"]), "--listen needs ADDR");
    assert_eq!(err(&["--connect"]), "--connect needs ADDR");
    assert_eq!(err(&["--listen", "here"]), "invalid address 'here' (expected host:port)");
    assert_eq!(err(&["--input-delay"]), "--input-delay needs N");
    assert_eq!(err(&["--input-delay", "x"]), "bad --input-delay");
    assert_eq!(err(&["--scale"]), "--scale needs N");
    assert_eq!(err(&["--scale", "-1"]), "bad --scale");
    assert_eq!(err(&["--fast"]), "unknown option: --fast");
    assert_eq!(err(&["--help", "--fast"]), Args::usage());
}

#[test]
fn numbers_have_32_bits() {
    assert_eq!(parse_number("4294967295"), Some(u32::MAX));
    assert_eq!(parse_number("4294967296"), None);
    assert_eq!(parse_number("+0007"), Some(7));
    assert_eq!(parse_number("+"), None);
    assert_eq!(parse_number(""), None);
    assert_eq!(parse_number("1 "), None);
}

#[test]
fn keys_make_input() {
    let mut keys = Keys::default();
    assert_eq!(keys.input_state(), InputState::default());
    keys.set_key(false, Key::W, true);
    keys.set_key(false, Key::I, true);
    keys.set_key(false, Key::Num1, true);
    keys.set_key(false, Key::Num5, true);
    let held = keys.input_state();
    assert_eq!(held.p1, 0xFF & !0x01 & !0x10);
    assert_eq!(held.sys & 0x01, 0);
    assert_eq!(held.coin & 0x01, 0);
    for k in [Key::W, Key::I, Key::Num1, Key::Num5] {
        keys.set_key(false, k, false);
    }
    assert_eq!(keys.input_state(), InputState::default());
}

#[test]
fn six_button_games_use_their_own_layout() {
    assert!(!is_six_button("kof98") && is_six_button("sf2"));
    let mut six = Keys::default();
    six.set_key(true, Key::L, true);
    assert_eq!(six.input_state().ext & 0x02, 0);
    let mut four = Keys::default();
    four.set_key(false, Key::L, true);
    assert_eq!(four.input_state(), InputState::default());
    // O is the third button of four and the second of six.
    four.set_key(false, Key::O, true);
    assert_eq!(four.input_state().p1, 0xBF);
    let mut six = Keys::default();
    six.set_key(true, Key::O, true);
    assert_eq!(six.input_state().p1, 0xDF);
}

#[test]
fn boot_states_have_three_places() {
    assert_eq!(
        initial_match_state_paths("kof98"),
        vec!["boot/kof98/charselect.bin", "data/kof98/charselect.bin", "roms/kof98/charselect.bin"]
    );
    assert_eq!(default_capture_path("kof98"), "boot/kof98/charselect.bin");
    assert_eq!(path_join("a/", "b"), "a/b");
    assert_eq!(path_join("a", "/b"), "/b");
    assert_eq!(path_join("", "b"), "b");
}

#[test]
fn recipes_follow_the_game() {
    assert_eq!(default_platform("sf2ce"), "cps1");
    assert_eq!(default_platform("kof98"), "neogeo");
    assert_eq!(default_platform("sf"), "neogeo");
    assert_eq!(recipe("cps1", "sf2"), Recipe::Cps);
    assert_eq!(recipe("neogeo", "kof98"), Recipe::Kof98);
    assert_eq!(recipe("neogeo", "mslug"), Recipe::Generic);
    assert_eq!(Recipe::Kof98.frame_count(), 2313);
    assert_eq!(Recipe::Kof98.input_at(500).coin, 0x3C);
    assert_eq!(Recipe::Kof98.input_at(550).sys, 0xFB);
    assert_eq!(Recipe::Kof98.input_at(2300).p1, 0xEF);
    assert_eq!(Recipe::Kof98.input_at(2312), InputState::default());
    assert_eq!(Recipe::Cps.input_at(305).coin, 0xFE);
    assert_eq!(Recipe::Cps.input_at(320).coin, 0xFD);
    assert_eq!(Recipe::Cps.input_at(605).sys, 0xFB);
    assert_eq!(Recipe::Cps.input_at(606).sys, 0xFF);
    assert_eq!(Recipe::Cps.samples_per_frame(), 0);
    assert_eq!(Recipe::Generic.samples_per_frame(), 735);
}

#[test]
fn pictures_have_a_header() {
    let fb: Vec<u8> = (0..384 * 224 * 3).map(|i| i as u8).collect();
    let ppm = ppm_picture(&fb);
    assert_eq!(&ppm[..15], b"P6\n384 224\n255\n");
    assert_eq!(&ppm[15..], &fb[..]);
}

#[test]
fn the_first_boot_state_that_loads_wins() {
    let search = |outcomes: &[bool]| {
        let (mut tried, mut loaded) = (0, false);
        loop {
            match boot_search(outcomes.len(), tried, loaded) {
                BootSearch::Try(i) => {
                    loaded = outcomes[i];
                    tried = i + 1;
                }
                end => return (tried, end),
            }
        }
    };
    assert_eq!(search(&[false, true, true]), (2, BootSearch::Found));
    assert_eq!(search(&[false, false]), (2, BootSearch::Exhausted));
    assert_eq!(search(&[]), (0, BootSearch::Exhausted));
}
