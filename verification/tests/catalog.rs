use emufight::catalog::RomCatalog;
use emufight::cps::machine::CpsEmulator;
use emufight::io::InputState;
use emufight::platform::{
    create_emulator, create_emulator_for_platform, parse_platform, LoadStep, Machine, Platform,
    RomSource,
};
use emufight::rom_files::RomFile;
use emufight::romset::{collect_deps, fetch_step, load_plan, missing_dependency, FetchStep};

const CATALOG: &str = r#"{
    "kof97": { "download": "https://example.com/kof97.zip", "require": ["neogeo", 7, "extra"] },
    "neogeo": { "platform": "neogeo" },
    "sf2ce": { "platform": "CPS1", "require": "neogeo" },
    "loop": { "require": ["loop", "kof97"] },
    "plain": 3
}"#;

fn catalog() -> RomCatalog {
    RomCatalog::parse(CATALOG).unwrap_or_else(|e| panic!("{e}"))
}

#[test]
fn catalog_entries_are_read() {
    let c = catalog();
    assert_eq!(c.entries().len(), 5);
    assert!(c.contains("kof97") && !c.contains("KOF97"));
    assert_eq!(c.platform_for("neogeo"), Some("neogeo"));
    assert_eq!(c.platform_for("kof97"), None);
    assert_eq!(c.platform_for("missing"), None);
    let kof = c.entry("kof97").unwrap();
    assert_eq!(kof.download.as_deref(), Some("https://example.com/kof97.zip"));
    assert_eq!(kof.require, vec!["neogeo", "extra"]);
    // A requirement that is no list counts as none.
    assert!(c.entry("sf2ce").unwrap().require.is_empty());
    assert!(c.entry("plain").unwrap().download.is_none());
}

#[test]
fn broken_catalogs_are_refused() {
    let e = RomCatalog::parse("{").err().unwrap();
    assert!(e.starts_with("cannot parse ROM catalog JSON: "), "{e}");
    let e = RomCatalog::parse("[1]").err().unwrap();
    assert_eq!(e, "ROM catalog root must be a JSON object");
    let e = RomCatalog::from_value(&serde_json::Value::Null).err().unwrap();
    assert_eq!(e, "ROM catalog root must be a JSON object");
}

#[test]
fn catalogs_come_from_values_too() {
    let mut entry = serde_json::Map::new();
    entry.insert("platform".to_string(), serde_json::Value::String("cps1".to_string()));
    let mut root = serde_json::Map::new();
    root.insert("sf2".to_string(), serde_json::Value::Object(entry));
    let c = RomCatalog::from_value(&serde_json::Value::Object(root)).unwrap_or_else(|e| panic!("{e}"));
    assert_eq!(c.platform_for("sf2"), Some("cps1"));
}

#[test]
fn dependencies_come_first() {
    let c = catalog();
    assert_eq!(collect_deps("kof97", c.entries()), vec!["neogeo", "extra", "kof97"]);
    assert_eq!(collect_deps("loop", c.entries()), vec!["neogeo", "extra", "kof97", "loop"]);
    let plan = load_plan(&c, "kof97").unwrap_or_else(|e| panic!("{e}"));
    let listed: Vec<(&str, bool)> = plan.iter().map(|p| (p.name.as_str(), p.listed)).collect();
    assert_eq!(listed, vec![("neogeo", true), ("extra", false), ("kof97", true)]);
    assert_eq!(plan[2].download.as_deref(), Some("https://example.com/kof97.zip"));
    assert_eq!(
        load_plan(&c, "kof95").err().unwrap(),
        "'kof95' not found in ROM catalog (check spelling)"
    );
    assert_eq!(missing_dependency("extra"), "dependency 'extra' not found in ROM catalog");
    assert!(matches!(fetch_step(&plan[0], false), FetchStep::OnDisk));
    assert!(matches!(fetch_step(&plan[0], true), FetchStep::Cached));
    match fetch_step(&plan[1], false) {
        FetchStep::Missing(m) => assert_eq!(m, missing_dependency("extra")),
        _ => panic!("extra is not listed"),
    }
    match fetch_step(&plan[2], false) {
        FetchStep::Fetch(u) => assert_eq!(u, "https://example.com/kof97.zip"),
        _ => panic!("kof97 can be fetched"),
    }
}

#[test]
fn platform_ids_ignore_case() {
    for id in ["cps1", "CPS", "Cps1"] {
        assert!(parse_platform(id) == Ok(Platform::Cps1), "{id}");
    }
    for id in ["neogeo", "NEO", "mvs", "Aes"] {
        assert!(parse_platform(id) == Ok(Platform::NeoGeo), "{id}");
    }
    assert_eq!(
        parse_platform("SNES").err().unwrap(),
        "unknown platform 'snes': expected \"neogeo\" or \"cps1\""
    );
}

#[test]
fn catalog_picks_the_machine() {
    let c = catalog();
    assert!(matches!(create_emulator("sf2ce", &c), Ok(Machine::Cps1(_))));
    assert!(matches!(create_emulator("kof97", &c), Ok(Machine::NeoGeo(_))));
    let odd = RomCatalog::parse(r#"{"x": {"platform": "snes"}}"#).unwrap_or_else(|e| panic!("{e}"));
    assert!(create_emulator("x", &odd).is_err());
}

#[test]
fn product_cores_implement_rom_source_files() {
    // An empty set fails with an error about its content, never "not supported".
    let empty: Vec<RomFile> = Vec::new();
    for (platform, game) in [("neogeo", "kof98"), ("cps1", "sf2ce")] {
        let mut emu = create_emulator_for_platform(platform).unwrap_or_else(|e| panic!("{e}"));
        let err = match emu.load_roms(&RomSource::files(game, &empty)) {
            Ok(_) => panic!("empty map should fail"),
            Err(e) => e,
        };
        assert!(
            !err.to_ascii_lowercase().contains("not supported"),
            "{platform}: unexpected not-supported: {err}"
        );
    }

    // Files that hold the program load on both.
    let neogeo = vec![RomFile { name: "x-p1.p1".to_string(), data: vec![0; 0x200] }];
    let cps1: Vec<RomFile> = [
        "s92e_23b.8f", "s92_22b.7f", "s92_21a.6f", "s92-1m.3a", "s92-3m.5a", "s92-2m.4a",
        "s92-4m.6a", "s92-5m.7a", "s92-7m.9a", "s92-6m.8a", "s92-8m.10a", "s92-10m.3c",
        "s92-12m.5c", "s92-11m.4c", "s92-13m.6c", "s92_09.11a", "s92_18.11c", "s92_19.12c",
    ]
    .iter()
    .map(|n| RomFile { name: n.to_string(), data: vec![0x5A; 0x100] })
    .collect();
    for (platform, game, files) in [("neogeo", "kof98", &neogeo), ("cps1", "sf2ce", &cps1)] {
        let mut emu = create_emulator_for_platform(platform).unwrap_or_else(|e| panic!("{e}"));
        match emu.load_roms(&RomSource::files(game, files)) {
            Ok(LoadStep::Loaded) => {}
            Ok(LoadStep::ReadDirectory(d)) => panic!("{d}"),
            Err(e) => panic!("{platform}/{game} Files load: {e}"),
        }
    }
}

#[test]
fn disk_sources_name_a_directory() {
    for platform in ["neogeo", "cps1"] {
        let mut emu = create_emulator_for_platform(platform).unwrap_or_else(|e| panic!("{e}"));
        match emu.load_roms(&RomSource::disk("kof98")) {
            Ok(LoadStep::ReadDirectory(d)) => assert_eq!(d, "roms/kof98"),
            _ => panic!("{platform}"),
        }
    }
}

#[test]
fn idle_is_the_default_input() {
    let idle = InputState::default();
    assert_eq!((idle.p1, idle.p2, idle.sys, idle.ext), (0xFF, 0xFF, 0xFF, 0x0F));
}

#[test]
fn unknown_platforms_are_named_in_lower_case() {
    let err = parse_platform("ABCDEFGHIJKLMNOPQRSTUVWXYZ@[`{09 ÄÖ\u{3000}x").err().unwrap();
    assert_eq!(
        err,
        "unknown platform 'abcdefghijklmnopqrstuvwxyz@[`{09 ÄÖ\u{3000}x': expected \"neogeo\" or \"cps1\""
    );
    assert!(matches!(parse_platform("CpS1"), Ok(Platform::Cps1)));
}

#[test]
fn a_new_cps_machine_is_blank() {
    for m in [CpsEmulator::new(), CpsEmulator::default()] {
        assert!(m.framebuffer().iter().all(|b| *b == 0));
        assert!(m.work_ram().iter().all(|b| *b == 0));
        assert_eq!((m.frame(), m.audio_sample_count()), (0, 0));
        assert_eq!(m.bus.game().name, "sf2");
    }
    match create_emulator_for_platform("cps") {
        Ok(Machine::Cps1(m)) => assert!(m.framebuffer().iter().all(|b| *b == 0)),
        _ => panic!("cps is a platform"),
    }
}
