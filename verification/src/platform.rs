//! Which core a platform id stands for, and loading ROMs into it.

use crate::boot::{joined, path_join};
use crate::catalog::{entry_at, opt_str, CatalogEntry, RomCatalog};
use crate::cps::config::{is_sf2, is_sf2ce};
use crate::cps::machine::{load_failure, CpsEmulator, CpsView};
use crate::cps::romset::files_fit;
use crate::neogeo::machine::{Emulator, EmulatorView};
use crate::neogeo::memory_load::{
    bus_with_files, bus_with_game, empty_files_text, load_roms_from_memory, no_program_text,
    p_rom_from_files, samples_from_files,
};
use crate::rom_files::RomFile;
use crate::text::{ascii_lowered, str_eq, to_ascii_lower};
use vstd::prelude::*;

verus! {

/// A core.
#[derive(Clone, Copy, PartialEq, Eq, Structural)]
pub enum Platform {
    NeoGeo,
    Cps1,
}

/// The core of a platform id, whatever the case of its letters; there is no default.
pub open spec fn platform_named(id: Seq<char>) -> Option<Platform> {
    let lower = ascii_lowered(id);
    if lower == "cps1"@ || lower == "cps"@ {
        Some(Platform::Cps1)
    } else if lower == "neogeo"@ || lower == "neo"@ || lower == "mvs"@ || lower == "aes"@ {
        Some(Platform::NeoGeo)
    } else {
        None
    }
}

/// The answer to an unknown platform id.
pub open spec fn unknown_platform_text(id: Seq<char>) -> Seq<char> {
    "unknown platform '"@ + ascii_lowered(id) + "': expected \"neogeo\" or \"cps1\""@
}

/// The core of a platform id.
pub fn parse_platform(id: &str) -> (r: Result<Platform, String>)
    ensures
        r is Ok <==> platform_named(id@) is Some,
        r matches Ok(p) ==> platform_named(id@) == Some(p),
        r matches Err(e) ==> e@ == unknown_platform_text(id@),
{
    let lower = to_ascii_lower(id);
    let s: &str = lower.as_str();
    if str_eq(s, "cps1") || str_eq(s, "cps") {
        Ok(Platform::Cps1)
    } else if str_eq(s, "neogeo") || str_eq(s, "neo") || str_eq(s, "mvs") || str_eq(s, "aes") {
        Ok(Platform::NeoGeo)
    } else {
        let mut e = String::from_str("unknown platform '");
        e.append(s);
        e.append("': expected \"neogeo\" or \"cps1\"");
        Err(e)
    }
}

/// The boards of one of the cores.
pub enum Machine {
    NeoGeo(Emulator),
    Cps1(CpsEmulator),
}

/// Where ROMs come from.
pub enum RomSource<'a> {
    /// A set below the host's ROM directory.
    Disk(&'a str),
    /// Files in memory, by base name.
    Files(&'a str, &'a Vec<RomFile>),
}

impl<'a> RomSource<'a> {
    pub fn disk(name: &'a str) -> (r: RomSource<'a>)
        ensures
            r == RomSource::Disk(name),
    {
        RomSource::Disk(name)
    }

    pub fn files(game: &'a str, files: &'a Vec<RomFile>) -> (r: RomSource<'a>)
        ensures
            r == RomSource::Files(game, files),
    {
        RomSource::Files(game, files)
    }
}

/// How loading goes on.
pub enum LoadStep {
    Loaded,
    /// The host is to read this directory and hand its files over.
    ReadDirectory(String),
}

/// A NeoGeo system after files were loaded, and the error, if any.
pub open spec fn neogeo_loaded(e: EmulatorView, game: Seq<char>, files: Seq<RomFile>) -> (
    EmulatorView,
    Option<Seq<char>>,
) {
    if files.len() == 0 {
        (e, Some(empty_files_text(game)))
    } else if p_rom_from_files(files).len() == 0 {
        (
            EmulatorView { bus: bus_with_files(e.bus, game, files), ..e },
            Some(no_program_text(game)),
        )
    } else {
        let (a, b) = samples_from_files(files);
        (
            EmulatorView { bus: bus_with_game(e.bus, game, files), adpcm_a: a, adpcm_b: b, ..e },
            None,
        )
    }
}

/// A CPS1 machine after files were loaded: unchanged on failure.
pub open spec fn cps_loaded(before: CpsView, after: CpsView, game: Seq<char>, files: &Vec<RomFile>) -> bool {
    match load_failure(game, Some(files)) {
        Some(e) => after == before,
        None => {
            &&& after == before.with_files(game, after.bus.game, files@)
            &&& game == "sf2"@ ==> is_sf2(after.bus.game)
            &&& game == "sf2ce"@ ==> is_sf2ce(after.bus.game)
        },
    }
}

/// A machine after files were loaded.
pub open spec fn machine_loaded(before: Machine, after: Machine, game: Seq<char>, files: &Vec<RomFile>) -> bool {
    match (before, after) {
        (Machine::NeoGeo(b), Machine::NeoGeo(a)) => a@ == neogeo_loaded(b@, game, files@).0,
        (Machine::Cps1(b), Machine::Cps1(a)) => cps_loaded(b@, a@, game, files),
        _ => false,
    }
}

/// The error of loading files, if any.
pub open spec fn files_error(m: Machine, game: Seq<char>, files: &Vec<RomFile>) -> Option<Seq<char>> {
    match m {
        Machine::NeoGeo(e) => neogeo_loaded(e@, game, files@).1,
        Machine::Cps1(c) => load_failure(game, Some(files)),
    }
}

/// The error text of a result.
pub open spec fn error_of<T>(r: Result<T, String>) -> Option<Seq<char>> {
    match r {
        Ok(t) => None,
        Err(e) => Some(e@),
    }
}

/// The directory that is asked for, if one is.
pub open spec fn directory_of(r: Result<LoadStep, String>) -> Option<Seq<char>> {
    match r {
        Ok(LoadStep::ReadDirectory(d)) => Some(d@),
        _ => None,
    }
}

impl Machine {
    /// The core of this machine.
    pub open spec fn platform(&self) -> Platform {
        match self {
            Machine::NeoGeo(e) => Platform::NeoGeo,
            Machine::Cps1(c) => Platform::Cps1,
        }
    }

    /// The boards are well-formed.
    pub open spec fn wf(&self) -> bool {
        match self {
            Machine::NeoGeo(e) => e@.wf(),
            Machine::Cps1(c) => c.wf(),
        }
    }

    /// Load ROMs.  From disk, the directory to read is named first.
    pub fn load_roms(&mut self, source: &RomSource<'_>) -> (r: Result<LoadStep, String>)
        requires
            source matches RomSource::Files(g, f) ==> files_fit(f@),
        ensures
            source is Disk ==> *final(self) == *old(self),
            source matches RomSource::Disk(name) ==> directory_of(r) == Some(joined("roms"@, name@)),
            source matches RomSource::Files(g, f) ==> error_of(r) == files_error(*old(self), g@, f),
            source is Files && r is Ok ==> r->Ok_0 is Loaded,
            source matches RomSource::Files(g, f) ==> machine_loaded(*old(self), *final(self), g@, f),
    {
        match source {
            RomSource::Disk(name) => {
                proof {
                    reveal_strlit("roms");
                }
                Ok(LoadStep::ReadDirectory(path_join("roms", name)))
            },
            RomSource::Files(game, files) => match self {
                Machine::NeoGeo(e) => match load_roms_from_memory(e, game, files) {
                    Ok(()) => Ok(LoadStep::Loaded),
                    Err(e) => Err(e),
                },
                Machine::Cps1(c) => match c.load_roms(Some(game), Some(files)) {
                    Ok(()) => Ok(LoadStep::Loaded),
                    Err(e) => Err(e),
                },
            },
        }
    }
}

/// A machine as it is made: memories cleared, no ROMs, nothing counted.
pub open spec fn is_new(m: Machine) -> bool {
    match m {
        Machine::NeoGeo(e) => e@ == EmulatorView::power_on(),
        Machine::Cps1(c) => {
            &&& is_sf2(c@.bus.game)
            &&& c@ == CpsView::power_on(c@.bus.game)
        },
    }
}

/// Make the machine of a platform id.  Unknown ids are an error.
pub fn create_emulator_for_platform(platform: &str) -> (r: Result<Machine, String>)
    ensures
        r is Ok <==> platform_named(platform@) is Some,
        r matches Ok(m) ==> platform_named(platform@) == Some(m.platform()) && m.wf() && is_new(m),
        r matches Err(e) ==> e@ == unknown_platform_text(platform@),
{
    match parse_platform(platform) {
        Ok(Platform::NeoGeo) => Ok(Machine::NeoGeo(Emulator::new())),
        Ok(Platform::Cps1) => Ok(Machine::Cps1(CpsEmulator::new())),
        Err(e) => Err(e),
    }
}

/// The platform id of a set: that of its catalog entry, or `neogeo`.
pub open spec fn catalog_platform(list: Seq<CatalogEntry>, name: Seq<char>) -> Seq<char> {
    match entry_at(list, name) {
        Some(i) => match opt_str(list[i].platform) {
            Some(p) => p,
            None => "neogeo"@,
        },
        None => "neogeo"@,
    }
}

/// Make the machine of a set by its catalog entry.
pub fn create_emulator(name: &str, catalog: &RomCatalog) -> (r: Result<Machine, String>)
    ensures
        ({
            let id = catalog_platform(catalog.list(), name@);
            &&& r is Ok <==> platform_named(id) is Some
            &&& r matches Ok(m) ==> platform_named(id) == Some(m.platform()) && m.wf() && is_new(m)
            &&& r matches Err(e) ==> e@ == unknown_platform_text(id)
        }),
{
    let platform: &str = match catalog.platform_for(name) {
        Some(p) => p,
        None => "neogeo",
    };
    create_emulator_for_platform(platform)
}

/// The case of a platform id does not matter.
pub proof fn platform_ids_ignore_case(id: Seq<char>)
    ensures
        platform_named(ascii_lowered(id)) == platform_named(id),
        unknown_platform_text(ascii_lowered(id)) == unknown_platform_text(id),
{
    assert(ascii_lowered(ascii_lowered(id)) =~= ascii_lowered(id));
}

} // verus!
