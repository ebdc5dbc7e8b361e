//! Netplay boot savestates (character select / match ready), not ROMs.
//!
//! ```text
//! boot/<game_id>/charselect.bin   # preferred
//! data/<game_id>/charselect.bin   # host fallback
//! roms/<game_id>/charselect.bin   # optional host fallback
//! ```

use vstd::prelude::*;

verus! {

/// File name of the default netplay boot savestate.
pub const CHARSELECT_BIN: &'static str = "charselect.bin";

/// Preferred directory name for boot artifacts.
pub const BOOT_DIR: &'static str = "boot";

/// A path extended by a part: an absolute part replaces the path, and no separator is
/// doubled.
pub open spec fn joined(base: Seq<char>, part: Seq<char>) -> Seq<char> {
    if part.len() > 0 && part[0] == '/' {
        part
    } else if base.len() == 0 || base.last() == '/' {
        base + part
    } else {
        base.push('/') + part
    }
}

/// Path of a game's boot savestate below a directory.
pub open spec fn boot_path(dir: Seq<char>, game: Seq<char>) -> Seq<char> {
    joined(joined(dir, game), "charselect.bin"@)
}

/// Extend a path by a part.
pub fn path_join(base: &str, part: &str) -> (r: String)
    ensures
        r@ == joined(base@, part@),
{
    let n: usize = base.unicode_len();
    if part.unicode_len() > 0 && part.get_char(0) == '/' {
        return String::from_str(part);
    }
    let mut r = String::from_str(base);
    if n > 0 && base.get_char(n - 1) != '/' {
        proof {
            reveal_strlit("/");
        }
        r.append("/");
        assert(r@ =~= base@.push('/'));
    }
    r.append(part);
    r
}

fn boot_path_in(dir: &str, game: &str) -> (r: String)
    ensures
        r@ == boot_path(dir@, game@),
{
    let d = path_join(dir, game);
    path_join(d.as_str(), "charselect.bin")
}

/// Candidate paths of a game's boot savestate, highest priority first.
pub fn initial_match_state_paths(game: &str) -> (r: Vec<String>)
    ensures
        r@.len() == 3,
        r@[0]@ == boot_path("boot"@, game@),
        r@[1]@ == boot_path("data"@, game@),
        r@[2]@ == boot_path("roms"@, game@),
{
    vec![boot_path_in("boot", game), boot_path_in("data", game), boot_path_in("roms", game)]
}

/// How the search for a boot state goes on.
#[derive(Debug, Clone, Copy, PartialEq, Eq, Structural)]
pub enum BootSearch {
    /// Try this candidate.
    Try(usize),
    /// A candidate was loaded.
    Found,
    /// No candidate is left.
    Exhausted,
}

/// What the search does after `tried` of its candidates, where the last one was loaded or not:
/// the first candidate that loads ends it.
pub open spec fn boot_search_step(candidates: int, tried: int, loaded: bool) -> BootSearch {
    if loaded {
        BootSearch::Found
    } else if tried < candidates {
        BootSearch::Try(tried as usize)
    } else {
        BootSearch::Exhausted
    }
}

/// How the search for a boot state goes on after `tried` candidates.
pub fn boot_search(candidates: usize, tried: usize, loaded: bool) -> (r: BootSearch)
    ensures
        r == boot_search_step(candidates as int, tried as int, loaded),
{
    if loaded {
        BootSearch::Found
    } else if tried < candidates {
        BootSearch::Try(tried)
    } else {
        BootSearch::Exhausted
    }
}

/// Where the search ends, with the outcome of each candidate known: how many were tried, and
/// the last step.
pub open spec fn boot_search_end(outcomes: Seq<bool>, tried: int) -> (int, BootSearch)
    decreases outcomes.len() - tried,
{
    let loaded = 0 < tried <= outcomes.len() && outcomes[tried - 1];
    match boot_search_step(outcomes.len() as int, tried, loaded) {
        BootSearch::Try(i) => if 0 <= tried < outcomes.len() {
            boot_search_end(outcomes, tried + 1)
        } else {
            (tried, BootSearch::Exhausted)
        },
        step => (tried, step),
    }
}

/// The search ends with the first candidate that loads, and tries all of them where none does.
pub proof fn first_loadable_wins(outcomes: Seq<bool>, tried: int)
    requires
        0 <= tried <= outcomes.len(),
        forall|i: int| 0 <= i < tried ==> !#[trigger] outcomes[i],
    ensures
        ({
            let (n, step) = boot_search_end(outcomes, tried);
            &&& 0 <= n <= outcomes.len()
            &&& step is Found <==> (exists|i: int| 0 <= i < outcomes.len() && #[trigger] outcomes[i])
            &&& step is Found ==> n > 0 && outcomes[n - 1] && forall|i: int|
                0 <= i < n - 1 ==> !#[trigger] outcomes[i]
            &&& !(step is Found) ==> step is Exhausted && n == outcomes.len()
        }),
    decreases outcomes.len() - tried,
{
    if tried < outcomes.len() {
        if outcomes[tried] {
            let next = boot_search_end(outcomes, tried + 1);
            assert(next == (tried + 1, BootSearch::Found));
        } else {
            first_loadable_wins(outcomes, tried + 1);
        }
    }
}

/// Default capture output path: `boot/<game>/charselect.bin`.
pub fn default_capture_path(game: &str) -> (r: String)
    ensures
        r@ == boot_path("boot"@, game@),
{
    boot_path_in("boot", game)
}

/// What is captured at the default path is what is looked for first.
pub proof fn capture_path_is_preferred(game: Seq<char>)
    requires
        game.len() > 0,
        game[0] != '/',
        game.last() != '/',
    ensures
        boot_path("boot"@, game) == "boot/"@ + game + "/charselect.bin"@,
{
    reveal_strlit("boot");
    reveal_strlit("boot/");
    reveal_strlit("charselect.bin");
    reveal_strlit("/charselect.bin");
    let d = joined("boot"@, game);
    assert("boot"@.push('/') =~= "boot/"@);
    assert(d =~= "boot/"@ + game);
    assert(d.last() == game.last());
    assert("/charselect.bin"@ =~= seq!['/'] + "charselect.bin"@);
    assert(d.push('/') + "charselect.bin"@ =~= "boot/"@ + game + "/charselect.bin"@);
}

/// A boot state is the file `charselect.bin` in the game's own directory.
pub proof fn boot_state_is_in_its_directory(game: Seq<char>)
    requires
        game.len() > 0,
        game[0] != '/',
        game.last() != '/',
    ensures
        boot_path("boot"@, game) == "boot/"@ + game + "/charselect.bin"@,
        boot_path("data"@, game) == "data/"@ + game + "/charselect.bin"@,
        boot_path("roms"@, game) == "roms/"@ + game + "/charselect.bin"@,
{
    reveal_strlit("boot");
    reveal_strlit("data");
    reveal_strlit("roms");
    reveal_strlit("boot/");
    reveal_strlit("data/");
    reveal_strlit("roms/");
    reveal_strlit("charselect.bin");
    reveal_strlit("/charselect.bin");
    assert("boot"@.push('/') =~= "boot/"@);
    assert("data"@.push('/') =~= "data/"@);
    assert("roms"@.push('/') =~= "roms/"@);
    assert(boot_path("boot"@, game) =~= "boot/"@ + game + "/charselect.bin"@);
    assert(boot_path("data"@, game) =~= "data/"@ + game + "/charselect.bin"@);
    assert(boot_path("roms"@, game) =~= "roms/"@ + game + "/charselect.bin"@);
}

/// The search goes on with the next candidate as long as there is one and none was loaded.
pub proof fn search_tries_each_candidate(candidates: int, tried: int)
    requires
        0 <= tried <= candidates <= usize::MAX,
    ensures
        tried < candidates ==> boot_search_step(candidates, tried, false) == BootSearch::Try(tried as usize),
        tried == candidates ==> boot_search_step(candidates, tried, false) == BootSearch::Exhausted,
        boot_search_step(candidates, tried, true) == BootSearch::Found,
{
}

/// A separator comes between a path and a part that have none; an absolute part stands for itself.
pub proof fn paths_are_joined_once(base: Seq<char>, part: Seq<char>)
    ensures
        part.len() == 0 || part[0] != '/' ==> {
            &&& joined(Seq::empty(), part) == part
            &&& base.len() > 0 && base.last() == '/' ==> joined(base, part) == base + part
            &&& base.len() > 0 && base.last() != '/' ==> joined(base, part) == base + seq!['/'] + part
        },
        part.len() > 0 && part[0] == '/' ==> joined(base, part) == part,
{
    assert(Seq::<char>::empty() + part =~= part);
    assert(base.push('/') + part =~= base + seq!['/'] + part);
}

} // verus!
