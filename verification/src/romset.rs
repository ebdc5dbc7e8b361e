//! ROM-set manager: dependency order, and assembling the files of a set's directory into a
//! game.
//!
//! | Extension(s)                | Role                                |
//! |-----------------------------|-------------------------------------|
//! | `.m1`                       | Game Z80 M1 ROM                     |
//! | `.p1`, `.p2`, ...           | P-ROM (68k program, concatenated)   |
//! | `.sp2`                      | P-ROM high bank (alternative name)  |
//! | `.s1`                       | Game fix-layer S-ROM                |
//! | `.c1`+`.c2`, `.c3`+`.c4`, ... | Sprite C-ROMs (byte-interleaved)  |
//! | `.v1` ... `.v4`, `.v11` ... | Sample ROMs                         |

use crate::catalog::{
    entry_at, entry_from_finds, find_entry, opt_str, texts, CatalogEntry, RomCatalog,
};
use crate::text::str_eq;
use vstd::prelude::*;

verus! {

// ── Dependency order ─────────────────────────────────────────────────────────

/// Progress of a depth-first walk over the required sets.
pub struct Walk {
    /// Sets reached so far.
    pub visited: Seq<Seq<char>>,
    /// Sets finished so far, each after what it requires.
    pub order: Seq<Seq<char>>,
}

/// The walk after visiting `name`; `depth` bounds the nesting.
pub open spec fn visit(entries: Seq<CatalogEntry>, name: Seq<char>, w: Walk, depth: nat) -> Walk
    decreases depth, 0nat,
{
    if w.visited.contains(name) || depth == 0 {
        w
    } else {
        let reached = Walk { visited: w.visited.push(name), ..w };
        let done = match entry_at(entries, name) {
            Some(i) => visit_all(
                entries,
                texts(entries[i].require@),
                entries[i].require@.len(),
                reached,
                (depth - 1) as nat,
            ),
            None => reached,
        };
        Walk { order: done.order.push(name), ..done }
    }
}

/// The walk after visiting the first `n` of some names in turn.
pub open spec fn visit_all(entries: Seq<CatalogEntry>, names: Seq<Seq<char>>, n: nat, w: Walk, depth: nat) -> Walk
    decreases depth, n + 1,
{
    if n == 0 {
        w
    } else {
        visit(
            entries,
            names[n - 1],
            visit_all(entries, names, (n - 1) as nat, w, depth),
            depth,
        )
    }
}

/// A set and everything it requires, directly or not, what is required first.
pub open spec fn load_order(entries: Seq<CatalogEntry>, name: Seq<char>) -> Seq<Seq<char>> {
    visit(
        entries,
        name,
        Walk { visited: Seq::empty(), order: Seq::empty() },
        entries.len() + 1,
    ).order
}

/// Entries that a walk has not reached, among the first `n`.
pub open spec fn left_over(entries: Seq<CatalogEntry>, visited: Seq<Seq<char>>, n: int) -> nat
    decreases n,
{
    if n <= 0 {
        0
    } else {
        left_over(entries, visited, n - 1) + (if visited.contains(entries[n - 1].name@) {
            0nat
        } else {
            1nat
        })
    }
}

/// Reaching more leaves fewer.
proof fn unreached_shrinks(entries: Seq<CatalogEntry>, a: Seq<Seq<char>>, b: Seq<Seq<char>>, n: int)
    requires
        forall|x: Seq<char>| a.contains(x) ==> b.contains(x),
        0 <= n <= entries.len(),
    ensures
        left_over(entries, b, n) <= left_over(entries, a, n) <= n,
    decreases n,
{
    if n > 0 {
        unreached_shrinks(entries, a, b, n - 1);
    }
}

/// Reaching an entry for the first time leaves strictly fewer.
proof fn unreached_drops(entries: Seq<CatalogEntry>, a: Seq<Seq<char>>, name: Seq<char>, i: int, n: int)
    requires
        0 <= i < n <= entries.len(),
        entries[i].name@ == name,
        !a.contains(name),
    ensures
        left_over(entries, a.push(name), n) < left_over(entries, a, n),
    decreases n,
{
    assert forall|x: Seq<char>| a.contains(x) implies a.push(name).contains(x) by {
        let k = choose|k: int| 0 <= k < a.len() && a[k] == x;
        assert(a.push(name)[k] == x);
    }
    assert(a.push(name).contains(name)) by {
        assert(a.push(name)[a.len() as int] == name);
    }
    if i == n - 1 {
        unreached_shrinks(entries, a, a.push(name), n - 1);
    } else {
        unreached_drops(entries, a, name, i, n - 1);
    }
}

/// What a walk keeps: no set twice, finished sets are reached, and what a finished set
/// requires is reached.
pub open spec fn walk_ok(entries: Seq<CatalogEntry>, w: Walk) -> bool {
    &&& w.visited.no_duplicates()
    &&& w.order.no_duplicates()
    &&& forall|x: Seq<char>| w.order.contains(x) ==> w.visited.contains(x)
    &&& forall|x: Seq<char>| #[trigger] w.order.contains(x) ==> requires_in(entries, x, w.visited)
}

/// Everything that `x` requires is in `s`.
pub open spec fn requires_in(entries: Seq<CatalogEntry>, x: Seq<char>, s: Seq<Seq<char>>) -> bool {
    entry_at(entries, x) matches Some(i) ==> forall|k: int|
        0 <= k < entries[i].require@.len() ==> s.contains(#[trigger] texts(entries[i].require@)[k])
}

/// Reached but not finished: on the path from the start.
pub open spec fn on_path(w: Walk, x: Seq<char>) -> bool {
    w.visited.contains(x) && !w.order.contains(x)
}

/// From `a` to `b` a walk only went on: more reached, more finished, the same path.
pub open spec fn walk_extends(a: Walk, b: Walk) -> bool {
    &&& forall|x: Seq<char>| a.visited.contains(x) ==> b.visited.contains(x)
    &&& a.order.len() <= b.order.len()
    &&& b.order.take(a.order.len() as int) == a.order
    &&& forall|x: Seq<char>| on_path(a, x) <==> on_path(b, x)
}

proof fn visit_keeps(entries: Seq<CatalogEntry>, name: Seq<char>, w: Walk, depth: nat)
    requires
        walk_ok(entries, w),
        depth > left_over(entries, w.visited, entries.len() as int),
    ensures
        ({
            let v = visit(entries, name, w, depth);
            &&& walk_ok(entries, v)
            &&& walk_extends(w, v)
            &&& v.visited.contains(name)
            &&& !w.visited.contains(name) ==> v.order.len() > 0 && v.order.last() == name
        }),
    decreases depth, 0nat,
{
    let v = visit(entries, name, w, depth);
    if !w.visited.contains(name) {
        let reached = Walk { visited: w.visited.push(name), ..w };
        assert(reached.visited[w.visited.len() as int] == name);
        assert forall|x: Seq<char>| w.visited.contains(x) implies reached.visited.contains(x) by {
            let k = choose|k: int| 0 <= k < w.visited.len() && w.visited[k] == x;
            assert(reached.visited[k] == x);
        }
        assert forall|x: Seq<char>| reached.visited.contains(x) implies w.visited.contains(x) || x
            == name by {
            let k = choose|k: int| 0 <= k < reached.visited.len() && reached.visited[k] == x;
            if k < w.visited.len() {
                assert(w.visited[k] == x);
            }
        }
        assert forall|x: Seq<char>| #[trigger] reached.order.contains(x) implies requires_in(
            entries,
            x,
            reached.visited,
        ) by {
            assert(requires_in(entries, x, w.visited));
        }
        assert(walk_ok(entries, reached));
        assert(!w.order.contains(name));
        let done = match entry_at(entries, name) {
            Some(i) => visit_all(
                entries,
                texts(entries[i].require@),
                entries[i].require@.len(),
                reached,
                (depth - 1) as nat,
            ),
            None => reached,
        };
        entry_from_finds(entries, name, 0);
        if let Some(i) = entry_at(entries, name) {
            unreached_drops(entries, w.visited, name, i, entries.len() as int);
            visit_all_keeps(
                entries,
                texts(entries[i].require@),
                entries[i].require@.len(),
                reached,
                (depth - 1) as nat,
            );
        } else {
            assert(reached.order.take(reached.order.len() as int) =~= reached.order);
        }
        assert(on_path(reached, name));
        assert(on_path(done, name));
        assert(v.order == done.order.push(name));
        assert(v.order[done.order.len() as int] == name);
        assert forall|x: Seq<char>| v.order.contains(x) implies done.order.contains(x) || x == name by {
            let k = choose|k: int| 0 <= k < v.order.len() && v.order[k] == x;
            if k < done.order.len() {
                assert(done.order[k] == x);
            }
        }
        assert forall|x: Seq<char>| done.order.contains(x) implies v.order.contains(x) by {
            let k = choose|k: int| 0 <= k < done.order.len() && done.order[k] == x;
            assert(v.order[k] == x);
        }
        assert forall|x: Seq<char>| #[trigger] v.order.contains(x) implies requires_in(
            entries,
            x,
            v.visited,
        ) by {
            if done.order.contains(x) {
                assert(requires_in(entries, x, done.visited));
            }
        }
        assert(v.order.take(w.order.len() as int) =~= done.order.take(w.order.len() as int));
        assert forall|x: Seq<char>| on_path(w, x) <==> on_path(v, x) by {
            assert(on_path(reached, x) <==> on_path(done, x));
        }
    } else {
        assert(w.order.take(w.order.len() as int) =~= w.order);
    }
}

proof fn visit_all_keeps(entries: Seq<CatalogEntry>, names: Seq<Seq<char>>, n: nat, w: Walk, depth: nat)
    requires
        walk_ok(entries, w),
        depth > left_over(entries, w.visited, entries.len() as int),
        n <= names.len(),
    ensures
        ({
            let v = visit_all(entries, names, n, w, depth);
            &&& walk_ok(entries, v)
            &&& walk_extends(w, v)
            &&& forall|k: int| 0 <= k < n ==> v.visited.contains(#[trigger] names[k])
        }),
    decreases depth, n + 1,
{
    if n > 0 {
        let mid = visit_all(entries, names, (n - 1) as nat, w, depth);
        visit_all_keeps(entries, names, (n - 1) as nat, w, depth);
        unreached_shrinks(entries, w.visited, mid.visited, entries.len() as int);
        visit_keeps(entries, names[n - 1], mid, depth);
        let v = visit(entries, names[n - 1], mid, depth);
        assert(v.order.take(w.order.len() as int) =~= v.order.take(mid.order.len() as int).take(
            w.order.len() as int,
        ));
    } else {
        assert(w.order.take(w.order.len() as int) =~= w.order);
    }
}

fn known(names: &Vec<String>, name: &str) -> (r: bool)
    ensures
        r == texts(names@).contains(name@),
{
    let mut i: usize = 0;
    while i < names.len()
        invariant
            i <= names@.len(),
            forall|k: int| 0 <= k < i ==> #[trigger] texts(names@)[k] != name@,
        decreases names@.len() - i,
    {
        if str_eq(names[i].as_str(), name) {
            assert(texts(names@)[i as int] == name@);
            return true;
        }
        i = i + 1;
    }
    false
}

fn walk_from(
    entries: &Vec<CatalogEntry>,
    name: &str,
    visited: &mut Vec<String>,
    order: &mut Vec<String>,
    depth: usize,
)
    ensures
        ({
            let w = Walk { visited: texts(old(visited)@), order: texts(old(order)@) };
            let v = visit(entries@, name@, w, depth as nat);
            texts(final(visited)@) == v.visited && texts(final(order)@) == v.order
        }),
    decreases depth,
{
    if depth == 0 || known(visited, name) {
        return;
    }
    let ghost w = Walk { visited: texts(visited@), order: texts(order@) };
    let ghost reached = Walk { visited: w.visited.push(name@), ..w };
    visited.push(String::from_str(name));
    assert(texts(visited@) =~= reached.visited);
    match find_entry(entries, name) {
        Some(i) => {
            let reqs = &entries[i].require;
            let mut k: usize = 0;
            while k < reqs.len()
                invariant
                    depth > 0,
                    k <= reqs@.len(),
                    ({
                        let v = visit_all(
                            entries@,
                            texts(reqs@),
                            k as nat,
                            reached,
                            (depth - 1) as nat,
                        );
                        texts(visited@) == v.visited && texts(order@) == v.order
                    }),
                decreases reqs@.len() - k,
            {
                let ghost mid = visit_all(
                    entries@,
                    texts(reqs@),
                    k as nat,
                    reached,
                    (depth - 1) as nat,
                );
                assert(texts(reqs@)[k as int] == reqs@[k as int]@);
                walk_from(entries, reqs[k].as_str(), visited, order, depth - 1);
                assert(visit_all(
                    entries@,
                    texts(reqs@),
                    (k + 1) as nat,
                    reached,
                    (depth - 1) as nat,
                ) == visit(entries@, texts(reqs@)[k as int], mid, (depth - 1) as nat));
                k = k + 1;
            }
        },
        None => {},
    }
    let ghost before = order@;
    order.push(String::from_str(name));
    assert(texts(order@) =~= texts(before).push(name@));
}

/// A set and everything it requires, directly or not, what is required first.
pub fn collect_deps(name: &str, entries: &Vec<CatalogEntry>) -> (r: Vec<String>)
    requires
        entries@.len() < usize::MAX,
    ensures
        texts(r@) == load_order(entries@, name@),
{
    let mut visited: Vec<String> = Vec::new();
    let mut order: Vec<String> = Vec::new();
    assert(texts(visited@) =~= Seq::<Seq<char>>::empty());
    assert(texts(order@) =~= Seq::<Seq<char>>::empty());
    walk_from(entries, name, &mut visited, &mut order, entries.len() + 1);
    order
}

/// The load order holds no set twice, ends with the set that was asked for, and holds
/// everything that one of its sets requires.
pub proof fn load_order_is_complete(entries: Seq<CatalogEntry>, name: Seq<char>)
    ensures
        ({
            let order = load_order(entries, name);
            &&& order.no_duplicates()
            &&& order.len() > 0
            &&& order.last() == name
            &&& forall|x: Seq<char>| #[trigger] order.contains(x) ==> requires_in(entries, x, order)
        }),
{
    let start = Walk { visited: Seq::<Seq<char>>::empty(), order: Seq::<Seq<char>>::empty() };
    unreached_shrinks(entries, start.visited, start.visited, entries.len() as int);
    visit_keeps(entries, name, start, entries.len() + 1);
    let v = visit(entries, name, start, entries.len() + 1);
    assert forall|x: Seq<char>| v.visited.contains(x) implies v.order.contains(x) by {
        assert(on_path(start, x) <==> on_path(v, x));
    }
    assert forall|x: Seq<char>| #[trigger] v.order.contains(x) implies requires_in(
        entries,
        x,
        v.order,
    ) by {
        assert(requires_in(entries, x, v.visited));
    }
}

/// Each set of the order comes after all that it requires.
pub open spec fn deps_first(entries: Seq<CatalogEntry>, order: Seq<Seq<char>>) -> bool {
    forall|p: int| 0 <= p < order.len() ==> requires_in(entries, #[trigger] order[p], order.take(p))
}

/// The catalog has no circular requirement: each set ranks above all that it requires.
pub open spec fn ranked(entries: Seq<CatalogEntry>, rank: spec_fn(Seq<char>) -> int) -> bool {
    forall|i: int, k: int|
        0 <= i < entries.len() && 0 <= k < entries[i].require@.len() ==> rank(
            #[trigger] texts(entries[i].require@)[k],
        ) < rank(entries[i].name@)
}

proof fn visit_orders(entries: Seq<CatalogEntry>, rank: spec_fn(Seq<char>) -> int, name: Seq<char>, w: Walk, depth: nat)
    requires
        walk_ok(entries, w),
        depth > left_over(entries, w.visited, entries.len() as int),
        ranked(entries, rank),
        deps_first(entries, w.order),
        forall|x: Seq<char>| #[trigger] on_path(w, x) ==> rank(x) > rank(name),
    ensures
        ({
            let v = visit(entries, name, w, depth);
            &&& deps_first(entries, v.order)
            &&& v.order.contains(name)
        }),
    decreases depth, 0nat,
{
    visit_keeps(entries, name, w, depth);
    let v = visit(entries, name, w, depth);
    if w.visited.contains(name) {
        if !w.order.contains(name) {
            assert(on_path(w, name));
        }
    } else {
        let reached = Walk { visited: w.visited.push(name), ..w };
        assert(reached.visited[w.visited.len() as int] == name);
        assert forall|x: Seq<char>| reached.visited.contains(x) implies w.visited.contains(x) || x
            == name by {
            let k = choose|k: int| 0 <= k < reached.visited.len() && reached.visited[k] == x;
            if k < w.visited.len() {
                assert(w.visited[k] == x);
            }
        }
        assert forall|x: Seq<char>| w.visited.contains(x) implies reached.visited.contains(x) by {
            let k = choose|k: int| 0 <= k < w.visited.len() && w.visited[k] == x;
            assert(reached.visited[k] == x);
        }
        assert forall|x: Seq<char>| #[trigger] reached.order.contains(x) implies requires_in(
            entries,
            x,
            reached.visited,
        ) by {
            assert(requires_in(entries, x, w.visited));
        }
        entry_from_finds(entries, name, 0);
        match entry_at(entries, name) {
            Some(i) => {
                let reqs = texts(entries[i].require@);
                let n = entries[i].require@.len();
                unreached_drops(entries, w.visited, name, i, entries.len() as int);
                assert forall|x: Seq<char>, k: int|
                    #[trigger] on_path(reached, x) && 0 <= k < n implies rank(x) > rank(
                    #[trigger] reqs[k],
                ) by {
                    assert(rank(reqs[k]) < rank(entries[i].name@));
                    if x != name {
                        assert(on_path(w, x));
                    }
                }
                visit_all_orders(entries, rank, reqs, n, reached, (depth - 1) as nat);
                let done = visit_all(entries, reqs, n, reached, (depth - 1) as nat);
                assert forall|p: int| 0 <= p < v.order.len() implies requires_in(
                    entries,
                    #[trigger] v.order[p],
                    v.order.take(p),
                ) by {
                    if p < done.order.len() {
                        assert(requires_in(entries, done.order[p], done.order.take(p)));
                        assert(v.order.take(p) =~= done.order.take(p));
                    } else {
                        assert(v.order.take(p) =~= done.order);
                    }
                }
            },
            None => {
                assert forall|p: int| 0 <= p < v.order.len() implies requires_in(
                    entries,
                    #[trigger] v.order[p],
                    v.order.take(p),
                ) by {
                    if p < w.order.len() {
                        assert(requires_in(entries, w.order[p], w.order.take(p)));
                        assert(v.order.take(p) =~= w.order.take(p));
                    }
                }
            },
        }
        assert(v.order[v.order.len() - 1] == name);
    }
}

proof fn visit_all_orders(entries: Seq<CatalogEntry>, rank: spec_fn(Seq<char>) -> int, names: Seq<Seq<char>>, n: nat, w: Walk, depth: nat)
    requires
        walk_ok(entries, w),
        depth > left_over(entries, w.visited, entries.len() as int),
        ranked(entries, rank),
        deps_first(entries, w.order),
        n <= names.len(),
        forall|x: Seq<char>, k: int|
            #[trigger] on_path(w, x) && 0 <= k < n ==> rank(x) > rank(#[trigger] names[k]),
    ensures
        ({
            let v = visit_all(entries, names, n, w, depth);
            &&& deps_first(entries, v.order)
            &&& forall|k: int| 0 <= k < n ==> v.order.contains(#[trigger] names[k])
        }),
    decreases depth, n + 1,
{
    if n > 0 {
        let mid = visit_all(entries, names, (n - 1) as nat, w, depth);
        visit_all_keeps(entries, names, (n - 1) as nat, w, depth);
        visit_all_orders(entries, rank, names, (n - 1) as nat, w, depth);
        unreached_shrinks(entries, w.visited, mid.visited, entries.len() as int);
        assert forall|x: Seq<char>| #[trigger] on_path(mid, x) implies rank(x) > rank(names[n - 1]) by {
            assert(on_path(w, x));
        }
        visit_orders(entries, rank, names[n - 1], mid, depth);
        visit_keeps(entries, names[n - 1], mid, depth);
        let v = visit(entries, names[n - 1], mid, depth);
        assert forall|k: int| 0 <= k < n implies v.order.contains(#[trigger] names[k]) by {
            if k < n - 1 {
                assert(mid.order.contains(names[k]));
                let q = choose|q: int| 0 <= q < mid.order.len() && mid.order[q] == names[k];
                assert(v.order.take(mid.order.len() as int)[q] == names[k]);
                assert(v.order[q] == names[k]);
            }
        }
    }
}

/// Without circular requirements every set is loaded after all that it requires.
pub proof fn load_order_puts_deps_first(entries: Seq<CatalogEntry>, rank: spec_fn(Seq<char>) -> int, name: Seq<char>)
    requires
        ranked(entries, rank),
    ensures
        deps_first(entries, load_order(entries, name)),
{
    let start = Walk { visited: Seq::<Seq<char>>::empty(), order: Seq::<Seq<char>>::empty() };
    unreached_shrinks(entries, start.visited, start.visited, entries.len() as int);
    visit_orders(entries, rank, name, start, entries.len() + 1);
}

// ── Load plan ────────────────────────────────────────────────────────────────

/// One set to be made ready.
pub struct PlannedSet {
    pub name: String,
    /// The catalog has the set.
    pub listed: bool,
    /// Where it may be fetched from.
    pub download: Option<String>,
}

/// Whether a planned set is what the catalog says of a name.
pub open spec fn plan_matches(p: PlannedSet, entries: Seq<CatalogEntry>, name: Seq<char>) -> bool {
    &&& p.name@ == name
    &&& p.listed == (entry_at(entries, name) is Some)
    &&& opt_str(p.download) == (match entry_at(entries, name) {
        Some(i) => opt_str(entries[i].download),
        None => None,
    })
}

/// The sets to be made ready for a game, in load order.
pub fn load_plan(catalog: &RomCatalog, name: &str) -> (r: Result<Vec<PlannedSet>, String>)
    requires
        catalog.list().len() < usize::MAX,
    ensures
        entry_at(catalog.list(), name@) is None ==> r is Err && r->Err_0@ == "'"@ + name@
            + "' not found in ROM catalog (check spelling)"@,
        entry_at(catalog.list(), name@) is Some ==> {
            let order = load_order(catalog.list(), name@);
            &&& r is Ok
            &&& r->Ok_0@.len() == order.len()
            &&& forall|i: int|
                0 <= i < order.len() ==> plan_matches(
                    #[trigger] r->Ok_0@[i],
                    catalog.list(),
                    order[i],
                )
        },
{
    if !catalog.contains(name) {
        let mut msg = String::from_str("'");
        msg.append(name);
        msg.append("' not found in ROM catalog (check spelling)");
        return Err(msg);
    }
    let order = collect_deps(name, catalog.entries());
    let mut plan: Vec<PlannedSet> = Vec::new();
    let mut i: usize = 0;
    while i < order.len()
        invariant
            i <= order@.len(),
            plan@.len() == i,
            texts(order@) == load_order(catalog.list(), name@),
            forall|k: int|
                0 <= k < i ==> plan_matches(
                    #[trigger] plan@[k],
                    catalog.list(),
                    texts(order@)[k],
                ),
        decreases order@.len() - i,
    {
        let set = order[i].as_str();
        assert(texts(order@)[i as int] == set@);
        let planned = match catalog.entry(set) {
            Some(e) => PlannedSet {
                name: String::from_str(set),
                listed: true,
                download: match &e.download {
                    Some(u) => Some(String::from_str(u.as_str())),
                    None => None,
                },
            },
            None => PlannedSet { name: String::from_str(set), listed: false, download: None },
        };
        plan.push(planned);
        i = i + 1;
    }
    Ok(plan)
}

/// The message for a required set that the catalog does not list.
pub fn missing_dependency(set_name: &str) -> (r: String)
    ensures
        r@ == "dependency '"@ + set_name@ + "' not found in ROM catalog"@,
{
    let mut msg = String::from_str("dependency '");
    msg.append(set_name);
    msg.append("' not found in ROM catalog");
    msg
}

/// What is to be done for a set.
pub enum FetchStep {
    /// The catalog does not have it; give up with this message.
    Missing(String),
    /// It was fetched before.
    Cached,
    /// Fetch the archive from here, extract it and mark the set as done.
    Fetch(String),
    /// There is nowhere to fetch it from: its files have to be on disk.
    OnDisk,
}

/// What is to be done for a set; `done` says whether it was fetched before.
pub fn fetch_step(set: &PlannedSet, done: bool) -> (r: FetchStep)
    ensures
        match r {
            FetchStep::Missing(m) => !set.listed && m@ == "dependency '"@ + set.name@
                + "' not found in ROM catalog"@,
            FetchStep::Cached => set.listed && done,
            FetchStep::Fetch(u) => set.listed && !done && opt_str(set.download) == Some(u@),
            FetchStep::OnDisk => set.listed && !done && set.download is None,
        },
{
    if !set.listed {
        return FetchStep::Missing(missing_dependency(set.name.as_str()));
    }
    if done {
        return FetchStep::Cached;
    }
    match &set.download {
        Some(u) => FetchStep::Fetch(String::from_str(u.as_str())),
        None => FetchStep::OnDisk,
    }
}

} // verus!
