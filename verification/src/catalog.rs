//! Host-supplied ROM catalog: a JSON object keyed by set name.
//!
//! ```json
//! {
//!   "kof97":  { "download": "https://example.com/kof97.zip", "require": ["neogeo"] },
//!   "neogeo": { "download": "https://example.com/neogeo.zip", "platform": "neogeo" }
//! }
//! ```

use crate::text::str_eq;
use vstd::prelude::*;

verus! {

// ── JSON values ──────────────────────────────────────────────────────────────

/// A JSON value of the `serde_json` crate.
#[verifier::external_type_specification]
#[verifier::external_body]
pub struct ExJsonValue(serde_json::Value);

/// What a JSON value is.
pub enum JsonView {
    Null,
    Bool(bool),
    Number,
    Text(Seq<char>),
    List(Seq<JsonView>),
    Object(Map<Seq<char>, JsonView>),
}

/// What a `serde_json::Value` holds.
pub uninterp spec fn json_view(v: serde_json::Value) -> JsonView;

/// What a JSON text stands for, or the message with which it is refused.
pub uninterp spec fn json_parsed(text: Seq<char>) -> Result<JsonView, Seq<char>>;

/// `serde_json::from_str` to a value: the value, or the error's text, is a function of the
/// text.
#[verifier::external_body]
fn json_parse(text: &str) -> (r: Result<serde_json::Value, String>)
    ensures
        r is Ok <==> json_parsed(text@) is Ok,
        r matches Ok(v) ==> json_view(v) == json_parsed(text@)->Ok_0,
        r matches Err(e) ==> e@ == json_parsed(text@)->Err_0,
{
    serde_json::from_str(text).map_err(|e| e.to_string())
}

/// `serde_json::Value::is_object`.
#[verifier::external_body]
fn json_is_object(v: &serde_json::Value) -> (r: bool)
    ensures
        r == (json_view(*v) is Object),
{
    v.is_object()
}

/// `serde_json::Value::get` with a string: the member of an object, nothing for any other
/// value.
#[verifier::external_body]
fn json_get<'a>(v: &'a serde_json::Value, key: &str) -> (r: Option<&'a serde_json::Value>)
    ensures
        r is Some <==> member(json_view(*v), key@) is Some,
        r matches Some(m) ==> Some(json_view(*m)) == member(json_view(*v), key@),
{
    v.get(key)
}

/// `serde_json::Value::as_str`: the text of a string, nothing for any other value.
#[verifier::external_body]
fn json_text<'a>(v: &'a serde_json::Value) -> (r: Option<&'a str>)
    ensures
        r is Some <==> json_view(*v) is Text,
        r matches Some(s) ==> json_view(*v) == JsonView::Text(s@),
{
    v.as_str()
}

/// `serde_json::Value::as_array`: the elements of an array, nothing for any other value.
#[verifier::external_body]
fn json_list<'a>(v: &'a serde_json::Value) -> (r: Option<&'a Vec<serde_json::Value>>)
    ensures
        r is Some <==> json_view(*v) is List,
        r matches Some(l) ==> l@.len() == json_view(*v)->List_0.len(),
        r matches Some(l) ==> forall|i: int|
            0 <= i < l@.len() ==> json_view(#[trigger] l@[i]) == json_view(*v)->List_0[i],
{
    v.as_array()
}

/// `serde_json::Map::keys` of an object: each key once; none for any other value.
#[verifier::external_body]
fn json_keys(v: &serde_json::Value) -> (r: Vec<String>)
    ensures
        json_view(*v) is Object ==> forall|k: Seq<char>|
            json_view(*v)->Object_0.dom().contains(k) <==> exists|i: int|
                0 <= i < r@.len() && #[trigger] r@[i]@ == k,
        forall|i: int, j: int| 0 <= i < j < r@.len() ==> #[trigger] r@[i]@ != #[trigger] r@[j]@,
        !(json_view(*v) is Object) ==> r@.len() == 0,
{
    v.as_object().map(|m| m.keys().cloned().collect()).unwrap_or_default()
}

/// The member of an object under a key.
pub open spec fn member(v: JsonView, key: Seq<char>) -> Option<JsonView> {
    match v {
        JsonView::Object(m) => if m.dom().contains(key) { Some(m[key]) } else { None },
        _ => None,
    }
}

/// The member of an object under a key, where it is a string.
pub open spec fn text_member(v: JsonView, key: Seq<char>) -> Option<Seq<char>> {
    match member(v, key) {
        Some(JsonView::Text(t)) => Some(t),
        _ => None,
    }
}

/// The strings among the first `n` elements of a list.
pub open spec fn texts_among(l: Seq<JsonView>, n: int) -> Seq<Seq<char>>
    decreases n,
{
    if n <= 0 {
        Seq::empty()
    } else {
        match l[n - 1] {
            JsonView::Text(t) => texts_among(l, n - 1).push(t),
            _ => texts_among(l, n - 1),
        }
    }
}

/// The sets that an entry requires.
pub open spec fn requires_of(v: JsonView) -> Seq<Seq<char>> {
    match member(v, "require"@) {
        Some(JsonView::List(l)) => texts_among(l, l.len() as int),
        _ => Seq::empty(),
    }
}

// ── Catalog ──────────────────────────────────────────────────────────────────

/// One set of the catalog.
pub struct CatalogEntry {
    pub name: String,
    /// Platform id (`"cps1"`, `"neogeo"`, ...).
    pub platform: Option<String>,
    /// Where the host may fetch the set.
    pub download: Option<String>,
    /// Sets that this one needs.
    pub require: Vec<String>,
}

/// Parsed ROM set catalog.
pub struct RomCatalog {
    entries: Vec<CatalogEntry>,
}

/// The texts of some strings.
pub open spec fn texts(v: Seq<String>) -> Seq<Seq<char>> {
    v.map_values(|s: String| s@)
}

/// The text of an optional string.
pub open spec fn opt_str(v: Option<String>) -> Option<Seq<char>> {
    match v {
        Some(s) => Some(s@),
        None => None,
    }
}

/// Whether an entry is what the JSON value under its name says.
pub open spec fn entry_matches(e: CatalogEntry, v: JsonView) -> bool {
    &&& opt_str(e.platform) == text_member(v, "platform"@)
    &&& opt_str(e.download) == text_member(v, "download"@)
    &&& texts(e.require@) == requires_of(v)
}

/// Whether entries are those of a JSON object, each once.
pub open spec fn entries_match(entries: Seq<CatalogEntry>, m: Map<Seq<char>, JsonView>) -> bool {
    &&& forall|k: Seq<char>|
        m.dom().contains(k) <==> exists|i: int|
            0 <= i < entries.len() && #[trigger] entries[i].name@ == k
    &&& forall|i: int, j: int|
        0 <= i < j < entries.len() ==> #[trigger] entries[i].name@ != #[trigger] entries[j].name@
    &&& forall|i: int|
        0 <= i < entries.len() ==> entry_matches(#[trigger] entries[i], m[entries[i].name@])
}

/// Position of the entry with a name.
pub open spec fn entry_at(entries: Seq<CatalogEntry>, name: Seq<char>) -> Option<int> {
    entry_from(entries, name, 0)
}

/// Position of the first entry with a name, from `i` on.
pub open spec fn entry_from(entries: Seq<CatalogEntry>, name: Seq<char>, i: int) -> Option<int>
    decreases entries.len() - i,
{
    if i < 0 || i >= entries.len() {
        None
    } else if entries[i].name@ == name {
        Some(i)
    } else {
        entry_from(entries, name, i + 1)
    }
}

/// Find the entry with a name.
pub fn find_entry(entries: &Vec<CatalogEntry>, name: &str) -> (r: Option<usize>)
    ensures
        r is Some <==> entry_at(entries@, name@) is Some,
        r matches Some(i) ==> i < entries@.len() && entry_at(entries@, name@) == Some(i as int)
            && entries@[i as int].name@ == name@,
{
    let mut i: usize = 0;
    while i < entries.len()
        invariant
            i <= entries@.len(),
            entry_at(entries@, name@) == entry_from(entries@, name@, i as int),
        decreases entries@.len() - i,
    {
        if str_eq(entries[i].name.as_str(), name) {
            return Some(i);
        }
        i = i + 1;
    }
    None
}

fn read_requires(v: &serde_json::Value) -> (r: Vec<String>)
    ensures
        texts(r@) == requires_of(json_view(*v)),
{
    let mut out: Vec<String> = Vec::new();
    match json_get(v, "require") {
        None => {},
        Some(list) => {
            match json_list(list) {
                None => {},
                Some(items) => {
                    let ghost l = json_view(*list)->List_0;
                    let mut i: usize = 0;
                    while i < items.len()
                        invariant
                            i <= items@.len(),
                            items@.len() == l.len(),
                            forall|k: int|
                                0 <= k < items@.len() ==> json_view(#[trigger] items@[k]) == l[k],
                            texts(out@) == texts_among(l, i as int),
                        decreases items@.len() - i,
                    {
                        let ghost before = out@;
                        if let Some(t) = json_text(&items[i]) {
                            out.push(String::from_str(t));
                            assert(texts(out@) =~= texts(before).push(t@));
                        }
                        i = i + 1;
                    }
                },
            }
        },
    }
    assert(texts(out@) =~= requires_of(json_view(*v)));
    out
}

fn read_text(v: &serde_json::Value, key: &str) -> (r: Option<String>)
    ensures
        opt_str(r) == text_member(json_view(*v), key@),
{
    match json_get(v, key) {
        Some(m) => match json_text(m) {
            Some(t) => Some(String::from_str(t)),
            None => None,
        },
        None => None,
    }
}

impl RomCatalog {
    pub closed spec fn list(&self) -> Seq<CatalogEntry> {
        self.entries@
    }

    /// Parse catalog JSON text supplied by the host.
    pub fn parse(json: &str) -> (r: Result<Self, String>)
        ensures
            json_parsed(json@) matches Err(e) ==> r is Err && r->Err_0@
                == "cannot parse ROM catalog JSON: "@ + e,
            json_parsed(json@) matches Ok(v) ==> {
                &&& !(v is Object) ==> r is Err && r->Err_0@
                    == "ROM catalog root must be a JSON object"@
                &&& v is Object ==> r is Ok && entries_match(r->Ok_0.list(), v->Object_0)
            },
    {
        match json_parse(json) {
            Ok(root) => Self::from_value(&root),
            Err(e) => {
                let mut msg = String::from_str("cannot parse ROM catalog JSON: ");
                msg.append(e.as_str());
                Err(msg)
            },
        }
    }

    /// The catalog that a JSON value holds.
    pub fn from_value(root: &serde_json::Value) -> (r: Result<Self, String>)
        ensures
            !(json_view(*root) is Object) ==> r is Err && r->Err_0@
                == "ROM catalog root must be a JSON object"@,
            json_view(*root) matches JsonView::Object(m) ==> r is Ok && entries_match(r->Ok_0.list(), m),
    {
        if !json_is_object(root) {
            return Err(String::from_str("ROM catalog root must be a JSON object"));
        }
        let ghost m = json_view(*root)->Object_0;
        let keys = json_keys(root);
        let mut entries: Vec<CatalogEntry> = Vec::new();
        let mut i: usize = 0;
        while i < keys.len()
            invariant
                json_view(*root) == JsonView::Object(m),
                i <= keys@.len(),
                entries@.len() == i,
                forall|k: Seq<char>|
                    m.dom().contains(k) <==> exists|j: int|
                        0 <= j < keys@.len() && #[trigger] keys@[j]@ == k,
                forall|j: int|
                    0 <= j < i ==> #[trigger] entries@[j].name@ == keys@[j]@ && entry_matches(
                        entries@[j],
                        m[entries@[j].name@],
                    ),
            decreases keys@.len() - i,
        {
            let name = keys[i].as_str();
            assert(keys@[i as int]@ == name@);
            assert(m.dom().contains(name@));
            match json_get(root, name) {
                Some(v) => {
                    entries.push(
                        CatalogEntry {
                            name: String::from_str(name),
                            platform: read_text(v, "platform"),
                            download: read_text(v, "download"),
                            require: read_requires(v),
                        },
                    );
                },
                None => {
                    assert(false);
                },
            }
            i = i + 1;
        }
        assert forall|k: Seq<char>| m.dom().contains(k) <==> exists|j: int|
            0 <= j < entries@.len() && #[trigger] entries@[j].name@ == k by {
            if m.dom().contains(k) {
                let j = choose|j: int| 0 <= j < keys@.len() && #[trigger] keys@[j]@ == k;
                assert(entries@[j].name@ == k);
            }
            if exists|j: int| 0 <= j < entries@.len() && #[trigger] entries@[j].name@ == k {
                let j = choose|j: int| 0 <= j < entries@.len() && #[trigger] entries@[j].name@ == k;
                assert(keys@[j]@ == k);
            }
        }
        Ok(RomCatalog { entries })
    }

    /// The `platform` of a set.
    pub fn platform_for(&self, name: &str) -> (r: Option<&str>)
        ensures
            r is Some <==> (entry_at(self.list(), name@) matches Some(i) && self.list()[i].platform is Some),
            r matches Some(p) ==> Some(p@) == opt_str(self.list()[entry_at(self.list(), name@)->0].platform),
    {
        match find_entry(&self.entries, name) {
            Some(i) => match &self.entries[i].platform {
                Some(p) => Some(p.as_str()),
                None => None,
            },
            None => None,
        }
    }

    /// Whether the catalog has an entry for `name`.
    pub fn contains(&self, name: &str) -> (r: bool)
        ensures
            r == (entry_at(self.list(), name@) is Some),
    {
        find_entry(&self.entries, name).is_some()
    }

    /// All entries.
    pub fn entries(&self) -> (r: &Vec<CatalogEntry>)
        ensures
            r@ == self.list(),
    {
        &self.entries
    }

    /// The entry of a set.
    pub fn entry(&self, name: &str) -> (r: Option<&CatalogEntry>)
        ensures
            r is Some <==> entry_at(self.list(), name@) is Some,
            r matches Some(e) ==> *e == self.list()[entry_at(self.list(), name@)->0],
    {
        match find_entry(&self.entries, name) {
            Some(i) => Some(&self.entries[i]),
            None => None,
        }
    }
}

/// In a parsed catalog a name is found exactly where the JSON object has it, and the entry
/// found is the one the object holds.
pub proof fn lookup_agrees_with_json(entries: Seq<CatalogEntry>, m: Map<Seq<char>, JsonView>, name: Seq<char>)
    requires
        entries_match(entries, m),
    ensures
        entry_at(entries, name) is Some <==> m.dom().contains(name),
        entry_at(entries, name) matches Some(i) ==> 0 <= i < entries.len() && entry_matches(
            entries[i],
            m[name],
        ),
{
    entry_from_finds(entries, name, 0);
    if m.dom().contains(name) {
        let j = choose|j: int| 0 <= j < entries.len() && #[trigger] entries[j].name@ == name;
        assert(entries[j].name@ == name);
    }
}

/// A search from `i` finds the first entry with the name, if there is one.
pub proof fn entry_from_finds(entries: Seq<CatalogEntry>, name: Seq<char>, i: int)
    requires
        0 <= i <= entries.len(),
    ensures
        entry_from(entries, name, i) is None ==> forall|j: int|
            i <= j < entries.len() ==> #[trigger] entries[j].name@ != name,
        entry_from(entries, name, i) matches Some(k) ==> i <= k < entries.len() && entries[k].name@
            == name && forall|j: int| i <= j < k ==> #[trigger] entries[j].name@ != name,
    decreases entries.len() - i,
{
    if i < entries.len() && entries[i].name@ != name {
        entry_from_finds(entries, name, i + 1);
    }
}

} // verus!
