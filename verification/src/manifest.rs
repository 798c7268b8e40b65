//! Rewriting the Cargo manifests of the hot project.
//!
//! A manifest is held as a TOML document: `TomlValue` has the shape of `toml::Value`, with
//! a table kept as its entries (each key once) and a float kept as its text.
use vstd::prelude::*;
use crate::path::{render_spec, HotPath, PathPart};
use crate::project::{bin_name_of, join_texts, layout_ok, HotProject, HotProjectFiles};

verus! {

/// A TOML value.
#[derive(Debug)]
pub enum TomlValue {
    String(String),
    Integer(i64),
    /// A float, as its shortest decimal text, which reads back as the same float except
    /// that a NaN loses its sign (as it does when `toml` writes it).
    Float(String),
    Boolean(bool),
    /// A date or time, as its text.
    Datetime(String),
    Array(Vec<TomlValue>),
    Table(Vec<TomlEntry>),
}

/// One key of a TOML table and its value.
#[derive(Debug)]
pub struct TomlEntry {
    pub key: String,
    pub value: TomlValue,
}

/// No key occurs twice in the table.
pub open spec fn keys_unique(t: Seq<TomlEntry>) -> bool {
    forall|i: int, j: int| 0 <= i < j < t.len() ==> t[i].key@ != t[j].key@
}

/// Every table, at any depth, holds each key once.
pub open spec fn maps_unique(v: TomlValue) -> bool
    decreases v,
{
    match v {
        TomlValue::Array(a) => forall|i: int| 0 <= i < a@.len() ==> maps_unique(#[trigger] a@[i]),
        TomlValue::Table(t) => keys_unique(t@) && forall|i: int|
            0 <= i < t@.len() ==> maps_unique(#[trigger] t@[i].value),
        _ => true,
    }
}

/// A parsed TOML document, as the `toml` crate holds it.
#[verifier::external_type_specification]
#[verifier::external_body]
pub struct ExTomlDocument(toml::Value);

/// What `toml::from_str::<toml::Value>` reads from the text, with each value taken one for
/// one into a `TomlValue` (a table's entries in the order of its map); `None` where the
/// text is not a TOML document.
pub uninterp spec fn toml_document(text: Seq<char>) -> Option<TomlValue>;

/// What `toml::to_string` writes for the `toml::Value` that the value stands for; `None`
/// where it cannot write it, or where the text of a float or of a date or time does not
/// read back.
pub uninterp spec fn toml_text(v: TomlValue) -> Option<Seq<char>>;

/// Takes a `toml::Value` one for one into a `TomlValue` (a float or a date or time as its
/// text).
#[verifier::external_body]
fn toml_value_of(v: toml::Value) -> TomlValue {
    match v {
        toml::Value::String(s) => TomlValue::String(s),
        toml::Value::Integer(i) => TomlValue::Integer(i),
        toml::Value::Float(f) => TomlValue::Float(f.to_string()),
        toml::Value::Boolean(b) => TomlValue::Boolean(b),
        toml::Value::Datetime(d) => TomlValue::Datetime(d.to_string()),
        toml::Value::Array(a) => TomlValue::Array(a.into_iter().map(toml_value_of).collect()),
        toml::Value::Table(t) => TomlValue::Table(
            t.into_iter().map(|(key, value)| TomlEntry { key, value: toml_value_of(value) }).collect(),
        ),
    }
}

/// Takes a `TomlValue` one for one back into a `toml::Value`; `None` where the text of a
/// float or of a date or time does not read back.
#[verifier::external_body]
fn toml_value_for(v: TomlValue) -> Option<toml::Value> {
    Some(match v {
        TomlValue::String(s) => toml::Value::String(s),
        TomlValue::Integer(i) => toml::Value::Integer(i),
        TomlValue::Float(f) => toml::Value::Float(f.parse().ok()?),
        TomlValue::Boolean(b) => toml::Value::Boolean(b),
        TomlValue::Datetime(d) => toml::Value::Datetime(d.parse().ok()?),
        TomlValue::Array(a) => toml::Value::Array(a.into_iter().map(toml_value_for).collect::<Option<_>>()?),
        TomlValue::Table(t) => toml::Value::Table(
            t.into_iter().map(|e| Some((e.key, toml_value_for(e.value)?))).collect::<Option<_>>()?,
        ),
    })
}

/// Parses a TOML document with `toml::from_str::<toml::Value>`: the result is the named
/// `toml_document(text)`, and every table in it holds each key once (the `toml` crate keeps
/// a table in a map keyed by the key).
#[verifier::external_body]
fn parse_toml(text: &str) -> (r: Option<TomlValue>)
    ensures
        r == toml_document(text@),
        r matches Some(v) ==> maps_unique(v),
{
    toml::from_str::<toml::Value>(text).ok().map(toml_value_of)
}

/// Writes a value as TOML text with `toml::to_string`: the result is the named
/// `toml_text(v)`.
#[verifier::external_body]
fn render_toml(v: TomlValue) -> (r: Option<String>)
    ensures
        match r {
            Some(s) => toml_text(v) == Some(s@),
            None => toml_text(v) is None,
        },
{
    toml_value_for(v).and_then(|t| toml::to_string(&t).ok())
}

/// Whether the table has the key.
pub open spec fn has_key(t: Seq<TomlEntry>, k: Seq<char>) -> bool {
    exists|i: int| 0 <= i < t.len() && t[i].key@ == k
}

/// The value of the key in the table (a table holds each key once).
pub open spec fn get_key(t: Seq<TomlEntry>, k: Seq<char>) -> Option<TomlValue> {
    if has_key(t, k) {
        Some(t[choose|i: int| 0 <= i < t.len() && t[i].key@ == k].value)
    } else {
        None
    }
}

/// The value is the string `s`.
pub open spec fn str_is(v: TomlValue, s: Seq<char>) -> bool {
    v matches TomlValue::String(x) && x@ == s
}

/// The value is a table whose keys occur once.
pub open spec fn is_map(v: TomlValue) -> bool {
    v matches TomlValue::Table(t) && keys_unique(t@)
}

/// The text of the path `text` joined onto the path whose text is `base`, as `Path::join`
/// writes it on Unix: an absolute `text` stands alone; otherwise it follows `base`, with a
/// `/` between them unless `base` is empty or already ends with one.
pub open spec fn join_path_text(base: Seq<char>, text: Seq<char>) -> Seq<char> {
    if text.len() > 0 && text[0] == '/' {
        text
    } else if base.len() > 0 && base.last() != '/' {
        base + seq!['/'] + text
    } else {
        base + text
    }
}

/// The path text of a dependency, made absolute against `base`: joined onto it as
/// written.
pub open spec fn rebased(base: Seq<PathPart>, text: Seq<char>) -> Seq<char> {
    join_path_text(render_spec(base), text)
}

/// A dependency after its `path` is made absolute: when it is a table with a string
/// `path`, that string is rebased and nothing else changes; any other value is kept.
pub open spec fn dep_rebased(old: TomlValue, new: TomlValue, base: Seq<PathPart>) -> bool {
    match old {
        TomlValue::Table(t) => if has_key(t@, "path"@) && get_key(t@, "path"@)->Some_0 is String {
            &&& new matches TomlValue::Table(n)
            &&& keys_unique(n@)
            &&& forall|k: Seq<char>| k != "path"@ ==> get_key(n@, k) == get_key(t@, k)
            &&& get_key(n@, "path"@) matches Some(p) && str_is(
                p,
                rebased(base, get_key(t@, "path"@)->Some_0->String_0@),
            )
        } else {
            new == old
        },
        _ => new == old,
    }
}

/// A dependency table after each dependency's `path` is made absolute against `base`.
pub open spec fn deps_rebased(old: TomlValue, new: TomlValue, base: Seq<PathPart>) -> bool {
    match old {
        TomlValue::Table(t) => {
            &&& new matches TomlValue::Table(n)
            &&& n@.len() == t@.len()
            &&& forall|i: int|
                0 <= i < t@.len() ==> n@[i].key@ == t@[i].key@ && dep_rebased(
                    #[trigger] t@[i].value,
                    n@[i].value,
                    base,
                )
        },
        _ => new == old,
    }
}

/// The dependencies can be read: each dependency that is a table holds each key once.
pub open spec fn deps_ok(v: TomlValue) -> bool {
    v matches TomlValue::Table(t) ==> forall|i: int|
        0 <= i < t@.len() ==> ((#[trigger] t@[i]).value is Table ==> is_map(t@[i].value))
}

/// The value of `k` in `old` and `new` is related by `rel`, or is absent from both.
pub open spec fn entry_related(
    old: Seq<TomlEntry>,
    new: Seq<TomlEntry>,
    k: Seq<char>,
    rel: spec_fn(TomlValue, TomlValue) -> bool,
) -> bool {
    match get_key(old, k) {
        None => get_key(new, k) is None,
        Some(o) => get_key(new, k) matches Some(n) && rel(o, n),
    }
}

proof fn lemma_get_at(t: Seq<TomlEntry>, i: int)
    requires
        keys_unique(t),
        0 <= i < t.len(),
    ensures
        get_key(t, t[i].key@) == Some(t[i].value),
{
    let c = choose|j: int| 0 <= j < t.len() && t[j].key@ == t[i].key@;
    assert(c == i) by {
        if c < i {
            assert(t[c].key@ != t[i].key@);
        } else if c > i {
            assert(t[i].key@ != t[c].key@);
        }
    }
}

proof fn lemma_update(t: Seq<TomlEntry>, i: int, e: TomlEntry)
    requires
        keys_unique(t),
        0 <= i < t.len(),
        e.key@ == t[i].key@,
    ensures
        keys_unique(t.update(i, e)),
        get_key(t.update(i, e), e.key@) == Some(e.value),
        forall|k: Seq<char>| k != e.key@ ==> get_key(t.update(i, e), k) == get_key(t, k),
{
    let u = t.update(i, e);
    assert forall|a: int, b: int| 0 <= a < b < u.len() implies u[a].key@ != u[b].key@ by {
        assert(t[a].key@ != t[b].key@);
    }
    lemma_get_at(u, i);
    assert forall|k: Seq<char>| k != e.key@ implies get_key(u, k) == get_key(t, k) by {
        if has_key(t, k) {
            let c = choose|j: int| 0 <= j < t.len() && t[j].key@ == k;
            lemma_get_at(t, c);
            lemma_get_at(u, c);
        } else {
            assert(!has_key(u, k)) by {
                if has_key(u, k) {
                    let c = choose|j: int| 0 <= j < u.len() && u[j].key@ == k;
                    assert(t[c].key@ == k);
                }
            }
        }
    }
}

proof fn lemma_push(t: Seq<TomlEntry>, e: TomlEntry)
    requires
        keys_unique(t),
        !has_key(t, e.key@),
    ensures
        keys_unique(t.push(e)),
        get_key(t.push(e), e.key@) == Some(e.value),
        forall|k: Seq<char>| k != e.key@ ==> get_key(t.push(e), k) == get_key(t, k),
{
    let u = t.push(e);
    assert forall|a: int, b: int| 0 <= a < b < u.len() implies u[a].key@ != u[b].key@ by {
        if b == t.len() {
            assert(u[a] == t[a]);
        }
    }
    lemma_get_at(u, t.len() as int);
    assert forall|k: Seq<char>| k != e.key@ implies get_key(u, k) == get_key(t, k) by {
        if has_key(t, k) {
            let c = choose|j: int| 0 <= j < t.len() && t[j].key@ == k;
            lemma_get_at(t, c);
            lemma_get_at(u, c);
        } else {
            assert(!has_key(u, k)) by {
                if has_key(u, k) {
                    let c = choose|j: int| 0 <= j < u.len() && u[j].key@ == k;
                    assert(t[c].key@ == k);
                }
            }
        }
    }
}

proof fn lemma_remove(t: Seq<TomlEntry>, i: int)
    requires
        keys_unique(t),
        0 <= i < t.len(),
    ensures
        keys_unique(t.remove(i)),
        get_key(t.remove(i), t[i].key@) is None,
        forall|k: Seq<char>| k != t[i].key@ ==> get_key(t.remove(i), k) == get_key(t, k),
{
    let u = t.remove(i);
    assert forall|a: int, b: int| 0 <= a < b < u.len() implies u[a].key@ != u[b].key@ by {
        let aa = if a < i { a } else { a + 1 };
        let bb = if b < i { b } else { b + 1 };
        assert(u[a] == t[aa]);
        assert(u[b] == t[bb]);
    }
    assert(!has_key(u, t[i].key@)) by {
        if has_key(u, t[i].key@) {
            let c = choose|j: int| 0 <= j < u.len() && u[j].key@ == t[i].key@;
            let cc = if c < i { c } else { c + 1 };
            assert(u[c] == t[cc]);
        }
    }
    assert forall|k: Seq<char>| k != t[i].key@ implies get_key(u, k) == get_key(t, k) by {
        if has_key(t, k) {
            let c = choose|j: int| 0 <= j < t.len() && t[j].key@ == k;
            lemma_get_at(t, c);
            assert(c != i);
            let cu = if c < i { c } else { c - 1 };
            assert(u[cu] == t[c]);
            lemma_get_at(u, cu);
        } else {
            assert(!has_key(u, k)) by {
                if has_key(u, k) {
                    let c = choose|j: int| 0 <= j < u.len() && u[j].key@ == k;
                    let cc = if c < i { c } else { c + 1 };
                    assert(u[c] == t[cc]);
                }
            }
        }
    }
}

proof fn lemma_key_literals()
    ensures
        "name"@ != "path"@,
        "crate-type"@ != "path"@,
        "crate-type"@ != "name"@,
        "members"@ != "dependencies"@,
        "lib"@ != "bin"@,
        "package"@ != "lib"@,
        "package"@ != "bin"@,
        "workspace"@ != "dependencies"@,
        "workspace"@ != "lib"@,
        "workspace"@ != "bin"@,
        "dependencies"@ != "lib"@,
        "dependencies"@ != "bin"@,
        "package"@ != "workspace"@,
        "package"@ != "dependencies"@,
{
    reveal_strlit("name");
    reveal_strlit("path");
    reveal_strlit("crate-type");
    reveal_strlit("members");
    reveal_strlit("dependencies");
    reveal_strlit("lib");
    reveal_strlit("bin");
    reveal_strlit("package");
    reveal_strlit("workspace");
    assert("name"@[0] != "path"@[0]);
    assert("crate-type"@[0] != "path"@[0]);
    assert("crate-type"@[0] != "name"@[0]);
    assert("members"@[0] != "dependencies"@[0]);
    assert("lib"@[0] != "bin"@[0]);
    assert("package"@[0] != "lib"@[0]);
    assert("package"@[0] != "bin"@[0]);
    assert("workspace"@[0] != "dependencies"@[0]);
    assert("workspace"@[0] != "lib"@[0]);
    assert("workspace"@[0] != "bin"@[0]);
    assert("dependencies"@[0] != "lib"@[0]);
    assert("dependencies"@[0] != "bin"@[0]);
    assert("package"@[0] != "workspace"@[0]);
    assert("package"@[0] != "dependencies"@[0]);
}

fn str_value(s: &str) -> (v: TomlValue)
    ensures str_is(v, s@),
{
    TomlValue::String(String::from_str(s))
}

/// The slot of `key` in the table, if the table has it.
pub fn key_index(t: &Vec<TomlEntry>, key: &str) -> (r: Option<usize>)
    ensures
        match r {
            Some(i) => i < t@.len() && t@[i as int].key@ == key@,
            None => !has_key(t@, key@),
        },
{
    let n = t.len();
    let k = String::from_str(key);
    let mut i: usize = 0;
    while i < n
        invariant
            i <= n,
            n == t@.len(),
            k@ == key@,
            forall|j: int| 0 <= j < i ==> t@[j].key@ != key@,
        decreases n - i,
    {
        if t[i].key.eq(&k) {
            return Some(i);
        }
        i = i + 1;
    }
    None
}

/// Replaces the value of the entry in slot `i`, keeping its key.
fn set_value(t: &mut Vec<TomlEntry>, i: usize, value: TomlValue)
    requires
        i < old(t)@.len(),
        keys_unique(old(t)@),
    ensures
        keys_unique(final(t)@),
        final(t)@.len() == old(t)@.len(),
        forall|j: int| 0 <= j < final(t)@.len() ==> #[trigger] final(t)@[j].key@ == old(t)@[j].key@,
        forall|j: int| 0 <= j < final(t)@.len() && j != i ==> #[trigger] final(t)@[j] == old(t)@[j],
        final(t)@[i as int].value == value,
        get_key(final(t)@, old(t)@[i as int].key@) == Some(value),
        forall|k: Seq<char>|
            k != old(t)@[i as int].key@ ==> get_key(final(t)@, k) == get_key(old(t)@, k),
{
    let ghost before = t@;
    let e = t.remove(i);
    let e2 = TomlEntry { key: e.key, value };
    t.insert(i, e2);
    assert(t@ =~= before.update(i as int, e2));
    proof {
        lemma_update(before, i as int, e2);
    }
}

/// Sets `key` to `value` (as `toml::map::Map::insert`): replaces its value when the table
/// has the key, else adds the entry.
pub fn table_insert(t: &mut Vec<TomlEntry>, key: &str, value: TomlValue)
    requires keys_unique(old(t)@),
    ensures
        keys_unique(final(t)@),
        get_key(final(t)@, key@) == Some(value),
        forall|k: Seq<char>| k != key@ ==> get_key(final(t)@, k) == get_key(old(t)@, k),
{
    match key_index(t, key) {
        Some(i) => set_value(t, i, value),
        None => {
            let ghost before = t@;
            let e = TomlEntry { key: String::from_str(key), value };
            t.push(e);
            proof {
                lemma_push(before, e);
            }
        },
    }
}

/// Removes `key` from the table (as `toml::map::Map::remove`).
pub fn table_remove(t: &mut Vec<TomlEntry>, key: &str)
    requires keys_unique(old(t)@),
    ensures
        keys_unique(final(t)@),
        get_key(final(t)@, key@) is None,
        forall|k: Seq<char>| k != key@ ==> get_key(final(t)@, k) == get_key(old(t)@, k),
{
    match key_index(t, key) {
        Some(i) => {
            let ghost before = t@;
            t.remove(i);
            proof {
                lemma_remove(before, i as int);
            }
        },
        None => {},
    }
}

/// Joins the path text `text` onto the path text `base` (see `join_path_text`).
fn join_text_path(base: &str, text: &str) -> (r: String)
    ensures r@ == join_path_text(base@, text@),
{
    let tn = text.unicode_len();
    if tn > 0 && text.get_char(0) == '/' {
        return String::from_str(text);
    }
    let bn = base.unicode_len();
    let mut r = String::from_str(base);
    if bn > 0 && base.get_char(bn - 1) != '/' {
        proof {
            reveal_strlit("/");
        }
        r.append("/");
    }
    r.append(text);
    r
}

/// Makes the `path` of one dependency absolute against `base` (see `dep_rebased`).
pub fn rebase_dep(dep: TomlValue, base: &HotPath) -> (r: TomlValue)
    requires dep is Table ==> is_map(dep),
    ensures dep_rebased(dep, r, base@),
{
    match dep {
        TomlValue::Table(mut t) => {
            match key_index(&t, "path") {
                Some(i) => {
                    proof {
                        lemma_get_at(t@, i as int);
                    }
                    let text = match &t[i].value {
                        TomlValue::String(s) => Some(join_text_path(base.to_text().as_str(), s.as_str())),
                        _ => None,
                    };
                    match text {
                        Some(text) => {
                            set_value(&mut t, i, TomlValue::String(text));
                            TomlValue::Table(t)
                        },
                        None => TomlValue::Table(t),
                    }
                },
                None => TomlValue::Table(t),
            }
        },
        other => other,
    }
}

/// Makes the `path` of every dependency in the table absolute against `base` (see
/// `deps_rebased`); a value that is not a table is kept.
pub fn rebase_deps(deps: TomlValue, base: &HotPath) -> (r: TomlValue)
    requires deps_ok(deps),
    ensures deps_rebased(deps, r, base@),
{
    match deps {
        TomlValue::Table(t) => {
            let ghost old_t = t@;
            let mut rest = t;
            let mut out: Vec<TomlEntry> = Vec::new();
            let n = rest.len();
            let mut i: usize = 0;
            while i < n
                invariant
                    i <= n,
                    n == old_t.len(),
                    rest@ == old_t.subrange(i as int, n as int),
                    out@.len() == i,
                    forall|j: int|
                        0 <= j < i ==> out@[j].key@ == old_t[j].key@ && dep_rebased(
                            #[trigger] old_t[j].value,
                            out@[j].value,
                            base@,
                        ),
                    forall|j: int|
                        0 <= j < old_t.len() ==> ((#[trigger] old_t[j]).value is Table ==> is_map(
                            old_t[j].value,
                        )),
                decreases n - i,
            {
                let e = rest.remove(0);
                assert(e == old_t[i as int]);
                let v = rebase_dep(e.value, base);
                out.push(TomlEntry { key: e.key, value: v });
                assert(rest@ =~= old_t.subrange(i + 1, n as int));
                i = i + 1;
            }
            TomlValue::Table(out)
        },
        other => other,
    }
}


/// Takes the value out of slot `i`, leaving `false` in its place under the same key.
fn take_value(t: &mut Vec<TomlEntry>, i: usize) -> (v: TomlValue)
    requires
        i < old(t)@.len(),
        keys_unique(old(t)@),
    ensures
        v == old(t)@[i as int].value,
        keys_unique(final(t)@),
        final(t)@.len() == old(t)@.len(),
        final(t)@[i as int].key@ == old(t)@[i as int].key@,
        forall|k: Seq<char>|
            k != old(t)@[i as int].key@ ==> get_key(final(t)@, k) == get_key(old(t)@, k),
{
    let ghost before = t@;
    let e = t.remove(i);
    let e2 = TomlEntry { key: e.key, value: TomlValue::Boolean(false) };
    t.insert(i, e2);
    assert(t@ =~= before.update(i as int, e2));
    proof {
        lemma_update(before, i as int, e2);
    }
    e.value
}

/// A `members` list after it is replaced by `members` when it is an array; any other value
/// is kept.
pub open spec fn members_set(old: TomlValue, new: TomlValue, members: Seq<Seq<char>>) -> bool {
    if old is Array {
        new matches TomlValue::Array(a) && a@.len() == members.len() && forall|i: int|
            0 <= i < members.len() ==> str_is(#[trigger] a@[i], members[i])
    } else {
        new == old
    }
}

/// A `workspace` section after its `members` are set to `members` (when they are an
/// array) and its dependencies are made absolute against `base`; a value that is not a
/// table is kept.
pub open spec fn workspace_rewritten(
    old: TomlValue,
    new: TomlValue,
    members: Seq<Seq<char>>,
    base: Seq<PathPart>,
) -> bool {
    match old {
        TomlValue::Table(w) => {
            &&& new matches TomlValue::Table(n)
            &&& keys_unique(n@)
            &&& entry_related(
                w@,
                n@,
                "members"@,
                |o: TomlValue, m: TomlValue| members_set(o, m, members),
            )
            &&& entry_related(
                w@,
                n@,
                "dependencies"@,
                |o: TomlValue, m: TomlValue| deps_rebased(o, m, base),
            )
            &&& forall|k: Seq<char>|
                k != "members"@ && k != "dependencies"@ ==> get_key(n@, k) == get_key(w@, k)
        },
        _ => new == old,
    }
}

/// What the rewrites need of a manifest: its tables hold each key once, down to the
/// dependencies.
pub open spec fn manifest_ok(m: TomlValue) -> bool {
    m matches TomlValue::Table(t) ==> {
        &&& keys_unique(t@)
        &&& get_key(t@, "dependencies"@) matches Some(d) ==> deps_ok(d)
        &&& get_key(t@, "workspace"@) matches Some(w) ==> (w is Table ==> {
            &&& is_map(w)
            &&& get_key(w->Table_0@, "dependencies"@) matches Some(d) ==> deps_ok(d)
        })
        &&& get_key(t@, "package"@) matches Some(p) ==> (p is Table ==> is_map(p))
    }
}

/// Sets the `members` of a workspace section to the given names, when they are an array.
fn set_members(w: TomlValue, members: Vec<String>) -> (r: TomlValue)
    ensures
        members_set(w, r, members@.map_values(|m: String| m@)),
{
    match w {
        TomlValue::Array(_) => {
            let mut a: Vec<TomlValue> = Vec::new();
            let n = members.len();
            let mut rest = members;
            let ghost ms = rest@.map_values(|m: String| m@);
            let mut i: usize = 0;
            while i < n
                invariant
                    i <= n,
                    n == ms.len(),
                    rest@.map_values(|m: String| m@) == ms.subrange(i as int, n as int),
                    rest@.len() == n - i,
                    a@.len() == i,
                    forall|j: int| 0 <= j < i ==> str_is(#[trigger] a@[j], ms[j]),
                decreases n - i,
            {
                let ghost before = rest@;
                let m = rest.remove(0);
                assert(m@ == ms[i as int]) by {
                    assert(before.map_values(|m: String| m@)[0] == before[0]@);
                    assert(ms.subrange(i as int, n as int)[0] == ms[i as int]);
                }
                a.push(TomlValue::String(m));
                assert(rest@.map_values(|m: String| m@) =~= ms.subrange(i + 1, n as int)) by {
                    assert(rest@ =~= before.subrange(1, before.len() as int));
                    let rv = rest@.map_values(|m: String| m@);
                    let tail = ms.subrange(i + 1, n as int);
                    assert forall|j: int| 0 <= j < rest@.len() implies #[trigger] rv[j] == tail[j] by {
                        assert(rest@[j] == before[j + 1]);
                        assert(before.map_values(|m: String| m@)[j + 1] == before[j + 1]@);
                        assert(ms.subrange(i as int, n as int)[j + 1] == ms[i + 1 + j]);
                    }
                }
                i = i + 1;
            }
            TomlValue::Array(a)
        },
        other => other,
    }
}

/// Rewrites a workspace section: `members` (when an array) set to `members`, and the
/// dependencies made absolute against `base`.
fn rewrite_workspace(w: TomlValue, members: Vec<String>, base: &HotPath) -> (r: TomlValue)
    requires
        w is Table ==> is_map(w),
        w is Table ==> (get_key(w->Table_0@, "dependencies"@) matches Some(d) ==> deps_ok(d)),
    ensures workspace_rewritten(w, r, members@.map_values(|m: String| m@), base@),
{
    match w {
        TomlValue::Table(mut t) => {
            proof {
                lemma_key_literals();
            }
            let ghost t0 = t@;
            match key_index(&t, "members") {
                Some(i) => {
                    proof {
                        lemma_get_at(t@, i as int);
                    }
                    let v = take_value(&mut t, i);
                    let nv = set_members(v, members);
                    set_value(&mut t, i, nv);
                },
                None => {},
            }
            let ghost t1 = t@;
            match key_index(&t, "dependencies") {
                Some(i) => {
                    proof {
                        lemma_get_at(t@, i as int);
                    }
                    let v = take_value(&mut t, i);
                    let nv = rebase_deps(v, base);
                    set_value(&mut t, i, nv);
                },
                None => {},
            }
            assert(get_key(t@, "members"@) == get_key(t1, "members"@));
            let r = TomlValue::Table(t);
            r
        },
        other => other,
    }
}

/// The `[lib]` section of the hot project: a `cdylib` and `rlib` named `name`, built from
/// the source at `path`.
pub open spec fn lib_section_is(v: TomlValue, name: Seq<char>, path: Seq<char>) -> bool {
    &&& v matches TomlValue::Table(t)
    &&& keys_unique(t@)
    &&& t@.len() == 3
    &&& get_key(t@, "crate-type"@) matches Some(c) && c matches TomlValue::Array(a) && a@.len()
        == 2 && str_is(a@[0], "cdylib"@) && str_is(a@[1], "rlib"@)
    &&& get_key(t@, "path"@) matches Some(p) && str_is(p, path)
    &&& get_key(t@, "name"@) matches Some(n) && str_is(n, name)
}

/// A `[[bin]]` entry: a binary named `name` built from the source at `path`.
pub open spec fn bin_entry_is(v: TomlValue, name: Seq<char>, path: Seq<char>) -> bool {
    &&& v matches TomlValue::Table(t)
    &&& keys_unique(t@)
    &&& t@.len() == 2
    &&& get_key(t@, "name"@) matches Some(n) && str_is(n, name)
    &&& get_key(t@, "path"@) matches Some(p) && str_is(p, path)
}

fn two_entries(k1: &str, v1: TomlValue, k2: &str, v2: TomlValue) -> (r: Vec<TomlEntry>)
    requires k1@ != k2@,
    ensures
        keys_unique(r@),
        r@.len() == 2,
        get_key(r@, k1@) == Some(v1),
        get_key(r@, k2@) == Some(v2),
{
    let mut t: Vec<TomlEntry> = Vec::new();
    let e1 = TomlEntry { key: String::from_str(k1), value: v1 };
    t.push(e1);
    let e2 = TomlEntry { key: String::from_str(k2), value: v2 };
    let ghost one = t@;
    t.push(e2);
    proof {
        lemma_get_at(one, 0);
        assert(!has_key(one, k2@)) by {
            if has_key(one, k2@) {
                let c = choose|j: int| 0 <= j < one.len() && one[j].key@ == k2@;
                assert(c == 0);
            }
        }
        lemma_push(one, e2);
    }
    t
}

fn bin_entry(name: String, path: String) -> (v: TomlValue)
    ensures bin_entry_is(v, name@, path@),
{
    proof {
        lemma_key_literals();
    }
    let t = two_entries("name", TomlValue::String(name), "path", TomlValue::String(path));
    TomlValue::Table(t)
}

fn lib_section(name: String, path: String) -> (v: TomlValue)
    ensures lib_section_is(v, name@, path@),
{
    proof {
        lemma_key_literals();
    }
    let mut kinds: Vec<TomlValue> = Vec::new();
    kinds.push(str_value("cdylib"));
    kinds.push(str_value("rlib"));
    let mut t = two_entries("crate-type", TomlValue::Array(kinds), "path", TomlValue::String(path));
    let ghost two = t@;
    let e = TomlEntry { key: String::from_str("name"), value: TomlValue::String(name) };
    proof {
        assert(!has_key(two, "name"@)) by {
            if has_key(two, "name"@) {
                let c = choose|j: int| 0 <= j < two.len() && two[j].key@ == "name"@;
                lemma_get_at(two, c);
            }
        }
    }
    t.push(e);
    proof {
        lemma_push(two, e);
    }
    TomlValue::Table(t)
}


/// The hot project's manifest, from the user's: the dependencies' paths made absolute
/// against the crate root, the workspace's members emptied and its dependencies' paths
/// made absolute, a `[lib]` section that builds the crate as a dynamic library, and two
/// binaries, the hot build of the app and the wrapper; all else as it was. A manifest that
/// is not a table is kept.
pub open spec fn hot_manifest(p: &HotProject, old: TomlValue, new: TomlValue) -> bool {
    match old {
        TomlValue::Table(t) => {
            &&& new matches TomlValue::Table(n)
            &&& keys_unique(n@)
            &&& entry_related(
                t@,
                n@,
                "dependencies"@,
                |o: TomlValue, m: TomlValue| deps_rebased(o, m, p.root_dir@),
            )
            &&& entry_related(
                t@,
                n@,
                "workspace"@,
                |o: TomlValue, m: TomlValue|
                    workspace_rewritten(o, m, Seq::<Seq<char>>::empty(), p.root_dir@),
            )
            &&& get_key(n@, "lib"@) matches Some(l) && lib_section_is(
                l,
                "hotfnl_"@ + bin_name_of(p),
                render_spec(p.src_path@),
            )
            &&& get_key(n@, "bin"@) matches Some(b) && b matches TomlValue::Array(a) && a@.len()
                == 2 && bin_entry_is(a@[0], "hotfnl_"@ + bin_name_of(p), render_spec(p.src_path@))
                && bin_entry_is(
                a@[1],
                "hotfnlw_"@ + bin_name_of(p),
                render_spec(join_texts(p.hot_dir@, "wrapper.rs"@)),
            )
            &&& forall|k: Seq<char>|
                k != "dependencies"@ && k != "workspace"@ && k != "lib"@ && k != "bin"@
                    ==> get_key(n@, k) == get_key(t@, k)
        },
        _ => new == old,
    }
}

/// The package section after its `name` gets the hot prefix.
pub open spec fn package_renamed(old: TomlValue, new: TomlValue) -> bool {
    match old {
        TomlValue::Table(q) => {
            &&& new matches TomlValue::Table(r)
            &&& keys_unique(r@)
            &&& get_key(r@, "name"@) matches Some(v) && str_is(
                v,
                "hotfnl_"@ + get_key(q@, "name"@)->Some_0->String_0@,
            )
            &&& forall|k: Seq<char>| k != "name"@ ==> get_key(r@, k) == get_key(q@, k)
        },
        _ => new == old,
    }
}

/// The workspace manifest of the hot project, from the user's: no `[lib]` or `[[bin]]`,
/// the package renamed with the hot prefix, the workspace's members set to the hot
/// project's directory, and the dependencies' paths (of the workspace and of the package)
/// made absolute against the workspace root; all else as it was.
pub open spec fn workspace_manifest(p: &HotProject, old: TomlValue, new: TomlValue) -> bool {
    match old {
        TomlValue::Table(t) => {
            &&& new matches TomlValue::Table(n)
            &&& keys_unique(n@)
            &&& get_key(n@, "lib"@) is None
            &&& get_key(n@, "bin"@) is None
            &&& entry_related(
                t@,
                n@,
                "package"@,
                |o: TomlValue, m: TomlValue| package_renamed(o, m),
            )
            &&& entry_related(
                t@,
                n@,
                "workspace"@,
                |o: TomlValue, m: TomlValue|
                    workspace_rewritten(o, m, seq!["./"@ + bin_name_of(p)], p.workspace_dir@),
            )
            &&& entry_related(
                t@,
                n@,
                "dependencies"@,
                |o: TomlValue, m: TomlValue| deps_rebased(o, m, p.workspace_dir@),
            )
            &&& forall|k: Seq<char>|
                k != "lib"@ && k != "bin"@ && k != "package"@ && k != "workspace"@ && k
                    != "dependencies"@ ==> get_key(n@, k) == get_key(t@, k)
        },
        _ => new == old,
    }
}

/// What renaming the package needs: a package section that is a table has a string name.
pub open spec fn package_named(m: TomlValue) -> bool {
    m matches TomlValue::Table(t) ==> (get_key(t@, "package"@) matches Some(p) ==> (
    p matches TomlValue::Table(q) ==> (get_key(q@, "name"@) matches Some(n) && n is String)))
}

fn concat(a: &str, b: &str) -> (s: String)
    ensures s@ == a@ + b@,
{
    let mut s = String::from_str(a);
    s.append(b);
    s
}

impl HotProject {
    /// Rewrites the user's `Cargo.toml` for the hot project (see `hot_manifest`).
    pub fn cargo_toml_rewrite(&self, manifest: TomlValue) -> (r: TomlValue)
        requires
            layout_ok(self),
            manifest_ok(manifest),
        ensures hot_manifest(self, manifest, r),
    {
        proof {
            lemma_key_literals();
        }
        match manifest {
            TomlValue::Table(mut t) => {
                let ghost t0 = t@;
                match key_index(&t, "dependencies") {
                    Some(i) => {
                        proof {
                            lemma_get_at(t@, i as int);
                        }
                        let v = take_value(&mut t, i);
                        let nv = rebase_deps(v, &self.root_dir);
                        set_value(&mut t, i, nv);
                    },
                    None => {},
                }
                let ghost t1 = t@;
                match key_index(&t, "workspace") {
                    Some(i) => {
                        proof {
                            lemma_get_at(t@, i as int);
                        }
                        let v = take_value(&mut t, i);
                        let none: Vec<String> = Vec::new();
                        assert(none@.map_values(|m: String| m@) =~= Seq::<Seq<char>>::empty());
                        let nv = rewrite_workspace(v, none, &self.root_dir);
                        set_value(&mut t, i, nv);
                    },
                    None => {},
                }
                let ghost t2 = t@;
                let files = self.files();
                let src = self.src_path.to_text();
                let lib = lib_section(files.lib().name(), src);
                table_insert(&mut t, "lib", lib);
                let ghost t3 = t@;
                let mut bins: Vec<TomlValue> = Vec::new();
                bins.push(bin_entry(files.hotbin().name(), self.src_path.to_text()));
                bins.push(bin_entry(files.wrapper().name(), files.wrapper().src_path().to_text()));
                table_insert(&mut t, "bin", TomlValue::Array(bins));
                assert(get_key(t@, "dependencies"@) == get_key(t1, "dependencies"@));
                assert(get_key(t@, "workspace"@) == get_key(t2, "workspace"@));
                assert(get_key(t@, "lib"@) == get_key(t3, "lib"@));
                TomlValue::Table(t)
            },
            other => other,
        }
    }

    /// Rewrites the user's workspace `Cargo.toml` for the hot project (see
    /// `workspace_manifest`).
    pub fn cargo_workspace_rewrite(&self, manifest: TomlValue) -> (r: TomlValue)
        requires
            layout_ok(self),
            manifest_ok(manifest),
            package_named(manifest),
        ensures workspace_manifest(self, manifest, r),
    {
        proof {
            lemma_key_literals();
            reveal_strlit("./");
        }
        match manifest {
            TomlValue::Table(mut t) => {
                let ghost t0 = t@;
                table_remove(&mut t, "lib");
                table_remove(&mut t, "bin");
                let ghost t1 = t@;
                match key_index(&t, "package") {
                    Some(i) => {
                        proof {
                            lemma_get_at(t@, i as int);
                        }
                        let v = take_value(&mut t, i);
                        let nv = match v {
                            TomlValue::Table(mut q) => {
                                let ghost q0 = q@;
                                let k = key_index(&q, "name").unwrap();
                                proof {
                                    lemma_get_at(q@, k as int);
                                }
                                let renamed = match &q[k].value {
                                    TomlValue::String(s) => concat("hotfnl_", s.as_str()),
                                    _ => String::new(),
                                };
                                table_insert(&mut q, "name", TomlValue::String(renamed));
                                TomlValue::Table(q)
                            },
                            other => other,
                        };
                        set_value(&mut t, i, nv);
                    },
                    None => {},
                }
                let ghost t2 = t@;
                match key_index(&t, "workspace") {
                    Some(i) => {
                        proof {
                            lemma_get_at(t@, i as int);
                        }
                        let v = take_value(&mut t, i);
                        let member = concat("./", self.files().bin_name().as_str());
                        let ghost mv = member@;
                        let mut members: Vec<String> = Vec::new();
                        members.push(member);
                        assert(members@.map_values(|m: String| m@) =~= seq![mv]);
                        let nv = rewrite_workspace(v, members, &self.workspace_dir);
                        set_value(&mut t, i, nv);
                    },
                    None => {},
                }
                let ghost t3 = t@;
                match key_index(&t, "dependencies") {
                    Some(i) => {
                        proof {
                            lemma_get_at(t@, i as int);
                        }
                        let v = take_value(&mut t, i);
                        let nv = rebase_deps(v, &self.workspace_dir);
                        set_value(&mut t, i, nv);
                    },
                    None => {},
                }
                assert(get_key(t@, "package"@) == get_key(t2, "package"@));
                assert(get_key(t@, "workspace"@) == get_key(t3, "workspace"@));
                TomlValue::Table(t)
            },
            other => other,
        }
    }
}

proof fn lemma_get_unique(t: Seq<TomlEntry>, k: Seq<char>)
    requires
        forall|i: int| 0 <= i < t.len() ==> maps_unique(#[trigger] t[i].value),
    ensures
        get_key(t, k) matches Some(v) ==> maps_unique(v),
{
    if has_key(t, k) {
        let c = choose|j: int| 0 <= j < t.len() && t[j].key@ == k;
        assert(maps_unique(t[c].value));
    }
}

proof fn lemma_unique_is_map(v: TomlValue)
    requires maps_unique(v),
    ensures
        v is Table ==> is_map(v),
        deps_ok(v),
{
    if let TomlValue::Table(t) = v {
        assert forall|i: int| 0 <= i < t@.len() implies ((#[trigger] t@[i]).value is Table
            ==> is_map(t@[i].value)) by {
            assert(maps_unique(t@[i].value));
        }
    }
}

/// A document whose tables each hold every key once, at any depth, is one that the
/// rewrites can read.
pub proof fn lemma_maps_unique_manifest_ok(m: TomlValue)
    requires maps_unique(m),
    ensures manifest_ok(m),
{
    if let TomlValue::Table(t) = m {
        lemma_get_unique(t@, "dependencies"@);
        lemma_get_unique(t@, "workspace"@);
        lemma_get_unique(t@, "package"@);
        if let Some(d) = get_key(t@, "dependencies"@) {
            lemma_unique_is_map(d);
        }
        if let Some(p) = get_key(t@, "package"@) {
            lemma_unique_is_map(p);
        }
        if let Some(w) = get_key(t@, "workspace"@) {
            lemma_unique_is_map(w);
            if let TomlValue::Table(wt) = w {
                lemma_get_unique(wt@, "dependencies"@);
                if let Some(d) = get_key(wt@, "dependencies"@) {
                    lemma_unique_is_map(d);
                }
            }
        }
    }
}

/// Whether renaming the package can go ahead (see `package_named`).
fn has_package_name(m: &TomlValue) -> (b: bool)
    requires m is Table ==> keys_unique(m->Table_0@),
             m is Table ==> (get_key(m->Table_0@, "package"@) matches Some(p) ==> (p is Table
                ==> is_map(p))),
    ensures b == package_named(*m),
{
    match m {
        TomlValue::Table(t) => match key_index(t, "package") {
            None => true,
            Some(i) => {
                proof {
                    lemma_get_at(t@, i as int);
                }
                match &t[i].value {
                    TomlValue::Table(q) => match key_index(q, "name") {
                        None => false,
                        Some(k) => {
                            proof {
                                lemma_get_at(q@, k as int);
                            }
                            match &q[k].value {
                                TomlValue::String(_) => true,
                                _ => false,
                            }
                        },
                    },
                    _ => true,
                }
            },
        },
        _ => true,
    }
}

/// Why the text of a manifest could not be rewritten.
#[derive(Debug, Clone, Copy, PartialEq, Eq, Structural)]
pub enum ManifestError {
    /// The text is not a TOML document.
    NotToml,
    /// The package section has no name that is a string.
    PackageUnnamed,
    /// The rewritten manifest could not be written as TOML.
    NotPrintable,
}

impl HotProject {
    /// The text of the hot project's `Cargo.toml`, from the text of the user's: the user's
    /// document, rewritten (see `hot_manifest`) and written back as TOML.
    pub fn hot_manifest_of_text(&self, text: &str) -> (r: Result<String, ManifestError>)
        requires layout_ok(self),
        ensures
            match toml_document(text@) {
                None => r == Err::<String, ManifestError>(ManifestError::NotToml),
                Some(m) => exists|n: TomlValue|
                    hot_manifest(self, m, n) && match toml_text(n) {
                        Some(t) => r matches Ok(s) && s@ == t,
                        None => r == Err::<String, ManifestError>(ManifestError::NotPrintable),
                    },
            },
    {
        match parse_toml(text) {
            None => Err(ManifestError::NotToml),
            Some(m) => {
                proof {
                    lemma_maps_unique_manifest_ok(m);
                }
                let n = self.cargo_toml_rewrite(m);
                match render_toml(n) {
                    Some(s) => Ok(s),
                    None => Err(ManifestError::NotPrintable),
                }
            },
        }
    }

    /// The text of the hot project's workspace `Cargo.toml`, from the text of the user's:
    /// the user's document, rewritten (see `workspace_manifest`) and written back as TOML.
    pub fn workspace_manifest_of_text(&self, text: &str) -> (r: Result<String, ManifestError>)
        requires layout_ok(self),
        ensures
            match toml_document(text@) {
                None => r == Err::<String, ManifestError>(ManifestError::NotToml),
                Some(m) => if !package_named(m) {
                    r == Err::<String, ManifestError>(ManifestError::PackageUnnamed)
                } else {
                    exists|n: TomlValue|
                        workspace_manifest(self, m, n) && match toml_text(n) {
                            Some(t) => r matches Ok(s) && s@ == t,
                            None => r == Err::<String, ManifestError>(ManifestError::NotPrintable),
                        }
                },
            },
    {
        match parse_toml(text) {
            None => Err(ManifestError::NotToml),
            Some(m) => {
                proof {
                    lemma_maps_unique_manifest_ok(m);
                }
                if !has_package_name(&m) {
                    return Err(ManifestError::PackageUnnamed);
                }
                let n = self.cargo_workspace_rewrite(m);
                match render_toml(n) {
                    Some(s) => Ok(s),
                    None => Err(ManifestError::NotPrintable),
                }
            },
        }
    }
}

} // verus!
