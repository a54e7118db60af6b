//! TOML documents, and reading `Cargo.lock` and `Cargo.toml`.
//!
//! TOML text is parsed and rendered by the `toml` crate, behind trusted
//! wrappers, into and from a [`TomlValue`]; the selection of the packages
//! to check, and of the root crate, happen here, as do the messages of a
//! failed cargo run.
use vstd::prelude::*;

use crate::error::{config_parse, config_parse_view, strings_view, Error, ErrorView, Result};
use crate::text::{
    cat2, cat3, chars_of, decimal, decimal_string, owned, same_text,
};
use crate::validate::{crate_name, crate_name_problem};

verus! {

#[verifier::external_type_specification]
#[verifier::external_body]
pub struct ExTomlValue(::toml::Value);

/// A TOML value.  Floats and datetimes, which nothing here reads, are
/// carried as the parsed `toml::Value` in `Other`.
#[derive(Debug)]
pub enum TomlValue {
    Text(String),
    Integer(i64),
    Boolean(bool),
    Array(Vec<TomlValue>),
    /// The entries of a table, in order; TOML gives no key twice.
    Table(Vec<(String, TomlValue)>),
    Other(::toml::Value),
}

/// What `toml::from_str::<toml::Value>` gives for the text, as a
/// [`TomlValue`], or the message (`Display`) of its error.
pub uninterp spec fn toml_document(text: Seq<char>) -> std::result::Result<TomlValue, Seq<char>>;

/// What `toml::to_string_pretty` gives for the document, or the message of
/// its error.
pub uninterp spec fn toml_rendering(doc: TomlValue) -> std::result::Result<Seq<char>, Seq<char>>;

/// Converts a parsed `toml::Value` variant for variant: strings, integers,
/// booleans, arrays and tables (in the table's key order) become the
/// matching [`TomlValue`]; floats and datetimes are kept in `Other`.
#[verifier::external_body]
fn from_toml(v: ::toml::Value) -> TomlValue {
    match v {
        ::toml::Value::String(s) => TomlValue::Text(s),
        ::toml::Value::Integer(i) => TomlValue::Integer(i),
        ::toml::Value::Boolean(b) => TomlValue::Boolean(b),
        ::toml::Value::Array(a) => TomlValue::Array(a.into_iter().map(from_toml).collect()),
        ::toml::Value::Table(t) => TomlValue::Table(
            t.into_iter().map(|(k, x)| (k, from_toml(x))).collect(),
        ),
        other => TomlValue::Other(other),
    }
}

/// Converts a [`TomlValue`] back to a `toml::Value`, variant for variant.
#[verifier::external_body]
fn to_toml(v: &TomlValue) -> ::toml::Value {
    match v {
        TomlValue::Text(s) => ::toml::Value::String(s.clone()),
        TomlValue::Integer(i) => ::toml::Value::Integer(*i),
        TomlValue::Boolean(b) => ::toml::Value::Boolean(*b),
        TomlValue::Array(a) => ::toml::Value::Array(a.iter().map(to_toml).collect()),
        TomlValue::Table(t) => ::toml::Value::Table(
            t.iter().map(|(k, x)| (k.clone(), to_toml(x))).collect(),
        ),
        TomlValue::Other(other) => other.clone(),
    }
}

/// Parses TOML text with `toml::from_str::<toml::Value>`; the document is
/// converted to a [`TomlValue`] and the error becomes its message.  The
/// contract says that the result is what the parse gives.
#[verifier::external_body]
pub(crate) fn parse_toml(text: &str) -> (r: std::result::Result<TomlValue, String>)
    ensures
        match r {
            Ok(v) => toml_document(text@) == Ok::<TomlValue, Seq<char>>(v),
            Err(m) => toml_document(text@) == Err::<TomlValue, Seq<char>>(m@),
        },
{
    match ::toml::from_str::<::toml::Value>(text) {
        Ok(v) => Ok(from_toml(v)),
        Err(e) => Err(e.to_string()),
    }
}

/// Renders a document with `toml::to_string_pretty`; the error becomes its
/// message.  The contract says that the result is what the rendering gives.
#[verifier::external_body]
pub(crate) fn render_toml(doc: &TomlValue) -> (r: std::result::Result<String, String>)
    ensures
        match r {
            Ok(s) => toml_rendering(*doc) == Ok::<Seq<char>, Seq<char>>(s@),
            Err(m) => toml_rendering(*doc) == Err::<Seq<char>, Seq<char>>(m@),
        },
{
    ::toml::to_string_pretty(&to_toml(doc)).map_err(|e| e.to_string())
}

/// A single package entry parsed from `Cargo.lock`.
#[derive(Debug)]
pub struct LockPackage {
    pub name: String,
    pub version: String,
}

impl View for LockPackage {
    type V = (Seq<char>, Seq<char>);

    open spec fn view(&self) -> (Seq<char>, Seq<char>) {
        (self.name@, self.version@)
    }
}

/// The value stored under `key` among the entries of a table.
pub open spec fn lookup(entries: Seq<(String, TomlValue)>, key: Seq<char>) -> Option<TomlValue>
    decreases entries.len(),
{
    if entries.len() == 0 {
        None
    } else if entries[0].0@ == key {
        Some(entries[0].1)
    } else {
        lookup(entries.drop_first(), key)
    }
}

/// The value stored under `key` in `v`, when `v` is a table
/// (`toml::Value::get`).
pub open spec fn toml_get(v: TomlValue, key: Seq<char>) -> Option<TomlValue> {
    match v {
        TomlValue::Table(entries) => lookup(entries@, key),
        _ => None,
    }
}

/// The text of `v`, when `v` is a string (`toml::Value::as_str`).
pub open spec fn text_value(v: Option<TomlValue>) -> Option<Seq<char>> {
    match v {
        Some(TomlValue::Text(s)) => Some(s@),
        _ => None,
    }
}

/// The value stored under `key` in the table.
pub fn get<'a>(entries: &'a Vec<(String, TomlValue)>, key: &str) -> (r: Option<&'a TomlValue>)
    ensures
        match r {
            Some(v) => lookup(entries@, key@) == Some(*v),
            None => lookup(entries@, key@) is None,
        },
{
    let mut i: usize = 0;
    assert(entries@.subrange(0, entries@.len() as int) =~= entries@);
    while i < entries.len()
        invariant
            i <= entries@.len(),
            lookup(entries@, key@) == lookup(entries@.subrange(i as int, entries@.len() as int), key@),
        decreases entries.len() - i,
    {
        let ghost rest = entries@.subrange(i as int, entries@.len() as int);
        if same_text(entries[i].0.as_str(), key) {
            return Some(&entries[i].1);
        }
        assert(rest.drop_first() =~= entries@.subrange(i + 1, entries@.len() as int));
        i = i + 1;
    }
    None
}

/// Entry `i` is the first one keyed `key`.
pub open spec fn first_key(e: Seq<(String, TomlValue)>, key: Seq<char>, i: int) -> bool {
    &&& 0 <= i < e.len()
    &&& e[i].0@ == key
    &&& forall|j: int| 0 <= j < i ==> #[trigger] e[j].0@ != key
}

/// No entry is keyed `key`.
pub open spec fn lacks_key(e: Seq<(String, TomlValue)>, key: Seq<char>) -> bool {
    forall|j: int| 0 <= j < e.len() ==> #[trigger] e[j].0@ != key
}

/// `new` is `old` with `key` set to `value`: the first entry keyed `key`
/// takes the value and keeps its place, or, when there is none, the entry
/// is added at the end; every other entry stays as it is.
pub open spec fn sets_key(
    old: Seq<(String, TomlValue)>,
    new: Seq<(String, TomlValue)>,
    key: Seq<char>,
    value: TomlValue,
) -> bool {
    ||| exists|i: int|
        #![trigger first_key(old, key, i)]
        first_key(old, key, i) && new == old.update(i, (new[i].0, value)) && new[i].0@ == key
    ||| lacks_key(old, key) && new.len() == old.len() + 1 && new.drop_last() == old
        && new.last().0@ == key && new.last().1 == value
}

/// The lookup of a key finds its first entry.
pub proof fn lemma_lookup_first(e: Seq<(String, TomlValue)>, key: Seq<char>, i: int)
    requires
        first_key(e, key, i),
    ensures
        lookup(e, key) == Some(e[i].1),
    decreases e.len(),
{
    if i > 0 {
        assert(e[0].0@ != key);
        assert forall|j: int| 0 <= j < i - 1 implies #[trigger] e.drop_first()[j].0@ != key by {
            assert(e.drop_first()[j] == e[j + 1]);
        }
        lemma_lookup_first(e.drop_first(), key, i - 1);
    }
}

/// The lookup of a key no entry has finds nothing.
pub proof fn lemma_lookup_lacks(e: Seq<(String, TomlValue)>, key: Seq<char>)
    requires
        lacks_key(e, key),
    ensures
        lookup(e, key) is None,
    decreases e.len(),
{
    if e.len() > 0 {
        assert(e[0].0@ != key);
        assert forall|j: int| 0 <= j < e.drop_first().len() implies #[trigger] e.drop_first()[j].0@
            != key by {
            assert(e.drop_first()[j] == e[j + 1]);
        }
        lemma_lookup_lacks(e.drop_first(), key);
    }
}

/// The position of the first entry keyed `key`, if any.
pub fn key_position(entries: &Vec<(String, TomlValue)>, key: &str) -> (r: Option<usize>)
    ensures
        match r {
            Some(i) => first_key(entries@, key@, i as int),
            None => lacks_key(entries@, key@),
        },
{
    let mut i: usize = 0;
    while i < entries.len()
        invariant
            i <= entries@.len(),
            forall|j: int| 0 <= j < i ==> #[trigger] entries@[j].0@ != key@,
        decreases entries.len() - i,
    {
        if same_text(entries[i].0.as_str(), key) {
            return Some(i);
        }
        i = i + 1;
    }
    None
}

/// The entries with `key` set to `value`.
pub fn set_key(entries: Vec<(String, TomlValue)>, key: &str, value: TomlValue) -> (r: Vec<
    (String, TomlValue),
>)
    ensures
        sets_key(entries@, r@, key@, value),
{
    let ghost old_entries = entries@;
    let mut entries = entries;
    match key_position(&entries, key) {
        Some(i) => {
            let (k, _previous) = entries.remove(i);
            entries.insert(i, (k, value));
            assert(entries@ =~= old_entries.update(i as int, (entries@[i as int].0, value)));
            assert(first_key(old_entries, key@, i as int));
            entries
        },
        None => {
            entries.push((owned(key), value));
            assert(entries@.drop_last() =~= old_entries);
            entries
        },
    }
}

/// The text stored under `key` in `v`, when `v` is a table and the value is
/// a string.
pub fn get_text<'a>(v: &'a TomlValue, key: &str) -> (r: Option<&'a String>)
    ensures
        match r {
            Some(s) => text_value(toml_get(*v, key@)) == Some(s@),
            None => text_value(toml_get(*v, key@)) is None,
        },
{
    match v {
        TomlValue::Table(entries) => match get(entries, key) {
            Some(TomlValue::Text(s)) => Some(s),
            _ => None,
        },
        _ => None,
    }
}

// ---------------------------------------------------------------------------
// Cargo.lock
// ---------------------------------------------------------------------------

/// The `source` of the packages of `Cargo.lock` that come from crates.io.
pub const CRATES_IO_SOURCE: &'static str = "registry+https://github.com/rust-lang/crates.io-index";

/// The text of [`CRATES_IO_SOURCE`].
pub open spec fn crates_io_source() -> Seq<char> {
    "registry+https://github.com/rust-lang/crates.io-index"@
}

/// The package an entry of `[[package]]` stands for: a table with a name, a
/// version and the crates.io registry as its source, whose name is a valid crate
/// name.  Local, path, git and other-registry packages stand for none.
pub open spec fn entry_package(v: TomlValue) -> Option<(Seq<char>, Seq<char>)> {
    match (
        text_value(toml_get(v, "name"@)),
        text_value(toml_get(v, "version"@)),
        text_value(toml_get(v, "source"@)),
    ) {
        (Some(name), Some(version), Some(source)) => if source == crates_io_source()
            && crate_name_problem(name) is None {
            Some((name, version))
        } else {
            None
        },
        _ => None,
    }
}

/// The packages the entries stand for, in order.
pub open spec fn packages_of(entries: Seq<TomlValue>) -> Seq<(Seq<char>, Seq<char>)>
    decreases entries.len(),
{
    if entries.len() == 0 {
        Seq::empty()
    } else {
        let rest = packages_of(entries.drop_last());
        match entry_package(entries.last()) {
            Some(p) => rest.push(p),
            None => rest,
        }
    }
}

/// The crates.io packages of a parsed `Cargo.lock`: none when it has no
/// `package` array.
pub open spec fn lock_packages_of(doc: TomlValue) -> Seq<(Seq<char>, Seq<char>)> {
    match toml_get(doc, "package"@) {
        Some(TomlValue::Array(entries)) => packages_of(entries@),
        _ => Seq::empty(),
    }
}

/// The views of a list of packages.
pub open spec fn packages_view(v: Seq<LockPackage>) -> Seq<(Seq<char>, Seq<char>)> {
    v.map_values(|p: LockPackage| p@)
}

/// Return all crates.io packages of a parsed `Cargo.lock` (skipping the
/// root/workspace packages and path/git dependencies).
pub fn lock_packages(doc: &TomlValue) -> (r: Vec<LockPackage>)
    ensures
        packages_view(r@) == lock_packages_of(*doc),
{
    let entries = match doc {
        TomlValue::Table(t) => match get(t, "package") {
            Some(TomlValue::Array(a)) => a,
            _ => {
                return Vec::new();
            },
        },
        _ => {
            return Vec::new();
        },
    };
    let mut result: Vec<LockPackage> = Vec::new();
    let mut i: usize = 0;
    while i < entries.len()
        invariant
            i <= entries@.len(),
            packages_view(result@) == packages_of(entries@.subrange(0, i as int)),
        decreases entries.len() - i,
    {
        let entry = &entries[i];
        let ghost prefix = entries@.subrange(0, i + 1);
        assert(prefix.drop_last() =~= entries@.subrange(0, i as int));
        assert(prefix.last() == *entry);
        let picked: Option<LockPackage> = match (
            get_text(entry, "name"),
            get_text(entry, "version"),
            get_text(entry, "source"),
        ) {
            (Some(name), Some(version), Some(source)) => {
                if same_text(source.as_str(), CRATES_IO_SOURCE) && crate_name(
                    name.as_str(),
                ).is_ok() {
                    Some(LockPackage { name: name.clone(), version: version.clone() })
                } else {
                    None
                }
            },
            _ => None,
        };
        match picked {
            Some(p) => {
                result.push(p);
                assert(packages_view(result@) =~= packages_of(entries@.subrange(0, i as int)).push(
                    entry_package(*entry)->0,
                ));
            },
            None => {},
        }
        i = i + 1;
    }
    assert(entries@.subrange(0, entries@.len() as int) =~= entries@);
    result
}

/// Every package selected from a lock file has a valid crate name and
/// comes from the crates.io registry.
pub proof fn law_selected_packages_are_registry_crates(entries: Seq<TomlValue>)
    ensures
        forall|j: int|
            0 <= j < packages_of(entries).len() ==> crate_name_problem(
                #[trigger] packages_of(entries)[j].0,
            ) is None && exists|i: int|
                0 <= i < entries.len() && entry_package(entries[i]) == Some(
                    packages_of(entries)[j],
                ) && text_value(toml_get(entries[i], "source"@))->0 == crates_io_source(),
    decreases entries.len(),
{
    if entries.len() > 0 {
        let front = entries.drop_last();
        law_selected_packages_are_registry_crates(front);
        let all = packages_of(entries);
        let rest = packages_of(front);
        assert forall|j: int| 0 <= j < all.len() implies crate_name_problem(
            #[trigger] all[j].0,
        ) is None && exists|i: int|
            0 <= i < entries.len() && entry_package(entries[i]) == Some(all[j]) && text_value(toml_get(entries[i], "source"@))->0 == crates_io_source() by {
            if j < rest.len() {
                assert(all[j] == rest[j]);
                let i = choose|i: int|
                    0 <= i < front.len() && entry_package(front[i]) == Some(rest[j]) && text_value(toml_get(front[i], "source"@))->0 == crates_io_source();
                assert(entries[i] == front[i]);
            } else {
                let k = entries.len() - 1;
                assert(entries[k] == entries.last());
            }
        }
    }
}

/// An entry of `[[package]]` with a text name, version and source, whose
/// source is the crates.io registry and whose name is a valid crate name.
pub open spec fn is_registry_crate(v: TomlValue) -> bool {
    &&& text_value(toml_get(v, "name"@)) is Some
    &&& text_value(toml_get(v, "version"@)) is Some
    &&& text_value(toml_get(v, "source"@)) == Some(crates_io_source())
    &&& crate_name_problem(text_value(toml_get(v, "name"@))->0) is None
}

/// The name and version written in an entry of `[[package]]`.
pub open spec fn written_package(v: TomlValue) -> (Seq<char>, Seq<char>) {
    (text_value(toml_get(v, "name"@))->0, text_value(toml_get(v, "version"@))->0)
}

/// The packages read from a front part of the entries are a prefix of those
/// read from all of them.
proof fn lemma_packages_prefix(entries: Seq<TomlValue>, k: int)
    requires
        0 <= k <= entries.len(),
    ensures
        packages_of(entries.subrange(0, k)).len() <= packages_of(entries).len(),
        forall|j: int|
            0 <= j < packages_of(entries.subrange(0, k)).len() ==> #[trigger] packages_of(
                entries.subrange(0, k),
            )[j] == packages_of(entries)[j],
    decreases entries.len(),
{
    if k == entries.len() {
        assert(entries.subrange(0, k) =~= entries);
    } else {
        let front = entries.drop_last();
        assert(front.subrange(0, k) =~= entries.subrange(0, k));
        lemma_packages_prefix(front, k);
    }
}

/// A registry crate at position `i` is read as what it writes, right after
/// the packages read from the entries before it.
proof fn lemma_registry_crate_read(entries: Seq<TomlValue>, i: int)
    requires
        0 <= i < entries.len(),
        is_registry_crate(entries[i]),
    ensures
        packages_of(entries.subrange(0, i + 1)) == packages_of(entries.subrange(0, i)).push(
            written_package(entries[i]),
        ),
{
    let prefix = entries.subrange(0, i + 1);
    assert(prefix.drop_last() =~= entries.subrange(0, i));
    assert(prefix.last() == entries[i]);
}

/// Reading the entries of `[[package]]` keeps every crates.io package with a
/// valid crate name, with the name and version it writes, in the order of
/// the lock file.
pub proof fn law_lock_entries_keep_registry_crates(entries: Seq<TomlValue>)
    ensures
        forall|i: int|
            0 <= i < entries.len() && #[trigger] is_registry_crate(entries[i])
                ==> packages_of(entries).contains(written_package(entries[i])),
        forall|i1: int, i2: int|
            0 <= i1 < i2 < entries.len() && #[trigger] is_registry_crate(entries[i1])
                && #[trigger] is_registry_crate(entries[i2]) ==> exists|k1: int, k2: int|
                0 <= k1 < k2 < packages_of(entries).len() && packages_of(entries)[k1]
                    == written_package(entries[i1]) && packages_of(entries)[k2]
                    == written_package(entries[i2]),
{
    let all = packages_of(entries);
    assert forall|i: int|
        0 <= i < entries.len() && #[trigger] is_registry_crate(entries[i]) implies all.contains(
        written_package(entries[i]),
    ) by {
        lemma_registry_crate_read(entries, i);
        lemma_packages_prefix(entries, i + 1);
        let k = packages_of(entries.subrange(0, i)).len() as int;
        assert(packages_of(entries.subrange(0, i + 1))[k] == written_package(entries[i]));
        assert(all[k] == written_package(entries[i]));
    }
    assert forall|i1: int, i2: int|
        0 <= i1 < i2 < entries.len() && #[trigger] is_registry_crate(entries[i1])
            && #[trigger] is_registry_crate(entries[i2]) implies exists|k1: int, k2: int|
        0 <= k1 < k2 < all.len() && all[k1] == written_package(entries[i1]) && all[k2]
            == written_package(entries[i2]) by {
        lemma_registry_crate_read(entries, i1);
        lemma_registry_crate_read(entries, i2);
        lemma_packages_prefix(entries, i1 + 1);
        lemma_packages_prefix(entries, i2 + 1);
        lemma_packages_prefix(entries.subrange(0, i2), i1 + 1);
        assert(entries.subrange(0, i2).subrange(0, i1 + 1) =~= entries.subrange(0, i1 + 1));
        let k1 = packages_of(entries.subrange(0, i1)).len() as int;
        let k2 = packages_of(entries.subrange(0, i2)).len() as int;
        assert(packages_of(entries.subrange(0, i1 + 1))[k1] == written_package(entries[i1]));
        assert(packages_of(entries.subrange(0, i2 + 1))[k2] == written_package(entries[i2]));
        assert(all[k1] == written_package(entries[i1]));
        assert(all[k2] == written_package(entries[i2]));
    }
}

/// Reading the entries of `[[package]]` gives exactly the registry crates
/// among them, each once, as the name and version it writes, in order.
pub proof fn law_lock_entries_are_the_registry_crates(entries: Seq<TomlValue>)
    ensures
        packages_of(entries) == entries.filter(|v: TomlValue| is_registry_crate(v)).map_values(
            |v: TomlValue| written_package(v),
        ),
    decreases entries.len(),
{
    reveal(Seq::filter);
    if entries.len() > 0 {
        let front = entries.drop_last();
        law_lock_entries_are_the_registry_crates(front);
        let last = entries.last();
        let rest = front.filter(|v: TomlValue| is_registry_crate(v));
        if is_registry_crate(last) {
            assert(entry_package(last) == Some(written_package(last)));
            assert(entries.filter(|v: TomlValue| is_registry_crate(v)) == rest.push(last));
            assert(rest.push(last).map_values(|v: TomlValue| written_package(v))
                =~= rest.map_values(|v: TomlValue| written_package(v)).push(written_package(last)));
        } else {
            assert(entry_package(last) is None);
            assert(entries.filter(|v: TomlValue| is_registry_crate(v)) == rest);
        }
    }
}

/// Reading a parsed `Cargo.lock` keeps every `[[package]]` that comes from
/// crates.io and has a valid crate name, with its name and version, in the
/// order of the lock file, and nothing else: each such package once.
pub proof fn law_lock_reading_is_complete(doc: TomlValue, entries: Vec<TomlValue>)
    requires
        toml_get(doc, "package"@) == Some(TomlValue::Array(entries)),
    ensures
        forall|i: int|
            0 <= i < entries.len() && #[trigger] is_registry_crate(entries@[i])
                ==> lock_packages_of(doc).contains(written_package(entries@[i])),
        forall|i1: int, i2: int|
            0 <= i1 < i2 < entries.len() && #[trigger] is_registry_crate(entries@[i1])
                && #[trigger] is_registry_crate(entries@[i2]) ==> exists|k1: int, k2: int|
                0 <= k1 < k2 < lock_packages_of(doc).len() && lock_packages_of(doc)[k1]
                    == written_package(entries@[i1]) && lock_packages_of(doc)[k2]
                    == written_package(entries@[i2]),
        lock_packages_of(doc) == entries@.filter(|v: TomlValue| is_registry_crate(v)).map_values(
            |v: TomlValue| written_package(v),
        ),
{
    assert(lock_packages_of(doc) == packages_of(entries@));
    law_lock_entries_keep_registry_crates(entries@);
    law_lock_entries_are_the_registry_crates(entries@);
}

// ---------------------------------------------------------------------------
// Cargo.toml
// ---------------------------------------------------------------------------

/// The name and version of the root crate of a parsed `Cargo.toml` found at
/// `path`, or why they cannot be read.
pub open spec fn root_crate_of(doc: TomlValue, path: Seq<char>) -> std::result::Result<
    (Seq<char>, Seq<char>),
    ErrorView,
> {
    match toml_get(doc, "package"@) {
        Some(package) => if package is Table {
            match text_value(toml_get(package, "name"@)) {
                None => Err(config_parse_view(path, "missing package.name in Cargo.toml"@)),
                Some(name) => match text_value(toml_get(package, "version"@)) {
                    None => Err(config_parse_view(path, "missing package.version in Cargo.toml"@)),
                    Some(version) => Ok((name, version)),
                },
            }
        } else {
            Err(config_parse_view(path, "missing [package] section in Cargo.toml"@))
        },
        None => Err(config_parse_view(path, "missing [package] section in Cargo.toml"@)),
    }
}

/// Read the root crate name and version from a parsed `Cargo.toml` found at
/// `cargo_toml_path`.
pub fn root_crate(doc: &TomlValue, cargo_toml_path: &str) -> (r: Result<(String, String)>)
    ensures
        match root_crate_of(*doc, cargo_toml_path@) {
            Ok(nv) => r matches Ok(p) && p.0@ == nv.0 && p.1@ == nv.1,
            Err(v) => r matches Err(e) && e@ == v,
        },
{
    let package = match doc {
        TomlValue::Table(t) => get(t, "package"),
        _ => None,
    };
    let package = match package {
        Some(p) => match p {
            TomlValue::Table(_) => p,
            _ => {
                return Err(
                    config_parse(cargo_toml_path, owned("missing [package] section in Cargo.toml")),
                );
            },
        },
        None => {
            return Err(
                config_parse(cargo_toml_path, owned("missing [package] section in Cargo.toml")),
            );
        },
    };
    let name = match get_text(package, "name") {
        Some(n) => n.clone(),
        None => {
            return Err(config_parse(cargo_toml_path, owned("missing package.name in Cargo.toml")));
        },
    };
    let version = match get_text(package, "version") {
        Some(v) => v.clone(),
        None => {
            return Err(
                config_parse(cargo_toml_path, owned("missing package.version in Cargo.toml")),
            );
        },
    };
    Ok((name, version))
}

// ---------------------------------------------------------------------------
// Running cargo
// ---------------------------------------------------------------------------

/// The arguments of a command line joined by single spaces.
pub open spec fn joined(words: Seq<Seq<char>>) -> Seq<char>
    decreases words.len(),
{
    if words.len() == 0 {
        Seq::empty()
    } else if words.len() == 1 {
        words[0]
    } else {
        joined(words.drop_last()) + seq![' '] + words.last()
    }
}

/// How an exit status is shown: the exit code in decimal, or `signal`
/// when the process was ended by a signal and has no code.
pub open spec fn exit_code_text(code: Option<i32>) -> Seq<char> {
    match code {
        None => "signal"@,
        Some(c) => if c < 0 {
            seq!['-'] + decimal((-c) as nat)
        } else {
            decimal(c as nat)
        },
    }
}

fn exit_code_string(code: Option<i32>) -> (s: String)
    ensures
        s@ == exit_code_text(code),
{
    match code {
        None => owned("signal"),
        Some(c) => {
            if c < 0 {
                let magnitude: i64 = -(c as i64);
                let digits = decimal_string(magnitude as u64);
                let r = cat2("-", digits.as_str());
                proof {
                    reveal_strlit("-");
                    assert("-"@ =~= seq!['-']);
                }
                r
            } else {
                decimal_string(c as u64)
            }
        },
    }
}

/// The arguments joined by single spaces.
pub fn join_args(args: &Vec<String>) -> (s: String)
    ensures
        s@ == joined(strings_view(args@)),
{
    let mut s = String::new();
    let mut i: usize = 0;
    while i < args.len()
        invariant
            i <= args@.len(),
            s@ == joined(strings_view(args@).subrange(0, i as int)),
        decreases args.len() - i,
    {
        let ghost before = strings_view(args@).subrange(0, i as int);
        let ghost after = strings_view(args@).subrange(0, i + 1);
        assert(after.drop_last() =~= before);
        if i > 0 {
            s.append(" ");
            proof {
                reveal_strlit(" ");
                assert(" "@ =~= seq![' ']);
            }
        } else {
            assert(s@ =~= Seq::<char>::empty());
        }
        s.append(args[i].as_str());
        i = i + 1;
    }
    assert(strings_view(args@).subrange(0, args@.len() as int) =~= strings_view(args@));
    s
}

/// The error of a cargo run that exited unsuccessfully with `code`
/// (`None` when a signal ended it).
pub fn exit_error(args: &Vec<String>, code: Option<i32>) -> (e: Error)
    ensures
        e@ == ErrorView::CargoCommandFailed(
            "cargo "@ + joined(strings_view(args@)) + " exited with code "@ + exit_code_text(code),
        ),
{
    let words = join_args(args);
    let c = exit_code_string(code);
    let head = cat3("cargo ", words.as_str(), " exited with code ");
    Error::CargoCommandFailed(cat2(head.as_str(), c.as_str()))
}

/// The error of a cargo run that could not start: cargo is missing when
/// the program was not found, else the launch failed with `message`.
pub fn launch_error(not_found: bool, message: &str) -> (e: Error)
    ensures
        not_found ==> e@ == ErrorView::CargoNotInstalled,
        !not_found ==> e@ == ErrorView::CargoCommandFailed("failed to launch cargo: "@ + message@),
{
    if not_found {
        Error::CargoNotInstalled
    } else {
        Error::CargoCommandFailed(cat2("failed to launch cargo: ", message))
    }
}

/// The crates.io packages of the text of a `Cargo.lock`, or the TOML error
/// that stops its reading.
pub fn lock_file_packages(text: &str) -> (r: Result<Vec<LockPackage>>)
    ensures
        match toml_document(text@) {
            Ok(doc) => r matches Ok(p) && packages_view(p@) == lock_packages_of(doc),
            Err(m) => r matches Err(e) && e@ == ErrorView::TomlDeserialize(m),
        },
{
    match parse_toml(text) {
        Ok(doc) => Ok(lock_packages(&doc)),
        Err(m) => Err(Error::TomlDeserialize(m)),
    }
}

/// The root crate's name and version from the text of the `Cargo.toml`
/// found at `cargo_toml_path`, or why they cannot be read.
pub fn root_crate_file(text: &str, cargo_toml_path: &str) -> (r: Result<(String, String)>)
    ensures
        match toml_document(text@) {
            Ok(doc) => match root_crate_of(doc, cargo_toml_path@) {
                Ok(nv) => r matches Ok(p) && p.0@ == nv.0 && p.1@ == nv.1,
                Err(v) => r matches Err(e) && e@ == v,
            },
            Err(m) => r matches Err(e) && e@ == ErrorView::TomlDeserialize(m),
        },
{
    match parse_toml(text) {
        Ok(doc) => root_crate(&doc, cargo_toml_path),
        Err(m) => Err(Error::TomlDeserialize(m)),
    }
}

} // verus!
