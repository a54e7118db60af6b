//! The decisions of `allow`: the crate spec, and the edit of the `[allow]`
//! table of `safe-cargo.toml`.
use vstd::prelude::*;

use crate::cargo::{
    key_position, lemma_lookup_first, lemma_lookup_lacks, lookup, parse_toml, render_toml,
    set_key, sets_key, toml_document, toml_rendering, TomlValue,
};
use crate::error::{config_parse, config_parse_view, Error, ErrorView, Result};
use crate::github::request_problem;
use crate::text::{cat2, chars_of, owned, rfind, rfind_char, substring};
use crate::validate::{crate_name, version};

verus! {

/// The name and version of a `name@version` spec, or why it is not one.
pub open spec fn pinned_spec_parts(spec: Seq<char>) -> std::result::Result<
    (Seq<char>, Seq<char>),
    Seq<char>,
> {
    match rfind(spec, '@') {
        None => Err(
            "crate spec must be in name@version format (e.g. \"openssl-sys@0.9.102\"), got: "@
                + spec,
        ),
        Some(pos) => {
            let name = spec.subrange(0, pos);
            let version = spec.subrange(pos + 1, spec.len() as int);
            if name.len() == 0 {
                Err("crate name cannot be empty"@)
            } else if version.len() == 0 {
                Err("version is required (e.g. \"openssl-sys@0.9.102\")"@)
            } else {
                Ok((name, version))
            }
        },
    }
}

/// The view of the errors a crate spec gives.
pub open spec fn spec_error(reason: Seq<char>) -> ErrorView {
    config_parse_view("<crate_spec>"@, reason)
}

/// Parse a `name@version` spec, requiring that the version is present.
pub fn parse_crate_spec(spec: &str) -> (r: Result<(String, String)>)
    ensures
        match pinned_spec_parts(spec@) {
            Ok(p) => r matches Ok(q) && q.0@ == p.0 && q.1@ == p.1,
            Err(reason) => r matches Err(e) && e@ == spec_error(reason),
        },
{
    let chars = chars_of(spec);
    let pos = match rfind_char(&chars, '@') {
        Some(p) => p,
        None => {
            return Err(
                config_parse(
                    "<crate_spec>",
                    cat2(
                        "crate spec must be in name@version format (e.g. \"openssl-sys@0.9.102\"), got: ",
                        spec,
                    ),
                ),
            );
        },
    };
    if pos == 0 {
        return Err(config_parse("<crate_spec>", owned("crate name cannot be empty")));
    }
    if pos == chars.len() - 1 {
        return Err(
            config_parse(
                "<crate_spec>",
                owned("version is required (e.g. \"openssl-sys@0.9.102\")"),
            ),
        );
    }
    Ok((substring(&chars, 0, pos), substring(&chars, pos + 1, chars.len())))
}

/// What `allow` accepts before it touches the configuration: a
/// `name@version` spec whose name is a crate name and whose version is a
/// semantic version.
pub open spec fn allow_request_of(spec: Seq<char>) -> std::result::Result<
    (Seq<char>, Seq<char>),
    ErrorView,
> {
    match pinned_spec_parts(spec) {
        Err(reason) => Err(spec_error(reason)),
        Ok(p) => match request_problem(p.0, p.1) {
            Some(v) => Err(v),
            None => Ok(p),
        },
    }
}

/// Parses and validates the crate spec given to `allow`.
pub fn allow_request(spec: &str) -> (r: Result<(String, String)>)
    ensures
        match allow_request_of(spec@) {
            Ok(p) => r matches Ok(q) && q.0@ == p.0 && q.1@ == p.1,
            Err(v) => r matches Err(e) && e@ == v,
        },
{
    let (name, ver) = match parse_crate_spec(spec) {
        Ok(p) => p,
        Err(e) => {
            return Err(e);
        },
    };
    match crate_name(name.as_str()) {
        Err(e) => {
            return Err(e);
        },
        Ok(()) => {},
    }
    match version(ver.as_str()) {
        Err(e) => {
            return Err(e);
        },
        Ok(()) => {},
    }
    Ok((name, ver))
}

/// What the configuration document holds under `allow`.
#[derive(Debug, Clone, Copy, PartialEq, Eq, Structural)]
pub enum AllowSlot {
    Missing,
    Table,
    Other,
}

/// Whether an `[allow]` table must be created before the entry is added
/// to the configuration document found at `path`, or why the document
/// cannot take the entry.
pub open spec fn allow_edit(path: Seq<char>, root_is_table: bool, slot: AllowSlot) -> std::result::Result<
    bool,
    ErrorView,
> {
    if !root_is_table {
        Err(config_parse_view(path, "config root is not a TOML table"@))
    } else {
        match slot {
            AllowSlot::Missing => Ok(true),
            AllowSlot::Table => Ok(false),
            AllowSlot::Other => Err(config_parse_view(path, "[allow] is not a table"@)),
        }
    }
}

/// Decides how the entry is added to the configuration document.
pub fn plan_allow_edit(config_path: &str, root_is_table: bool, slot: AllowSlot) -> (r: Result<bool>)
    ensures
        match allow_edit(config_path@, root_is_table, slot) {
            Ok(b) => r == Ok::<bool, Error>(b),
            Err(v) => r matches Err(e) && e@ == v,
        },
{
    if !root_is_table {
        return Err(config_parse(config_path, owned("config root is not a TOML table")));
    }
    match slot {
        AllowSlot::Missing => Ok(true),
        AllowSlot::Table => Ok(false),
        AllowSlot::Other => Err(config_parse(config_path, owned("[allow] is not a table"))),
    }
}

/// The entries of the root table of a configuration document with the
/// given text: an empty text is an empty table; otherwise the parsed
/// document's entries, `None` when it is not a table, or the parse error.
pub open spec fn config_root(contents: Seq<char>) -> std::result::Result<
    Option<Seq<(String, TomlValue)>>,
    Seq<char>,
> {
    if contents.len() == 0 {
        Ok(Some(Seq::empty()))
    } else {
        match toml_document(contents) {
            Err(m) => Err(m),
            Ok(TomlValue::Table(e)) => Ok(Some(e@)),
            Ok(_) => Ok(None),
        }
    }
}

/// What the root table holds under `allow`.
pub open spec fn allow_slot_of(root: Seq<(String, TomlValue)>) -> AllowSlot {
    match lookup(root, "allow"@) {
        None => AllowSlot::Missing,
        Some(TomlValue::Table(_)) => AllowSlot::Table,
        Some(_) => AllowSlot::Other,
    }
}

/// The entries of the `[allow]` table of the root, none when it has none.
pub open spec fn old_allow(root: Seq<(String, TomlValue)>) -> Seq<(String, TomlValue)> {
    match lookup(root, "allow"@) {
        Some(TomlValue::Table(a)) => a@,
        _ => Seq::empty(),
    }
}

/// `v` is the inline table `{ version = version, reason = reason }`.
pub open spec fn allow_entry_value(v: TomlValue, version: Seq<char>, reason: Seq<char>) -> bool {
    &&& v matches TomlValue::Table(e)
    &&& e@.len() == 2
    &&& e@[0].0@ == "version"@
    &&& e@[0].1 matches TomlValue::Text(t) && t@ == version
    &&& e@[1].0@ == "reason"@
    &&& e@[1].1 matches TomlValue::Text(u) && u@ == reason
}

/// `nd` is the root table `root` with `allow.<name>` set to the entry for
/// `version` and `reason`, and nothing else changed.
pub open spec fn allow_edited(
    root: Seq<(String, TomlValue)>,
    nd: TomlValue,
    name: Seq<char>,
    version: Seq<char>,
    reason: Seq<char>,
) -> bool {
    &&& nd is Table
    &&& exists|av: TomlValue, ev: TomlValue|
        #![trigger sets_key(root, nd->Table_0@, "allow"@, av), allow_entry_value(ev, version, reason)]
        sets_key(root, nd->Table_0@, "allow"@, av) && allow_entry_value(ev, version, reason)
            && av is Table && sets_key(old_allow(root), av->Table_0@, name, ev)
}

/// Adds `name = { version, reason }` to the `[allow]` table of the
/// configuration document with text `contents`, found at `config_path`,
/// and renders the result.
pub fn add_allow_entry(
    config_path: &str,
    contents: &str,
    name: &str,
    version: &str,
    reason: &str,
) -> (r: Result<String>)
    ensures
        match config_root(contents@) {
            Err(m) => r matches Err(e) && e@ == ErrorView::TomlDeserialize(m),
            Ok(None) => r matches Err(e) && e@ == allow_edit(
                config_path@,
                false,
                AllowSlot::Missing,
            )->Err_0,
            Ok(Some(root)) => match allow_edit(config_path@, true, allow_slot_of(root)) {
                Err(v) => r matches Err(e) && e@ == v,
                Ok(_) => exists|nd: TomlValue|
                    #![trigger toml_rendering(nd)]
                    allow_edited(root, nd, name@, version@, reason@) && match toml_rendering(nd) {
                        Ok(text) => r matches Ok(s) && s@ == text,
                        Err(m) => r matches Err(e) && e@ == config_parse_view(
                            config_path@,
                            "failed to serialize config: "@ + m,
                        ),
                    },
            },
        },
{
    let doc = if contents.is_empty() {
        TomlValue::Table(Vec::new())
    } else {
        match parse_toml(contents) {
            Ok(d) => d,
            Err(m) => {
                return Err(Error::TomlDeserialize(m));
            },
        }
    };
    let root = match doc {
        TomlValue::Table(e) => e,
        _ => {
            return Err(config_parse(config_path, owned("config root is not a TOML table")));
        },
    };
    let ghost root_view = root@;
    let mut entry: Vec<(String, TomlValue)> = Vec::new();
    entry.push((owned("version"), TomlValue::Text(owned(version))));
    entry.push((owned("reason"), TomlValue::Text(owned(reason))));
    let ev = TomlValue::Table(entry);
    let ghost evg = ev;
    assert(allow_entry_value(evg, version@, reason@));
    let (new_root, avw) = match key_position(&root, "allow") {
        None => {
            proof {
                lemma_lookup_lacks(root_view, "allow"@);
            }
            let a2 = set_key(Vec::new(), name, ev);
            assert(old_allow(root_view) =~= Seq::<(String, TomlValue)>::empty());
            assert(sets_key(old_allow(root_view), a2@, name@, evg));
            let ghost avg = TomlValue::Table(a2);
            let n = set_key(root, "allow", TomlValue::Table(a2));
            assert(sets_key(root_view, n@, "allow"@, avg));
            (n, Ghost(avg))
        },
        Some(p) => {
            proof {
                lemma_lookup_first(root_view, "allow"@, p as int);
            }
            let mut root = root;
            let (k, v) = root.remove(p);
            match v {
                TomlValue::Table(a) => {
                    assert(old_allow(root_view) == a@);
                    let a2 = set_key(a, name, ev);
                    assert(sets_key(old_allow(root_view), a2@, name@, evg));
                    let ghost avg = TomlValue::Table(a2);
                    root.insert(p, (k, TomlValue::Table(a2)));
                    assert(root@ =~= root_view.update(p as int, (root@[p as int].0, avg)));
                    assert(sets_key(root_view, root@, "allow"@, avg));
                    (root, Ghost(avg))
                },
                _ => {
                    return Err(config_parse(config_path, owned("[allow] is not a table")));
                },
            }
        },
    };
    assert(sets_key(root_view, new_root@, "allow"@, avw@));
    assert(avw@ matches TomlValue::Table(w) && sets_key(old_allow(root_view), w@, name@, evg));
    let nd = TomlValue::Table(new_root);
    assert(sets_key(root_view, nd->Table_0@, "allow"@, avw@));
    assert(sets_key(old_allow(root_view), avw@->Table_0@, name@, evg));
    assert(allow_edited(root_view, nd, name@, version@, reason@));
    match render_toml(&nd) {
        Ok(s) => Ok(s),
        Err(m) => Err(config_parse(config_path, cat2("failed to serialize config: ", m.as_str()))),
    }
}

} // verus!
