//! The decisions of `setup`: cleaning the answers to its prompts, and the
//! configuration document it writes.
use vstd::prelude::*;

use crate::cargo::{render_toml, toml_rendering, TomlValue};
use crate::config::PolicyConfig;
use crate::error::{config_parse, config_parse_view, Result};
use crate::signing::{is_valid_public_key, minisign_public_key_from_base64};
use crate::text::{cat2, chars_of, owned, string_of, trim, trimmed};

verus! {

/// An answer with leading and trailing white space removed.
pub fn trim_input(s: &str) -> (r: String)
    ensures
        r@ == trim(s@),
{
    string_of(&trimmed(&chars_of(s)))
}

/// The branch to use: the trimmed answer, `main` when it is blank.
pub fn branch_choice(input: &str) -> (r: String)
    ensures
        r@ == (if trim(input@).len() == 0 {
            "main"@
        } else {
            trim(input@)
        }),
{
    let t = trimmed(&chars_of(input));
    if t.len() == 0 {
        owned("main")
    } else {
        string_of(&t)
    }
}

/// Why the token and the signing key (both trimmed) cannot be used.
#[derive(Debug, PartialEq, Eq)]
pub enum SetupProblem {
    /// A GitHub token is required for API access.
    MissingToken,
    /// A signing public key is required for report verification.
    MissingSigningKey,
    /// The signing key is not a valid minisign public key.
    InvalidSigningKey,
}

/// Why the (trimmed) token cannot be used, if it cannot.
pub fn token_problem(token: &str) -> (r: Option<SetupProblem>)
    ensures
        r == (if token@.len() == 0 {
            Some(SetupProblem::MissingToken)
        } else {
            None
        }),
{
    if token.is_empty() {
        Some(SetupProblem::MissingToken)
    } else {
        None
    }
}

/// Why the (trimmed) signing key cannot be used, if it cannot: it must be
/// given, and it must decode as a minisign public key.
pub fn signing_key_problem(signing_key: &str) -> (r: Option<SetupProblem>)
    ensures
        r == (if signing_key@.len() == 0 {
            Some(SetupProblem::MissingSigningKey)
        } else if minisign_public_key_from_base64(signing_key@) is Err {
            Some(SetupProblem::InvalidSigningKey)
        } else {
            None
        }),
{
    if signing_key.is_empty() {
        Some(SetupProblem::MissingSigningKey)
    } else if !is_valid_public_key(signing_key) {
        Some(SetupProblem::InvalidSigningKey)
    } else {
        None
    }
}

/// The entry is `key = "val"`.
pub open spec fn text_entry(p: (String, TomlValue), key: Seq<char>, val: Seq<char>) -> bool {
    &&& p.0@ == key
    &&& p.1 matches TomlValue::Text(t) && t@ == val
}

/// `v` is the `[registry]` table for the answers.
pub open spec fn registry_table(v: TomlValue, repo: Seq<char>, branch: Seq<char>, key: Seq<char>) -> bool {
    &&& v is Table
    &&& v->Table_0@.len() == 3
    &&& text_entry(v->Table_0@[0], "repo"@, repo)
    &&& text_entry(v->Table_0@[1], "branch"@, branch)
    &&& text_entry(v->Table_0@[2], "signing_key"@, key)
}

/// `v` is the `[policy]` table with the default policy: a minimum release
/// age of `3d`, a maximum score of 40, and reports required.
pub open spec fn default_policy_table(v: TomlValue) -> bool {
    &&& v is Table
    &&& v->Table_0@.len() == 3
    &&& text_entry(v->Table_0@[0], "min_release_age"@, "3d"@)
    &&& v->Table_0@[1].0@ == "max_score"@
    &&& v->Table_0@[1].1 == TomlValue::Integer(40)
    &&& v->Table_0@[2].0@ == "require_report"@
    &&& v->Table_0@[2].1 == TomlValue::Boolean(true)
}

/// `d` is the configuration `setup` writes: the registry table for the
/// answers, then the default policy.
pub open spec fn setup_document(d: TomlValue, repo: Seq<char>, branch: Seq<char>, key: Seq<char>) -> bool {
    &&& d is Table
    &&& d->Table_0@.len() == 2
    &&& d->Table_0@[0].0@ == "registry"@
    &&& registry_table(d->Table_0@[0].1, repo, branch, key)
    &&& d->Table_0@[1].0@ == "policy"@
    &&& default_policy_table(d->Table_0@[1].1)
}

/// The text of the `safe-cargo.toml` that `setup` writes for the repository,
/// the branch and the signing key.
pub fn setup_config(repo: &str, branch: &str, signing_key: &str) -> (r: Result<String>)
    ensures
        exists|d: TomlValue|
            #![trigger toml_rendering(d)]
            setup_document(d, repo@, branch@, signing_key@) && match toml_rendering(d) {
                Ok(text) => r matches Ok(s) && s@ == text,
                Err(m) => r matches Err(e) && e@ == config_parse_view(
                    "safe-cargo.toml"@,
                    "failed to serialize config: "@ + m,
                ),
            },
{
    let mut registry: Vec<(String, TomlValue)> = Vec::new();
    registry.push((owned("repo"), TomlValue::Text(owned(repo))));
    registry.push((owned("branch"), TomlValue::Text(owned(branch))));
    registry.push((owned("signing_key"), TomlValue::Text(owned(signing_key))));
    let defaults = PolicyConfig::default();
    let mut policy: Vec<(String, TomlValue)> = Vec::new();
    policy.push((owned("min_release_age"), TomlValue::Text(defaults.min_release_age)));
    policy.push((owned("max_score"), TomlValue::Integer(defaults.max_score as i64)));
    policy.push((owned("require_report"), TomlValue::Boolean(defaults.require_report)));
    let mut root: Vec<(String, TomlValue)> = Vec::new();
    root.push((owned("registry"), TomlValue::Table(registry)));
    root.push((owned("policy"), TomlValue::Table(policy)));
    let doc = TomlValue::Table(root);
    assert(setup_document(doc, repo@, branch@, signing_key@));
    match render_toml(&doc) {
        Ok(s) => Ok(s),
        Err(m) => Err(config_parse("safe-cargo.toml", cat2("failed to serialize config: ", m.as_str()))),
    }
}

} // verus!
