//! Validation of the names that reach URLs, file paths and git refs.
use vstd::prelude::*;

use crate::error::{config_parse, config_parse_view, Error, ErrorView, Result};
use crate::versions::{semver_version_parse, SemVersion};
use crate::text::{
    ascii_alphabetic, ascii_alphanumeric, cat2, cat3, chars_of, contains, contains_char,
    contains_seq, ends_with, has_suffix, is_ascii_alphabetic, is_ascii_alphanumeric, owned,
    str_len, string_of,
};

verus! {

/// The view of the `ConfigParse` error that input validation reports.
pub open spec fn input_error(reason: Seq<char>) -> ErrorView {
    config_parse_view("<input>"@, reason)
}

// ---------------------------------------------------------------------------
// Crate names
// ---------------------------------------------------------------------------

/// A character allowed in a crates.io package name.
pub open spec fn crate_name_char(c: char) -> bool {
    is_ascii_alphanumeric(c) || c == '_' || c == '-'
}

/// Why `name` is not a crates.io package name (1 to 64 bytes, a letter
/// first, then only letters, digits, `_` and `-`), or `None` when it is one.
pub open spec fn crate_name_problem(s: Seq<char>) -> Option<Seq<char>> {
    if s.len() == 0 || str_len(s) > 64 {
        Some("crate name must be 1-64 characters, got: '"@ + s + "'"@)
    } else if !is_ascii_alphabetic(s[0]) {
        Some("crate name must start with a letter, got: '"@ + s + "'"@)
    } else if exists|i: int| 0 <= i < s.len() && !crate_name_char(#[trigger] s[i]) {
        Some("crate name contains invalid characters: '"@ + s + "'"@)
    } else {
        None
    }
}

/// Validate a crate name against the crates.io package name grammar.
/// Must be 1-64 chars, start with a letter, contain only [a-zA-Z0-9_-].
pub fn crate_name(name: &str) -> (r: Result<()>)
    ensures
        r is Ok <==> crate_name_problem(name@) is None,
        r matches Err(e) ==> e@ == input_error(crate_name_problem(name@)->0),
{
    let chars = chars_of(name);
    if chars.len() == 0 || name.len() > 64 {
        return Err(
            config_parse("<input>", cat3("crate name must be 1-64 characters, got: '", name, "'")),
        );
    }
    if !ascii_alphabetic(chars[0]) {
        return Err(
            config_parse("<input>", cat3("crate name must start with a letter, got: '", name, "'")),
        );
    }
    let mut i: usize = 0;
    while i < chars.len()
        invariant
            chars@ == name@,
            name@.len() > 0,
            str_len(name@) <= 64,
            is_ascii_alphabetic(name@[0]),
            forall|j: int| 0 <= j < i ==> crate_name_char(#[trigger] chars@[j]),
        decreases chars.len() - i,
    {
        let c = chars[i];
        if !(ascii_alphanumeric(c) || c == '_' || c == '-') {
            assert(!crate_name_char(name@[i as int]));
            return Err(
                config_parse(
                    "<input>",
                    cat3("crate name contains invalid characters: '", name, "'"),
                ),
            );
        }
        i = i + 1;
    }
    Ok(())
}

// ---------------------------------------------------------------------------
// Versions
// ---------------------------------------------------------------------------

/// Validate a version string as semver (e.g. "1.2.3", "1.2.3-beta.1").
pub fn version(ver: &str) -> (r: Result<()>)
    ensures
        r is Ok <==> semver_version_parse(ver@) is Ok,
        r matches Err(e) ==> e@ == input_error(
            "invalid version '"@ + ver@ + "': "@ + semver_version_parse(ver@)->Err_0,
        ),
{
    match SemVersion::parse(ver) {
        Ok(_) => Ok(()),
        Err(msg) => Err(config_parse("<input>", cat4_owned("invalid version '", ver, "': ", &msg))),
    }
}

fn cat4_owned(a: &str, b: &str, c: &str, d: &String) -> (r: String)
    ensures
        r@ == a@ + b@ + c@ + d@,
{
    crate::text::cat4(a, b, c, d.as_str())
}

// ---------------------------------------------------------------------------
// GitHub repositories
// ---------------------------------------------------------------------------

/// A character allowed in either half of an `owner/name` repository.
pub open spec fn repo_char(c: char) -> bool {
    is_ascii_alphanumeric(c) || c == '-' || c == '_' || c == '.'
}

/// `s` holds exactly one `/`, at position `k`.
pub open spec fn single_slash_at(s: Seq<char>, k: int) -> bool {
    0 <= k < s.len() && s[k] == '/' && forall|j: int|
        0 <= j < s.len() && j != k ==> #[trigger] s[j] != '/'
}

/// Why `repo` is not an `owner/name` pair of safe characters, or `None`
/// when it is one.
pub open spec fn github_repo_problem(repo: Seq<char>) -> Option<Seq<char>> {
    if !(exists|k: int| single_slash_at(repo, k) && 0 < k && k < repo.len() - 1) {
        Some("repo must be in owner/name format, got: '"@ + repo + "'"@)
    } else if exists|i: int| 0 <= i < repo.len() && repo[i] != '/' && !repo_char(#[trigger] repo[i]) {
        Some("repo contains invalid characters: '"@ + repo + "'"@)
    } else {
        None
    }
}

/// Validate a GitHub repo string is in "owner/name" format with safe characters.
pub fn github_repo(repo: &str) -> (r: Result<()>)
    ensures
        r is Ok <==> github_repo_problem(repo@) is None,
        r matches Err(e) ==> e@ == input_error(github_repo_problem(repo@)->0),
{
    let chars = chars_of(repo);
    let n = chars.len();
    // Count the slashes and remember where the first one is.
    let mut slashes: usize = 0;
    let mut at: usize = 0;
    let mut i: usize = 0;
    while i < n
        invariant
            n == chars@.len(),
            chars@ == repo@,
            i <= n,
            slashes <= i,
            slashes == 0 ==> forall|j: int| 0 <= j < i ==> chars@[j] != '/',
            slashes >= 1 ==> at < i && chars@[at as int] == '/',
            slashes == 1 ==> forall|j: int| 0 <= j < i && j != at ==> chars@[j] != '/',
            slashes >= 2 ==> exists|j: int| 0 <= j < i && j != at && chars@[j] == '/',
        decreases n - i,
    {
        if chars[i] == '/' {
            if slashes == 0 {
                at = i;
            } else {
                assert(chars@[i as int] == '/' && i != at);
            }
            slashes = slashes + 1;
        }
        i = i + 1;
    }
    if slashes != 1 || at == 0 || at + 1 == n {
        proof {
            assert forall|k: int| single_slash_at(repo@, k) implies !(0 < k && k < repo@.len()
                - 1) by {
                if slashes == 0 {
                    assert(repo@[k] == '/');
                } else if slashes >= 2 {
                    let j = choose|j: int| 0 <= j < n && j != at && chars@[j] == '/';
                    assert(k == at);
                } else {
                    assert(k == at);
                }
            }
        }
        return Err(
            config_parse("<input>", cat3("repo must be in owner/name format, got: '", repo, "'")),
        );
    }
    assert(single_slash_at(repo@, at as int));
    let mut j: usize = 0;
    while j < n
        invariant
            n == chars@.len(),
            chars@ == repo@,
            single_slash_at(repo@, at as int),
            0 < at,
            at + 1 < n,
            forall|m: int| 0 <= m < j && chars@[m] != '/' ==> repo_char(#[trigger] chars@[m]),
        decreases n - j,
    {
        let c = chars[j];
        if c != '/' && !(ascii_alphanumeric(c) || c == '-' || c == '_' || c == '.') {
            assert(repo@[j as int] != '/' && !repo_char(repo@[j as int]));
            return Err(
                config_parse("<input>", cat3("repo contains invalid characters: '", repo, "'")),
            );
        }
        j = j + 1;
    }
    Ok(())
}

// ---------------------------------------------------------------------------
// Branch names
// ---------------------------------------------------------------------------

/// An ASCII control character (`U+0000`-`U+001F` or `U+007F`).
pub open spec fn is_ascii_control(c: char) -> bool {
    (c as u32) < 0x20 || (c as u32) == 0x7f
}

/// `s` holds an ASCII control character.
pub open spec fn has_ascii_control(s: Seq<char>) -> bool {
    exists|i: int| 0 <= i < s.len() && is_ascii_control(#[trigger] s[i])
}

fn any_ascii_control(v: &Vec<char>) -> (r: bool)
    ensures
        r == has_ascii_control(v@),
{
    let mut i: usize = 0;
    while i < v.len()
        invariant
            forall|j: int| 0 <= j < i ==> !is_ascii_control(#[trigger] v@[j]),
        decreases v.len() - i,
    {
        let c = v[i];
        if (c as u32) < 0x20 || (c as u32) == 0x7f {
            assert(is_ascii_control(v@[i as int]));
            return true;
        }
        i = i + 1;
    }
    false
}

/// Why `branch` is not a safe git branch name, or `None` when it is one.
/// Besides what git refuses, the characters that would change the meaning
/// of the `?ref=` query the branch is sent in (`?`, `#`, `&`) and control
/// characters are refused.
pub open spec fn branch_name_problem(branch: Seq<char>) -> Option<Seq<char>> {
    if branch.len() == 0 {
        Some("branch name cannot be empty"@)
    } else if contains_seq(branch, seq!['.', '.']) || branch.contains(' ') || branch.contains('~')
        || branch.contains('^') || branch.contains(':') || branch.contains('\\')
        || branch.contains('?') || branch.contains('#') || branch.contains('&')
        || has_ascii_control(branch)
        || branch[0] == '-' || branch.last() == '/' || ends_with(
        branch,
        seq!['.', 'l', 'o', 'c', 'k'],
    ) {
        Some("branch name contains invalid characters: '"@ + branch + "'"@)
    } else {
        None
    }
}

/// Validate a git branch name (no spaces, no .., no special chars that could be injected).
pub fn branch_name(branch: &str) -> (r: Result<()>)
    ensures
        r is Ok <==> branch_name_problem(branch@) is None,
        r matches Err(e) ==> e@ == input_error(branch_name_problem(branch@)->0),
{
    let chars = chars_of(branch);
    if chars.len() == 0 {
        return Err(config_parse("<input>", owned("branch name cannot be empty")));
    }
    let mut dots: Vec<char> = Vec::new();
    dots.push('.');
    dots.push('.');
    assert(dots@ =~= seq!['.', '.']);
    let mut lock: Vec<char> = Vec::new();
    lock.push('.');
    lock.push('l');
    lock.push('o');
    lock.push('c');
    lock.push('k');
    assert(lock@ =~= seq!['.', 'l', 'o', 'c', 'k']);
    let last = chars[chars.len() - 1];
    if contains(&chars, &dots) || contains_char(&chars, ' ') || contains_char(&chars, '~')
        || contains_char(&chars, '^') || contains_char(&chars, ':') || contains_char(
        &chars,
        '\\',
    ) || contains_char(&chars, '?') || contains_char(&chars, '#') || contains_char(&chars, '&')
        || any_ascii_control(&chars) || chars[0] == '-' || last == '/' || has_suffix(&chars, &lock) {
        return Err(
            config_parse(
                "<input>",
                cat3("branch name contains invalid characters: '", branch, "'"),
            ),
        );
    }
    Ok(())
}

// ---------------------------------------------------------------------------
// Path components
// ---------------------------------------------------------------------------

/// A character allowed in a cache path component.
pub open spec fn path_char(c: char) -> bool {
    is_ascii_alphanumeric(c) || c == '.' || c == '_' || c == '-' || c == '+'
}

/// Why `name` may not be used as one component of a file path, or `None`
/// when it may.
pub open spec fn path_component_problem(name: Seq<char>) -> Option<Seq<char>> {
    if name.len() == 0 {
        Some("path component cannot be empty"@)
    } else if name == seq!['.', '.'] || name == seq!['.'] {
        Some("path traversal not allowed"@)
    } else if exists|i: int| 0 <= i < name.len() && !path_char(#[trigger] name[i]) {
        Some("invalid characters in path component: "@ + name)
    } else {
        None
    }
}

/// Validate a string for use in filesystem paths.
/// Only allows `[a-zA-Z0-9._-+]`, rejects empty strings and path traversal.
/// The `+` is needed for semver build metadata (e.g. `1.1.2+spec-1.1.0`).
pub fn safe_path_component(name: &str) -> (r: Result<String>)
    ensures
        r is Ok <==> path_component_problem(name@) is None,
        r matches Ok(s) ==> s@ == name@,
        r matches Err(e) ==> e@ == ErrorView::InvalidInput(path_component_problem(name@)->0),
{
    let chars = chars_of(name);
    let n = chars.len();
    if n == 0 {
        return Err(Error::InvalidInput(owned("path component cannot be empty")));
    }
    let traversal = (n == 2 && chars[0] == '.' && chars[1] == '.') || (n == 1 && chars[0]
        == '.');
    proof {
        if name@ == seq!['.', '.'] {
            assert(name@[0] == '.' && name@[1] == '.');
        }
        if name@ == seq!['.'] {
            assert(name@[0] == '.');
        }
        if traversal {
            if n == 2 {
                assert(name@ =~= seq!['.', '.']);
            } else {
                assert(name@ =~= seq!['.']);
            }
        }
    }
    if traversal {
        return Err(Error::InvalidInput(owned("path traversal not allowed")));
    }
    let mut i: usize = 0;
    while i < n
        invariant
            n == chars@.len(),
            chars@ == name@,
            forall|j: int| 0 <= j < i ==> path_char(#[trigger] chars@[j]),
        decreases n - i,
    {
        let c = chars[i];
        if !(ascii_alphanumeric(c) || c == '.' || c == '_' || c == '-' || c == '+') {
            assert(!path_char(name@[i as int]));
            return Err(Error::InvalidInput(cat2("invalid characters in path component: ", name)));
        }
        i = i + 1;
    }
    Ok(owned(name))
}

// ---------------------------------------------------------------------------
// Normalisation
// ---------------------------------------------------------------------------

/// `name` with every `-` replaced by `_`.
pub open spec fn normalized(name: Seq<char>) -> Seq<char> {
    name.map_values(|c: char| if c == '-' { '_' } else { c })
}

/// Normalize a crate name by replacing hyphens with underscores,
/// matching Cargo's canonical form.
pub fn normalize_crate_name(name: &str) -> (r: String)
    ensures
        r@ == normalized(name@),
{
    let chars = chars_of(name);
    let mut out: Vec<char> = Vec::new();
    let mut i: usize = 0;
    while i < chars.len()
        invariant
            chars@ == name@,
            i <= chars@.len(),
            out@ == normalized(name@.subrange(0, i as int)),
        decreases chars.len() - i,
    {
        let c = chars[i];
        out.push(if c == '-' { '_' } else { c });
        assert(normalized(name@.subrange(0, i + 1)) =~= normalized(name@.subrange(0, i as int)).push(
            if c == '-' { '_' } else { c },
        ));
        i = i + 1;
    }
    assert(name@.subrange(0, chars@.len() as int) =~= name@);
    string_of(&out)
}

// ---------------------------------------------------------------------------
// Laws
// ---------------------------------------------------------------------------

/// Every valid crate name may be used as a path component.
pub proof fn law_crate_names_are_safe_components(name: Seq<char>)
    requires
        crate_name_problem(name) is None,
    ensures
        path_component_problem(name) is None,
{
    assert(is_ascii_alphabetic(name[0]));
    if name == seq!['.', '.'] || name == seq!['.'] {
        assert(name[0] == '.');
    }
    assert forall|i: int| 0 <= i < name.len() implies path_char(#[trigger] name[i]) by {
        assert(crate_name_char(name[i]));
    }
}

/// A path component that passes validation cannot leave its directory: it
/// holds no separator and is neither `.` nor `..`.
pub proof fn law_safe_components_stay_put(name: Seq<char>)
    requires
        path_component_problem(name) is None,
    ensures
        !name.contains('/'),
        !name.contains('\\'),
        name != seq!['.'],
        name != seq!['.', '.'],
        name.len() > 0,
{
    if name.contains('/') {
        let i = choose|i: int| 0 <= i < name.len() && name[i] == '/';
        assert(path_char(name[i]));
    }
    if name.contains('\\') {
        let i = choose|i: int| 0 <= i < name.len() && name[i] == '\\';
        assert(path_char(name[i]));
    }
}

/// Normalising keeps the length and is idempotent; the result holds no `-`.
pub proof fn law_normalize_idempotent(name: Seq<char>)
    ensures
        normalized(name).len() == name.len(),
        normalized(normalized(name)) == normalized(name),
        !normalized(name).contains('-'),
{
    assert(normalized(normalized(name)) =~= normalized(name));
    if normalized(name).contains('-') {
        let i = choose|i: int| 0 <= i < normalized(name).len() && normalized(name)[i] == '-';
        assert(normalized(name)[i] == (if name[i] == '-' {
            '_'
        } else {
            name[i]
        }));
    }
}

/// A valid repository splits into a non-empty owner and a non-empty name.
pub proof fn law_repo_has_owner_and_name(repo: Seq<char>)
    requires
        github_repo_problem(repo) is None,
    ensures
        exists|k: int| 0 < k < repo.len() - 1 && single_slash_at(repo, k),
{
}

} // verus!
