//! The command line: its commands and the parsing of crate specs.
use vstd::prelude::*;

use crate::text::{chars_of, rfind, rfind_char, same_text, substring};

verus! {

/// The parsed command line.
#[derive(Debug)]
pub struct Cli {
    pub command: Commands,
}

/// The commands of the tool.
#[derive(Debug)]
pub enum Commands {
    /// Configure safe-cargo (repo URL, branch, GitHub token stored in keychain)
    Setup,
    /// Add a crate after verifying it passes security analysis
    Add {
        /// Crate name, optionally with @version (e.g. "tokio" or "tokio@1.38.0")
        crate_spec: String,
    },
    /// Verify all dependencies in Cargo.lock have passing reports
    Check,
    /// Show analysis status for all dependencies
    Status,
    /// Manually allow a crate version, bypassing analysis
    Allow {
        /// Crate spec in name@version format (e.g. "openssl-sys@0.9.102")
        crate_spec: String,
        /// Reason for allowing (required for audit trail)
        reason: String,
    },
    /// Re-trigger analysis for all dependencies
    Audit,
    /// Run cargo update, then verify new versions
    Update,
    /// Pass-through: any unrecognized command is forwarded to cargo
    Passthrough(Vec<String>),
}

/// The name and the optional version of a `crate[@version]` spec: the text
/// before and after the last `@`, no version when nothing follows it.
pub open spec fn crate_spec_parts(spec: Seq<char>) -> (Seq<char>, Option<Seq<char>>) {
    match rfind(spec, '@') {
        Some(pos) => {
            let version = spec.subrange(pos + 1, spec.len() as int);
            (spec.subrange(0, pos), if version.len() == 0 {
                None
            } else {
                Some(version)
            })
        },
        None => (spec, None),
    }
}

/// Parse "crate@version" or "crate" into (name, Option<version>).
pub fn parse_crate_spec(spec: &str) -> (r: (String, Option<String>))
    ensures
        r.0@ == crate_spec_parts(spec@).0,
        match r.1 {
            Some(v) => crate_spec_parts(spec@).1 == Some(v@),
            None => crate_spec_parts(spec@).1 is None,
        },
{
    let chars = chars_of(spec);
    match rfind_char(&chars, '@') {
        Some(pos) => {
            let name = substring(&chars, 0, pos);
            let version = substring(&chars, pos + 1, chars.len());
            if pos + 1 == chars.len() {
                (name, None)
            } else {
                (name, Some(version))
            }
        },
        None => (substring(&chars, 0, chars.len()), None),
    }
}

proof fn lemma_rfind_skips(s: Seq<char>, t: Seq<char>, c: char)
    requires
        !t.contains(c),
    ensures
        rfind(s + t, c) == rfind(s, c),
    decreases t.len(),
{
    if t.len() == 0 {
        assert(s + t =~= s);
    } else {
        assert((s + t).drop_last() =~= s + t.drop_last());
        assert((s + t).last() == t.last());
        assert(t.last() != c) by {
            assert(t[t.len() - 1] == t.last());
        }
        assert(!t.drop_last().contains(c)) by {
            if t.drop_last().contains(c) {
                let i = choose|i: int| 0 <= i < t.drop_last().len() && t.drop_last()[i] == c;
                assert(t[i] == c);
            }
        }
        lemma_rfind_skips(s, t.drop_last(), c);
    }
}

/// `name@version` splits back into the name and the version, whatever the
/// name holds, as long as the version is not empty and holds no `@`.
pub proof fn law_crate_spec_round_trip(name: Seq<char>, version: Seq<char>)
    requires
        version.len() > 0,
        !version.contains('@'),
    ensures
        crate_spec_parts(name + seq!['@'] + version) == (name, Some(version)),
{
    let s = name + seq!['@'] + version;
    lemma_rfind_skips(name + seq!['@'], version, '@');
    assert(rfind(name + seq!['@'], '@') == Some(name.len() as int));
    assert(s.subrange(0, name.len() as int) =~= name);
    assert(s.subrange(name.len() as int + 1, s.len() as int) =~= version);
}

/// A spec without `@` is a bare name with no version.
pub proof fn law_bare_crate_spec(name: Seq<char>)
    requires
        !name.contains('@'),
    ensures
        crate_spec_parts(name) == (name, None::<Seq<char>>),
{
    lemma_rfind_skips(Seq::empty(), name, '@');
    assert(Seq::<char>::empty() + name =~= name);
}

/// What to do with a command that the tool does not know itself.
#[derive(Debug, PartialEq, Eq)]
pub enum PassthroughAction {
    /// No arguments: nothing to do.
    Nothing,
    /// `install` and `add` are refused: crates are added through
    /// `safe-cargo add`.  Holds the refused subcommand.
    Refuse(String),
    /// `build`, `run`, `test`, `bench` and `check` run the dependency check
    /// first, then cargo with the arguments.
    CheckThenRun,
    /// Anything else goes to cargo as it is.
    Run,
}

/// The subcommand forces a dependency check before cargo runs.
pub open spec fn checked_subcommand(s: Seq<char>) -> bool {
    s == "build"@ || s == "run"@ || s == "test"@ || s == "bench"@ || s == "check"@
}

/// The subcommand is refused.
pub open spec fn refused_subcommand(s: Seq<char>) -> bool {
    s == "install"@ || s == "add"@
}

/// Decides how the arguments of an unknown command are handled.
pub fn plan_passthrough(args: &Vec<String>) -> (r: PassthroughAction)
    ensures
        args@.len() == 0 ==> r == PassthroughAction::Nothing,
        args@.len() > 0 ==> {
            let first = args@[0]@;
            &&& refused_subcommand(first) ==> (r matches PassthroughAction::Refuse(s) && s@ == first)
            &&& !refused_subcommand(first) && checked_subcommand(first) ==> r
                == PassthroughAction::CheckThenRun
            &&& !refused_subcommand(first) && !checked_subcommand(first) ==> r
                == PassthroughAction::Run
        },
{
    if args.len() == 0 {
        return PassthroughAction::Nothing;
    }
    let first = args[0].as_str();
    if same_text(first, "install") || same_text(first, "add") {
        PassthroughAction::Refuse(first.to_owned())
    } else if same_text(first, "build") || same_text(first, "run") || same_text(first, "test")
        || same_text(first, "bench") || same_text(first, "check") {
        PassthroughAction::CheckThenRun
    } else {
        PassthroughAction::Run
    }
}

} // verus!
