//! Per-hunk review decisions persisted across TUI sessions, and where they
//! (and the last quit-time review export) are stored.
//!
//! Default store: `<git-dir>/next-hunk/decisions-<scope>.json`; the fallback
//! is `$XDG_STATE_HOME/next-hunk/<repo-key>/…`. Keys match the `--select`
//! JSON (`"{display_path}:h{n}"`), values are `"accepted"` | `"rejected"`;
//! undecided hunks are omitted. Reading and writing the files, finding the
//! git directory and reading the environment belong to the front end.

use vstd::prelude::*;
use vstd::string::StringSliceAdditionalSpecFns;
use crate::app::Decision;
use crate::paths::{join_spec, path_join};
use crate::text::{opt_str_view, opt_string_view, owned, str_eq, string_from_chars};

verus! {

/// On-disk document version.
pub const VERSION: u32 = 1;

/// The wire value a decision is stored as; undecided hunks are not stored.
pub open spec fn wire_of(d: Decision) -> Option<Seq<char>> {
    match d {
        Decision::Accept => Some("accepted"@),
        Decision::Reject => Some("rejected"@),
        Decision::Undecided => None,
    }
}

/// The decision a wire value names, accepting the short aliases.
pub open spec fn decision_of_wire(s: Seq<char>) -> Option<Decision> {
    if s == "accepted"@ || s == "accept"@ || s == "a"@ {
        Some(Decision::Accept)
    } else if s == "rejected"@ || s == "reject"@ || s == "r"@ {
        Some(Decision::Reject)
    } else if s == "undecided"@ || s == "u"@ {
        Some(Decision::Undecided)
    } else {
        None
    }
}

/// Wire value for a decision (matches the agent JSON vocabulary).
pub fn decision_to_wire(d: Decision) -> (r: Option<&'static str>)
    ensures
        match r {
            Some(s) => wire_of(d) == Some(s@),
            None => wire_of(d).is_none(),
        },
{
    match d {
        Decision::Accept => Some("accepted"),
        Decision::Reject => Some("rejected"),
        Decision::Undecided => None,
    }
}

/// Parse a wire value, accepting `accept`/`a`, `reject`/`r`, `undecided`/`u`.
pub fn decision_from_wire(s: &str) -> (r: Option<Decision>)
    ensures
        r == decision_of_wire(s@),
{
    if str_eq(s, "accepted") || str_eq(s, "accept") || str_eq(s, "a") {
        Some(Decision::Accept)
    } else if str_eq(s, "rejected") || str_eq(s, "reject") || str_eq(s, "r") {
        Some(Decision::Reject)
    } else if str_eq(s, "undecided") || str_eq(s, "u") {
        Some(Decision::Undecided)
    } else {
        None
    }
}

/// The document version a state file without one is read as.
pub fn default_version() -> (v: u32)
    ensures
        v == VERSION,
{
    VERSION
}

pub open spec fn string_pairs_view(v: Seq<(String, String)>) -> Seq<(Seq<char>, Seq<char>)> {
    v.map_values(|p: (String, String)| (p.0@, p.1@))
}

pub open spec fn decision_pairs_view(v: Seq<(String, Decision)>) -> Seq<(Seq<char>, Decision)> {
    v.map_values(|p: (String, Decision)| (p.0@, p.1))
}

/// No key occurs twice (the map discipline of the stored document).
pub open spec fn keys_unique<V>(v: Seq<(Seq<char>, V)>) -> bool {
    forall|i: int, j: int| 0 <= i < j < v.len() ==> v[i].0 != v[j].0
}

/// The accepted / rejected decisions a stored map holds, in stored order;
/// unknown wire values and undecided entries are dropped.
pub open spec fn stored_decisions(v: Seq<(Seq<char>, Seq<char>)>) -> Seq<(Seq<char>, Decision)>
    decreases v.len(),
{
    if v.len() == 0 {
        Seq::empty()
    } else {
        let rest = stored_decisions(v.drop_last());
        match decision_of_wire(v.last().1) {
            Some(d) => if d != Decision::Undecided {
                rest.push((v.last().0, d))
            } else {
                rest
            },
            None => rest,
        }
    }
}

/// The wire entries a decision list is stored as, in order; undecided
/// entries are omitted.
pub open spec fn wire_decisions(v: Seq<(Seq<char>, Decision)>) -> Seq<(Seq<char>, Seq<char>)>
    decreases v.len(),
{
    if v.len() == 0 {
        Seq::empty()
    } else {
        let rest = wire_decisions(v.drop_last());
        match wire_of(v.last().1) {
            Some(w) => rest.push((v.last().0, w)),
            None => rest,
        }
    }
}

/// Serializable review state for one scope (worktree / staged / …). The
/// decisions map is held as its entries, each key at most once.
#[derive(Debug, Clone, PartialEq, Eq)]
pub struct PersistedState {
    pub version: u32,
    /// Diff scope label used as part of the filename.
    pub scope: String,
    /// Hunk key → `"accepted"` | `"rejected"`.
    pub decisions: Vec<(String, String)>,
}

impl Default for PersistedState {
    fn default() -> (s: Self)
        ensures
            s.version == 0,
            s.scope@ == Seq::<char>::empty(),
            s.decisions@ == Seq::<(String, String)>::empty(),
    {
        PersistedState { version: 0, scope: String::new(), decisions: Vec::new() }
    }
}

impl PersistedState {
    /// Empty state for `scope` at the current document version.
    pub fn new(scope: &str) -> (s: Self)
        ensures
            s.version == VERSION,
            s.scope@ == scope@,
            s.decisions@ == Seq::<(String, String)>::empty(),
    {
        PersistedState { version: VERSION, scope: owned(scope), decisions: Vec::new() }
    }

    /// The stored accepted / rejected decisions, dropping unknown values.
    pub fn as_decisions(&self) -> (r: Vec<(String, Decision)>)
        ensures
            decision_pairs_view(r@) == stored_decisions(string_pairs_view(self.decisions@)),
    {
        let mut out: Vec<(String, Decision)> = Vec::new();
        let mut i: usize = 0;
        while i < self.decisions.len()
            invariant
                0 <= i <= self.decisions.len(),
                decision_pairs_view(out@) == stored_decisions(
                    string_pairs_view(self.decisions@.subrange(0, i as int)),
                ),
            decreases self.decisions.len() - i,
        {
            let ghost before = out@;
            let key = &self.decisions[i].0;
            let value = &self.decisions[i].1;
            match decision_from_wire(value.as_str()) {
                Some(d) => {
                    if d != Decision::Undecided {
                        out.push((key.clone(), d));
                    }
                },
                None => {},
            }
            proof {
                let v = string_pairs_view(self.decisions@.subrange(0, i + 1));
                assert(v.drop_last() =~= string_pairs_view(self.decisions@.subrange(0, i as int)));
                assert(decision_pairs_view(out@) =~= stored_decisions(v));
            }
            i = i + 1;
        }
        proof {
            assert(self.decisions@.subrange(0, self.decisions@.len() as int) =~= self.decisions@);
        }
        out
    }

    /// Replace the decisions with the wire form of `decisions` (undecided
    /// entries omitted). Version and scope are kept.
    pub fn set_from_decisions(&mut self, decisions: &[(String, Decision)])
        ensures
            final(self).version == old(self).version,
            final(self).scope == old(self).scope,
            string_pairs_view(final(self).decisions@) == wire_decisions(
                decision_pairs_view(decisions@),
            ),
    {
        let mut out: Vec<(String, String)> = Vec::new();
        let mut i: usize = 0;
        while i < decisions.len()
            invariant
                0 <= i <= decisions.len(),
                string_pairs_view(out@) == wire_decisions(
                    decision_pairs_view(decisions@.subrange(0, i as int)),
                ),
            decreases decisions.len() - i,
        {
            match decision_to_wire(decisions[i].1) {
                Some(w) => out.push((decisions[i].0.clone(), owned(w))),
                None => {},
            }
            proof {
                let v = decision_pairs_view(decisions@.subrange(0, i + 1));
                assert(v.drop_last() =~= decision_pairs_view(decisions@.subrange(0, i as int)));
                assert(string_pairs_view(out@) =~= wire_decisions(v));
            }
            i = i + 1;
        }
        proof {
            assert(decisions@.subrange(0, decisions@.len() as int) =~= decisions@);
        }
        self.decisions = out;
    }
}

/// Whether a character survives in a file name unchanged.
pub open spec fn is_portable_char(c: char) -> bool {
    ('a' <= c <= 'z') || ('A' <= c <= 'Z') || ('0' <= c <= '9') || c == '-' || c == '_'
}

/// Keep filenames portable: ASCII alphanumerics, `-` and `_` stay, every
/// other character becomes `_`; an empty name becomes `default`.
pub open spec fn sanitize_spec(s: Seq<char>) -> Seq<char> {
    if s.len() == 0 {
        "default"@
    } else {
        s.map_values(|c: char| if is_portable_char(c) { c } else { '_' })
    }
}

/// Keep filenames portable: alnum, dash, underscore only.
pub fn sanitize_scope(s: &str) -> (r: String)
    ensures
        r@ == sanitize_spec(s@),
{
    let chars = crate::text::str_chars(s);
    if chars.len() == 0 {
        return owned("default");
    }
    let mut out: Vec<char> = Vec::new();
    let mut i: usize = 0;
    while i < chars.len()
        invariant
            0 <= i <= chars.len(),
            out@ == chars@.subrange(0, i as int).map_values(
                |c: char| if is_portable_char(c) { c } else { '_' },
            ),
        decreases chars.len() - i,
    {
        let c = chars[i];
        let keep = ('a' <= c && c <= 'z') || ('A' <= c && c <= 'Z') || ('0' <= c && c <= '9')
            || c == '-' || c == '_';
        if keep {
            out.push(c);
        } else {
            out.push('_');
        }
        proof {
            assert(out@ =~= chars@.subrange(0, i + 1).map_values(
                |c: char| if is_portable_char(c) { c } else { '_' },
            ));
        }
        i = i + 1;
    }
    proof {
        assert(chars@.subrange(0, chars@.len() as int) =~= chars@);
    }
    string_from_chars(&out)
}

/// The file name decisions for `scope` are stored under.
pub open spec fn decisions_file_name(scope: Seq<char>) -> Seq<char> {
    "decisions-"@ + sanitize_spec(scope) + ".json"@
}

/// `<git_dir>/next-hunk/decisions-<scope>.json`.
pub open spec fn path_in_git_dir_spec(git_dir: Seq<char>, scope: Seq<char>) -> Seq<char> {
    join_spec(join_spec(git_dir, "next-hunk"@), decisions_file_name(scope))
}

fn decisions_file(scope: &str) -> (r: String)
    ensures
        r@ == decisions_file_name(scope@),
        r@.len() > 0 && r@[0] == 'd',
{
    let mut out = owned("decisions-");
    let s = sanitize_scope(scope);
    out.append(s.as_str());
    out.append(".json");
    proof {
        reveal_strlit("decisions-");
    }
    out
}

fn next_hunk_dir(base: &str) -> (r: String)
    ensures
        r@ == join_spec(base@, "next-hunk"@),
{
    proof {
        reveal_strlit("next-hunk");
    }
    path_join(base, "next-hunk")
}

/// Resolve the store path for `scope` under a git directory, e.g.
/// `.git/next-hunk/decisions-worktree.json`.
pub fn path_in_git_dir(git_dir: &str, scope: &str) -> (r: String)
    ensures
        r@ == path_in_git_dir_spec(git_dir@, scope@),
{
    let dir = next_hunk_dir(git_dir);
    let file = decisions_file(scope);
    path_join(dir.as_str(), file.as_str())
}

/// `<git_dir>/next-hunk/last-export.json`.
pub open spec fn path_last_export_in_git_dir_spec(git_dir: Seq<char>) -> Seq<char> {
    join_spec(join_spec(git_dir, "next-hunk"@), "last-export.json"@)
}

/// Path for the most recent full review export, e.g.
/// `.git/next-hunk/last-export.json`.
pub fn path_last_export_in_git_dir(git_dir: &str) -> (r: String)
    ensures
        r@ == path_last_export_in_git_dir_spec(git_dir@),
{
    let dir = next_hunk_dir(git_dir);
    proof {
        reveal_strlit("last-export.json");
    }
    path_join(dir.as_str(), "last-export.json")
}

/// The state directory: `$XDG_STATE_HOME` when set and non-empty, else
/// `$HOME/.local/state`, else none.
pub open spec fn xdg_state_home_spec(xdg_var: Option<Seq<char>>, home_var: Option<Seq<char>>) -> Option<Seq<char>> {
    match xdg_var {
        Some(x) if x.len() > 0 => Some(x),
        _ => match home_var {
            Some(h) => Some(join_spec(h, ".local/state"@)),
            None => None,
        },
    }
}


/// Where per-user state lives, from the values of `$XDG_STATE_HOME` and
/// `$HOME` (`None` when unset or not valid Unicode).
pub fn xdg_state_home(xdg_var: Option<&str>, home_var: Option<&str>) -> (r: Option<String>)
    ensures
        match r {
            Some(p) => xdg_state_home_spec(opt_str_view(xdg_var), opt_str_view(home_var)) == Some(p@),
            None => xdg_state_home_spec(opt_str_view(xdg_var), opt_str_view(home_var)).is_none(),
        },
{
    if let Some(x) = xdg_var {
        if !x.is_empty() {
            return Some(owned(x));
        }
    }
    match home_var {
        Some(h) => {
            proof {
                reveal_strlit(".local/state");
            }
            Some(path_join(h, ".local/state"))
        },
        None => None,
    }
}

/// `<state_home>/next-hunk/<repo-key>/<file>`.
pub open spec fn xdg_path_spec(state_home: Seq<char>, repo_key: Seq<char>, file: Seq<char>) -> Seq<char> {
    join_spec(join_spec(join_spec(state_home, "next-hunk"@), sanitize_spec(repo_key)), file)
}

fn xdg_repo_dir(state_home: &str, repo_key: &str) -> (r: String)
    ensures
        r@ == join_spec(join_spec(state_home@, "next-hunk"@), sanitize_spec(repo_key@)),
{
    let dir = next_hunk_dir(state_home);
    let key = sanitize_scope(repo_key);
    proof {
        if key@.len() > 0 && key@[0] == '/' {
            reveal_strlit("default");
            assert(false);
        }
    }
    path_join(dir.as_str(), key.as_str())
}

/// XDG fallback for the last export when no git dir is known.
pub fn path_last_export_in_xdg(repo_key: &str, state_home: Option<&str>) -> (r: Option<String>)
    ensures
        match state_home {
            Some(h) => r.is_some() && r.unwrap()@ == xdg_path_spec(h@, repo_key@, "last-export.json"@),
            None => r.is_none(),
        },
{
    match state_home {
        Some(h) => {
            let dir = xdg_repo_dir(h, repo_key);
            proof {
                reveal_strlit("last-export.json");
            }
            Some(path_join(dir.as_str(), "last-export.json"))
        },
        None => None,
    }
}

/// XDG fallback for the decision store when no git dir is known.
pub fn path_in_xdg(repo_key: &str, scope: &str, state_home: Option<&str>) -> (r: Option<String>)
    ensures
        match state_home {
            Some(h) => r.is_some() && r.unwrap()@ == xdg_path_spec(h@, repo_key@, decisions_file_name(scope@)),
            None => r.is_none(),
        },
{
    match state_home {
        Some(h) => {
            let dir = xdg_repo_dir(h, repo_key);
            let file = decisions_file(scope);
            Some(path_join(dir.as_str(), file.as_str()))
        },
        None => None,
    }
}

} // verus!

verus! {

/// 64-bit FNV-1a over a byte string.
pub open spec fn fnv1a(bytes: Seq<u8>) -> u64
    decreases bytes.len(),
{
    if bytes.len() == 0 {
        0xcbf29ce484222325u64
    } else {
        ((fnv1a(bytes.drop_last()) ^ (bytes.last() as u64)) as u64).wrapping_mul(
            0x100000001b3u64,
        )
    }
}

/// Stable, short, filesystem-safe key for a work directory: the FNV-1a hash
/// of its (canonical) path's UTF-8 bytes as sixteen hex digits. Not
/// cryptographic.
pub fn repo_key_from_path(path: &str) -> (r: String)
    ensures
        r@ == crate::text::hex_fixed(fnv1a(path.spec_bytes()) as nat, 16),
{
    let bytes = path.as_bytes();
    let mut h: u64 = 0xcbf29ce484222325;
    let mut i: usize = 0;
    while i < bytes.len()
        invariant
            0 <= i <= bytes.len(),
            bytes@ == path.spec_bytes(),
            h == fnv1a(bytes@.subrange(0, i as int)),
        decreases bytes.len() - i,
    {
        proof {
            assert(bytes@.subrange(0, i + 1).drop_last() =~= bytes@.subrange(0, i as int));
        }
        h = h ^ (bytes[i] as u64);
        h = h.wrapping_mul(0x100000001b3);
        i = i + 1;
    }
    proof {
        assert(bytes@.subrange(0, bytes@.len() as int) =~= bytes@);
    }
    crate::text::u64_to_hex16(h)
}

} // verus!

verus! {

/// Where the decisions for `scope` live: under the git directory when one is
/// known (given, or discovered from the work directory), else in the state
/// directory keyed by the work directory's key, else nowhere.
pub open spec fn store_path_spec(
    git_dir: Option<Seq<char>>,
    workdir_key: Option<Seq<char>>,
    scope: Seq<char>,
    state_home: Option<Seq<char>>,
) -> Option<Seq<char>> {
    match git_dir {
        Some(g) => Some(path_in_git_dir_spec(g, scope)),
        None => match workdir_key {
            Some(k) => match state_home {
                Some(h) => Some(xdg_path_spec(h, k, decisions_file_name(scope))),
                None => None,
            },
            None => None,
        },
    }
}

/// Resolve where to store state. `git_dir` is the repository's git
/// directory when known (given or discovered by the caller); `workdir_key`
/// the [`repo_key_from_path`] of the work directory when there is one;
/// `state_home` the [`xdg_state_home`].
pub fn resolve_store_path(
    git_dir: Option<&str>,
    workdir_key: Option<&str>,
    scope: &str,
    state_home: Option<&str>,
) -> (r: Option<String>)
    ensures
        opt_string_view(r) == store_path_spec(
            opt_str_view(git_dir),
            opt_str_view(workdir_key),
            scope@,
            opt_str_view(state_home),
        ),
{
    if let Some(gd) = git_dir {
        return Some(path_in_git_dir(gd, scope));
    }
    if let Some(key) = workdir_key {
        return path_in_xdg(key, scope, state_home);
    }
    None
}

/// Where the last review export lives: the same preference as
/// [`store_path_spec`], with the file `last-export.json`.
pub open spec fn last_export_path_spec(
    git_dir: Option<Seq<char>>,
    workdir_key: Option<Seq<char>>,
    state_home: Option<Seq<char>>,
) -> Option<Seq<char>> {
    match git_dir {
        Some(g) => Some(path_last_export_in_git_dir_spec(g)),
        None => match workdir_key {
            Some(k) => match state_home {
                Some(h) => Some(xdg_path_spec(h, k, "last-export.json"@)),
                None => None,
            },
            None => None,
        },
    }
}

/// Resolve where to cache the last quit-time review report.
pub fn resolve_last_export_path(
    git_dir: Option<&str>,
    workdir_key: Option<&str>,
    state_home: Option<&str>,
) -> (r: Option<String>)
    ensures
        opt_string_view(r) == last_export_path_spec(
            opt_str_view(git_dir),
            opt_str_view(workdir_key),
            opt_str_view(state_home),
        ),
{
    if let Some(gd) = git_dir {
        return Some(path_last_export_in_git_dir(gd));
    }
    if let Some(key) = workdir_key {
        return path_last_export_in_xdg(key, state_home);
    }
    None
}


/// What loading makes of a state document: a missing, unreadable or
/// unparseable file (`None`) gives the empty default state; a document that
/// records version 0 is read as the current version.
pub fn loaded_state(parsed: Option<PersistedState>) -> (s: PersistedState)
    ensures
        match parsed {
            None => s.version == 0 && s.scope@.len() == 0 && s.decisions@.len() == 0,
            Some(p) => s.scope == p.scope && s.decisions == p.decisions && s.version == (if p.version
                == 0 {
                VERSION
            } else {
                p.version
            }),
        },
{
    match parsed {
        Some(p) => {
            let mut s = p;
            if s.version == 0 {
                s.version = VERSION;
            }
            s
        },
        None => PersistedState::default(),
    }
}

/// The accepted and rejected entries of a decision list, in order.
pub open spec fn decided(v: Seq<(Seq<char>, Decision)>) -> Seq<(Seq<char>, Decision)>
    decreases v.len(),
{
    if v.len() == 0 {
        Seq::empty()
    } else if v.last().1 == Decision::Undecided {
        decided(v.drop_last())
    } else {
        decided(v.drop_last()).push(v.last())
    }
}

/// Storing decisions and reading them back gives every accepted and
/// rejected decision, in order; undecided hunks are not stored.
pub proof fn law_decisions_round_trip(v: Seq<(Seq<char>, Decision)>)
    ensures
        stored_decisions(wire_decisions(v)) == decided(v),
    decreases v.len(),
{
    if v.len() > 0 {
        law_decisions_round_trip(v.drop_last());
        let w = wire_decisions(v.drop_last());
        reveal_strlit("accepted");
        reveal_strlit("accept");
        reveal_strlit("a");
        reveal_strlit("rejected");
        match v.last().1 {
            Decision::Accept => {
                assert(wire_decisions(v) == w.push((v.last().0, "accepted"@)));
                assert(w.push((v.last().0, "accepted"@)).drop_last() =~= w);
                assert(decision_of_wire("accepted"@) == Some(Decision::Accept));
            },
            Decision::Reject => {
                assert(wire_decisions(v) == w.push((v.last().0, "rejected"@)));
                assert(w.push((v.last().0, "rejected"@)).drop_last() =~= w);
                assert("rejected"@[0] != "accepted"@[0]);
                assert("rejected"@[0] != "accept"@[0]);
                assert("rejected"@.len() != "a"@.len());
                assert(decision_of_wire("rejected"@) == Some(Decision::Reject));
            },
            Decision::Undecided => {},
        }
    }
}

} // verus!
