//! The `cd` flow: what to print or run for a given query, and the shell
//! line a finished selection turns into.
//!
//! The surrounding process reads arguments and directories and prints;
//! the decisions — clone shorthand, fast create, or the interactive
//! selector, and the exact shell lines — are taken here.

use vstd::prelude::*;
use crate::selector::{ActionType, Selection};
use crate::storage::{has_exact_match, normalize_spec};
use crate::text::{chars_of, string_of_chars, trim_spec, trim_str};
use crate::util::{
    is_date_stamp, join_sep, join_shell, spec_dir_assign, spec_is_git_uri, spec_parse_git_uri,
};

verus! {

/// Build the fuzzy query for the `cd` command from the remaining
/// arguments, removing a redundant leading `cd` token if present.
pub fn build_cd_query(rest: &Vec<String>) -> (r: String)
    ensures
        ({
            let parts = rest@.map_values(|s: String| s@);
            let kept = if parts.len() > 0 && parts[0] == "cd"@ {
                parts.skip(1)
            } else {
                parts
            };
            r@ == join_sep(kept, " "@)
        }),
{
    let ghost parts = rest@.map_values(|s: String| s@);
    let mut kept: Vec<String> = Vec::new();
    let mut start: usize = 0;
    if rest.len() > 0 {
        let first = chars_of(rest[0].as_str());
        let cd = chars_of("cd");
        if crate::text::chars_eq(&first, &cd) {
            start = 1;
        }
    }
    let n = rest.len();
    let mut i: usize = start;
    while i < n
        invariant
            start <= i <= n,
            n == rest@.len(),
            kept@.len() == i - start,
            forall|k: int| 0 <= k < i - start ==> #[trigger] kept@[k] == rest@[start + k],
        decreases n - i,
    {
        kept.push(crate::selector::clone_string(&rest[i]));
        i = i + 1;
    }
    proof {
        assert(kept@ =~= rest@.subrange(start as int, n as int));
        if start == 1 {
            assert(rest@.subrange(1, n as int) =~= rest@.skip(1));
            assert(kept@.map_values(|s: String| s@) =~= parts.skip(1));
        } else {
            assert(rest@.subrange(0, n as int) =~= rest@);
            assert(kept@.map_values(|s: String| s@) =~= parts);
        }
    }
    crate::util::join_with(&kept, " ")
}

/// The pieces of the clone pipeline for directory `dir` and URI `uri`.
pub open spec fn clone_parts(dir: Seq<char>, uri: Seq<char>, fish: bool) -> Seq<Seq<char>> {
    seq![
        spec_dir_assign(dir, fish),
        "mkdir -p \"$dir\""@,
        "git clone '"@ + uri + "' \"$dir\""@,
        "touch \"$dir\""@,
        "cd \"$dir\""@,
    ]
}

/// The pieces of the fast-create pipeline for directory `dir`.
pub open spec fn fast_create_parts(dir: Seq<char>, fish: bool) -> Seq<Seq<char>> {
    seq![
        spec_dir_assign(dir, fish),
        "mkdir -p \"$dir\""@,
        "touch \"$dir\""@,
        "cd \"$dir\""@,
    ]
}

/// What the `cd` flow does for a query, short of running the selector.
pub enum CdPlan {
    /// Print this shell line: a clone pipeline for a git URI query.
    CloneRepo(String),
    /// The query looked like a git URI but did not parse; warn with it.
    BadUri(String),
    /// Print this shell line: the query names a new entry to create.
    FastCreate(String),
    /// Nothing decided here: run the interactive selector.
    Interactive,
}

/// Decides the `cd` flow for a query: a git-URI query becomes a clone
/// pipeline (or a warning when it does not parse); a query with no
/// exact match among the existing entry names becomes a fast-create
/// pipeline; anything else, the empty query included, goes to the
/// interactive selector.  `names` are the existing entry names.
pub fn cd_flow_plan(query_str: &str, base_path: &str, names: &Vec<String>, fish: bool) -> (plan:
    CdPlan)
    ensures
        ({
            let t = trim_spec(query_str@);
            let sname = names@.map_values(|s: String| s@);
            if t.len() > 0 && spec_is_git_uri(t) {
                match spec_parse_git_uri(t) {
                    Some(parts) => match plan {
                        CdPlan::CloneRepo(line) => exists|stamp: Seq<char>|
                            is_date_stamp(stamp) && line@ == join_sep(
                                clone_parts(
                                    base_path@ + "/"@ + stamp + "-"@ + parts.1 + "-"@ + parts.2,
                                    t,
                                    fish,
                                ),
                                " && "@,
                            ),
                        _ => false,
                    },
                    None => match plan {
                        CdPlan::BadUri(s) => s@ == t,
                        _ => false,
                    },
                }
            } else if t.len() > 0 && !has_exact_match(sname, normalize_spec(t)) {
                match plan {
                    CdPlan::FastCreate(line) => exists|stamp: Seq<char>|
                        is_date_stamp(stamp) && line@ == join_sep(
                            fast_create_parts(
                                base_path@ + "/"@ + stamp + "-"@ + normalize_spec(t),
                                fish,
                            ),
                            " && "@,
                        ),
                    _ => false,
                }
            } else {
                plan matches CdPlan::Interactive
            }
        }),
{
    let trimmed = trim_str(query_str);
    if trimmed.is_empty() {
        return CdPlan::Interactive;
    }
    if crate::util::is_git_uri(trimmed) {
        match crate::util::generate_clone_directory_name(trimmed, None) {
            Some(dir_name) => {
                let full = crate::selector::join_path(base_path, dir_name.as_str());
                let mut parts: Vec<String> = Vec::new();
                parts.push(crate::util::dir_assign_for_shell(full.as_str(), fish));
                parts.push("mkdir -p \"$dir\"".to_owned());
                let mut clone_cmd: Vec<char> = Vec::new();
                crate::text::push_str_chars("git clone '", &mut clone_cmd);
                crate::text::push_str_chars(trimmed, &mut clone_cmd);
                crate::text::push_str_chars("' \"$dir\"", &mut clone_cmd);
                parts.push(string_of_chars(&clone_cmd));
                parts.push("touch \"$dir\"".to_owned());
                parts.push("cd \"$dir\"".to_owned());
                let line = join_shell(&parts);
                proof {
                    let t = trim_spec(query_str@);
                    let stamp = choose|stamp: Seq<char>|
                        is_date_stamp(stamp) && dir_name@ == stamp + "-"@
                            + spec_parse_git_uri(t)->Some_0.1 + "-"@
                            + spec_parse_git_uri(t)->Some_0.2;
                    assert(parts@.map_values(|s: String| s@)
                        =~= clone_parts(base_path@ + "/"@ + dir_name@, t, fish));
                    assert(base_path@ + "/"@ + dir_name@ =~= base_path@ + "/"@ + stamp + "-"@
                        + spec_parse_git_uri(t)->Some_0.1 + "-"@
                        + spec_parse_git_uri(t)->Some_0.2);
                }
                CdPlan::CloneRepo(line)
            },
            None => CdPlan::BadUri(trimmed.to_owned()),
        }
    } else {
        let today = crate::util::today_prefix();
        match crate::storage::fast_create_target_if_no_exact(names, trimmed, today.as_str()) {
            Some(name) => {
                let full = crate::selector::join_path(base_path, name.as_str());
                let mut parts: Vec<String> = Vec::new();
                parts.push(crate::util::dir_assign_for_shell(full.as_str(), fish));
                parts.push("mkdir -p \"$dir\"".to_owned());
                parts.push("touch \"$dir\"".to_owned());
                parts.push("cd \"$dir\"".to_owned());
                let line = join_shell(&parts);
                proof {
                    let t = trim_spec(query_str@);
                    assert(parts@.map_values(|s: String| s@)
                        =~= fast_create_parts(base_path@ + "/"@ + name@, fish));
                    assert(base_path@ + "/"@ + name@ =~= base_path@ + "/"@ + today@ + "-"@
                        + normalize_spec(t));
                    assert(is_date_stamp(today@) && line@ == join_sep(
                        fast_create_parts(
                            base_path@ + "/"@ + today@ + "-"@ + normalize_spec(t),
                            fish,
                        ),
                        " && "@,
                    ));
                }
                CdPlan::FastCreate(line)
            },
            None => CdPlan::Interactive,
        }
    }
}

/// The shell line a finished selection turns into: the directory
/// binding, then the commands of the chosen action.
pub open spec fn spec_selection_parts(kind: ActionType, dir: Seq<char>, fish: bool) -> Seq<
    Seq<char>,
> {
    let head = seq![spec_dir_assign(dir, fish)];
    match kind {
        ActionType::Mkdir => head + seq![
            "mkdir -p \"$dir\""@,
            "touch \"$dir\""@,
            "cd \"$dir\""@,
        ],
        ActionType::Cd => head + seq!["touch \"$dir\""@, "cd \"$dir\""@],
        ActionType::Cancel => head,
    }
}

/// The shell line to print for a finished selection: nothing for a
/// selection without a path, else the joined pipeline of its action.
pub fn selection_command_line(sel: &Selection, fish: bool) -> (r: Option<String>)
    ensures
        match sel.path {
            None => r is None,
            Some(dir) => match r {
                Some(line) => line@ == join_sep(
                    spec_selection_parts(sel.kind, dir@, fish),
                    " && "@,
                ),
                None => false,
            },
        },
{
    match &sel.path {
        None => None,
        Some(dir) => {
            let mut parts: Vec<String> = Vec::new();
            parts.push(crate::util::dir_assign_for_shell(dir.as_str(), fish));
            match sel.kind {
                ActionType::Mkdir => {
                    parts.push("mkdir -p \"$dir\"".to_owned());
                    parts.push("touch \"$dir\"".to_owned());
                    parts.push("cd \"$dir\"".to_owned());
                },
                ActionType::Cd => {
                    parts.push("touch \"$dir\"".to_owned());
                    parts.push("cd \"$dir\"".to_owned());
                },
                ActionType::Cancel => {},
            }
            let line = join_shell(&parts);
            proof {
                assert(parts@.map_values(|s: String| s@)
                    =~= spec_selection_parts(sel.kind, dir@, fish));
            }
            Some(line)
        },
    }
}

} // verus!
