//! Naming rules for entries: query normalization for exact-match
//! comparison, and the fast-create decision.

use vstd::prelude::*;
use crate::text::{char_white, char_is_whitespace, chars_of, string_of_chars};
use crate::util::{has_date_prefix, is_allowed_char, split_date_prefixed};

verus! {

/// Collapsing whitespace from position `i` on: each run of whitespace
/// becomes a single dash, everything else stands as it is; `last_dash`
/// says whether a dash was just written.
pub open spec fn collapse_ws_from(s: Seq<char>, i: int, last_dash: bool) -> Seq<char>
    decreases s.len() - i,
{
    if i < 0 || i >= s.len() {
        Seq::empty()
    } else if char_white(s[i]) {
        if last_dash {
            collapse_ws_from(s, i + 1, true)
        } else {
            seq!['-'] + collapse_ws_from(s, i + 1, true)
        }
    } else {
        seq![s[i]] + collapse_ws_from(s, i + 1, false)
    }
}

/// A query normalized for exact-match comparison: sanitized to the
/// allowed characters, with each whitespace run turned into one dash.
pub open spec fn normalize_spec(q: Seq<char>) -> Seq<char> {
    collapse_ws_from(q.filter(|c: char| is_allowed_char(c)), 0, false)
}

/// Normalize a user query for exact-match comparison: keep the allowed
/// characters and replace consecutive whitespace with a single `-`.
pub fn normalize_query_for_match(query: &str) -> (r: String)
    ensures
        r@ == normalize_spec(query@),
{
    let sanitized = crate::util::sanitize_query(query);
    let v = chars_of(sanitized.as_str());
    let ghost s = sanitized@;
    let n = v.len();
    let mut out: Vec<char> = Vec::new();
    let mut last_dash = false;
    let mut i: usize = 0;
    while i < n
        invariant
            i <= n,
            n == v@.len(),
            v@ == s,
            collapse_ws_from(s, 0, false) == out@ + collapse_ws_from(s, i as int, last_dash),
        decreases n - i,
    {
        let ghost out0 = out@;
        let ghost ld0 = last_dash;
        let c = v[i];
        if char_is_whitespace(c) {
            if !last_dash {
                out.push('-');
                last_dash = true;
            }
        } else {
            out.push(c);
            last_dash = false;
        }
        proof {
            if char_white(s[i as int]) {
                if ld0 {
                    assert(collapse_ws_from(s, i as int, ld0) == collapse_ws_from(s, i + 1, true));
                } else {
                    assert(out0 + collapse_ws_from(s, i as int, ld0)
                        =~= out@ + collapse_ws_from(s, i + 1, true));
                }
            } else {
                assert(out0 + collapse_ws_from(s, i as int, ld0)
                    =~= out@ + collapse_ws_from(s, i + 1, false));
            }
        }
        i = i + 1;
    }
    proof {
        assert(collapse_ws_from(s, n as int, last_dash) =~= Seq::<char>::empty());
        assert(out@ + Seq::<char>::empty() =~= out@);
    }
    string_of_chars(&out)
}

/// An entry name with any leading date stamp removed.
pub open spec fn strip_date(s: Seq<char>) -> Seq<char> {
    if has_date_prefix(s) {
        s.skip(11)
    } else {
        s
    }
}

/// Whether one of `names`, its date stamp ignored, equals `norm`.
pub open spec fn has_exact_match(names: Seq<Seq<char>>, norm: Seq<char>) -> bool {
    exists|i: int| 0 <= i < names.len() && strip_date(#[trigger] names[i]) == norm
}

/// The fast-create decision: given the existing entry names, returns the
/// name of the directory to create for `query` — today's stamp, a dash
/// and the normalized query — unless an existing entry already matches
/// the normalized query exactly, its own date stamp ignored.
pub fn fast_create_target_if_no_exact(names: &Vec<String>, query: &str, today: &str) -> (r: Option<
    String,
>)
    ensures
        match r {
            None => has_exact_match(names@.map_values(|s: String| s@), normalize_spec(query@)),
            Some(name) => !has_exact_match(names@.map_values(|s: String| s@), normalize_spec(query@))
                && name@ == today@ + "-"@ + normalize_spec(query@),
        },
{
    let ghost sname = names@.map_values(|s: String| s@);
    let norm = normalize_query_for_match(query);
    let normv = chars_of(norm.as_str());
    let n = names.len();
    let mut i: usize = 0;
    while i < n
        invariant
            i <= n,
            n == names@.len(),
            sname == names@.map_values(|s: String| s@),
            norm@ == normalize_spec(query@),
            normv@ == norm@,
            forall|j: int| 0 <= j < i ==> strip_date(#[trigger] sname[j]) != norm@,
        decreases n - i,
    {
        let nm = names[i].as_str();
        let stripped = match split_date_prefixed(nm) {
            Some((_date, rest)) => rest,
            None => nm,
        };
        let sv = chars_of(stripped);
        if crate::text::chars_eq(&sv, &normv) {
            proof {
                assert(strip_date(sname[i as int]) == norm@);
            }
            return None;
        }
        i = i + 1;
    }
    let mut out: Vec<char> = Vec::new();
    crate::text::push_str_chars(today, &mut out);
    crate::text::push_str_chars("-", &mut out);
    crate::text::push_all(&normv, &mut out);
    proof {
        assert(out@ =~= today@ + "-"@ + normalize_spec(query@));
    }
    Some(string_of_chars(&out))
}

} // verus!
