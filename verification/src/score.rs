//! The fuzzy-match core of the ranking engine.
//!
//! A query matches a text when the query's characters appear in the text
//! in order, case-insensitively.  The walk is greedy: each query
//! character is matched at the first possible position.  Besides the
//! matched positions, the walk records for each match whether it sits on
//! a word boundary (start of the text, or preceded by a character that
//! is not alphanumeric); the numeric scoring weights derived from these
//! facts are applied by the caller.

use vstd::prelude::*;
use crate::text::{chars_of, lowercase, lower_of, char_alnum, char_is_alphanumeric};

verus! {

/// `pos` places the characters of `q` inside `t`, in order.
pub open spec fn subseq_at(q: Seq<char>, t: Seq<char>, pos: Seq<int>) -> bool {
    &&& pos.len() == q.len()
    &&& forall|i: int| 0 <= i < pos.len() ==> 0 <= #[trigger] pos[i] < t.len() && t[pos[i]] == q[i]
    &&& forall|i: int| 0 < i < pos.len() ==> pos[i - 1] < #[trigger] pos[i]
}

proof fn lemma_incr_chain(pos: Seq<int>, i: int, j: int)
    requires
        forall|k: int| 0 < k < pos.len() ==> pos[k - 1] < #[trigger] pos[k],
        0 <= i <= j < pos.len(),
    ensures
        pos[i] + (j - i) <= pos[j],
    decreases j - i,
{
    if i < j {
        lemma_incr_chain(pos, i, j - 1);
    }
}

/// The characters of `q` appear in `t` as an ordered subsequence.
pub open spec fn is_subsequence(q: Seq<char>, t: Seq<char>) -> bool {
    exists|pos: Seq<int>| subseq_at(q, t, pos)
}

/// The positions the greedy walk picks for `q` in `t`, starting at
/// text index `ti`; `None` when the walk cannot place every character.
pub open spec fn greedy_from(q: Seq<char>, t: Seq<char>, ti: int) -> Option<Seq<int>>
    decreases t.len() - ti,
{
    if q.len() == 0 {
        Some(Seq::empty())
    } else if ti < 0 || ti >= t.len() {
        None
    } else if t[ti] == q[0] {
        match greedy_from(q.skip(1), t, ti + 1) {
            Some(rest) => Some(seq![ti] + rest),
            None => None,
        }
    } else {
        greedy_from(q, t, ti + 1)
    }
}

/// The positions of the greedy match of `q` against `t`.
pub open spec fn greedy_match(q: Seq<char>, t: Seq<char>) -> Option<Seq<int>> {
    greedy_from(q, t, 0)
}

/// A match at position `p` of `t` sits on a word boundary: the first
/// character, or preceded by a character that is not alphanumeric.
pub open spec fn on_boundary(t: Seq<char>, p: int) -> bool {
    p == 0 || !char_alnum(t[p - 1])
}

/// What the greedy walk hands back: where each query character matched,
/// and whether that position sits on a word boundary.
pub struct MatchInfo {
    /// The matched position of each query character, strictly increasing.
    pub positions: Vec<usize>,
    /// For each matched position, whether it sits on a word boundary.
    pub boundaries: Vec<bool>,
}

impl MatchInfo {
    /// The positions as mathematical integers.
    pub open spec fn spec_positions(&self) -> Seq<int> {
        self.positions@.map_values(|p: usize| p as int)
    }

    /// The record describes the greedy match of `q` against `t`.
    pub open spec fn describes(&self, q: Seq<char>, t: Seq<char>) -> bool {
        &&& greedy_match(q, t) == Some(self.spec_positions())
        &&& self.boundaries@.len() == self.positions@.len()
        &&& forall|i: int| 0 <= i < self.boundaries@.len()
            ==> #[trigger] self.boundaries@[i] == on_boundary(t, self.spec_positions()[i])
    }
}

proof fn lemma_greedy_positions_valid(q: Seq<char>, t: Seq<char>, ti: int, pos: Seq<int>)
    requires
        0 <= ti,
        greedy_from(q, t, ti) == Some(pos),
    ensures
        subseq_at(q, t, pos),
        forall|i: int| 0 <= i < pos.len() ==> #[trigger] pos[i] >= ti,
    decreases t.len() - ti,
{
    if q.len() == 0 {
    } else if ti >= t.len() {
    } else if t[ti] == q[0] {
        let rest = greedy_from(q.skip(1), t, ti + 1);
        match rest {
            Some(r) => {
                lemma_greedy_positions_valid(q.skip(1), t, ti + 1, r);
                assert(pos =~= seq![ti] + r);
                assert forall|i: int| 0 <= i < pos.len() implies 0 <= #[trigger] pos[i] < t.len()
                    && t[pos[i]] == q[i] by {
                    if i > 0 {
                        assert(r[i - 1] == pos[i]);
                        assert(q.skip(1)[i - 1] == q[i]);
                    }
                }
                assert forall|i: int| 0 < i < pos.len() implies pos[i - 1] < #[trigger] pos[i] by {
                    if i == 1 {
                        assert(pos[0] == ti && pos[1] == r[0] && r[0] >= ti + 1);
                    } else {
                        assert(pos[i - 1] == r[i - 2] && pos[i] == r[i - 1]);
                    }
                }
            },
            None => {},
        }
    } else {
        lemma_greedy_positions_valid(q, t, ti + 1, pos);
    }
}

proof fn lemma_greedy_complete(q: Seq<char>, t: Seq<char>, ti: int, pos: Seq<int>)
    requires
        0 <= ti,
        subseq_at(q, t, pos),
        forall|i: int| 0 <= i < pos.len() ==> #[trigger] pos[i] >= ti,
    ensures
        greedy_from(q, t, ti) is Some,
    decreases t.len() - ti,
{
    if q.len() == 0 {
    } else {
        assert(pos[0] >= ti && pos[0] < t.len());
        if t[ti] == q[0] {
            if q.len() == 1 {
                assert(subseq_at(q.skip(1), t, pos.skip(1)));
                lemma_greedy_complete(q.skip(1), t, ti + 1, pos.skip(1));
            } else {
                let rest = pos.skip(1);
                assert forall|i: int| 0 <= i < rest.len() implies 0 <= #[trigger] rest[i] < t.len()
                    && t[rest[i]] == q.skip(1)[i] by {
                    assert(rest[i] == pos[i + 1]);
                }
                assert forall|i: int| 0 < i < rest.len() implies rest[i - 1] < #[trigger] rest[i] by {
                    assert(rest[i - 1] == pos[i] && rest[i] == pos[i + 1]);
                }
                assert(subseq_at(q.skip(1), t, rest));
                assert forall|i: int| 0 <= i < rest.len() implies #[trigger] rest[i] >= ti + 1 by {
                    assert(rest[i] == pos[i + 1]);
                    lemma_incr_chain(pos, 0, i + 1);
                }
                lemma_greedy_complete(q.skip(1), t, ti + 1, rest);
            }
        } else {
            assert(pos[0] != ti);
            assert forall|i: int| 0 <= i < pos.len() implies #[trigger] pos[i] >= ti + 1 by {
                lemma_incr_chain(pos, 0, i);
            }
            lemma_greedy_complete(q, t, ti + 1, pos);
        }
    }
}

/// Subsequence law: the greedy walk succeeds exactly when the query's
/// characters appear in the text as an ordered subsequence.  In
/// particular, when they do not, there is no match, and the score built
/// from the walk is zero.
pub proof fn lemma_subsequence_law(q: Seq<char>, t: Seq<char>)
    ensures
        (greedy_match(q, t) is Some) <==> is_subsequence(q, t),
{
    match greedy_match(q, t) {
        Some(pos) => {
            lemma_greedy_positions_valid(q, t, 0, pos);
        },
        None => {
            if is_subsequence(q, t) {
                let pos = choose|pos: Seq<int>| subseq_at(q, t, pos);
                lemma_greedy_complete(q, t, 0, pos);
            }
        },
    }
}

/// Runs the greedy walk of `q` over `t`, both as plain character
/// vectors, and reports positions and word-boundary flags.
pub fn match_positions(t: &Vec<char>, q: &Vec<char>) -> (r: Option<MatchInfo>)
    ensures
        match r {
            Some(info) => info.describes(q@, t@),
            None => greedy_match(q@, t@) is None,
        },
{
    let mut positions: Vec<usize> = Vec::new();
    let mut boundaries: Vec<bool> = Vec::new();
    let mut ti: usize = 0;
    let mut qi: usize = 0;
    let n = t.len();
    let m = q.len();
    proof {
        assert(q@.skip(0) =~= q@);
        match greedy_match(q@, t@) {
            Some(rest) => {
                assert(positions@.map_values(|p: usize| p as int) + rest =~= rest);
            },
            None => {},
        }
    }
    while ti < n && qi < m
        invariant
            ti <= n,
            qi <= m,
            n == t@.len(),
            m == q@.len(),
            positions@.len() == qi,
            boundaries@.len() == qi,
            forall|i: int| 0 <= i < qi ==> #[trigger] boundaries@[i]
                == on_boundary(t@, positions@.map_values(|p: usize| p as int)[i]),
            match greedy_from(q@.skip(qi as int), t@, ti as int) {
                Some(rest) => greedy_match(q@, t@)
                    == Some(positions@.map_values(|p: usize| p as int) + rest),
                None => greedy_match(q@, t@) is None,
            },
        decreases n - ti,
    {
        let ghost gpos = positions@.map_values(|p: usize| p as int);
        let ghost grem = q@.skip(qi as int);
        if t[ti] == q[qi] {
            let bdry = if ti == 0 {
                true
            } else {
                !char_is_alphanumeric(t[ti - 1])
            };
            positions.push(ti);
            boundaries.push(bdry);
            proof {
                assert(grem[0] == q@[qi as int]);
                assert(q@.skip(qi + 1) =~= grem.skip(1));
                assert(positions@.map_values(|p: usize| p as int) =~= gpos.push(ti as int));
                match greedy_from(grem.skip(1), t@, ti + 1) {
                    Some(rest) => {
                        assert(greedy_from(grem, t@, ti as int) == Some(seq![ti as int] + rest));
                        assert(gpos + (seq![ti as int] + rest) =~= gpos.push(ti as int) + rest);
                    },
                    None => {
                        assert(greedy_from(grem, t@, ti as int) is None);
                    },
                }
            }
            qi = qi + 1;
        } else {
            proof {
                assert(greedy_from(grem, t@, ti as int) == greedy_from(grem, t@, ti + 1));
            }
        }
        ti = ti + 1;
    }
    if qi < m {
        proof {
            let grem = q@.skip(qi as int);
            assert(grem.len() > 0);
            assert(greedy_from(grem, t@, ti as int) is None);
        }
        None
    } else {
        proof {
            assert(q@.skip(m as int) =~= Seq::<char>::empty());
            assert(greedy_from(q@.skip(m as int), t@, ti as int) == Some(Seq::<int>::empty()));
            assert(positions@.map_values(|p: usize| p as int) + Seq::<int>::empty()
                =~= positions@.map_values(|p: usize| p as int));
        }
        Some(MatchInfo { positions, boundaries })
    }
}

/// Runs the case-insensitive greedy match of `query` against `text`:
/// both are lowercased, and the walk runs over the lowered characters.
/// There is a match exactly when the lowered query is an ordered
/// subsequence of the lowered text.
pub fn match_against(text: &str, query: &str) -> (r: Option<MatchInfo>)
    ensures
        match r {
            Some(info) => info.describes(lower_of(query@), lower_of(text@)),
            None => greedy_match(lower_of(query@), lower_of(text@)) is None,
        },
        (r is Some) == is_subsequence(lower_of(query@), lower_of(text@)),
{
    let tl = lowercase(text);
    let ql = lowercase(query);
    let tv = chars_of(tl.as_str());
    let qv = chars_of(ql.as_str());
    let r = match_positions(&tv, &qv);
    proof {
        lemma_subsequence_law(lower_of(query@), lower_of(text@));
    }
    r
}

} // verus!
