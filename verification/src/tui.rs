//! The viewport engine and the render contract.
//!
//! The crate computes what is visible — scroll offset, visible range,
//! relative-time labels — and hands a full render context to an outside
//! drawing layer each frame.  The raw-mode terminal resource is modelled
//! by a guard whose acquire/release discipline is checked here.

use vstd::prelude::*;
use crate::model::TryDir;
use crate::text::{dec_str, push_dec, push_str_chars, string_of_chars};

verus! {

/// Rows reserved above and below the list: header, search line, spacing,
/// separators, key help and status line.
pub const RESERVED_LINES: u16 = 8;

/// The list never shrinks below this many visible rows.
pub const MIN_VISIBLE_ITEMS: usize = 3;

/// How many list rows fit on a terminal of height `h`: the height minus
/// the reserved rows, floored at the minimum.
pub open spec fn spec_max_visible(h: int) -> int {
    if h - RESERVED_LINES >= MIN_VISIBLE_ITEMS { h - RESERVED_LINES } else { MIN_VISIBLE_ITEMS as int }
}

/// The number of list rows available on a terminal of height `term_h`.
pub fn max_visible_rows(term_h: u16) -> (r: usize)
    ensures
        r == spec_max_visible(term_h as int),
{
    if term_h as usize >= RESERVED_LINES as usize + MIN_VISIBLE_ITEMS {
        term_h as usize - RESERVED_LINES as usize
    } else {
        MIN_VISIBLE_ITEMS
    }
}

/// The viewport rule: scrolling up catches the cursor, scrolling down
/// keeps the cursor as the last visible row, and the visible end is
/// clamped to the total.
pub open spec fn spec_viewport(cursor: int, scroll: int, max_visible: int, total: int) -> (int, int) {
    let s = if cursor < scroll {
        cursor
    } else if cursor >= scroll + max_visible {
        cursor + 1 - max_visible
    } else {
        scroll
    };
    let end = if s + max_visible <= total { s + max_visible } else { total };
    (s, end)
}

/// Computes the viewport scroll and end index for a list UI given the
/// current cursor position.  Returns `(scroll, end)`, where `end` is
/// exclusive and clamped to `total`.
pub fn compute_viewport(cursor: usize, scroll: usize, max_visible: usize, total: usize) -> (r: (usize, usize))
    requires
        cursor < total,
    ensures
        (r.0 as int, r.1 as int) == spec_viewport(cursor as int, scroll as int, max_visible as int, total as int),
        r.0 <= cursor < r.0 + max_visible || max_visible == 0,
        r.1 <= total,
{
    let s = if cursor < scroll {
        cursor
    } else if max_visible <= cursor && cursor - max_visible >= scroll {
        cursor - max_visible + 1
    } else {
        scroll
    };
    let end = if max_visible <= total - s {
        s + max_visible
    } else {
        total
    };
    (s, end)
}

/// Viewport idempotence: recomputing the viewport from its own output
/// changes nothing, whenever at least one row is visible.
pub proof fn lemma_viewport_idempotent(cursor: int, scroll: int, max_visible: int, total: int)
    requires
        0 <= cursor,
        0 <= scroll,
        1 <= max_visible,
    ensures
        spec_viewport(cursor, spec_viewport(cursor, scroll, max_visible, total).0, max_visible, total)
            == spec_viewport(cursor, scroll, max_visible, total),
{
}

/// Viewport clamp: with the cursor on the last row the visible end is
/// exactly the total.
pub proof fn lemma_viewport_clamp(max_visible: int, total: int)
    requires
        1 <= total,
        0 <= max_visible,
    ensures
        spec_viewport(total - 1, total - 1 - max_visible, max_visible, total).1 == total,
{
}

/// The relative-time label for a timestamp `t`, seen from `now`: `?`
/// when unknown, `just now` for the first ten seconds and for times
/// ahead of the clock, then whole minutes, hours, days, thirty-day
/// months and years.
pub open spec fn rel_time_str(t: Option<u64>, now: u64) -> Seq<char> {
    match t {
        None => "?"@,
        Some(then) => if then > now {
            "just now"@
        } else {
            let secs = now - then;
            if secs <= 9 {
                "just now"@
            } else if secs < 3600 {
                dec_str(secs / 60) + "m ago"@
            } else if secs < 86400 {
                dec_str(secs / 3600) + "h ago"@
            } else if secs < 2592000 {
                dec_str(secs / 86400) + "d ago"@
            } else if secs < 31536000 {
                dec_str(secs / 2592000) + "mo ago"@
            } else {
                dec_str(secs / 31536000) + "y ago"@
            }
        },
    }
}

/// Formats a timestamp as a concise relative string like `3h ago`, as
/// seen from `now`; `?` when the timestamp is unknown.
pub fn format_relative_time(t: Option<u64>, now: u64) -> (r: String)
    ensures
        r@ == rel_time_str(t, now),
{
    let mut out: Vec<char> = Vec::new();
    match t {
        None => {
            push_str_chars("?", &mut out);
        },
        Some(then) => {
            if then > now {
                push_str_chars("just now", &mut out);
            } else {
                let secs = now - then;
                if secs <= 9 {
                    push_str_chars("just now", &mut out);
                } else if secs < 3600 {
                    push_dec(secs / 60, &mut out);
                    push_str_chars("m ago", &mut out);
                } else if secs < 86400 {
                    push_dec(secs / 3600, &mut out);
                    push_str_chars("h ago", &mut out);
                } else if secs < 2592000 {
                    push_dec(secs / 86400, &mut out);
                    push_str_chars("d ago", &mut out);
                } else if secs < 31536000 {
                    push_dec(secs / 2592000, &mut out);
                    push_str_chars("mo ago", &mut out);
                } else {
                    push_dec(secs / 31536000, &mut out);
                    push_str_chars("y ago", &mut out);
                }
            }
        },
    }
    string_of_chars(&out)
}

/// A model of the process-wide raw-terminal resource: acquired once for
/// the interactive run, suspended and resumed symmetrically around the
/// line-input sub-flows, and released exactly once at the end.  The
/// outside layer performs the matching terminal-control calls whenever
/// it changes this state.
pub struct TermGuard {
    raw: bool,
}

impl TermGuard {
    /// Whether the terminal is currently held in raw mode.
    pub closed spec fn is_raw(&self) -> bool {
        self.raw
    }

    /// Acquires the resource: raw mode on.
    pub fn new() -> (g: TermGuard)
        ensures
            g.is_raw(),
    {
        TermGuard { raw: true }
    }

    /// Hands the terminal back to line input for a sub-flow prompt.
    pub fn suspend(&mut self)
        requires
            old(self).is_raw(),
        ensures
            !final(self).is_raw(),
    {
        self.raw = false;
    }

    /// Takes raw mode again after a sub-flow prompt.
    pub fn resume(&mut self)
        requires
            !old(self).is_raw(),
        ensures
            final(self).is_raw(),
    {
        self.raw = true;
    }

    /// Releases the resource for good; safe to call in any state.
    pub fn release(&mut self)
        ensures
            !final(self).is_raw(),
    {
        self.raw = false;
    }
}

/// Everything an outside drawing layer needs for one frame.
pub struct RenderCtx {
    /// Terminal width in columns.
    pub term_w: u16,
    /// Terminal height in rows.
    pub term_h: u16,
    /// Index of the selected row.
    pub cursor: usize,
    /// Index of the first visible row.
    pub scroll: usize,
    /// The current query buffer.
    pub input_buf: String,
    /// The ranked entries, best first.
    pub tries: Vec<TryDir>,
    /// A transient feedback line, when one is pending.
    pub status_msg: Option<String>,
    /// Whether a delete awaits confirmation.
    pub show_delete_pending: bool,
}

impl RenderCtx {
    /// The number of list rows, the always-present create-new row included.
    pub open spec fn total_rows(&self) -> int {
        self.tries@.len() as int + 1
    }

    /// A frame is well formed when the cursor and scroll lie within the
    /// list, create-new row included.
    pub open spec fn well_formed(&self) -> bool {
        &&& self.tries@.len() < usize::MAX
        &&& self.cursor < self.total_rows()
        &&& self.scroll <= self.total_rows()
    }

    /// The visible range of this frame: first visible row and exclusive
    /// end, by the viewport rule.
    pub fn visible_range(&self) -> (r: (usize, usize))
        requires
            self.well_formed(),
        ensures
            (r.0 as int, r.1 as int) == spec_viewport(
                self.cursor as int,
                self.scroll as int,
                spec_max_visible(self.term_h as int),
                self.total_rows(),
            ),
    {
        let max_visible = max_visible_rows(self.term_h);
        compute_viewport(self.cursor, self.scroll, max_visible, self.tries.len() + 1)
    }
}

} // verus!
