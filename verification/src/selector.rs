//! The interactive selector: session state, the ranking pipeline and
//! the event-driven state machine.
//!
//! The surrounding process runs the terminal loop: it polls for events,
//! maps each to a plain value and hands it to [`TrySelector::handle_key`],
//! performs the input/output that an action asks for, and reports the
//! outcome back.  Every decision — how the cursor, scroll and input
//! buffer move, what is filtered, how the list is ordered, what ends the
//! session — is taken here.

use vstd::prelude::*;
use vstd::multiset::Multiset;
use crate::model::TryDir;
use crate::tui::{RenderCtx, compute_viewport, max_visible_rows, spec_viewport, spec_max_visible};
use crate::util::is_allowed_char;

verus! {

/// What a finished selection asks the caller to do.
#[derive(Clone, Copy, Debug, PartialEq, Eq, Structural)]
pub enum ActionType {
    /// Change into an existing entry.
    Cd,
    /// Create a new entry, then change into it.
    Mkdir,
    /// Leave without a selection.
    Cancel,
}

/// Terminal output of the engine: the action and, except for a cancel,
/// the path it applies to.
#[derive(Clone, Debug, PartialEq, Eq)]
pub struct Selection {
    /// What the caller should do.
    pub kind: ActionType,
    /// The path the action applies to; a cancel carries none.
    pub path: Option<String>,
}

impl Selection {
    /// A cancel carries no path; the other actions carry one.
    pub open spec fn well_formed(&self) -> bool {
        (self.kind == ActionType::Cancel) == (self.path is None)
    }
}

/// A key press, as a plain value: the key itself, whether control is
/// held, and whether no modifier at all is held.
#[derive(Clone, Copy, Debug, PartialEq, Eq, Structural)]
pub struct KeyInput {
    /// Which key was pressed.
    pub code: KeyCode,
    /// Whether the control modifier is held.
    pub ctrl: bool,
    /// Whether no modifier at all is held.
    pub plain: bool,
}

/// The keys the selector reacts to.
#[derive(Clone, Copy, Debug, PartialEq, Eq, Structural)]
pub enum KeyCode {
    /// The escape key.
    Esc,
    /// Arrow up.
    Up,
    /// Arrow down.
    Down,
    /// Arrow left.
    Left,
    /// Arrow right.
    Right,
    /// The enter key.
    Enter,
    /// The backspace key.
    Backspace,
    /// A character key.
    Char(char),
    /// Any other key.
    Other,
}

/// What the caller must do after a key was handled.
#[derive(Clone, Copy, Debug, PartialEq, Eq, Structural)]
pub enum StepAction {
    /// Nothing changed; keep polling.
    Idle,
    /// State changed; redraw before polling again.
    Redraw,
    /// A selection was made or the session was cancelled; stop the loop.
    Exit,
    /// Run the line-input prompt for a new entry name.
    PromptName,
    /// Run the delete-confirmation sub-flow for the entry under the cursor.
    ConfirmDelete,
}

/// Single owner of the interactive session state.
pub struct TrySelector {
    /// Terminal width in columns.
    pub term_w: u16,
    /// Terminal height in rows.
    pub term_h: u16,
    /// Index of the selected row; the row after the last entry is the
    /// create-new row.
    pub cursor: usize,
    /// Index of the first visible row.
    pub scroll: usize,
    /// The sanitized query buffer.
    pub input_buf: String,
    /// The cached entry list, scan order, unranked; `None` until loaded
    /// and after an invalidation.
    pub all_tries: Option<Vec<TryDir>>,
    /// The base directory the entries live in.
    pub base_path: String,
    /// The result of the session, set once.
    pub selected: Option<Selection>,
    /// A transient feedback line.
    pub status_msg: Option<String>,
}

impl TrySelector {
    /// The query buffer holds only allowed characters, and the session
    /// result, once set, is well formed.
    pub open spec fn well_formed(&self) -> bool {
        &&& forall|i: int| 0 <= i < self.input_buf@.len() ==> is_allowed_char(#[trigger] self.input_buf@[i])
        &&& match self.selected {
            Some(sel) => sel.well_formed(),
            None => true,
        }
    }

    /// The cursor lies on a row of `tries` or on the create-new row.
    pub open spec fn cursor_in_range(&self, tries: Seq<TryDir>) -> bool {
        &&& tries.len() + 1 < usize::MAX
        &&& self.cursor <= tries.len()
    }

    /// A fresh session: sanitized initial query, cursor and scroll at the
    /// top, nothing loaded, nothing selected.
    pub fn new(initial_query: &str, base_path: String, term_w: u16, term_h: u16) -> (s: TrySelector)
        ensures
            s.well_formed(),
            s.input_buf@ == initial_query@.filter(|c: char| is_allowed_char(c)),
            s.base_path == base_path,
            s.term_w == term_w,
            s.term_h == term_h,
            s.cursor == 0,
            s.scroll == 0,
            s.all_tries is None,
            s.selected is None,
            s.status_msg is None,
    {
        let input_buf = crate::util::sanitize_query(initial_query);
        proof {
            assert forall|i: int| 0 <= i < input_buf@.len()
                implies is_allowed_char(#[trigger] input_buf@[i]) by {
                initial_query@.lemma_filter_pred(|c: char| is_allowed_char(c), i);
            }
        }
        TrySelector {
            term_w,
            term_h,
            cursor: 0,
            scroll: 0,
            input_buf,
            all_tries: None,
            base_path,
            selected: None,
            status_msg: None,
        }
    }

    /// Stores the terminal dimensions reported by a resize.
    pub fn on_resize(&mut self, w: u16, h: u16) -> (act: StepAction)
        ensures
            *final(self) == (TrySelector { term_w: w, term_h: h, ..*old(self) }),
            act == StepAction::Redraw,
    {
        self.term_w = w;
        self.term_h = h;
        StepAction::Redraw
    }

    /// Clamps the cursor to the rows of the current list, create-new row
    /// included.
    pub fn clamp_cursor(&mut self, tries_len: usize)
        requires
            tries_len < usize::MAX,
        ensures
            *final(self) == (TrySelector {
                cursor: if old(self).cursor <= tries_len { old(self).cursor } else { tries_len },
                ..*old(self)
            }),
            final(self).cursor <= tries_len,
    {
        if self.cursor > tries_len {
            self.cursor = tries_len;
        }
    }

    /// Recomputes the viewport for a list of `tries_len` entries and
    /// stores the new scroll; returns the exclusive end of the visible
    /// range.  Afterwards the cursor is visible: at or below the scroll,
    /// and above the visible end.
    pub fn update_viewport(&mut self, tries_len: usize) -> (end: usize)
        requires
            tries_len + 1 < usize::MAX,
            old(self).cursor <= tries_len,
        ensures
            *final(self) == (TrySelector {
                scroll: final(self).scroll,
                ..*old(self)
            }),
            (final(self).scroll as int, end as int) == spec_viewport(
                old(self).cursor as int,
                old(self).scroll as int,
                spec_max_visible(old(self).term_h as int),
                tries_len as int + 1,
            ),
            final(self).scroll <= final(self).cursor,
            final(self).cursor < final(self).scroll + spec_max_visible(final(self).term_h as int),
            end <= tries_len + 1,
    {
        let max_visible = max_visible_rows(self.term_h);
        let (s, end) = compute_viewport(self.cursor, self.scroll, max_visible, tries_len + 1);
        self.scroll = s;
        end
    }

    /// Hands the cached entries in, after an outside scan.
    pub fn install_entries(&mut self, entries: Vec<TryDir>)
        ensures
            *final(self) == (TrySelector { all_tries: Some(entries), ..*old(self) }),
    {
        self.all_tries = Some(entries);
    }

    /// Drops the cached entries, forcing the next cycle to rescan.
    pub fn invalidate_cache(&mut self)
        ensures
            *final(self) == (TrySelector { all_tries: None, ..*old(self) }),
    {
        self.all_tries = None;
    }

    /// Whether the entry cache is loaded.
    pub fn has_entries(&self) -> (r: bool)
        ensures
            r == (self.all_tries is Some),
    {
        match &self.all_tries {
            Some(_) => true,
            None => false,
        }
    }

    /// The frame to draw for the current state and ranked list.
    pub fn render_ctx(&self, tries: &Vec<TryDir>, show_delete_pending: bool) -> (ctx: RenderCtx)
        ensures
            ctx.term_w == self.term_w,
            ctx.term_h == self.term_h,
            ctx.cursor == self.cursor,
            ctx.scroll == self.scroll,
            ctx.input_buf@ == self.input_buf@,
            ctx.tries@ == tries@,
            ctx.status_msg == self.status_msg,
            ctx.show_delete_pending == show_delete_pending,
    {
        RenderCtx {
            term_w: self.term_w,
            term_h: self.term_h,
            cursor: self.cursor,
            scroll: self.scroll,
            input_buf: clone_string(&self.input_buf),
            tries: clone_tries(tries),
            status_msg: match &self.status_msg {
                Some(m) => Some(clone_string(m)),
                None => None,
            },
            show_delete_pending,
        }
    }

    /// Ranks the scored entries for the current query: drops the
    /// unmatched ones when the query is non-empty, then sorts stably,
    /// descending by score.
    pub fn get_tries(&self, scored: Vec<TryDir>) -> (r: Vec<TryDir>)
        ensures
            r@ == spec_rank(scored@, self.input_buf@.len() > 0),
            sorted_desc(r@),
    {
        let nonempty = !self.input_buf.as_str().is_empty();
        rank_entries(scored, nonempty)
    }

    /// Applies one key press to the session, against the currently
    /// ranked list, and says what the caller must do next.  `today` is
    /// the date prefix used when a new entry name is built.
    pub fn handle_key(&mut self, key: KeyInput, tries: &Vec<TryDir>, today: &str) -> (act: StepAction)
        requires
            old(self).well_formed(),
            old(self).cursor_in_range(tries@),
            key.ctrl ==> !key.plain,
        ensures
            final(self).well_formed(),
            final(self).cursor_in_range(tries@),
            is_cancel_key(key) ==> act == StepAction::Exit
                && *final(self) == (TrySelector {
                    selected: Some((Selection { kind: ActionType::Cancel, path: None })),
                    ..*old(self)
                }),
            is_up_key(key) ==> act == (if old(self).cursor > 0 { StepAction::Redraw } else { StepAction::Idle })
                && *final(self) == (TrySelector {
                    cursor: if old(self).cursor > 0 { (old(self).cursor - 1) as usize } else { 0 },
                    ..*old(self)
                }),
            is_down_key(key) ==> act == (if old(self).cursor < tries@.len() { StepAction::Redraw } else { StepAction::Idle })
                && *final(self) == (TrySelector {
                    cursor: if old(self).cursor < tries@.len() { (old(self).cursor + 1) as usize } else { old(self).cursor },
                    ..*old(self)
                }),
            (key.code == KeyCode::Enter && old(self).cursor < tries@.len()) ==> act == StepAction::Exit
                && same_but_selected(*old(self), *final(self))
                && final(self).selected == Some(Selection {
                    kind: ActionType::Cd,
                    path: Some(tries@[old(self).cursor as int].path),
                }),
            (key.code == KeyCode::Enter && old(self).cursor >= tries@.len()
                && old(self).input_buf@.len() > 0) ==> act == StepAction::Exit
                && same_but_selected(*old(self), *final(self))
                && (match final(self).selected {
                    Some(sel) => sel.kind == ActionType::Mkdir && (match sel.path {
                        Some(p) => p@ == old(self).base_path@ + "/"@
                            + spec_entry_name(today@, old(self).input_buf@),
                        None => false,
                    }),
                    None => false,
                }),
            (key.code == KeyCode::Enter && old(self).cursor >= tries@.len()
                && old(self).input_buf@.len() == 0) ==> act == StepAction::PromptName
                && *final(self) == *old(self),
            key.code == KeyCode::Backspace ==> act == StepAction::Redraw
                && same_but_input_cursor(*old(self), *final(self))
                && final(self).cursor == 0
                && final(self).input_buf@ == (if old(self).input_buf@.len() > 0 {
                    old(self).input_buf@.drop_last()
                } else {
                    old(self).input_buf@
                }),
            is_delete_key(key) ==> *final(self) == *old(self)
                && act == (if old(self).cursor < tries@.len() {
                    StepAction::ConfirmDelete
                } else {
                    StepAction::Idle
                }),
            (match typed_char(key) {
                Some(c) => act == StepAction::Redraw
                    && same_but_input_cursor(*old(self), *final(self))
                    && final(self).cursor == 0
                    && final(self).input_buf@ == old(self).input_buf@.push(c),
                None => true,
            }),
            is_ignored_key(key) ==> act == StepAction::Idle && *final(self) == *old(self),
    {
        if key.code == KeyCode::Esc || (key.ctrl && key.code == KeyCode::Char('c')) {
            self.selected = Some(Selection { kind: ActionType::Cancel, path: None });
            StepAction::Exit
        } else if key.code == KeyCode::Up || (key.ctrl && key.code == KeyCode::Char('p')) {
            if self.cursor > 0 {
                self.cursor = self.cursor - 1;
                StepAction::Redraw
            } else {
                StepAction::Idle
            }
        } else if key.code == KeyCode::Down || (key.ctrl && key.code == KeyCode::Char('n')) {
            if self.cursor < tries.len() {
                self.cursor = self.cursor + 1;
                StepAction::Redraw
            } else {
                StepAction::Idle
            }
        } else if key.code == KeyCode::Enter {
            if self.cursor < tries.len() {
                let path = clone_string(&tries[self.cursor].path);
                self.selected = Some(Selection { kind: ActionType::Cd, path: Some(path) });
                StepAction::Exit
            } else if !self.input_buf.as_str().is_empty() {
                let name = make_entry_name(today, self.input_buf.as_str());
                let full = join_path(self.base_path.as_str(), name.as_str());
                self.selected = Some(Selection { kind: ActionType::Mkdir, path: Some(full) });
                StepAction::Exit
            } else {
                StepAction::PromptName
            }
        } else if key.code == KeyCode::Backspace {
            let mut v = crate::text::chars_of(self.input_buf.as_str());
            let ghost before = self.input_buf@;
            if v.len() > 0 {
                let _last = v.pop();
            }
            self.input_buf = crate::text::string_of_chars(&v);
            self.cursor = 0;
            proof {
                assert forall|i: int| 0 <= i < self.input_buf@.len()
                    implies is_allowed_char(#[trigger] self.input_buf@[i]) by {
                    assert(self.input_buf@[i] == before[i]);
                }
            }
            StepAction::Redraw
        } else if key.ctrl && key.code == KeyCode::Char('d') {
            if self.cursor < tries.len() {
                StepAction::ConfirmDelete
            } else {
                StepAction::Idle
            }
        } else {
            if let KeyCode::Char(ch) = key.code {
                if key.plain && crate::util::is_printable(ch) {
                    let mut v = crate::text::chars_of(self.input_buf.as_str());
                    let ghost before = self.input_buf@;
                    v.push(ch);
                    self.input_buf = crate::text::string_of_chars(&v);
                    self.cursor = 0;
                    proof {
                        assert forall|i: int| 0 <= i < self.input_buf@.len()
                            implies is_allowed_char(#[trigger] self.input_buf@[i]) by {
                            if i < before.len() {
                                assert(self.input_buf@[i] == before[i]);
                            }
                        }
                    }
                    return StepAction::Redraw;
                }
            }
            StepAction::Idle
        }
    }

    /// Applies the line typed in the new-name prompt: an empty line (after
    /// trimming) aborts back to the main loop; anything else becomes the
    /// new entry to create, and ends the session.
    pub fn apply_prompt_line(&mut self, today: &str, line: &str)
        requires
            old(self).well_formed(),
        ensures
            final(self).well_formed(),
            crate::text::trim_spec(line@).len() == 0 ==> *final(self) == *old(self),
            crate::text::trim_spec(line@).len() > 0 ==> same_but_selected(*old(self), *final(self))
                && (match final(self).selected {
                    Some(sel) => sel.kind == ActionType::Mkdir && (match sel.path {
                        Some(p) => p@ == old(self).base_path@ + "/"@
                            + spec_entry_name(today@, crate::text::trim_spec(line@)),
                        None => false,
                    }),
                    None => false,
                }),
    {
        let trimmed = crate::text::trim_str(line);
        if trimmed.is_empty() {
            return;
        }
        let name = make_entry_name(today, trimmed);
        let full = join_path(self.base_path.as_str(), name.as_str());
        self.selected = Some(Selection { kind: ActionType::Mkdir, path: Some(full) });
    }

    /// Applies the outcome of the delete sub-flow: a performed delete
    /// drops the entry cache and reports the deleted name; a cancelled
    /// one only reports the cancellation.
    pub fn apply_delete_outcome(&mut self, deleted: bool, basename: &str)
        requires
            old(self).well_formed(),
        ensures
            final(self).well_formed(),
            same_but_cache_status(*old(self), *final(self)),
            deleted ==> final(self).all_tries is None
                && (match final(self).status_msg {
                    Some(m) => m@ == "Deleted: "@ + basename@,
                    None => false,
                }),
            !deleted ==> final(self).all_tries == old(self).all_tries
                && (match final(self).status_msg {
                    Some(m) => m@ == "Delete cancelled"@,
                    None => false,
                }),
    {
        if deleted {
            self.all_tries = None;
            let mut msg: Vec<char> = Vec::new();
            crate::text::push_str_chars("Deleted: ", &mut msg);
            crate::text::push_str_chars(basename, &mut msg);
            proof {
                assert(msg@ =~= "Deleted: "@ + basename@);
            }
            self.status_msg = Some(crate::text::string_of_chars(&msg));
        } else {
            let mut msg: Vec<char> = Vec::new();
            crate::text::push_str_chars("Delete cancelled", &mut msg);
            proof {
                assert(msg@ =~= "Delete cancelled"@);
            }
            self.status_msg = Some(crate::text::string_of_chars(&msg));
        }
    }
}

/// All fields of the selector unchanged but the session result.
pub open spec fn same_but_selected(pre: TrySelector, post: TrySelector) -> bool {
    post == (TrySelector { selected: post.selected, ..pre })
}

/// All fields of the selector unchanged but the query buffer and cursor.
pub open spec fn same_but_input_cursor(pre: TrySelector, post: TrySelector) -> bool {
    post == (TrySelector { input_buf: post.input_buf, cursor: post.cursor, ..pre })
}

/// All fields of the selector unchanged but the entry cache and the
/// status line.
pub open spec fn same_but_cache_status(pre: TrySelector, post: TrySelector) -> bool {
    post == (TrySelector { all_tries: post.all_tries, status_msg: post.status_msg, ..pre })
}

/// The keys that cancel the session: escape, or control-c.
pub open spec fn is_cancel_key(key: KeyInput) -> bool {
    key.code == KeyCode::Esc || (key.ctrl && key.code == KeyCode::Char('c'))
}

/// The keys that move the cursor up: arrow up, or control-p.
pub open spec fn is_up_key(key: KeyInput) -> bool {
    key.code == KeyCode::Up || (key.ctrl && key.code == KeyCode::Char('p'))
}

/// The keys that move the cursor down: arrow down, or control-n.
pub open spec fn is_down_key(key: KeyInput) -> bool {
    key.code == KeyCode::Down || (key.ctrl && key.code == KeyCode::Char('n'))
}

/// The key that asks to delete the entry under the cursor: control-d.
pub open spec fn is_delete_key(key: KeyInput) -> bool {
    key.ctrl && key.code == KeyCode::Char('d')
}

/// The character a key press appends to the query buffer: an allowed
/// character typed with no modifier; anything else appends nothing.
pub open spec fn typed_char(key: KeyInput) -> Option<char> {
    match key.code {
        KeyCode::Char(c) => if key.plain && is_allowed_char(c) {
            Some(c)
        } else {
            None
        },
        _ => None,
    }
}

/// A key press that none of the rules above reacts to.
pub open spec fn is_ignored_key(key: KeyInput) -> bool {
    &&& !is_cancel_key(key)
    &&& !is_up_key(key)
    &&& !is_down_key(key)
    &&& !is_delete_key(key)
    &&& key.code != KeyCode::Enter
    &&& key.code != KeyCode::Backspace
    &&& typed_char(key) is None
}

/// `s` with every whitespace character replaced by a dash.
pub open spec fn dashed(s: Seq<char>) -> Seq<char> {
    s.map_values(|c: char| if crate::text::char_white(c) { '-' } else { c })
}

/// The name a new entry gets: the date prefix, a dash and the typed
/// name, with any whitespace turned into dashes.
pub open spec fn spec_entry_name(today: Seq<char>, name: Seq<char>) -> Seq<char> {
    dashed(today + "-"@ + name)
}

/// Builds the directory name for a new entry from the date prefix and
/// the typed name.
pub fn make_entry_name(today: &str, name: &str) -> (r: String)
    ensures
        r@ == spec_entry_name(today@, name@),
{
    let mut all: Vec<char> = Vec::new();
    crate::text::push_str_chars(today, &mut all);
    crate::text::push_str_chars("-", &mut all);
    crate::text::push_str_chars(name, &mut all);
    let ghost whole = today@ + "-"@ + name@;
    proof {
        assert(all@ =~= whole);
    }
    let n = all.len();
    let mut out: Vec<char> = Vec::new();
    let mut i: usize = 0;
    while i < n
        invariant
            i <= n,
            n == all@.len(),
            all@ == whole,
            out@ == dashed(whole.take(i as int)),
        decreases n - i,
    {
        let c = all[i];
        if crate::text::char_is_whitespace(c) {
            out.push('-');
        } else {
            out.push(c);
        }
        proof {
            assert(out@ =~= dashed(whole.take(i + 1)));
        }
        i = i + 1;
    }
    proof {
        assert(whole.take(n as int) =~= whole);
    }
    crate::text::string_of_chars(&out)
}

/// `base` and `name` joined by a path separator.
pub fn join_path(base: &str, name: &str) -> (r: String)
    ensures
        r@ == base@ + "/"@ + name@,
{
    let mut out: Vec<char> = Vec::new();
    crate::text::push_str_chars(base, &mut out);
    crate::text::push_str_chars("/", &mut out);
    crate::text::push_str_chars(name, &mut out);
    proof {
        assert(out@ =~= base@ + "/"@ + name@);
    }
    crate::text::string_of_chars(&out)
}

/// Whether the given confirmation line confirms a delete: exactly `YES`
/// once trimmed.
pub fn delete_confirmed(line: &str) -> (r: bool)
    ensures
        r == (crate::text::trim_spec(line@) == "YES"@),
{
    let trimmed = crate::text::trim_str(line);
    let tv = crate::text::chars_of(trimmed);
    let yv = crate::text::chars_of("YES");
    crate::text::chars_eq(&tv, &yv)
}

/// Descending order by score key: every earlier entry scores at least
/// as high as every later one.
pub open spec fn sorted_desc(s: Seq<TryDir>) -> bool {
    forall|i: int, j: int| #![trigger s[i], s[j]]
        0 <= i < j < s.len() ==> s[i].score_key >= s[j].score_key
}

/// Where a stable descending insertion places `x` in the sorted `sorted`:
/// before the first entry that scores strictly lower, after every entry
/// that scores at least as high — so equal scores keep their order.
pub open spec fn insert_desc(sorted: Seq<TryDir>, x: TryDir) -> Seq<TryDir>
    decreases sorted.len(),
{
    if sorted.len() == 0 {
        seq![x]
    } else if x.score_key > sorted[0].score_key {
        seq![x] + sorted
    } else {
        seq![sorted[0]] + insert_desc(sorted.skip(1), x)
    }
}

/// The stable descending sort of `s` by score key.
pub open spec fn sort_desc(s: Seq<TryDir>) -> Seq<TryDir>
    decreases s.len(),
{
    if s.len() == 0 {
        Seq::empty()
    } else {
        insert_desc(sort_desc(s.drop_last()), s.last())
    }
}

/// The ranking policy: with an empty query every entry is kept; with a
/// non-empty query the entries that did not match are dropped; either
/// way the rest are sorted descending by score, stably.
pub open spec fn spec_rank(entries: Seq<TryDir>, query_nonempty: bool) -> Seq<TryDir> {
    sort_desc(
        if query_nonempty {
            entries.filter(|t: TryDir| t.score_key > 0)
        } else {
            entries
        },
    )
}

proof fn lemma_insert_desc_props(sorted: Seq<TryDir>, x: TryDir)
    requires
        sorted_desc(sorted),
    ensures
        sorted_desc(insert_desc(sorted, x)),
        insert_desc(sorted, x).len() == sorted.len() + 1,
        insert_desc(sorted, x).to_multiset() == sorted.to_multiset().insert(x),
        forall|i: int| 0 <= i < insert_desc(sorted, x).len()
            ==> #[trigger] insert_desc(sorted, x)[i].score_key <= if sorted.len() > 0
                && sorted[0].score_key >= x.score_key { sorted[0].score_key } else { x.score_key },
    decreases sorted.len(),
{
    broadcast use vstd::seq_lib::group_seq_properties;
    let r = insert_desc(sorted, x);
    if sorted.len() == 0 {
        assert(seq![x] =~= Seq::<TryDir>::empty().push(x));
        Seq::<TryDir>::empty().to_multiset_ensures();
    } else if x.score_key > sorted[0].score_key {
        assert(r == seq![x] + sorted);
        assert forall|i: int, j: int| #![trigger r[i], r[j]]
            0 <= i < j < r.len() implies r[i].score_key >= r[j].score_key by {
            if i > 0 {
                assert(r[i] == sorted[i - 1] && r[j] == sorted[j - 1]);
            } else {
                assert(r[j] == sorted[j - 1]);
                assert(sorted[0].score_key >= sorted[j - 1].score_key);
            }
        }
        lemma_seq_union_to_multiset_commutative(seq![x], sorted);
        assert(seq![x].to_multiset() =~= Multiset::<TryDir>::empty().insert(x)) by {
            assert(seq![x] =~= Seq::<TryDir>::empty().push(x));
            Seq::<TryDir>::empty().to_multiset_ensures();
        }
        assert(r.to_multiset() =~= sorted.to_multiset().insert(x));
    } else {
        let tail = sorted.skip(1);
        assert forall|i: int, j: int| #![trigger tail[i], tail[j]]
            0 <= i < j < tail.len() implies tail[i].score_key >= tail[j].score_key by {
            assert(tail[i] == sorted[i + 1] && tail[j] == sorted[j + 1]);
        }
        lemma_insert_desc_props(tail, x);
        let sub = insert_desc(tail, x);
        assert(r == seq![sorted[0]] + sub);
        assert forall|i: int, j: int| #![trigger r[i], r[j]]
            0 <= i < j < r.len() implies r[i].score_key >= r[j].score_key by {
            if i > 0 {
                assert(r[i] == sub[i - 1] && r[j] == sub[j - 1]);
            } else {
                assert(r[j] == sub[j - 1]);
                if tail.len() > 0 {
                    assert(sorted[0].score_key >= tail[0].score_key) by {
                        assert(tail[0] == sorted[1]);
                    }
                }
            }
        }
        lemma_seq_union_to_multiset_commutative(seq![sorted[0]], sub);
        lemma_seq_union_to_multiset_commutative(seq![sorted[0]], tail);
        assert(sorted =~= seq![sorted[0]] + tail);
        assert(r.to_multiset() =~= sorted.to_multiset().insert(x));
        assert forall|i: int| 0 <= i < r.len()
            implies #[trigger] r[i].score_key <= sorted[0].score_key by {
            if i > 0 {
                assert(r[i] == sub[i - 1]);
                if tail.len() > 0 {
                    assert(tail[0] == sorted[1]);
                }
            }
        }
    }
}

proof fn lemma_seq_union_to_multiset_commutative(a: Seq<TryDir>, b: Seq<TryDir>)
    ensures
        (a + b).to_multiset() == a.to_multiset().add(b.to_multiset()),
{
    vstd::seq_lib::lemma_multiset_commutative(a, b);
}

/// Ranking keeps exactly the filtered entries: the sorted sequence is a
/// permutation of them, and it is in descending score order.
pub proof fn lemma_sort_desc_props(s: Seq<TryDir>)
    ensures
        sorted_desc(sort_desc(s)),
        sort_desc(s).len() == s.len(),
        sort_desc(s).to_multiset() == s.to_multiset(),
    decreases s.len(),
{
    if s.len() == 0 {
        assert(s =~= Seq::<TryDir>::empty());
        Seq::<TryDir>::empty().to_multiset_ensures();
    } else {
        let head = s.drop_last();
        lemma_sort_desc_props(head);
        lemma_insert_desc_props(sort_desc(head), s.last());
        head.to_multiset_ensures();
        assert(head.push(s.last()).to_multiset() =~= head.to_multiset().insert(s.last()));
        assert(head.push(s.last()) =~= s);
    }
}

proof fn lemma_sort_desc_push(s: Seq<TryDir>, x: TryDir)
    ensures
        sort_desc(s.push(x)) == insert_desc(sort_desc(s), x),
{
    assert(s.push(x).drop_last() =~= s);
}

fn insert_ranked(out: &mut Vec<TryDir>, x: TryDir)
    ensures
        final(out)@ == insert_desc(old(out)@, x),
{
    let n = out.len();
    let mut p: usize = 0;
    while p < n && x.score_key <= out[p].score_key
        invariant
            p <= n,
            n == out@.len(),
            out@ == old(out)@,
            forall|i: int| 0 <= i < p ==> x.score_key <= #[trigger] out@[i].score_key,
        decreases n - p,
    {
        p = p + 1;
    }
    proof {
        lemma_insert_desc_at(out@, x, p as int);
    }
    out.insert(p, x);
    proof {
        assert(old(out)@.insert(p as int, x)
            =~= old(out)@.take(p as int) + seq![x] + old(out)@.skip(p as int));
    }
}

proof fn lemma_insert_desc_at(s: Seq<TryDir>, x: TryDir, p: int)
    requires
        0 <= p <= s.len(),
        forall|i: int| 0 <= i < p ==> x.score_key <= #[trigger] s[i].score_key,
        p < s.len() ==> x.score_key > s[p].score_key,
    ensures
        insert_desc(s, x) == s.take(p) + seq![x] + s.skip(p),
    decreases p,
{
    if p == 0 {
        if s.len() == 0 {
            assert(insert_desc(s, x) =~= s.take(0) + seq![x] + s.skip(0));
        } else {
            assert(insert_desc(s, x) =~= s.take(0) + seq![x] + s.skip(0));
        }
    } else {
        assert(x.score_key <= s[0].score_key);
        let tail = s.skip(1);
        assert forall|i: int| 0 <= i < p - 1 implies x.score_key <= #[trigger] tail[i].score_key by {
            assert(tail[i] == s[i + 1]);
        }
        assert(p - 1 < tail.len() ==> x.score_key > tail[p - 1].score_key) by {
            if p - 1 < tail.len() {
                assert(tail[p - 1] == s[p]);
            }
        }
        lemma_insert_desc_at(tail, x, p - 1);
        assert(seq![s[0]] + (tail.take(p - 1) + seq![x] + tail.skip(p - 1))
            =~= s.take(p) + seq![x] + s.skip(p));
    }
}

/// Filters and sorts scored entries by the ranking policy: with a
/// non-empty query the unmatched entries (score key zero) are dropped;
/// the rest are stably sorted descending by score key.
pub fn rank_entries(entries: Vec<TryDir>, query_nonempty: bool) -> (r: Vec<TryDir>)
    ensures
        r@ == spec_rank(entries@, query_nonempty),
        sorted_desc(r@),
        r@.to_multiset() == (if query_nonempty {
            entries@.filter(|t: TryDir| t.score_key > 0)
        } else {
            entries@
        }).to_multiset(),
{
    let ghost kept = if query_nonempty {
        entries@.filter(|t: TryDir| t.score_key > 0)
    } else {
        entries@
    };
    let n = entries.len();
    let mut out: Vec<TryDir> = Vec::new();
    let mut i: usize = 0;
    proof {
        if query_nonempty {
            reveal(Seq::filter);
            assert(entries@.take(0) =~= Seq::<TryDir>::empty());
            assert(entries@.take(0).filter(|t: TryDir| t.score_key > 0) =~= Seq::<TryDir>::empty());
        } else {
            assert(entries@.take(0) =~= Seq::<TryDir>::empty());
        }
    }
    while i < n
        invariant
            i <= n,
            n == entries@.len(),
            out@ == sort_desc(
                if query_nonempty {
                    entries@.take(i as int).filter(|t: TryDir| t.score_key > 0)
                } else {
                    entries@.take(i as int)
                },
            ),
        decreases n - i,
    {
        let ghost pref = if query_nonempty {
            entries@.take(i as int).filter(|t: TryDir| t.score_key > 0)
        } else {
            entries@.take(i as int)
        };
        let x = clone_try_dir(&entries[i]);
        let keep = if query_nonempty { x.score_key > 0 } else { true };
        if keep {
            insert_ranked(&mut out, x);
        }
        proof {
            assert(entries@.take(i + 1) =~= entries@.take(i as int).push(entries@[i as int]));
            if query_nonempty {
                crate::util::lemma_filter_push(
                    entries@.take(i as int),
                    |t: TryDir| t.score_key > 0,
                    entries@[i as int],
                );
                if keep {
                    lemma_sort_desc_push(pref, entries@[i as int]);
                }
            } else {
                lemma_sort_desc_push(pref, entries@[i as int]);
            }
        }
        i = i + 1;
    }
    proof {
        assert(entries@.take(n as int) =~= entries@);
        lemma_sort_desc_props(kept);
    }
    out
}

/// A copy of `s` with the same characters.
pub fn clone_string(s: &String) -> (r: String)
    ensures
        r == s,
{
    s.clone()
}

/// A copy of one entry with the same fields.
pub fn clone_try_dir(t: &TryDir) -> (r: TryDir)
    ensures
        r == *t,
{
    TryDir {
        basename: t.basename.clone(),
        path: t.path.clone(),
        ctime: t.ctime,
        mtime: t.mtime,
        score_key: t.score_key,
    }
}

/// A copy of the entry list, entry by entry.
pub fn clone_tries(tries: &Vec<TryDir>) -> (r: Vec<TryDir>)
    ensures
        r@ == tries@,
{
    let mut out: Vec<TryDir> = Vec::new();
    let n = tries.len();
    let mut i: usize = 0;
    while i < n
        invariant
            i <= n,
            n == tries@.len(),
            out@ == tries@.take(i as int),
        decreases n - i,
    {
        let t = clone_try_dir(&tries[i]);
        out.push(t);
        proof {
            assert(out@ =~= tries@.take(i + 1));
        }
        i = i + 1;
    }
    proof {
        assert(tries@.take(n as int) =~= tries@);
    }
    out
}

} // verus!
