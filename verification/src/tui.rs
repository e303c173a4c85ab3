//! TUI state machine.
//!
//! Pure logic for scrolling, filtering, and URL selection — no rendering or
//! terminal I/O.

use vstd::prelude::*;
use vstd::string::*;

use crate::model::{Match, Verdict};
use crate::text::{chars_of, contains, contains_seq, lowercase, string_pop, string_push, to_lowercase};

verus! {

/// Whether keys scroll the list or edit the filter.
#[derive(Debug, Clone, Copy, PartialEq, Eq, Structural)]
pub enum Mode {
    Normal,
    Filter,
}

/// The interface state over one search's results.
pub struct App<'a> {
    idea: &'a str,
    verdict: &'a Verdict,
    matches: &'a [Match],
    cursor: usize,
    filter: String,
    visible: Vec<usize>,
    mode: Mode,
    quit: bool,
}

/// The interface state seen as plain values.
pub struct AppView {
    pub idea: Seq<char>,
    pub verdict: Verdict,
    pub matches: Seq<Match>,
    pub cursor: int,
    pub filter: Seq<char>,
    pub visible: Seq<usize>,
    pub mode: Mode,
    pub quit: bool,
}

/// The match is shown under the already-lowercased filter text `f`: its name
/// or its description, lowercased, holds `f`.
pub open spec fn shown(m: Match, f: Seq<char>) -> bool {
    contains_seq(lowercase(m.name@), f) || contains_seq(lowercase(m.description@), f)
}

/// The indices below `n` of the matches shown under `f`, in order.
pub open spec fn shown_indices(matches: Seq<Match>, f: Seq<char>, n: nat) -> Seq<usize>
    decreases n,
{
    if n == 0 {
        seq![]
    } else {
        let rest = shown_indices(matches, f, (n - 1) as nat);
        if shown(matches[n - 1], f) {
            rest.push((n - 1) as usize)
        } else {
            rest
        }
    }
}

/// All indices of `matches`, in order.
pub open spec fn all_indices(n: nat) -> Seq<usize> {
    Seq::new(n, |i: int| i as usize)
}

/// The indices of the matches visible under the filter text: all of them
/// when the filter is empty, else those shown under its lowercase form.
pub open spec fn visible_for(matches: Seq<Match>, filter: Seq<char>) -> Seq<usize> {
    if filter.len() == 0 {
        all_indices(matches.len())
    } else {
        shown_indices(matches, lowercase(filter), matches.len())
    }
}

/// `cursor` moved into `0..len`, or 0 when nothing is visible.
pub open spec fn clamp(cursor: int, len: int) -> int {
    if len == 0 {
        0
    } else if cursor >= len {
        len - 1
    } else {
        cursor
    }
}

impl AppView {
    /// The state is consistent: the visible indices are those of the filter,
    /// and the cursor is 0 or on a visible match.
    pub open spec fn wf(self) -> bool {
        &&& self.visible == visible_for(self.matches, self.filter)
        &&& 0 <= self.cursor
        &&& (self.cursor == 0 || self.cursor < self.visible.len())
        &&& self.matches.len() < usize::MAX
    }

    /// The state after `scroll_down`.
    pub open spec fn scrolled_down(self) -> AppView {
        AppView {
            cursor: if self.cursor + 1 < self.visible.len() {
                self.cursor + 1
            } else {
                self.cursor
            },
            ..self
        }
    }

    /// The state after `scroll_up`.
    pub open spec fn scrolled_up(self) -> AppView {
        AppView {
            cursor: if self.cursor > 0 {
                self.cursor - 1
            } else {
                0
            },
            ..self
        }
    }

    /// The state after `enter_filter`.
    pub open spec fn filter_entered(self) -> AppView {
        AppView { mode: Mode::Filter, cursor: 0, ..self }
    }

    /// The state after `confirm_filter`.
    pub open spec fn filter_confirmed(self) -> AppView {
        AppView { mode: Mode::Normal, ..self }
    }

    /// The state after `exit_filter`.
    pub open spec fn filter_exited(self) -> AppView {
        AppView {
            mode: Mode::Normal,
            filter: Seq::empty(),
            visible: visible_for(self.matches, Seq::empty()),
            cursor: 0,
            ..self
        }
    }

    /// The state with the filter text replaced by `filter`.
    pub open spec fn refiltered(self, filter: Seq<char>) -> AppView {
        AppView {
            filter,
            visible: visible_for(self.matches, filter),
            cursor: clamp(self.cursor, visible_for(self.matches, filter).len() as int),
            ..self
        }
    }

    /// The state after `filter_push(c)`.
    pub open spec fn filter_pushed(self, c: char) -> AppView {
        self.refiltered(self.filter.push(c))
    }

    /// The state after `filter_pop`.
    pub open spec fn filter_popped(self) -> AppView {
        self.refiltered(
            if self.filter.len() == 0 {
                self.filter
            } else {
                self.filter.drop_last()
            },
        )
    }

    /// The state after `quit`.
    pub open spec fn quitted(self) -> AppView {
        AppView { quit: true, ..self }
    }

    /// The URL of the match under the cursor, if any.
    pub open spec fn selected(self) -> Option<Seq<char>> {
        if 0 <= self.cursor < self.visible.len() {
            Some(self.matches[self.visible[self.cursor] as int].url@)
        } else {
            None
        }
    }
}

impl<'a> View for App<'a> {
    type V = AppView;

    closed spec fn view(&self) -> AppView {
        AppView {
            idea: self.idea@,
            verdict: *self.verdict,
            matches: self.matches@,
            cursor: self.cursor as int,
            filter: self.filter@,
            visible: self.visible@,
            mode: self.mode,
            quit: self.quit,
        }
    }
}

/// Whether a match whose lowercased name and description are given is shown
/// under the lowercased filter text: either of them holds it.
pub fn is_shown(lower_name: &[char], lower_description: &[char], lower_filter: &[char]) -> (r:
    bool)
    ensures
        r == (contains_seq(lower_name@, lower_filter@) || contains_seq(
            lower_description@,
            lower_filter@,
        )),
{
    contains(lower_name, lower_filter) || contains(lower_description, lower_filter)
}

/// The indices of the matches visible under `filter`.
fn compute_visible(matches: &[Match], filter: &String) -> (r: Vec<usize>)
    requires
        matches@.len() < usize::MAX,
    ensures
        r@ == visible_for(matches@, filter@),
{
    let mut r: Vec<usize> = Vec::new();
    if filter.as_str().unicode_len() == 0 {
        let mut i: usize = 0;
        while i < matches.len()
            invariant
                i <= matches.len(),
                r@ == all_indices(i as nat),
            decreases matches.len() - i,
        {
            r.push(i);
            i += 1;
            assert(r@ =~= all_indices(i as nat));
        }
        return r;
    }
    let lower = to_lowercase(filter.as_str());
    let f = chars_of(lower.as_str());
    let mut i: usize = 0;
    while i < matches.len()
        invariant
            i <= matches.len(),
            f@ == lowercase(filter@),
            r@ == shown_indices(matches@, f@, i as nat),
        decreases matches.len() - i,
    {
        let name = to_lowercase(matches[i].name.as_str());
        let desc = to_lowercase(matches[i].description.as_str());
        let name_chars = chars_of(name.as_str());
        let desc_chars = chars_of(desc.as_str());
        if is_shown(name_chars.as_slice(), desc_chars.as_slice(), f.as_slice()) {
            r.push(i);
        }
        i += 1;
    }
    r
}

impl<'a> App<'a> {
    /// A fresh state: all matches visible, cursor at the top, no filter.
    pub fn new(idea: &'a str, verdict: &'a Verdict, matches: &'a [Match]) -> (r: App<'a>)
        requires
            matches@.len() < usize::MAX,
        ensures
            r@.wf(),
            r@ == (AppView {
                idea: idea@,
                verdict: *verdict,
                matches: matches@,
                cursor: 0,
                filter: Seq::empty(),
                visible: all_indices(matches@.len()),
                mode: Mode::Normal,
                quit: false,
            }),
    {
        let filter = String::new();
        let visible = compute_visible(matches, &filter);
        App { idea, verdict, matches, cursor: 0, filter, visible, mode: Mode::Normal, quit: false }
    }

    /// The idea being searched.
    pub fn idea(&self) -> (r: &str)
        ensures
            r@ == self@.idea,
    {
        self.idea
    }

    /// The verdict shown.
    pub fn verdict(&self) -> (r: &Verdict)
        ensures
            *r == self@.verdict,
    {
        self.verdict
    }

    /// The current mode.
    pub fn mode(&self) -> (r: Mode)
        ensures
            r == self@.mode,
    {
        self.mode
    }

    /// The cursor's position among the visible matches.
    pub fn cursor(&self) -> (r: usize)
        ensures
            r == self@.cursor,
    {
        self.cursor
    }

    /// The filter text typed so far.
    pub fn filter_text(&self) -> (r: &str)
        ensures
            r@ == self@.filter,
    {
        self.filter.as_str()
    }

    /// Whether the user asked to quit.
    pub fn should_quit(&self) -> (r: bool)
        ensures
            r == self@.quit,
    {
        self.quit
    }

    /// Marks the state as quitting.
    pub fn quit(&mut self)
        requires
            old(self)@.wf(),
        ensures
            final(self)@ == old(self)@.quitted(),
            final(self)@.wf(),
    {
        self.quit = true;
    }

    /// The visible matches, in order.
    pub fn visible_matches(&self) -> (r: Vec<&Match>)
        requires
            self@.wf(),
        ensures
            r@.len() == self@.visible.len(),
            forall|i: int|
                0 <= i < r@.len() ==> *#[trigger] r@[i] == self@.matches[self@.visible[i] as int],
    {
        proof {
            self.lemma_visible_in_range();
        }
        let mut r: Vec<&Match> = Vec::new();
        let mut i: usize = 0;
        while i < self.visible.len()
            invariant
                i <= self.visible.len(),
                forall|k: int| 0 <= k < self.visible@.len() ==> self.visible@[k] < self.matches@.len(),
                r@.len() == i,
                forall|k: int|
                    0 <= k < i ==> *#[trigger] r@[k] == self.matches@[self.visible@[k] as int],
            decreases self.visible.len() - i,
        {
            r.push(&self.matches[self.visible[i]]);
            i += 1;
        }
        r
    }

    /// Every visible index names a match.
    proof fn lemma_visible_in_range(&self)
        requires
            self@.wf(),
        ensures
            forall|k: int| 0 <= k < self.visible@.len() ==> self.visible@[k] < self.matches@.len(),
    {
        lemma_visible_indices(self.matches@, self.filter@);
    }

    /// How many matches are visible.
    pub fn visible_count(&self) -> (r: usize)
        ensures
            r == self@.visible.len(),
    {
        self.visible.len()
    }

    /// Moves the cursor down one visible match, stopping at the last.
    pub fn scroll_down(&mut self)
        requires
            old(self)@.wf(),
        ensures
            final(self)@ == old(self)@.scrolled_down(),
            final(self)@.wf(),
    {
        let max = self.visible.len().saturating_sub(1);
        if self.cursor < max {
            self.cursor += 1;
        }
    }

    /// Moves the cursor up one visible match, stopping at the first.
    pub fn scroll_up(&mut self)
        requires
            old(self)@.wf(),
        ensures
            final(self)@ == old(self)@.scrolled_up(),
            final(self)@.wf(),
    {
        self.cursor = self.cursor.saturating_sub(1);
    }

    /// Starts editing the filter, with the cursor at the top.
    pub fn enter_filter(&mut self)
        requires
            old(self)@.wf(),
        ensures
            final(self)@ == old(self)@.filter_entered(),
            final(self)@.wf(),
    {
        self.mode = Mode::Filter;
        self.cursor = 0;
    }

    /// Stops editing the filter and keeps it.
    pub fn confirm_filter(&mut self)
        requires
            old(self)@.wf(),
        ensures
            final(self)@ == old(self)@.filter_confirmed(),
            final(self)@.wf(),
    {
        self.mode = Mode::Normal;
    }

    /// Stops editing the filter and clears it: all matches are visible again.
    pub fn exit_filter(&mut self)
        requires
            old(self)@.wf(),
        ensures
            final(self)@ == old(self)@.filter_exited(),
            final(self)@.wf(),
    {
        self.mode = Mode::Normal;
        self.filter = String::new();
        self.recompute_visible();
        self.cursor = 0;
    }

    /// Appends `c` to the filter.
    pub fn filter_push(&mut self, c: char)
        requires
            old(self)@.wf(),
        ensures
            final(self)@ == old(self)@.filter_pushed(c),
            final(self)@.wf(),
    {
        string_push(&mut self.filter, c);
        self.recompute_visible();
        self.clamp_cursor();
    }

    /// Removes the last character of the filter, if any.
    pub fn filter_pop(&mut self)
        requires
            old(self)@.wf(),
        ensures
            final(self)@ == old(self)@.filter_popped(),
            final(self)@.wf(),
    {
        let _ = string_pop(&mut self.filter);
        self.recompute_visible();
        self.clamp_cursor();
    }

    /// The URL of the match under the cursor, if any.
    pub fn selected_url(&self) -> (r: Option<&str>)
        requires
            self@.wf(),
        ensures
            match r {
                Some(u) => self@.selected() == Some(u@),
                None => self@.selected() is None,
            },
    {
        proof {
            self.lemma_visible_in_range();
        }
        if self.cursor < self.visible.len() {
            Some(self.matches[self.visible[self.cursor]].url.as_str())
        } else {
            None
        }
    }

    /// Recomputes the visible indices from the filter.
    fn recompute_visible(&mut self)
        requires
            old(self)@.matches.len() < usize::MAX,
        ensures
            final(self)@ == (AppView {
                visible: visible_for(old(self)@.matches, old(self)@.filter),
                ..old(self)@
            }),
    {
        self.visible = compute_visible(self.matches, &self.filter);
    }

    /// Keeps the cursor on a visible match, or at 0 when none is visible.
    fn clamp_cursor(&mut self)
        ensures
            final(self)@ == (AppView {
                cursor: clamp(old(self)@.cursor, old(self)@.visible.len() as int),
                ..old(self)@
            }),
    {
        if self.visible.len() == 0 {
            self.cursor = 0;
        } else if self.cursor >= self.visible.len() {
            self.cursor = self.visible.len() - 1;
        }
    }
}

/// Every visible index names a match, and the visible indices increase.
pub proof fn lemma_visible_indices(matches: Seq<Match>, filter: Seq<char>)
    requires
        matches.len() < usize::MAX,
    ensures
        forall|k: int|
            0 <= k < visible_for(matches, filter).len() ==> #[trigger] visible_for(
                matches,
                filter,
            )[k] < matches.len(),
        forall|i: int, j: int|
            0 <= i < j < visible_for(matches, filter).len() ==> visible_for(matches, filter)[i]
                < visible_for(matches, filter)[j],
{
    if filter.len() > 0 {
        lemma_shown_indices(matches, lowercase(filter), matches.len());
    }
}

/// The shown indices below `n` are below `n` and increase.
pub proof fn lemma_shown_indices(matches: Seq<Match>, f: Seq<char>, n: nat)
    requires
        n < usize::MAX,
    ensures
        forall|k: int|
            0 <= k < shown_indices(matches, f, n).len() ==> #[trigger] shown_indices(
                matches,
                f,
                n,
            )[k] < n,
        forall|i: int, j: int|
            0 <= i < j < shown_indices(matches, f, n).len() ==> shown_indices(matches, f, n)[i]
                < shown_indices(matches, f, n)[j],
    decreases n,
{
    if n > 0 {
        let m = (n - 1) as nat;
        lemma_shown_indices(matches, f, m);
        let r = shown_indices(matches, f, m);
        let s = shown_indices(matches, f, n);
        if shown(matches[n - 1], f) {
            assert forall|k: int| 0 <= k < s.len() implies #[trigger] s[k] < n by {
                if k < r.len() {
                    assert(s[k] == r[k]);
                }
            }
            assert forall|i: int, j: int| 0 <= i < j < s.len() implies s[i] < s[j] by {
                assert(s[i] == r[i]);
                assert(r[i] < m);
                if j < r.len() {
                    assert(s[j] == r[j]);
                }
            }
        }
    }
}

/// Removing the character just typed into the filter restores the filter
/// text and the visible matches.
pub proof fn law_filter_pop_undoes_push(v: AppView, c: char)
    requires
        v.wf(),
    ensures
        v.filter_pushed(c).filter_popped().filter == v.filter,
        v.filter_pushed(c).filter_popped().visible == v.visible,
        v.filter_pushed(c).filter_popped().wf(),
{
    assert(v.filter.push(c).drop_last() =~= v.filter);
}

/// Scrolling moves the cursor by one visible match and never past either
/// end; scrolling down then up (or up then down) away from the ends returns
/// to the same match, and neither changes what is visible.
pub proof fn law_scroll_steps_by_one(v: AppView)
    requires
        v.wf(),
    ensures
        v.scrolled_down().wf(),
        v.scrolled_up().wf(),
        v.scrolled_down().visible == v.visible,
        v.scrolled_up().visible == v.visible,
        v.cursor + 1 < v.visible.len() ==> v.scrolled_down().cursor == v.cursor + 1,
        v.cursor + 1 >= v.visible.len() ==> v.scrolled_down().cursor == v.cursor,
        v.cursor > 0 ==> v.scrolled_up().cursor == v.cursor - 1,
        v.cursor == 0 ==> v.scrolled_up().cursor == 0,
        v.cursor + 1 < v.visible.len() ==> v.scrolled_down().scrolled_up().cursor == v.cursor,
        v.cursor > 0 ==> v.scrolled_up().scrolled_down().cursor == v.cursor,
{
}

/// The selected URL is that of the visible match under the cursor, and a
/// change of filter keeps the cursor on a visible match (or at 0), never
/// moving it down.
pub proof fn law_selected_is_under_cursor(v: AppView, filter: Seq<char>)
    requires
        v.wf(),
    ensures
        v.visible.len() > 0 ==> v.selected() == Some(
            v.matches[v.visible[v.cursor] as int].url@,
        ),
        v.refiltered(filter).wf(),
        v.refiltered(filter).cursor <= v.cursor,
        v.refiltered(filter).visible == visible_for(v.matches, filter),
{
}

/// With an empty filter every match is visible, in order.
pub proof fn law_empty_filter_shows_all(matches: Seq<Match>, filter: Seq<char>)
    requires
        filter.len() == 0,
        matches.len() < usize::MAX,
    ensures
        visible_for(matches, filter).len() == matches.len(),
        forall|k: int|
            0 <= k < matches.len() ==> #[trigger] visible_for(matches, filter)[k] == k,
{
}

/// Under a non-empty filter, a match is visible exactly when its name or
/// description, lowercased, holds the lowercased filter.
pub proof fn law_visible_exactly_shown(matches: Seq<Match>, filter: Seq<char>, i: int)
    requires
        filter.len() > 0,
        0 <= i < matches.len() < usize::MAX,
    ensures
        visible_for(matches, filter).contains(i as usize) <==> shown(
            matches[i],
            lowercase(filter),
        ),
        visible_for(matches, filter).contains(i as usize) <==> (contains_seq(
            lowercase(matches[i].name@),
            lowercase(filter),
        ) || contains_seq(lowercase(matches[i].description@), lowercase(filter))),
{
    lemma_shown_indices_members(matches, lowercase(filter), matches.len(), i);
}

/// An index below `n` is among the shown indices below `n` exactly when its
/// match is shown.
pub proof fn lemma_shown_indices_members(matches: Seq<Match>, f: Seq<char>, n: nat, i: int)
    requires
        0 <= i < n <= matches.len(),
        n < usize::MAX,
    ensures
        shown_indices(matches, f, n).contains(i as usize) <==> shown(matches[i], f),
    decreases n,
{
    let m = (n - 1) as nat;
    let r = shown_indices(matches, f, m);
    let s = shown_indices(matches, f, n);
    lemma_shown_indices(matches, f, m);
    if i < m {
        lemma_shown_indices_members(matches, f, m, i);
        if s.contains(i as usize) {
            let k = choose|k: int| 0 <= k < s.len() && s[k] == i as usize;
            if k < r.len() {
                assert(r[k] == i as usize);
            }
        }
        if r.contains(i as usize) {
            let k = choose|k: int| 0 <= k < r.len() && r[k] == i as usize;
            assert(s[k] == i as usize);
        }
    } else {
        if s.contains(i as usize) && !shown(matches[i], f) {
            let k = choose|k: int| 0 <= k < s.len() && s[k] == i as usize;
            assert(r[k] < m);
        }
        if shown(matches[i], f) {
            assert(s[r.len() as int] == i as usize);
        }
    }
}

/// A match is selected exactly when some match is visible.
pub proof fn law_selection_iff_visible(v: AppView)
    requires
        v.wf(),
    ensures
        v.selected() is Some <==> v.visible.len() > 0,
{
}

/// Leaving the filter shows every match again.
pub proof fn law_exit_filter_shows_all(v: AppView)
    requires
        v.wf(),
    ensures
        v.filter_exited().visible == all_indices(v.matches.len()),
        v.filter_exited().wf(),
{
}

} // verus!
