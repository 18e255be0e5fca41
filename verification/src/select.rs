use vstd::prelude::*;
use vstd::arithmetic::div_mod::{
    lemma_fundamental_div_mod,
    lemma_fundamental_div_mod_converse,
    lemma_mod_bound,
    lemma_small_mod,
};
use crate::fuzzy::{filtered_list, labels_of, spec_filtered, MatchResult};
use crate::paging::Paging;
use crate::providers::Ranobe;
use crate::theme::{push_char, SimpleTheme, Theme};
use crate::render::TermThemeRenderer;
use crate::fuzzy::{fuzzy_positions, fuzzy_positions_of};

verus! {

/// One decoded key event, as the terminal reports it.
#[derive(Clone, Copy, Debug, PartialEq, Eq, Structural)]
pub enum Key {
    ArrowUp,
    ArrowDown,
    ArrowLeft,
    ArrowRight,
    Tab,
    BackTab,
    Enter,
    Escape,
    Backspace,
    Char(char),
    Other,
}

/// The controller's two states: navigation keys act in `Normal`, text entry
/// in `Editing`; exactly one holds at any time.
#[derive(Clone, Copy, Debug, PartialEq, Eq, Structural)]
pub enum InputMode {
    Normal,
    Editing,
}

/// A vertical move through the filtered list. `Up` steps toward lower row
/// numbers and wraps from the first row to the last; `Down` steps toward
/// higher row numbers and wraps from the last row to the first.
#[derive(Clone, Copy, Debug, PartialEq, Eq, Structural)]
pub enum Direction {
    Up,
    Down,
}

/// What one keystroke decided: keep looping, cancel the interaction, or
/// commit the candidate at the given original index.
#[derive(Clone, Copy, Debug, PartialEq, Eq, Structural)]
pub enum StepOutcome {
    Continue,
    Cancelled,
    Committed(usize),
}

// ---------------------------------------------------------------------------
// Text helpers.
// ---------------------------------------------------------------------------

/// Builds a string from its characters.
pub fn string_of_chars(cs: &Vec<char>) -> (r: String)
    ensures
        r@ == cs@,
{
    let mut s = String::new();
    let mut i: usize = 0;
    while i < cs.len()
        invariant
            i <= cs@.len(),
            s@ == cs@.take(i as int),
        decreases cs@.len() - i,
    {
        push_char(&mut s, cs[i]);
        proof {
            assert(cs@.take(i as int).push(cs@[i as int]) =~= cs@.take(i + 1));
        }
        i = i + 1;
    }
    proof {
        assert(cs@.take(cs@.len() as int) =~= cs@);
    }
    s
}

/// Collects a string's characters.
pub fn chars_of(s: &str) -> (r: Vec<char>)
    ensures
        r@ == s@,
{
    let n = s.unicode_len();
    let mut r: Vec<char> = Vec::new();
    let mut i: usize = 0;
    while i < n
        invariant
            i <= n,
            n == s@.len(),
            r@ == s@.take(i as int),
        decreases n - i,
    {
        r.push(s.get_char(i));
        proof {
            assert(s@.take(i as int).push(s@[i as int]) =~= s@.take(i + 1));
        }
        i = i + 1;
    }
    proof {
        assert(s@.take(n as int) =~= s@);
    }
    r
}

// ---------------------------------------------------------------------------
// Cyclic navigation.
// ---------------------------------------------------------------------------

/// Where one directional move lands: a move decrements or increments the
/// selection modulo the list length, and a move without a prior selection
/// starts at the respective end.
pub open spec fn spec_cyclic_move(sel: Option<usize>, len: int, dir: Direction) -> Option<usize> {
    match dir {
        Direction::Up => match sel {
            None => Some((len - 1) as usize),
            Some(s) => Some(
                if s == 0 {
                    (len - 1) as usize
                } else {
                    (s - 1) as usize
                },
            ),
        },
        Direction::Down => match sel {
            None => Some(0usize),
            Some(s) => Some(
                if s as int + 1 == len {
                    0usize
                } else {
                    (s + 1) as usize
                },
            ),
        },
    }
}

/// Moves the selection one row in `dir` through a list of `len` rows,
/// wrapping at the ends.
pub fn cyclic_move(sel: Option<usize>, len: usize, dir: Direction) -> (r: Option<usize>)
    requires
        len >= 1,
        sel matches Some(s) ==> s < len,
    ensures
        r == spec_cyclic_move(sel, len as int, dir),
        r matches Some(i) && i < len,
{
    match dir {
        Direction::Up => match sel {
            None => Some(len - 1),
            Some(s) => Some(
                if s == 0 {
                    len - 1
                } else {
                    s - 1
                },
            ),
        },
        Direction::Down => match sel {
            None => Some(0),
            Some(s) => Some(
                if s + 1 == len {
                    0
                } else {
                    s + 1
                },
            ),
        },
    }
}

/// The selection after `n` consecutive moves in one direction.
pub open spec fn spec_iter_moves(sel: Option<usize>, len: int, dir: Direction, n: nat) -> Option<
    usize,
>
    decreases n,
{
    if n == 0 {
        sel
    } else {
        spec_cyclic_move(spec_iter_moves(sel, len, dir, (n - 1) as nat), len, dir)
    }
}

proof fn lemma_mod_succ(x: int, len: int)
    requires
        len >= 1,
    ensures
        (x + 1) % len == if x % len == len - 1 {
            0int
        } else {
            x % len + 1
        },
{
    lemma_fundamental_div_mod(x, len);
    lemma_mod_bound(x, len);
    let q = x / len;
    assert((q + 1) * len == q * len + len) by (nonlinear_arith);
    if x % len == len - 1 {
        lemma_fundamental_div_mod_converse(x + 1, len, q + 1, 0);
    } else {
        lemma_fundamental_div_mod_converse(x + 1, len, q, x % len + 1);
    }
}

proof fn lemma_mod_pred(x: int, len: int)
    requires
        len >= 1,
    ensures
        (x - 1) % len == if x % len == 0 {
            len - 1
        } else {
            x % len - 1
        },
{
    lemma_fundamental_div_mod(x, len);
    lemma_mod_bound(x, len);
    let q = x / len;
    assert((q - 1) * len == q * len - len) by (nonlinear_arith);
    if x % len == 0 {
        lemma_fundamental_div_mod_converse(x - 1, len, q - 1, len - 1);
    } else {
        lemma_fundamental_div_mod_converse(x - 1, len, q, x % len - 1);
    }
}

proof fn lemma_iter_down(s: int, len: int, n: nat)
    requires
        1 <= len <= usize::MAX,
        0 <= s < len,
    ensures
        spec_iter_moves(Some(s as usize), len, Direction::Down, n) == Some(((s + n) % len) as usize),
    decreases n,
{
    lemma_mod_bound(s + n, len);
    if n == 0 {
        lemma_small_mod(s as nat, len as nat);
    } else {
        lemma_iter_down(s, len, (n - 1) as nat);
        lemma_mod_bound(s + n - 1, len);
        lemma_mod_succ(s + n - 1, len);
    }
}

proof fn lemma_iter_up(s: int, len: int, n: nat)
    requires
        1 <= len <= usize::MAX,
        0 <= s < len,
    ensures
        spec_iter_moves(Some(s as usize), len, Direction::Up, n) == Some(((s - n) % len) as usize),
    decreases n,
{
    lemma_mod_bound(s - n, len);
    if n == 0 {
        lemma_small_mod(s as nat, len as nat);
    } else {
        lemma_iter_up(s, len, (n - 1) as nat);
        lemma_mod_bound(s - (n - 1), len);
        lemma_mod_pred(s - (n - 1), len);
    }
}

/// Cyclic navigation law: from any row of a list, repeating one directional
/// move as many times as the list has rows returns the selection to where it
/// started.
pub proof fn lemma_cyclic_round_trip(s: usize, len: int, dir: Direction)
    requires
        1 <= len <= usize::MAX,
        (s as int) < len,
    ensures
        spec_iter_moves(Some(s), len, dir, len as nat) == Some(s),
{
    match dir {
        Direction::Down => {
            lemma_iter_down(s as int, len, len as nat);
            lemma_fundamental_div_mod_converse(s + len, len, 1, s as int);
        },
        Direction::Up => {
            lemma_iter_up(s as int, len, len as nat);
            lemma_fundamental_div_mod_converse(s - len, len, -1, s as int);
        },
    }
}

// ---------------------------------------------------------------------------
// Committing.
// ---------------------------------------------------------------------------

/// Finds the first candidate carrying the given label, as the committed
/// original index.
fn first_title_index(items: &Vec<Ranobe>, title: &String) -> (r: Option<usize>)
    ensures
        r matches Some(j) ==> j < items@.len() && items@[j as int].title@ == title@ && forall|
            a: int,
        | 0 <= a < j ==> items@[a].title@ != title@,
        r is None ==> forall|a: int| 0 <= a < items@.len() ==> items@[a].title@ != title@,
{
    let mut i: usize = 0;
    while i < items.len()
        invariant
            i <= items@.len(),
            forall|a: int| 0 <= a < i ==> items@[a].title@ != title@,
        decreases items@.len() - i,
    {
        if items[i].title.eq(title) {
            return Some(i);
        }
        i = i + 1;
    }
    None
}

// ---------------------------------------------------------------------------
// Key classification.
// ---------------------------------------------------------------------------

/// ASCII control characters are never inserted into the query.
pub open spec fn spec_is_control(c: char) -> bool {
    (c as u32) < 32 || c as u32 == 127
}

/// The mode after a keystroke: `i` enters editing, and Escape or Enter leave
/// it; nothing else moves the mode.
pub open spec fn spec_next_mode(key: Key, mode: InputMode) -> InputMode {
    match (key, mode) {
        (Key::Escape, InputMode::Editing) => InputMode::Normal,
        (Key::Enter, InputMode::Editing) => InputMode::Normal,
        (Key::Char(c), InputMode::Normal) => if c == 'i' {
            InputMode::Editing
        } else {
            InputMode::Normal
        },
        (_, m) => m,
    }
}

pub open spec fn spec_is_nav_up(key: Key, mode: InputMode) -> bool {
    key == Key::ArrowUp || key == Key::BackTab || (key == Key::Char('k') && mode
        == InputMode::Normal)
}

pub open spec fn spec_is_nav_down(key: Key, mode: InputMode) -> bool {
    key == Key::ArrowDown || key == Key::Tab || (key == Key::Char('j') && mode
        == InputMode::Normal)
}

pub open spec fn spec_is_page_prev(key: Key, mode: InputMode) -> bool {
    key == Key::ArrowLeft || (key == Key::Char('h') && mode == InputMode::Normal)
}

pub open spec fn spec_is_page_next(key: Key, mode: InputMode) -> bool {
    key == Key::ArrowRight || (key == Key::Char('l') && mode == InputMode::Normal)
}

pub open spec fn spec_is_insert(key: Key, mode: InputMode) -> bool {
    mode == InputMode::Editing && (key matches Key::Char(c) && !spec_is_control(c))
}

pub open spec fn spec_is_delete(key: Key, mode: InputMode, cursor: int) -> bool {
    mode == InputMode::Editing && key == Key::Backspace && cursor > 0
}

pub open spec fn spec_edits_query(key: Key, mode: InputMode, cursor: int) -> bool {
    spec_is_insert(key, mode) || spec_is_delete(key, mode, cursor)
}

pub open spec fn spec_moves_selection(key: Key, mode: InputMode, len: int, active: bool) -> bool {
    ((spec_is_nav_up(key, mode) || spec_is_nav_down(key, mode)) && len > 0) || ((spec_is_page_prev(
        key,
        mode,
    ) || spec_is_page_next(key, mode)) && active)
}

/// How the selection is repaired after the query changed: a still-valid
/// selection is kept, an out-of-range one snaps to the best match, and it is
/// absent exactly while nothing matches.
pub open spec fn spec_revalidate(sel: Option<usize>, len: int) -> Option<usize> {
    match sel {
        None => None,
        Some(i) => if (i as int) < len {
            Some(i)
        } else if len > 0 {
            Some(0usize)
        } else {
            None
        },
    }
}

/// Whether a keystroke cancels the interaction: Escape in Normal mode, or one
/// of the explicitly configured cancel characters. The built-in set is empty:
/// no character cancels unless the caller says so.
pub open spec fn spec_is_cancel(key: Key, mode: InputMode, cancels: Seq<char>) -> bool {
    mode == InputMode::Normal && (key == Key::Escape || (key matches Key::Char(c)
        && cancels.contains(c)))
}

fn contains_char(chars: &Vec<char>, x: char) -> (r: bool)
    ensures
        r == chars@.contains(x),
{
    let mut k: usize = 0;
    while k < chars.len()
        invariant
            k <= chars@.len(),
            forall|a: int| 0 <= a < k ==> chars@[a] != x,
        decreases chars@.len() - k,
    {
        if chars[k] == x {
            return true;
        }
        k = k + 1;
    }
    false
}

// ---------------------------------------------------------------------------
// The widget.
// ---------------------------------------------------------------------------

/// The fuzzy-selection widget: the candidate collection, the configuration
/// the builder methods accumulate, and the theme that formats each line.
pub struct FuzzySelect<T: Theme> {
    pub default: Option<usize>,
    pub items: Vec<Ranobe>,
    pub prompt: String,
    pub report: bool,
    pub clear: bool,
    pub highlight_matches: bool,
    pub max_length: Option<usize>,
    pub theme: T,
    pub initial_text: String,
    pub cancel_keys: Vec<char>,
}

/// The state of one interaction: the mode, the query buffer with its cursor,
/// the filtered list the query produces, the selection into that list, and
/// the paging window over it.
pub struct Session {
    pub mode: InputMode,
    pub query: Vec<char>,
    pub cursor: usize,
    pub filtered: Vec<MatchResult>,
    pub sel: Option<usize>,
    pub paging: Paging,
}

impl Session {
    /// The controller's running invariant: the cursor stays inside the query,
    /// the filtered list is exactly what the query selects from the
    /// candidates, the selection indexes the filtered list and is absent
    /// exactly while that list is empty, and the paging window always covers
    /// the selection.
    pub open spec fn wf(self, items: Seq<Ranobe>) -> bool {
        &&& self.cursor <= self.query@.len()
        &&& self.filtered@ == spec_filtered(labels_of(items), self.query@)
        &&& (self.sel matches Some(i) ==> (i as int) < self.filtered@.len())
        &&& (self.filtered@.len() == 0 ==> self.sel is None)
        &&& self.paging.wf()
        &&& self.paging.total == self.filtered@.len()
        &&& (self.sel matches Some(i) ==> self.paging.current_page as int
            * self.paging.capacity as int <= i as int && (i as int) < (self.paging.current_page
            as int + 1) * (self.paging.capacity as int))
        &&& (self.sel is None ==> self.paging.current_page == 0)
    }
}

impl FuzzySelect<SimpleTheme> {
    /// Creates the widget with the plain theme.
    pub fn new() -> (r: Self)
        ensures
            r.default is None,
            r.items@.len() == 0,
            r.prompt@.len() == 0,
            r.report == true,
            r.clear == true,
            r.highlight_matches == true,
            r.max_length is None,
            r.initial_text@.len() == 0,
            r.cancel_keys@.len() == 0,
    {
        Self::with_theme(SimpleTheme)
    }
}

impl<T: Theme> FuzzySelect<T> {
    /// Same as `new` but with a specific theme.
    pub fn with_theme(theme: T) -> (r: Self)
        ensures
            r.default is None,
            r.items@.len() == 0,
            r.prompt@.len() == 0,
            r.report == true,
            r.clear == true,
            r.highlight_matches == true,
            r.max_length is None,
            r.initial_text@.len() == 0,
            r.cancel_keys@.len() == 0,
            r.theme == theme,
    {
        FuzzySelect {
            default: None,
            items: Vec::new(),
            prompt: String::new(),
            report: true,
            clear: true,
            highlight_matches: true,
            max_length: None,
            theme,
            initial_text: String::new(),
            cancel_keys: Vec::new(),
        }
    }

    /// Sets the clear behavior of the menu.
    ///
    /// The default is to clear the menu.
    pub fn clear(&mut self, val: bool) -> (r: &mut Self)
        ensures
            *r == (FuzzySelect { clear: val, ..*old(self) }),
            *final(self) == *final(r),
    {
        self.clear = val;
        self
    }

    /// Sets a default selection for the menu.
    pub fn default(&mut self, val: usize) -> (r: &mut Self)
        ensures
            *r == (FuzzySelect { default: Some(val), ..*old(self) }),
            *final(self) == *final(r),
    {
        self.default = Some(val);
        self
    }

    /// Adds a single item to the fuzzy selector.
    pub fn item(&mut self, item: Ranobe) -> (r: &mut Self)
        ensures
            r.items@ == old(self).items@.push(item),
            *r == (FuzzySelect { items: r.items, ..*old(self) }),
            *final(self) == *final(r),
    {
        self.items.push(item);
        self
    }

    /// Adds multiple items to the fuzzy selector.
    pub fn items(&mut self, items: &[Ranobe]) -> (r: &mut Self)
        ensures
            r.items@ == old(self).items@ + items@,
            *r == (FuzzySelect { items: r.items, ..*old(self) }),
            *final(self) == *final(r),
    {
        let mut i: usize = 0;
        while i < items.len()
            invariant
                i <= items@.len(),
                self.items@ == old(self).items@ + items@.take(i as int),
                *self == (FuzzySelect { items: self.items, ..*old(self) }),
            decreases items@.len() - i,
        {
            self.items.push(items[i].clone());
            proof {
                assert(old(self).items@ + items@.take(i as int + 1) =~= (old(self).items@
                    + items@.take(i as int)).push(items@[i as int]));
            }
            i = i + 1;
        }
        proof {
            assert(items@.take(items@.len() as int) =~= items@);
        }
        self
    }

    /// Sets the search text that a fuzzy search starts with.
    pub fn with_initial_text(&mut self, initial_text: String) -> (r: &mut Self)
        ensures
            *r == (FuzzySelect { initial_text: initial_text, ..*old(self) }),
            *final(self) == *final(r),
    {
        self.initial_text = initial_text;
        self
    }

    /// Prefaces the menu with a prompt.
    ///
    /// When a prompt is set the widget also echoes a confirmation after the
    /// fuzzy selection, if reporting is on.
    pub fn with_prompt(&mut self, prompt: String) -> (r: &mut Self)
        ensures
            *r == (FuzzySelect { prompt: prompt, ..*old(self) }),
            *final(self) == *final(r),
    {
        self.prompt = prompt;
        self
    }

    /// Indicates whether to report the selected value after interaction.
    ///
    /// The default is to report the selection.
    pub fn report(&mut self, val: bool) -> (r: &mut Self)
        ensures
            *r == (FuzzySelect { report: val, ..*old(self) }),
            *final(self) == *final(r),
    {
        self.report = val;
        self
    }

    /// Indicates whether to highlight matched characters.
    ///
    /// The default is to highlight.
    pub fn highlight_matches(&mut self, val: bool) -> (r: &mut Self)
        ensures
            *r == (FuzzySelect { highlight_matches: val, ..*old(self) }),
            *final(self) == *final(r),
    {
        self.highlight_matches = val;
        self
    }

    /// Names the characters that cancel the interaction from Normal mode,
    /// besides Escape. Nothing is guessed: with the built-in empty set no
    /// character cancels.
    pub fn cancel_keys(&mut self, keys: Vec<char>) -> (r: &mut Self)
        ensures
            *r == (FuzzySelect { cancel_keys: keys, ..*old(self) }),
            *final(self) == *final(r),
    {
        self.cancel_keys = keys;
        self
    }

    /// Sets an optional row budget for a page; `None` leaves the budget to
    /// the terminal height. Two is added to reserve room for the page
    /// indicator, which paging subtracts again.
    pub fn max_length(&mut self, val: usize) -> (r: &mut Self)
        requires
            val + 2 <= usize::MAX,
        ensures
            *r == (FuzzySelect { max_length: Some((val + 2) as usize), ..*old(self) }),
            *final(self) == *final(r),
    {
        self.max_length = Some(val + 2);
        self
    }

    /// Opens an interaction: the query starts as the initial text with the
    /// cursor at its end, the mode is Normal, the filtered list is computed,
    /// the default selection is kept when it points at a filtered row, and
    /// the paging window is derived from the row budget or the terminal
    /// height handed in by the caller.
    pub fn start_session(&self, fallback_rows: usize) -> (sess: Session)
        ensures
            sess.wf(self.items@),
            sess.mode == InputMode::Normal,
            sess.query@ == self.initial_text@,
            sess.cursor == self.initial_text@.len(),
            sess.sel == (match self.default {
                Some(i) => if (i as int) < spec_filtered(
                    labels_of(self.items@),
                    self.initial_text@,
                ).len() {
                    Some(i)
                } else {
                    None::<usize>
                },
                None => None::<usize>,
            }),
            sess.paging.capacity == Paging::spec_capacity(self.max_length, fallback_rows),
    {
        let query = chars_of(self.initial_text.as_str());
        let cursor = query.len();
        let filtered = filtered_list(&self.items, self.initial_text.as_str());
        let t = filtered.len();
        let sel = match self.default {
            Some(i) => if i < t {
                Some(i)
            } else {
                None
            },
            None => None,
        };
        let mut paging = Paging::new(t, self.max_length, fallback_rows);
        match sel {
            Some(i) => {
                paging.update(i);
            },
            None => {},
        }
        Session { mode: InputMode::Normal, query, cursor, filtered, sel, paging }
    }

    /// Moves the selection one row, wrapping at the list's ends, and brings
    /// the page window over it.
    fn nav_move(&self, sess: &mut Session, dir: Direction)
        requires
            old(sess).wf(self.items@),
            old(sess).filtered@.len() > 0,
        ensures
            final(sess).wf(self.items@),
            final(sess).sel == spec_cyclic_move(
                old(sess).sel,
                old(sess).filtered@.len() as int,
                dir,
            ),
            final(sess).mode == old(sess).mode,
            final(sess).query == old(sess).query,
            final(sess).cursor == old(sess).cursor,
            final(sess).filtered == old(sess).filtered,
            final(sess).paging.capacity == old(sess).paging.capacity,
    {
        let n = sess.filtered.len();
        let moved = cyclic_move(sess.sel, n, dir);
        sess.sel = moved;
        match moved {
            Some(i) => {
                sess.paging.update(i);
            },
            None => {},
        }
    }

    /// Moves one page forward or backward, wrapping at the ends, and snaps
    /// the selection to the first row of the new page.
    fn page_move(&self, sess: &mut Session, forward: bool)
        requires
            old(sess).wf(self.items@),
            old(sess).paging.active,
        ensures
            final(sess).wf(self.items@),
            final(sess).mode == old(sess).mode,
            final(sess).query == old(sess).query,
            final(sess).cursor == old(sess).cursor,
            final(sess).filtered == old(sess).filtered,
            final(sess).paging.capacity == old(sess).paging.capacity,
            forward ==> final(sess).paging.current_page == (if old(sess).paging.current_page + 1
                == old(sess).paging.pages {
                0usize
            } else {
                (old(sess).paging.current_page + 1) as usize
            }),
            !forward ==> final(sess).paging.current_page == (if old(sess).paging.current_page
                == 0 {
                (old(sess).paging.pages - 1) as usize
            } else {
                (old(sess).paging.current_page - 1) as usize
            }),
            final(sess).sel matches Some(s) && s as int == final(sess).paging.current_page as int
                * final(sess).paging.capacity as int,
    {
        let r = if forward {
            sess.paging.next_page()
        } else {
            sess.paging.previous_page()
        };
        sess.sel = Some(r);
        proof {
            let p = sess.paging.current_page as int;
            let c = sess.paging.capacity as int;
            assert((p + 1) * c == p * c + c) by (nonlinear_arith);
        }
    }

    /// Recomputes the filtered list after the query changed, repairs the
    /// selection (kept when `keep` and still valid, else reset to the best
    /// match), and re-derives the paging window.
    fn refresh_after_edit(&self, sess: &mut Session, keep: bool)
        requires
            old(sess).cursor <= old(sess).query@.len(),
            old(sess).paging.wf(),
        ensures
            final(sess).wf(self.items@),
            final(sess).mode == old(sess).mode,
            final(sess).query == old(sess).query,
            final(sess).cursor == old(sess).cursor,
            final(sess).filtered@ == spec_filtered(labels_of(self.items@), old(sess).query@),
            final(sess).paging.capacity == old(sess).paging.capacity,
            keep ==> final(sess).sel == spec_revalidate(
                old(sess).sel,
                spec_filtered(labels_of(self.items@), old(sess).query@).len() as int,
            ),
            !keep ==> final(sess).sel == (if spec_filtered(
                labels_of(self.items@),
                old(sess).query@,
            ).len() > 0 {
                Some(0usize)
            } else {
                None::<usize>
            }),
    {
        let q = string_of_chars(&sess.query);
        let f = filtered_list(&self.items, q.as_str());
        let t = f.len();
        sess.filtered = f;
        sess.sel = if keep {
            match sess.sel {
                Some(i) => if i < t {
                    Some(i)
                } else if t > 0 {
                    Some(0)
                } else {
                    None
                },
                None => None,
            }
        } else {
            if t > 0 {
                Some(0)
            } else {
                None
            }
        };
        sess.paging.set_total(t);
        match sess.sel {
            Some(i) => {
                sess.paging.update(i);
            },
            None => {
                sess.paging.update(0);
                proof {
                    let p = sess.paging.current_page as int;
                    let c = sess.paging.capacity as int;
                    assert(p == 0) by (nonlinear_arith)
                        requires
                            p * c <= 0,
                            c >= 1,
                            p >= 0,
                    {}
                }
            },
        }
    }

    /// The index the interaction commits: the first candidate whose label
    /// equals the selected row's label.
    fn commit_index(&self, sess: &Session) -> (j: usize)
        requires
            sess.wf(self.items@),
            sess.sel is Some,
            sess.filtered@.len() > 0,
        ensures
            j < self.items@.len(),
            self.items@[j as int].title@ == self.items@[sess.filtered@[sess.sel.unwrap() as int].index as int].title@,
            forall|a: int|
                0 <= a < j ==> (#[trigger] self.items@[a]).title@ != self.items@[sess.filtered@[sess.sel.unwrap() as int].index as int].title@,
    {
        let i = match sess.sel {
            Some(i) => i,
            None => 0,
        };
        let n_items = self.items.len();
        let row = sess.filtered[i];
        proof {
            assert(labels_of(self.items@).len() == self.items@.len());
            crate::fuzzy::lemma_filtered_exact(labels_of(self.items@), sess.query@);
            assert(labels_of(self.items@)[row.index as int] == self.items@[row.index as int].title@);
        }
        let title = &self.items[row.index].title;
        let found = first_title_index(&self.items, title);
        match found {
            Some(j) => j,
            None => {
                proof {
                    assert(self.items@[row.index as int].title@ == title@);
                    assert(false);
                }
                0
            },
        }
    }

    /// The window of filtered rows on the current page: row `r.0` up to but
    /// not including row `r.1`.
    pub fn visible_window(&self, sess: &Session) -> (r: (usize, usize))
        requires
            sess.wf(self.items@),
        ensures
            r.0 <= r.1 <= sess.filtered@.len(),
            sess.filtered@.len() == 0 ==> r.0 == 0 && r.1 == 0,
            sess.filtered@.len() > 0 ==> r.0 as int == sess.paging.current_page as int
                * sess.paging.capacity as int,
            sess.filtered@.len() > 0 ==> r.1 as int == (if r.0 as int
                + sess.paging.capacity as int <= sess.filtered@.len() {
                r.0 as int + sess.paging.capacity as int
            } else {
                sess.filtered@.len() as int
            }),
    {
        let n = sess.filtered.len();
        if n == 0 {
            (0, 0)
        } else {
            proof {
                sess.paging.lemma_page_start_lt_total(sess.paging.current_page as int);
            }
            let start = sess.paging.current_page * sess.paging.capacity;
            let end = if n - start > sess.paging.capacity {
                start + sess.paging.capacity
            } else {
                n
            };
            (start, end)
        }
    }

    /// Produces the text of one frame: first the query line (page indicator,
    /// prompt, query and cursor), then one line per filtered row of the
    /// current page, the active row marked and the matched positions
    /// emphasised when highlighting is on. The renderer records the rows the
    /// frame occupies; the caller writes the lines and later asks the
    /// renderer how much to erase.
    pub fn render_frame(&self, sess: &Session, render: &mut TermThemeRenderer<T>) -> (lines: Vec<
        String,
    >)
        requires
            sess.wf(self.items@),
        ensures
            final(render).theme == old(render).theme,
            final(render).prompts_reset_height == old(render).prompts_reset_height,
            lines@.len() >= 1,
            lines@[0]@ == (match (if sess.paging.active {
                Some(((sess.paging.current_page + 1) as usize, sess.paging.pages))
            } else {
                None::<(usize, usize)>
            }) {
                Some(info) => TermThemeRenderer::<T>::spec_paging_info(
                    info.0 as int,
                    info.1 as int,
                ),
                None => Seq::<char>::empty(),
            }) + old(render).theme.spec_fuzzy_prompt(
                self.prompt@,
                sess.query@,
                sess.cursor as int,
            ),
            lines@.len() == 1 + (if sess.filtered@.len() == 0 {
                0int
            } else if sess.paging.current_page as int * sess.paging.capacity as int
                + sess.paging.capacity as int <= sess.filtered@.len() {
                sess.paging.capacity as int
            } else {
                sess.filtered@.len() - sess.paging.current_page as int
                    * sess.paging.capacity as int
            }),
            forall|k: int|
                1 <= k < lines@.len() ==> (#[trigger] lines@[k])@ == old(render).theme.spec_fuzzy_item(
                    self.items@[sess.filtered@[sess.paging.current_page as int
                        * sess.paging.capacity as int + (k - 1)].index as int].title@,
                    sess.sel == Some(
                        (sess.paging.current_page as int * sess.paging.capacity as int + (k
                            - 1)) as usize,
                    ),
                    self.highlight_matches,
                    if self.highlight_matches {
                        fuzzy_positions_of(
                            self.items@[sess.filtered@[sess.paging.current_page as int
                                * sess.paging.capacity as int + (k - 1)].index as int].title@,
                            sess.query@,
                        )
                    } else {
                        Seq::<usize>::empty()
                    },
                ),
    {
        let mut lines: Vec<String> = Vec::new();
        let query = string_of_chars(&sess.query);
        let info = sess.paging.paging_info();
        let prompt_line = render.fuzzy_select_prompt(
            self.prompt.as_str(),
            query.as_str(),
            sess.cursor,
            info,
        );
        lines.push(prompt_line);
        let (start, end) = self.visible_window(sess);
        let n_items = self.items.len();
        proof {
            assert(labels_of(self.items@).len() == self.items@.len());
            crate::fuzzy::lemma_filtered_exact(labels_of(self.items@), sess.query@);
        }
        let mut idx = start;
        while idx < end
            invariant
                start <= idx <= end,
                sess.wf(self.items@),
                end <= sess.filtered@.len(),
                query@ == sess.query@,
                render.theme == old(render).theme,
                render.prompts_reset_height == old(render).prompts_reset_height,
                lines@.len() == 1 + idx - start,
                lines@[0]@ == prompt_line@,
                forall|k: int|
                    0 <= k < sess.filtered@.len() ==> (#[trigger] sess.filtered@[k]).index
                        < self.items@.len() && crate::fuzzy::fuzzy_matches(
                        self.items@[sess.filtered@[k].index as int].title@,
                        sess.query@,
                    ),
                forall|k: int|
                    1 <= k < lines@.len() ==> (#[trigger] lines@[k])@ == old(
                        render,
                    ).theme.spec_fuzzy_item(
                        self.items@[sess.filtered@[start + (k - 1)].index as int].title@,
                        sess.sel == Some((start + (k - 1)) as usize),
                        self.highlight_matches,
                        if self.highlight_matches {
                            fuzzy_positions_of(
                                self.items@[sess.filtered@[start + (k - 1)].index as int].title@,
                                sess.query@,
                            )
                        } else {
                            Seq::<usize>::empty()
                        },
                    ),
            decreases end - idx,
        {
            let row = sess.filtered[idx];
            proof {
                assert(labels_of(self.items@)[row.index as int] == self.items@[row.index as int].title@);
            }
            let title = &self.items[row.index].title;
            let positions: Vec<usize> = if self.highlight_matches {
                match fuzzy_positions(title.as_str(), query.as_str()) {
                    Some(v) => v,
                    None => {
                        proof {
                            assert(false);
                        }
                        Vec::new()
                    },
                }
            } else {
                Vec::new()
            };
            let active = match sess.sel {
                Some(s) => s == idx,
                None => false,
            };
            let line = render.fuzzy_select_prompt_item(
                title.as_str(),
                active,
                self.highlight_matches,
                &positions,
            );
            lines.push(line);
            idx = idx + 1;
        }
        lines
    }

    /// Interprets one keystroke against the current state: mode changes,
    /// cyclic navigation, page moves, query edits with their re-filtering,
    /// commit and cancel. The contract pins, case by case, the whole state
    /// after the key and the outcome handed back to the caller.
    pub fn step(&self, sess: &mut Session, key: Key) -> (out: StepOutcome)
        requires
            old(sess).wf(self.items@),
        ensures
            final(sess).wf(self.items@),
            !spec_is_cancel(key, old(sess).mode, self.cancel_keys@) ==> final(sess).mode
                == spec_next_mode(key, old(sess).mode),
            final(sess).paging.capacity == old(sess).paging.capacity,
            // the two ways out
            (out == StepOutcome::Cancelled) <==> spec_is_cancel(
                key,
                old(sess).mode,
                self.cancel_keys@,
            ),
            (out is Committed) <==> (key == Key::Enter && old(sess).mode == InputMode::Normal
                && old(sess).sel is Some && old(sess).filtered@.len() > 0),
            spec_is_cancel(key, old(sess).mode, self.cancel_keys@) ==> *final(sess) == *old(sess),
            // the query moves only under edits
            key matches Key::Char(c) ==> ((old(sess).mode == InputMode::Editing
                && !spec_is_control(c)) ==> (final(sess).query@ == old(sess).query@.insert(
                old(sess).cursor as int,
                c,
            ) && final(sess).cursor == old(sess).cursor + 1)),
            spec_is_delete(key, old(sess).mode, old(sess).cursor as int) ==> final(sess).query@
                == old(sess).query@.remove(old(sess).cursor - 1) && final(sess).cursor == old(sess).cursor - 1,
            !spec_edits_query(key, old(sess).mode, old(sess).cursor as int) ==> final(sess).query@
                == old(sess).query@ && final(sess).cursor == old(sess).cursor,
            // how the selection moves
            spec_is_insert(key, old(sess).mode) ==> final(sess).sel == (if spec_filtered(
                labels_of(self.items@),
                final(sess).query@,
            ).len() > 0 {
                Some(0usize)
            } else {
                None::<usize>
            }),
            spec_is_delete(key, old(sess).mode, old(sess).cursor as int) ==> final(sess).sel
                == spec_revalidate(
                old(sess).sel,
                spec_filtered(labels_of(self.items@), final(sess).query@).len() as int,
            ),
            spec_is_nav_up(key, old(sess).mode) && old(sess).filtered@.len() > 0 && !spec_is_cancel(key, old(sess).mode, self.cancel_keys@) ==> final(sess).sel == spec_cyclic_move(
                old(sess).sel,
                old(sess).filtered@.len() as int,
                Direction::Up,
            ),
            spec_is_nav_down(key, old(sess).mode) && old(sess).filtered@.len() > 0 && !spec_is_cancel(key, old(sess).mode, self.cancel_keys@) ==> final(sess).sel == spec_cyclic_move(
                old(sess).sel,
                old(sess).filtered@.len() as int,
                Direction::Down,
            ),
            spec_is_page_next(key, old(sess).mode) && old(sess).paging.active && !spec_is_cancel(key, old(sess).mode, self.cancel_keys@) ==> final(sess).paging.current_page == (if old(sess).paging.current_page + 1 == old(sess).paging.pages {
                0usize
            } else {
                (old(sess).paging.current_page + 1) as usize
            }) && (final(sess).sel matches Some(s) && s as int == final(sess).paging.current_page as int * final(sess).paging.capacity as int),
            spec_is_page_prev(key, old(sess).mode) && old(sess).paging.active && !spec_is_cancel(key, old(sess).mode, self.cancel_keys@) ==> final(sess).paging.current_page == (if old(sess).paging.current_page == 0 {
                (old(sess).paging.pages - 1) as usize
            } else {
                (old(sess).paging.current_page - 1) as usize
            }) && (final(sess).sel matches Some(s) && s as int == final(sess).paging.current_page as int * final(sess).paging.capacity as int),
            // keys that move nothing leave everything
            !spec_edits_query(key, old(sess).mode, old(sess).cursor as int)
                && !spec_moves_selection(
                key,
                old(sess).mode,
                old(sess).filtered@.len() as int,
                old(sess).paging.active,
            ) ==> final(sess).sel == old(sess).sel && final(sess).paging == old(sess).paging
                && final(sess).filtered@ == old(sess).filtered@,
            // what a commit returns
            old(sess).sel matches Some(i) ==> ((key == Key::Enter && old(sess).mode
                == InputMode::Normal && old(sess).filtered@.len() > 0) ==> (*final(sess) == *old(sess) && (out matches StepOutcome::Committed(j) && j < self.items@.len()
                && self.items@[j as int].title@ == self.items@[old(sess).filtered@[i as int].index as int].title@
                && (forall|a: int|
                    0 <= a < j ==> (#[trigger] self.items@[a]).title@ != self.items@[old(sess).filtered@[i as int].index as int].title@)))),
    {
        match key {
            Key::Escape => {
                if sess.mode == InputMode::Normal {
                    StepOutcome::Cancelled
                } else {
                    sess.mode = InputMode::Normal;
                    StepOutcome::Continue
                }
            },
            Key::Enter => {
                if sess.mode == InputMode::Editing {
                    sess.mode = InputMode::Normal;
                    StepOutcome::Continue
                } else {
                    match sess.sel {
                        Some(_) => {
                            if sess.filtered.len() > 0 {
                                let j = self.commit_index(sess);
                                StepOutcome::Committed(j)
                            } else {
                                StepOutcome::Continue
                            }
                        },
                        None => StepOutcome::Continue,
                    }
                }
            },
            Key::ArrowUp | Key::BackTab => {
                if sess.filtered.len() > 0 {
                    self.nav_move(sess, Direction::Up);
                }
                StepOutcome::Continue
            },
            Key::ArrowDown | Key::Tab => {
                if sess.filtered.len() > 0 {
                    self.nav_move(sess, Direction::Down);
                }
                StepOutcome::Continue
            },
            Key::ArrowLeft => {
                if sess.paging.active {
                    self.page_move(sess, false);
                }
                StepOutcome::Continue
            },
            Key::ArrowRight => {
                if sess.paging.active {
                    self.page_move(sess, true);
                }
                StepOutcome::Continue
            },
            Key::Backspace => {
                if sess.mode == InputMode::Editing && sess.cursor > 0 {
                    sess.cursor = sess.cursor - 1;
                    sess.query.remove(sess.cursor);
                    self.refresh_after_edit(sess, true);
                }
                StepOutcome::Continue
            },
            Key::Char(c) => {
                if sess.mode == InputMode::Normal {
                    if contains_char(&self.cancel_keys, c) {
                        return StepOutcome::Cancelled;
                    }
                    if c == 'i' {
                        sess.mode = InputMode::Editing;
                    } else if c == 'k' {
                        if sess.filtered.len() > 0 {
                            self.nav_move(sess, Direction::Up);
                        }
                    } else if c == 'j' {
                        if sess.filtered.len() > 0 {
                            self.nav_move(sess, Direction::Down);
                        }
                    } else if c == 'h' {
                        if sess.paging.active {
                            self.page_move(sess, false);
                        }
                    } else if c == 'l' {
                        if sess.paging.active {
                            self.page_move(sess, true);
                        }
                    }
                    StepOutcome::Continue
                } else {
                    let u = c as u32;
                    if !(u < 32 || u == 127) {
                        sess.query.insert(sess.cursor, c);
                        // the grown buffer's length shows the cursor bump fits
                        let _grown = sess.query.len();
                        sess.cursor = sess.cursor + 1;
                        self.refresh_after_edit(sess, false);
                    }
                    StepOutcome::Continue
                }
            },
            Key::Other => StepOutcome::Continue,
        }
    }
}

} // verus!
