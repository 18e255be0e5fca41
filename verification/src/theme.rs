use vstd::prelude::*;

verus! {

/// Relies on std's `String::push`: it appends exactly the one character.
#[verifier::external_body]
pub(crate) fn push_char(s: &mut String, c: char)
    ensures
        final(s)@ == old(s)@.push(c),
{
    s.push(c);
}

pub open spec fn opt_str_view(d: Option<&str>) -> Option<Seq<char>> {
    match d {
        Some(s) => Some(s@),
        None => None,
    }
}

/// The formatting capabilities a theme offers the widget. Every operation is
/// pure text production: it returns the line's characters and writes nothing
/// itself. Each exec method is pinned to the theme's own spec-level
/// description of the text it yields, so custom themes state their output the
/// same way the built-in ones do.
pub trait Theme {
    spec fn spec_prompt(&self, prompt: Seq<char>) -> Seq<char>;

    spec fn spec_error(&self, err: Seq<char>) -> Seq<char>;

    spec fn spec_input_prompt(&self, prompt: Seq<char>, default: Option<Seq<char>>) -> Seq<char>;

    spec fn spec_input_prompt_selection(&self, prompt: Seq<char>, sel: Seq<char>) -> Seq<char>;

    spec fn spec_fuzzy_prompt(&self, prompt: Seq<char>, term: Seq<char>, cursor: int) -> Seq<char>;

    spec fn spec_fuzzy_item(
        &self,
        text: Seq<char>,
        active: bool,
        highlight: bool,
        positions: Seq<usize>,
    ) -> Seq<char>;

    /// Formats a prompt.
    fn format_prompt(&self, prompt: &str) -> (r: String)
        ensures
            r@ == self.spec_prompt(prompt@),
    ;

    /// Formats an error message.
    fn format_error(&self, err: &str) -> (r: String)
        ensures
            r@ == self.spec_error(err@),
    ;

    /// Formats an input prompt, with its default value when one is offered.
    fn format_input_prompt(&self, prompt: &str, default: Option<&str>) -> (r: String)
        ensures
            r@ == self.spec_input_prompt(prompt@, opt_str_view(default)),
    ;

    /// Formats the confirmation line shown after a selection.
    fn format_input_prompt_selection(&self, prompt: &str, sel: &str) -> (r: String)
        ensures
            r@ == self.spec_input_prompt_selection(prompt@, sel@),
    ;

    /// Formats the query line, with a cursor glyph at the cursor's character
    /// offset.
    fn format_fuzzy_select_prompt(&self, prompt: &str, search_term: &str, cursor_pos: usize) -> (r:
        String)
        requires
            cursor_pos <= search_term@.len(),
        ensures
            r@ == self.spec_fuzzy_prompt(prompt@, search_term@, cursor_pos as int),
    ;

    /// Formats one candidate row: a marker distinguishing the active row,
    /// then the label, with the matched character positions emphasised when
    /// highlighting is on.
    fn format_fuzzy_select_prompt_item(
        &self,
        text: &str,
        active: bool,
        highlight_matches: bool,
        positions: &Vec<usize>,
    ) -> (r: String)
        ensures
            r@ == self.spec_fuzzy_item(text@, active, highlight_matches, positions@),
    ;
}

/// How the plain theme renders one label character: matched characters are
/// set in bold, the rest stay bare.
pub open spec fn spec_bold_char(c: char, matched: bool) -> Seq<char> {
    if matched {
        "\u{1b}[1m"@ + seq![c] + "\u{1b}[0m"@
    } else {
        seq![c]
    }
}

/// The label's characters from position `i` on, bold exactly at the reported
/// match positions.
pub open spec fn spec_plain_highlighted(text: Seq<char>, i: int, positions: Seq<usize>) -> Seq<
    char,
>
    decreases text.len() - i,
{
    if i < 0 || i >= text.len() {
        Seq::empty()
    } else {
        spec_bold_char(text[i], positions.contains(i as usize)) + spec_plain_highlighted(
            text,
            i + 1,
            positions,
        )
    }
}

/// The plain theme: no color, a `>` marker for the active row, a plain `|`
/// cursor bar, and bold emphasis on matched characters.
pub struct SimpleTheme;

impl Theme for SimpleTheme {
    open spec fn spec_prompt(&self, prompt: Seq<char>) -> Seq<char> {
        prompt + ":"@
    }

    open spec fn spec_error(&self, err: Seq<char>) -> Seq<char> {
        "error: "@ + err
    }

    open spec fn spec_input_prompt(&self, prompt: Seq<char>, default: Option<Seq<char>>) -> Seq<
        char,
    > {
        match default {
            Some(d) => if prompt.len() == 0 {
                "["@ + d + "]: "@
            } else {
                prompt + " ["@ + d + "]: "@
            },
            None => prompt + ": "@,
        }
    }

    open spec fn spec_input_prompt_selection(&self, prompt: Seq<char>, sel: Seq<char>) -> Seq<
        char,
    > {
        prompt + ": "@ + sel
    }

    open spec fn spec_fuzzy_prompt(&self, prompt: Seq<char>, term: Seq<char>, cursor: int) -> Seq<
        char,
    > {
        (if prompt.len() == 0 {
            Seq::<char>::empty()
        } else {
            prompt + " "@
        }) + if cursor < term.len() {
            term.take(cursor) + "|"@ + term.skip(cursor)
        } else {
            term + "|"@
        }
    }

    open spec fn spec_fuzzy_item(
        &self,
        text: Seq<char>,
        active: bool,
        highlight: bool,
        positions: Seq<usize>,
    ) -> Seq<char> {
        (if active {
            ">"@
        } else {
            " "@
        }) + " "@ + if highlight {
            spec_plain_highlighted(text, 0, positions)
        } else {
            text
        }
    }

    fn format_prompt(&self, prompt: &str) -> (r: String) {
        let mut s = String::new();
        s.append(prompt);
        s.append(":");
        proof {
            assert(s@ =~= self.spec_prompt(prompt@));
        }
        s
    }

    fn format_error(&self, err: &str) -> (r: String) {
        let mut s = String::new();
        s.append("error: ");
        s.append(err);
        proof {
            assert(s@ =~= self.spec_error(err@));
        }
        s
    }

    fn format_input_prompt(&self, prompt: &str, default: Option<&str>) -> (r: String) {
        let mut s = String::new();
        match default {
            Some(d) => {
                if prompt.is_empty() {
                    s.append("[");
                    s.append(d);
                    s.append("]: ");
                } else {
                    s.append(prompt);
                    s.append(" [");
                    s.append(d);
                    s.append("]: ");
                }
            },
            None => {
                s.append(prompt);
                s.append(": ");
            },
        }
        proof {
            assert(s@ =~= self.spec_input_prompt(prompt@, opt_str_view(default)));
        }
        s
    }

    fn format_input_prompt_selection(&self, prompt: &str, sel: &str) -> (r: String) {
        let mut s = String::new();
        s.append(prompt);
        s.append(": ");
        s.append(sel);
        proof {
            assert(s@ =~= self.spec_input_prompt_selection(prompt@, sel@));
        }
        s
    }

    fn format_fuzzy_select_prompt(&self, prompt: &str, search_term: &str, cursor_pos: usize) -> (r:
        String) {
        let mut s = String::new();
        if !prompt.is_empty() {
            s.append(prompt);
            s.append(" ");
        }
        let n = search_term.unicode_len();
        if cursor_pos < n {
            s.append(search_term.substring_char(0, cursor_pos));
            s.append("|");
            s.append(search_term.substring_char(cursor_pos, n));
            proof {
                assert(search_term@.subrange(0, cursor_pos as int) =~= search_term@.take(
                    cursor_pos as int,
                ));
                assert(search_term@.subrange(cursor_pos as int, n as int) =~= search_term@.skip(
                    cursor_pos as int,
                ));
            }
        } else {
            s.append(search_term);
            s.append("|");
        }
        proof {
            assert(s@ =~= self.spec_fuzzy_prompt(prompt@, search_term@, cursor_pos as int));
        }
        s
    }

    fn format_fuzzy_select_prompt_item(
        &self,
        text: &str,
        active: bool,
        highlight_matches: bool,
        positions: &Vec<usize>,
    ) -> (r: String) {
        let mut s = String::new();
        if active {
            s.append(">");
        } else {
            s.append(" ");
        }
        s.append(" ");
        let ghost head = s@;
        if highlight_matches {
            let n = text.unicode_len();
            let mut i: usize = 0;
            while i < n
                invariant
                    i <= n,
                    n == text@.len(),
                    s@ + spec_plain_highlighted(text@, i as int, positions@) == head
                        + spec_plain_highlighted(text@, 0, positions@),
                decreases n - i,
            {
                let c = text.get_char(i);
                let matched = contains_pos(positions, i);
                let ghost prev = s@;
                if matched {
                    s.append("\u{1b}[1m");
                    push_char(&mut s, c);
                    s.append("\u{1b}[0m");
                } else {
                    push_char(&mut s, c);
                }
                proof {
                    assert(s@ =~= prev + spec_bold_char(c, matched));
                    assert(prev + spec_bold_char(c, matched) + spec_plain_highlighted(
                        text@,
                        i + 1,
                        positions@,
                    ) =~= prev + spec_plain_highlighted(text@, i as int, positions@));
                }
                i = i + 1;
            }
            proof {
                assert(s@ + spec_plain_highlighted(text@, n as int, positions@) =~= s@);
            }
        } else {
            s.append(text);
        }
        proof {
            assert(s@ =~= self.spec_fuzzy_item(text@, active, highlight_matches, positions@));
        }
        s
    }
}

/// One text style, held as the plain escape sequences that switch it on and
/// off; styling a fragment brackets it with the two.
pub struct StyleCodes {
    pub start: String,
    pub end: String,
}

impl StyleCodes {
    pub open spec fn spec_apply(&self, t: Seq<char>) -> Seq<char> {
        self.start@ + t + self.end@
    }

    pub fn new(start: String, end: String) -> (r: StyleCodes)
        ensures
            r.start == start,
            r.end == end,
    {
        StyleCodes { start, end }
    }

    /// A style that changes nothing.
    pub fn plain() -> (r: StyleCodes)
        ensures
            r.start@.len() == 0,
            r.end@.len() == 0,
    {
        StyleCodes { start: String::new(), end: String::new() }
    }

    fn append_styled(&self, s: &mut String, t: &str)
        ensures
            final(s)@ == old(s)@ + self.spec_apply(t@),
    {
        s.append(self.start.as_str());
        s.append(t);
        s.append(self.end.as_str());
        proof {
            assert(old(s)@ + self.start@ + t@ + self.end@ =~= old(s)@ + self.spec_apply(t@));
        }
    }

    fn append_styled_char(&self, s: &mut String, c: char)
        ensures
            final(s)@ == old(s)@ + self.spec_apply(seq![c]),
    {
        s.append(self.start.as_str());
        push_char(s, c);
        s.append(self.end.as_str());
        proof {
            assert((old(s)@ + self.start@).push(c) =~= old(s)@ + self.start@ + seq![c]);
            assert(old(s)@ + self.start@ + seq![c] + self.end@ =~= old(s)@ + self.spec_apply(
                seq![c],
            ));
        }
    }
}

/// The styled theme: colored prefixes and suffixes per semantic role, a
/// colored active row, colored match emphasis, and a block cursor. The escape
/// sequences are held as plain data, so the formatted text is a pure function
/// of the theme's fields.
pub struct ColorfulTheme {
    /// The style for the prompt text
    pub prompt_style: StyleCodes,
    /// Prompt prefix glyph, already styled
    pub prompt_prefix: String,
    /// Prompt suffix glyph, already styled
    pub prompt_suffix: String,
    /// Prompt-on-success prefix glyph, already styled
    pub success_prefix: String,
    /// Prompt-on-success suffix glyph, already styled
    pub success_suffix: String,
    /// Error prefix glyph, already styled
    pub error_prefix: String,
    /// The style for error messages
    pub error_style: StyleCodes,
    /// The style for hints
    pub hint_style: StyleCodes,
    /// The style for values shown on success
    pub values_style: StyleCodes,
    /// The style for the active row's text
    pub active_item_style: StyleCodes,
    /// Active row prefix glyph, already styled
    pub active_item_prefix: String,
    /// Inactive row prefix glyph, already styled
    pub inactive_item_prefix: String,
    /// The style of the cursor glyph in the query line
    pub fuzzy_cursor_style: StyleCodes,
    /// The style of matched characters
    pub fuzzy_match_highlight_style: StyleCodes,
    /// Whether the confirmed choice is echoed inline
    pub inline_selections: bool,
}

impl ColorfulTheme {
    /// How one label character is rendered: matched characters carry the
    /// match emphasis, characters of the active row its style, and a matched
    /// character of the active row both, emphasis innermost.
    pub open spec fn spec_styled_char(&self, c: char, matched: bool, active: bool) -> Seq<char> {
        if matched && active {
            self.active_item_style.spec_apply(self.fuzzy_match_highlight_style.spec_apply(seq![c]))
        } else if matched {
            self.fuzzy_match_highlight_style.spec_apply(seq![c])
        } else if active {
            self.active_item_style.spec_apply(seq![c])
        } else {
            seq![c]
        }
    }

    /// The label's characters from position `i` on, each rendered by
    /// `spec_styled_char`, matched exactly at the reported positions.
    pub open spec fn spec_highlighted(
        &self,
        text: Seq<char>,
        i: int,
        positions: Seq<usize>,
        active: bool,
    ) -> Seq<char>
        decreases text.len() - i,
    {
        if i < 0 || i >= text.len() {
            Seq::empty()
        } else {
            self.spec_styled_char(text[i], positions.contains(i as usize), active)
                + self.spec_highlighted(text, i + 1, positions, active)
        }
    }
}

impl Default for ColorfulTheme {
    /// The stock styled variant, with the colors fixed on: a yellow `?`
    /// prompt prefix and a bright `\u{203a}` suffix, bold prompt text, a green
    /// `\u{2714}` and a bright `\u{b7}` on success, a red `\u{2718}` on errors, cyan
    /// active rows behind a green `\u{276f}` marker, bold match emphasis, a
    /// black-on-white cursor, and inline echo of the confirmed choice.
    fn default() -> (r: ColorfulTheme)
        ensures
            r.prompt_style.start@ == "\u{1b}[1m"@ && r.prompt_style.end@ == "\u{1b}[0m"@,
            r.prompt_prefix@ == "\u{1b}[33m?\u{1b}[0m"@,
            r.prompt_suffix@ == "\u{1b}[90m\u{203a}\u{1b}[0m"@,
            r.success_prefix@ == "\u{1b}[32m\u{2714}\u{1b}[0m"@,
            r.success_suffix@ == "\u{1b}[90m\u{b7}\u{1b}[0m"@,
            r.error_prefix@ == "\u{1b}[31m\u{2718}\u{1b}[0m"@,
            r.error_style.start@ == "\u{1b}[31m"@ && r.error_style.end@ == "\u{1b}[0m"@,
            r.hint_style.start@ == "\u{1b}[90m"@ && r.hint_style.end@ == "\u{1b}[0m"@,
            r.values_style.start@ == "\u{1b}[32m"@ && r.values_style.end@ == "\u{1b}[0m"@,
            r.active_item_style.start@ == "\u{1b}[36m"@ && r.active_item_style.end@
                == "\u{1b}[0m"@,
            r.active_item_prefix@ == "\u{1b}[32m\u{276f}\u{1b}[0m"@,
            r.inactive_item_prefix@ == " "@,
            r.fuzzy_cursor_style.start@ == "\u{1b}[30m\u{1b}[47m"@ && r.fuzzy_cursor_style.end@
                == "\u{1b}[0m"@,
            r.fuzzy_match_highlight_style.start@ == "\u{1b}[1m"@
                && r.fuzzy_match_highlight_style.end@ == "\u{1b}[0m"@,
            r.inline_selections == true,
    {
        ColorfulTheme {
            prompt_style: StyleCodes::new(
                String::from_str("\u{1b}[1m"),
                String::from_str("\u{1b}[0m"),
            ),
            prompt_prefix: String::from_str("\u{1b}[33m?\u{1b}[0m"),
            prompt_suffix: String::from_str("\u{1b}[90m\u{203a}\u{1b}[0m"),
            success_prefix: String::from_str("\u{1b}[32m\u{2714}\u{1b}[0m"),
            success_suffix: String::from_str("\u{1b}[90m\u{b7}\u{1b}[0m"),
            error_prefix: String::from_str("\u{1b}[31m\u{2718}\u{1b}[0m"),
            error_style: StyleCodes::new(
                String::from_str("\u{1b}[31m"),
                String::from_str("\u{1b}[0m"),
            ),
            hint_style: StyleCodes::new(
                String::from_str("\u{1b}[90m"),
                String::from_str("\u{1b}[0m"),
            ),
            values_style: StyleCodes::new(
                String::from_str("\u{1b}[32m"),
                String::from_str("\u{1b}[0m"),
            ),
            active_item_style: StyleCodes::new(
                String::from_str("\u{1b}[36m"),
                String::from_str("\u{1b}[0m"),
            ),
            active_item_prefix: String::from_str("\u{1b}[32m\u{276f}\u{1b}[0m"),
            inactive_item_prefix: String::from_str(" "),
            fuzzy_cursor_style: StyleCodes::new(
                String::from_str("\u{1b}[30m\u{1b}[47m"),
                String::from_str("\u{1b}[0m"),
            ),
            fuzzy_match_highlight_style: StyleCodes::new(
                String::from_str("\u{1b}[1m"),
                String::from_str("\u{1b}[0m"),
            ),
            inline_selections: true,
        }
    }
}

fn contains_pos(positions: &Vec<usize>, x: usize) -> (r: bool)
    ensures
        r == positions@.contains(x),
{
    let mut k: usize = 0;
    while k < positions.len()
        invariant
            k <= positions@.len(),
            forall|a: int| 0 <= a < k ==> positions@[a] != x,
        decreases positions@.len() - k,
    {
        if positions[k] == x {
            return true;
        }
        k = k + 1;
    }
    false
}

impl Theme for ColorfulTheme {
    open spec fn spec_prompt(&self, prompt: Seq<char>) -> Seq<char> {
        (if prompt.len() == 0 {
            Seq::<char>::empty()
        } else {
            self.prompt_prefix@ + " "@ + self.prompt_style.spec_apply(prompt) + " "@
        }) + self.prompt_suffix@
    }

    open spec fn spec_error(&self, err: Seq<char>) -> Seq<char> {
        self.error_prefix@ + " "@ + self.error_style.spec_apply(err)
    }

    open spec fn spec_input_prompt(&self, prompt: Seq<char>, default: Option<Seq<char>>) -> Seq<
        char,
    > {
        (if prompt.len() == 0 {
            Seq::<char>::empty()
        } else {
            self.prompt_prefix@ + " "@ + self.prompt_style.spec_apply(prompt) + " "@
        }) + match default {
            Some(d) => self.hint_style.spec_apply("("@ + d + ")"@) + " "@ + self.prompt_suffix@
                + " "@,
            None => self.prompt_suffix@ + " "@,
        }
    }

    open spec fn spec_input_prompt_selection(&self, prompt: Seq<char>, sel: Seq<char>) -> Seq<
        char,
    > {
        (if prompt.len() == 0 {
            Seq::<char>::empty()
        } else {
            self.success_prefix@ + " "@ + self.prompt_style.spec_apply(prompt) + " "@
        }) + self.success_suffix@ + " "@ + self.values_style.spec_apply(sel)
    }

    open spec fn spec_fuzzy_prompt(&self, prompt: Seq<char>, term: Seq<char>, cursor: int) -> Seq<
        char,
    > {
        (if prompt.len() == 0 {
            Seq::<char>::empty()
        } else {
            self.prompt_prefix@ + " "@ + self.prompt_style.spec_apply(prompt) + " "@
        }) + self.prompt_suffix@ + " "@ + if cursor < term.len() {
            term.take(cursor) + self.fuzzy_cursor_style.spec_apply(seq![term[cursor]]) + term.skip(
                cursor + 1,
            )
        } else {
            term + self.fuzzy_cursor_style.spec_apply(" "@)
        }
    }

    open spec fn spec_fuzzy_item(
        &self,
        text: Seq<char>,
        active: bool,
        highlight: bool,
        positions: Seq<usize>,
    ) -> Seq<char> {
        (if active {
            self.active_item_prefix@
        } else {
            self.inactive_item_prefix@
        }) + " "@ + if highlight {
            self.spec_highlighted(text, 0, positions, active)
        } else {
            text
        }
    }

    fn format_prompt(&self, prompt: &str) -> (r: String) {
        let mut s = String::new();
        if !prompt.is_empty() {
            s.append(self.prompt_prefix.as_str());
            s.append(" ");
            self.prompt_style.append_styled(&mut s, prompt);
            s.append(" ");
        }
        s.append(self.prompt_suffix.as_str());
        proof {
            assert(s@ =~= self.spec_prompt(prompt@));
        }
        s
    }

    fn format_error(&self, err: &str) -> (r: String) {
        let mut s = String::new();
        s.append(self.error_prefix.as_str());
        s.append(" ");
        self.error_style.append_styled(&mut s, err);
        proof {
            assert(s@ =~= self.spec_error(err@));
        }
        s
    }

    fn format_input_prompt(&self, prompt: &str, default: Option<&str>) -> (r: String) {
        let mut s = String::new();
        if !prompt.is_empty() {
            s.append(self.prompt_prefix.as_str());
            s.append(" ");
            self.prompt_style.append_styled(&mut s, prompt);
            s.append(" ");
        }
        match default {
            Some(d) => {
                s.append(self.hint_style.start.as_str());
                s.append("(");
                s.append(d);
                s.append(")");
                s.append(self.hint_style.end.as_str());
                s.append(" ");
                s.append(self.prompt_suffix.as_str());
                s.append(" ");
            },
            None => {
                s.append(self.prompt_suffix.as_str());
                s.append(" ");
            },
        }
        proof {
            assert(s@ =~= self.spec_input_prompt(prompt@, opt_str_view(default)));
        }
        s
    }

    fn format_input_prompt_selection(&self, prompt: &str, sel: &str) -> (r: String) {
        let mut s = String::new();
        if !prompt.is_empty() {
            s.append(self.success_prefix.as_str());
            s.append(" ");
            self.prompt_style.append_styled(&mut s, prompt);
            s.append(" ");
        }
        s.append(self.success_suffix.as_str());
        s.append(" ");
        self.values_style.append_styled(&mut s, sel);
        proof {
            assert(s@ =~= self.spec_input_prompt_selection(prompt@, sel@));
        }
        s
    }

    fn format_fuzzy_select_prompt(&self, prompt: &str, search_term: &str, cursor_pos: usize) -> (r:
        String) {
        let mut s = String::new();
        if !prompt.is_empty() {
            s.append(self.prompt_prefix.as_str());
            s.append(" ");
            self.prompt_style.append_styled(&mut s, prompt);
            s.append(" ");
        }
        s.append(self.prompt_suffix.as_str());
        s.append(" ");
        let n = search_term.unicode_len();
        if cursor_pos < n {
            s.append(search_term.substring_char(0, cursor_pos));
            self.fuzzy_cursor_style.append_styled_char(&mut s, search_term.get_char(cursor_pos));
            s.append(search_term.substring_char(cursor_pos + 1, n));
            proof {
                assert(search_term@.subrange(0, cursor_pos as int) =~= search_term@.take(
                    cursor_pos as int,
                ));
                assert(search_term@.subrange(cursor_pos + 1, n as int) =~= search_term@.skip(
                    cursor_pos + 1,
                ));
            }
        } else {
            s.append(search_term);
            self.fuzzy_cursor_style.append_styled(&mut s, " ");
        }
        proof {
            assert(s@ =~= self.spec_fuzzy_prompt(prompt@, search_term@, cursor_pos as int));
        }
        s
    }

    fn format_fuzzy_select_prompt_item(
        &self,
        text: &str,
        active: bool,
        highlight_matches: bool,
        positions: &Vec<usize>,
    ) -> (r: String) {
        let mut s = String::new();
        if active {
            s.append(self.active_item_prefix.as_str());
        } else {
            s.append(self.inactive_item_prefix.as_str());
        }
        s.append(" ");
        let ghost head = s@;
        if highlight_matches {
            let n = text.unicode_len();
            let mut i: usize = 0;
            while i < n
                invariant
                    i <= n,
                    n == text@.len(),
                    s@ + self.spec_highlighted(text@, i as int, positions@, active) == head
                        + self.spec_highlighted(text@, 0, positions@, active),
                decreases n - i,
            {
                let c = text.get_char(i);
                let matched = contains_pos(positions, i);
                let ghost prev = s@;
                if matched && active {
                    s.append(self.active_item_style.start.as_str());
                    s.append(self.fuzzy_match_highlight_style.start.as_str());
                    push_char(&mut s, c);
                    s.append(self.fuzzy_match_highlight_style.end.as_str());
                    s.append(self.active_item_style.end.as_str());
                } else if matched {
                    s.append(self.fuzzy_match_highlight_style.start.as_str());
                    push_char(&mut s, c);
                    s.append(self.fuzzy_match_highlight_style.end.as_str());
                } else if active {
                    s.append(self.active_item_style.start.as_str());
                    push_char(&mut s, c);
                    s.append(self.active_item_style.end.as_str());
                } else {
                    push_char(&mut s, c);
                }
                proof {
                    assert(s@ =~= prev + self.spec_styled_char(c, matched, active));
                    assert(prev + self.spec_styled_char(c, matched, active)
                        + self.spec_highlighted(text@, i + 1, positions@, active) =~= prev
                        + self.spec_highlighted(text@, i as int, positions@, active));
                }
                i = i + 1;
            }
            proof {
                assert(s@ + self.spec_highlighted(text@, n as int, positions@, active) =~= s@);
            }
        } else {
            s.append(text);
        }
        proof {
            assert(s@ =~= self.spec_fuzzy_item(text@, active, highlight_matches, positions@));
        }
        s
    }
}

} // verus!
