use vstd::prelude::*;
use crate::theme::{push_char, Theme};

verus! {

/// Decimal digits and numbers, as text.
pub open spec fn spec_digit(d: int) -> char {
    if d == 0 {
        '0'
    } else if d == 1 {
        '1'
    } else if d == 2 {
        '2'
    } else if d == 3 {
        '3'
    } else if d == 4 {
        '4'
    } else if d == 5 {
        '5'
    } else if d == 6 {
        '6'
    } else if d == 7 {
        '7'
    } else if d == 8 {
        '8'
    } else {
        '9'
    }
}

pub open spec fn spec_decimal(n: int) -> Seq<char>
    decreases n,
{
    if n < 10 {
        seq![spec_digit(n)]
    } else {
        spec_decimal(n / 10).push(spec_digit(n % 10))
    }
}

fn digit_char(d: usize) -> (r: char)
    requires
        d < 10,
    ensures
        r == spec_digit(d as int),
{
    if d == 0 {
        '0'
    } else if d == 1 {
        '1'
    } else if d == 2 {
        '2'
    } else if d == 3 {
        '3'
    } else if d == 4 {
        '4'
    } else if d == 5 {
        '5'
    } else if d == 6 {
        '6'
    } else if d == 7 {
        '7'
    } else if d == 8 {
        '8'
    } else {
        '9'
    }
}

/// Renders a number in decimal.
pub fn usize_to_string(n: usize) -> (r: String)
    ensures
        r@ == spec_decimal(n as int),
    decreases n,
{
    if n < 10 {
        let mut s = String::new();
        push_char(&mut s, digit_char(n));
        proof {
            assert(Seq::<char>::empty().push(spec_digit(n as int)) =~= seq![
                spec_digit(n as int),
            ]);
        }
        s
    } else {
        let mut s = usize_to_string(n / 10);
        push_char(&mut s, digit_char(n % 10));
        s
    }
}

/// How many newline characters a formatted fragment holds; each one makes the
/// fragment occupy one more terminal row.
pub open spec fn spec_newlines(s: Seq<char>) -> int
    decreases s.len(),
{
    if s.len() == 0 {
        0
    } else {
        spec_newlines(s.drop_last()) + if s.last() == '\n' {
            1int
        } else {
            0int
        }
    }
}

proof fn lemma_newlines_nonneg(s: Seq<char>)
    ensures
        0 <= spec_newlines(s) <= s.len(),
    decreases s.len(),
{
    if s.len() > 0 {
        lemma_newlines_nonneg(s.drop_last());
    }
}

fn newline_count(s: &String) -> (r: usize)
    ensures
        r as int == spec_newlines(s@),
{
    let n = s.as_str().unicode_len();
    let mut r: usize = 0;
    let mut i: usize = 0;
    while i < n
        invariant
            i <= n,
            n == s@.len(),
            r as int == spec_newlines(s@.take(i as int)),
            r <= i,
        decreases n - i,
    {
        proof {
            assert(s@.take(i + 1).drop_last() =~= s@.take(i as int));
            lemma_newlines_nonneg(s@.take(i as int));
        }
        if s.as_str().get_char(i) == '\n' {
            r = r + 1;
        }
        i = i + 1;
    }
    proof {
        assert(s@.take(n as int) =~= s@);
    }
    r
}

/// Addition that stops at the largest representable count instead of
/// wrapping; frame heights can never wrap around.
pub open spec fn spec_sat_add(a: int, b: int) -> int {
    if a + b <= usize::MAX {
        a + b
    } else {
        usize::MAX as int
    }
}

fn sat_add(a: usize, b: usize) -> (r: usize)
    ensures
        r as int == spec_sat_add(a as int, b as int),
{
    if a <= usize::MAX - b {
        a + b
    } else {
        usize::MAX
    }
}

/// The extra terminal rows one label of `size` characters occupies beyond its
/// own row, when the marker takes two columns and the terminal is `width`
/// columns wide: wrapped labels cover `ceil((size + 2) / width)` rows in all.
pub open spec fn spec_wrap_extra(size: int, width: int) -> int {
    if size > width {
        (size + 2 + (width - 1)) / width - 1
    } else {
        0
    }
}

/// The extra rows of a whole frame's labels.
pub open spec fn spec_extra_rows(sizes: Seq<usize>, width: int) -> int
    decreases sizes.len(),
{
    if sizes.len() == 0 {
        0
    } else {
        spec_extra_rows(sizes.drop_last(), width) + spec_wrap_extra(sizes.last() as int, width)
    }
}

proof fn lemma_mod_succ_div(x: int, d: int)
    requires
        d >= 1,
        x >= 0,
    ensures
        (x + 1) / d == x / d + if x % d == d - 1 {
            1int
        } else {
            0int
        },
{
    vstd::arithmetic::div_mod::lemma_fundamental_div_mod(x, d);
    vstd::arithmetic::div_mod::lemma_mod_bound(x, d);
    let q = x / d;
    assert((q + 1) * d == d * q + d) by (nonlinear_arith);
    assert(q * d == d * q) by (nonlinear_arith);
    if x % d == d - 1 {
        vstd::arithmetic::div_mod::lemma_fundamental_div_mod_converse(x + 1, d, q + 1, 0);
    } else {
        vstd::arithmetic::div_mod::lemma_fundamental_div_mod_converse(x + 1, d, q, x % d + 1);
    }
}

proof fn lemma_extra_rows_nonneg(sizes: Seq<usize>, width: int)
    requires
        width >= 1,
    ensures
        spec_extra_rows(sizes, width) >= 0,
    decreases sizes.len(),
{
    if sizes.len() > 0 {
        lemma_extra_rows_nonneg(sizes.drop_last(), width);
        let s = sizes.last() as int;
        if s > width {
            vstd::arithmetic::div_mod::lemma_div_pos_is_pos(s + 2 + (width - 1), width);
            assert((s + 2 + (width - 1)) / width >= 1) by {
                vstd::arithmetic::div_mod::lemma_div_is_ordered(width, s + 2 + (width - 1), width);
                vstd::arithmetic::div_mod::lemma_div_by_self(width);
            }
        }
    }
}

/// Tracks, while one frame is written, how many terminal rows it occupies:
/// `prompt_height` covers the prompt line, `height` the body rows under it.
/// The erase counts it hands out make the next frame remove exactly what the
/// previous one drew. The renderer produces each line's text; the embedding
/// application writes it to the terminal.
pub struct TermThemeRenderer<'a, T: Theme> {
    pub theme: &'a T,
    pub height: usize,
    pub prompt_height: usize,
    pub prompts_reset_height: bool,
}

impl<'a, T: Theme> TermThemeRenderer<'a, T> {
    pub fn new(theme: &'a T) -> (r: Self)
        ensures
            r.theme == theme,
            r.height == 0,
            r.prompt_height == 0,
            r.prompts_reset_height == true,
    {
        TermThemeRenderer { theme, height: 0, prompt_height: 0, prompts_reset_height: true }
    }

    /// Accounts for one body row written outside the renderer.
    pub fn add_line(&mut self)
        ensures
            final(self).height as int == spec_sat_add(old(self).height as int, 1),
            *final(self) == (TermThemeRenderer { height: final(self).height, ..*old(self) }),
    {
        self.height = sat_add(self.height, 1);
    }

    /// Counts a body line of text: the line itself plus any newlines inside
    /// it.
    fn count_line(&mut self, line: &String)
        ensures
            final(self).height as int == spec_sat_add(
                old(self).height as int,
                spec_newlines(line@) + 1,
            ),
            *final(self) == (TermThemeRenderer { height: final(self).height, ..*old(self) }),
    {
        let n = newline_count(line);
        proof {
            lemma_newlines_nonneg(line@);
        }
        let bump = sat_add(n, 1);
        self.height = sat_add(self.height, bump);
        proof {
            assert(spec_sat_add(
                old(self).height as int,
                spec_sat_add(spec_newlines(line@), 1),
            ) == spec_sat_add(old(self).height as int, spec_newlines(line@) + 1));
        }
    }

    /// Counts a prompt line: the rows move into `prompt_height` and the body
    /// count restarts.
    fn count_prompt(&mut self, line: &String)
        ensures
            *final(self) == (TermThemeRenderer {
                height: final(self).height,
                prompt_height: final(self).prompt_height,
                ..*old(self)
            }),
            old(self).prompts_reset_height ==> final(self).prompt_height as int == spec_sat_add(
                old(self).height as int,
                spec_newlines(line@) + 1,
            ) && final(self).height == 0,
            !old(self).prompts_reset_height ==> final(self).prompt_height == old(
                self,
            ).prompt_height && final(self).height as int == spec_sat_add(
                old(self).height as int,
                spec_newlines(line@) + 1,
            ),
    {
        self.count_line(line);
        if self.prompts_reset_height {
            self.prompt_height = self.height;
            self.height = 0;
        }
    }

    /// Formats an error line and accounts for its rows.
    pub fn error(&mut self, err: &str) -> (r: String)
        ensures
            r@ == old(self).theme.spec_error(err@),
            final(self).height as int == spec_sat_add(
                old(self).height as int,
                spec_newlines(r@) + 1,
            ),
            *final(self) == (TermThemeRenderer { height: final(self).height, ..*old(self) }),
    {
        let line = self.theme.format_error(err);
        self.count_line(&line);
        line
    }

    /// The page indicator shown before the query line.
    pub open spec fn spec_paging_info(page: int, pages: int) -> Seq<char> {
        " [Page "@ + spec_decimal(page) + "/"@ + spec_decimal(pages) + "] "@
    }

    fn write_paging_info(buf: &mut String, paging_info: (usize, usize))
        ensures
            final(buf)@ == old(buf)@ + Self::spec_paging_info(
                paging_info.0 as int,
                paging_info.1 as int,
            ),
    {
        buf.append(" [Page ");
        let p = usize_to_string(paging_info.0);
        buf.append(p.as_str());
        buf.append("/");
        let q = usize_to_string(paging_info.1);
        buf.append(q.as_str());
        buf.append("] ");
        proof {
            assert(final(buf)@ =~= old(buf)@ + Self::spec_paging_info(
                paging_info.0 as int,
                paging_info.1 as int,
            ));
        }
    }

    /// The query line of one frame: the page indicator when paging is active,
    /// then the themed prompt, query and cursor. Its rows land in
    /// `prompt_height`; the body count restarts.
    pub fn fuzzy_select_prompt(
        &mut self,
        prompt: &str,
        search_term: &str,
        cursor_pos: usize,
        paging_info: Option<(usize, usize)>,
    ) -> (r: String)
        requires
            cursor_pos <= search_term@.len(),
        ensures
            r@ == (match paging_info {
                Some(info) => Self::spec_paging_info(info.0 as int, info.1 as int),
                None => Seq::<char>::empty(),
            }) + old(self).theme.spec_fuzzy_prompt(prompt@, search_term@, cursor_pos as int),
            *final(self) == (TermThemeRenderer {
                height: final(self).height,
                prompt_height: final(self).prompt_height,
                ..*old(self)
            }),
            old(self).prompts_reset_height ==> final(self).prompt_height as int == spec_sat_add(
                old(self).height as int,
                spec_newlines(r@) + 1,
            ) && final(self).height == 0,
    {
        let mut buf = String::new();
        match paging_info {
            Some(info) => {
                Self::write_paging_info(&mut buf, info);
            },
            None => {},
        }
        let body = self.theme.format_fuzzy_select_prompt(prompt, search_term, cursor_pos);
        buf.append(body.as_str());
        proof {
            assert(buf@ =~= (match paging_info {
                Some(info) => Self::spec_paging_info(info.0 as int, info.1 as int),
                None => Seq::<char>::empty(),
            }) + self.theme.spec_fuzzy_prompt(prompt@, search_term@, cursor_pos as int));
        }
        self.count_prompt(&buf);
        buf
    }

    /// An input prompt; the fragment stays on the current row, so only its
    /// own newlines count.
    pub fn input_prompt(&mut self, prompt: &str, default: Option<&str>) -> (r: String)
        ensures
            r@ == old(self).theme.spec_input_prompt(prompt@, crate::theme::opt_str_view(default)),
            final(self).height as int == spec_sat_add(
                old(self).height as int,
                spec_newlines(r@),
            ),
            *final(self) == (TermThemeRenderer { height: final(self).height, ..*old(self) }),
    {
        let line = self.theme.format_input_prompt(prompt, default);
        let n = newline_count(&line);
        self.height = sat_add(self.height, n);
        line
    }

    /// The confirmation line echoed after a commit.
    pub fn input_prompt_selection(&mut self, prompt: &str, sel: &str) -> (r: String)
        ensures
            r@ == old(self).theme.spec_input_prompt_selection(prompt@, sel@),
            *final(self) == (TermThemeRenderer {
                height: final(self).height,
                prompt_height: final(self).prompt_height,
                ..*old(self)
            }),
    {
        let line = self.theme.format_input_prompt_selection(prompt, sel);
        self.count_prompt(&line);
        line
    }

    /// One candidate row of the frame.
    pub fn fuzzy_select_prompt_item(
        &mut self,
        text: &str,
        active: bool,
        highlight: bool,
        positions: &Vec<usize>,
    ) -> (r: String)
        ensures
            r@ == old(self).theme.spec_fuzzy_item(text@, active, highlight, positions@),
            final(self).height as int == spec_sat_add(
                old(self).height as int,
                spec_newlines(r@) + 1,
            ),
            *final(self) == (TermThemeRenderer { height: final(self).height, ..*old(self) }),
    {
        let line = self.theme.format_fuzzy_select_prompt_item(text, active, highlight, positions);
        self.count_line(&line);
        line
    }

    /// How many rows the previous frame occupied in all; erasing exactly that
    /// many removes it without touching older output. Both counters restart.
    pub fn clear(&mut self) -> (rows: usize)
        ensures
            rows as int == spec_sat_add(old(self).height as int, old(self).prompt_height as int),
            final(self).height == 0,
            final(self).prompt_height == 0,
            *final(self) == (TermThemeRenderer { height: 0, prompt_height: 0, ..*old(self) }),
    {
        let rows = sat_add(self.height, self.prompt_height);
        self.height = 0;
        self.prompt_height = 0;
        rows
    }

    /// How many rows the previous frame's body occupied, counting the extra
    /// rows that overlong labels wrapped onto, while the prompt line stays on
    /// screen. The body count restarts.
    pub fn clear_preserve_prompt(&mut self, size_vec: &Vec<usize>, term_width: usize) -> (rows:
        usize)
        requires
            term_width >= 1,
        ensures
            rows as int == spec_sat_add(
                old(self).height as int,
                spec_extra_rows(size_vec@, term_width as int),
            ),
            final(self).height == 0,
            *final(self) == (TermThemeRenderer { height: 0, ..*old(self) }),
    {
        let mut rows = self.height;
        let mut i: usize = 0;
        while i < size_vec.len()
            invariant
                i <= size_vec@.len(),
                term_width >= 1,
                rows as int == spec_sat_add(
                    old(self).height as int,
                    spec_extra_rows(size_vec@.take(i as int), term_width as int),
                ),
                self == old(self),
            decreases size_vec@.len() - i,
        {
            let size = size_vec[i];
            proof {
                assert(size_vec@.take(i + 1).drop_last() =~= size_vec@.take(i as int));
                lemma_extra_rows_nonneg(size_vec@.take(i as int), term_width as int);
                lemma_extra_rows_nonneg(size_vec@.take(i + 1), term_width as int);
            }
            if size > term_width {
                // ceil((size + 2) / width) - 1 rows past the label's own row;
                // with size > width that is (size + 1) / width, capped at the
                // largest count
                let ghost w = term_width as int;
                let ghost y = size as int + 1;
                let ghost extra = spec_wrap_extra(size as int, w);
                proof {
                    vstd::arithmetic::div_mod::lemma_div_plus_one(y, w);
                    assert(size as int + 2 + (w - 1) == w + y);
                    assert(extra == y / w);
                    vstd::arithmetic::div_mod::lemma_div_pos_is_pos(y, w);
                }
                let spill: usize = if size < usize::MAX {
                    proof {
                        vstd::arithmetic::div_mod::lemma_div_is_ordered(y, usize::MAX as int, w);
                        vstd::arithmetic::div_mod::lemma_div_nonincreasing(usize::MAX as int, w);
                    }
                    (size + 1) / term_width
                } else {
                    let q = size / term_width;
                    let r = size % term_width;
                    proof {
                        lemma_mod_succ_div(size as int, w);
                        vstd::arithmetic::div_mod::lemma_div_nonincreasing(size as int, w);
                    }
                    if r == term_width - 1 {
                        if q < usize::MAX {
                            q + 1
                        } else {
                            usize::MAX
                        }
                    } else {
                        q
                    }
                };
                proof {
                    assert(spill as int == extra || (spill == usize::MAX && extra > usize::MAX));
                    assert(spec_sat_add(rows as int, spill as int) == spec_sat_add(
                        spec_sat_add(
                            old(self).height as int,
                            spec_extra_rows(size_vec@.take(i as int), w),
                        ),
                        extra,
                    ));
                    assert(spec_sat_add(
                        spec_sat_add(
                            old(self).height as int,
                            spec_extra_rows(size_vec@.take(i as int), w),
                        ),
                        extra,
                    ) == spec_sat_add(
                        old(self).height as int,
                        spec_extra_rows(size_vec@.take(i as int), w) + extra,
                    ));
                }
                rows = sat_add(rows, spill);
            }
            i = i + 1;
        }
        proof {
            assert(size_vec@.take(size_vec@.len() as int) =~= size_vec@);
        }
        self.height = 0;
        rows
    }
}

} // verus!
