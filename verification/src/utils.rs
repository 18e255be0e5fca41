use vstd::prelude::*;
use crate::theme::push_char;

verus! {

// ---------------------------------------------------------------------------
// Quoted spans.
//
// A quoted span opens with a typographic or straight double quote, written
// directly or as an HTML entity, holds at least one character, stays on one
// line, and closes at the nearest closing quote. Italicizing wraps the whole
// span, quotes included, in ` _..._ `.
// ---------------------------------------------------------------------------

pub open spec fn spec_entity_quot(s: Seq<char>, i: int) -> bool {
    &&& i >= 0
    &&& i + 6 <= s.len()
    &&& s[i] == '&'
    &&& s[i + 1] == 'q'
    &&& s[i + 2] == 'u'
    &&& s[i + 3] == 'o'
    &&& s[i + 4] == 't'
    &&& s[i + 5] == ';'
}

pub open spec fn spec_entity_ldquo(s: Seq<char>, i: int) -> bool {
    &&& i >= 0
    &&& i + 7 <= s.len()
    &&& s[i] == '&'
    &&& s[i + 1] == 'l'
    &&& s[i + 2] == 'd'
    &&& s[i + 3] == 'q'
    &&& s[i + 4] == 'u'
    &&& s[i + 5] == 'o'
    &&& s[i + 6] == ';'
}

pub open spec fn spec_entity_rdquo(s: Seq<char>, i: int) -> bool {
    &&& i >= 0
    &&& i + 7 <= s.len()
    &&& s[i] == '&'
    &&& s[i + 1] == 'r'
    &&& s[i + 2] == 'd'
    &&& s[i + 3] == 'q'
    &&& s[i + 4] == 'u'
    &&& s[i + 5] == 'o'
    &&& s[i + 6] == ';'
}

/// The opening quote token at `i`, and its length.
pub open spec fn spec_open_quote(s: Seq<char>, i: int) -> Option<int> {
    if 0 <= i < s.len() && s[i] == '\u{201c}' {
        Some(1int)
    } else if 0 <= i < s.len() && s[i] == '"' {
        Some(1int)
    } else if spec_entity_quot(s, i) {
        Some(6int)
    } else if spec_entity_ldquo(s, i) {
        Some(7int)
    } else {
        None
    }
}

/// The closing quote token at `i`, and its length.
pub open spec fn spec_close_quote(s: Seq<char>, i: int) -> Option<int> {
    if 0 <= i < s.len() && s[i] == '\u{201d}' {
        Some(1int)
    } else if 0 <= i < s.len() && s[i] == '"' {
        Some(1int)
    } else if spec_entity_quot(s, i) {
        Some(6int)
    } else if spec_entity_rdquo(s, i) {
        Some(7int)
    } else {
        None
    }
}

/// The nearest position at or after `p` where a closing quote stands, with no
/// line break on the way; the span's inner text grows one character at a
/// time, so the first closing quote wins.
pub open spec fn spec_find_close(s: Seq<char>, p: int) -> Option<int>
    decreases s.len() - p,
{
    if p < 0 || p >= s.len() {
        None
    } else if spec_close_quote(s, p) is Some {
        Some(p)
    } else if s[p] == '\n' {
        None
    } else {
        spec_find_close(s, p + 1)
    }
}

/// Whether a whole quoted span starts at `i`; when it does, the position just
/// past its closing quote.
pub open spec fn spec_quote_match(s: Seq<char>, i: int) -> Option<int> {
    match spec_open_quote(s, i) {
        None => None,
        Some(ol) => if i + ol < s.len() && s[i + ol] != '\n' {
            match spec_find_close(s, i + ol + 1) {
                None => None,
                Some(p) => {
                    let e = p + spec_close_quote(s, p).unwrap();
                    if i < e <= s.len() {
                        Some(e)
                    } else {
                        None
                    }
                },
            }
        } else {
            None
        },
    }
}

/// The text from `i` on, with every quoted span set off as ` _span_ `.
pub open spec fn spec_italicize_from(s: Seq<char>, i: int) -> Seq<char>
    decreases s.len() - i,
{
    if i < 0 || i >= s.len() {
        Seq::empty()
    } else {
        match spec_quote_match(s, i) {
            Some(e) => " _"@ + s.subrange(i, e) + "_ "@ + spec_italicize_from(s, e),
            None => seq![s[i]] + spec_italicize_from(s, i + 1),
        }
    }
}

/// The text with every quoted span emphasised.
pub open spec fn spec_italicize(s: Seq<char>) -> Seq<char> {
    spec_italicize_from(s, 0)
}

fn open_quote_at(s: &str, i: usize, n: usize) -> (r: Option<usize>)
    requires
        n == s@.len(),
        i < n,
    ensures
        r matches Some(l) ==> spec_open_quote(s@, i as int) == Some(l as int),
        r is None ==> spec_open_quote(s@, i as int) is None,
{
    let c = s.get_char(i);
    if c == '\u{201c}' || c == '"' {
        Some(1)
    } else if c == '&' && n - i >= 6 && s.get_char(i + 1) == 'q' && s.get_char(i + 2) == 'u'
        && s.get_char(i + 3) == 'o' && s.get_char(i + 4) == 't' && s.get_char(i + 5) == ';' {
        Some(6)
    } else if c == '&' && n - i >= 7 && s.get_char(i + 1) == 'l' && s.get_char(i + 2) == 'd'
        && s.get_char(i + 3) == 'q' && s.get_char(i + 4) == 'u' && s.get_char(i + 5) == 'o'
        && s.get_char(i + 6) == ';' {
        Some(7)
    } else {
        None
    }
}

fn close_quote_at(s: &str, i: usize, n: usize) -> (r: Option<usize>)
    requires
        n == s@.len(),
        i < n,
    ensures
        r matches Some(l) ==> spec_close_quote(s@, i as int) == Some(l as int),
        r is None ==> spec_close_quote(s@, i as int) is None,
{
    let c = s.get_char(i);
    if c == '\u{201d}' || c == '"' {
        Some(1)
    } else if c == '&' && n - i >= 6 && s.get_char(i + 1) == 'q' && s.get_char(i + 2) == 'u'
        && s.get_char(i + 3) == 'o' && s.get_char(i + 4) == 't' && s.get_char(i + 5) == ';' {
        Some(6)
    } else if c == '&' && n - i >= 7 && s.get_char(i + 1) == 'r' && s.get_char(i + 2) == 'd'
        && s.get_char(i + 3) == 'q' && s.get_char(i + 4) == 'u' && s.get_char(i + 5) == 'o'
        && s.get_char(i + 6) == ';' {
        Some(7)
    } else {
        None
    }
}

fn quote_match_at(s: &str, i: usize, n: usize) -> (r: Option<usize>)
    requires
        n == s@.len(),
        i < n,
    ensures
        r matches Some(e) ==> spec_quote_match(s@, i as int) == Some(e as int) && i < e <= n,
        r is None ==> spec_quote_match(s@, i as int) is None,
{
    let ol = match open_quote_at(s, i, n) {
        Some(l) => l,
        None => {
            return None;
        },
    };
    if n - i <= ol {
        return None;
    }
    if s.get_char(i + ol) == '\n' {
        return None;
    }
    let mut p = i + ol + 1;
    while p < n
        invariant
            i + ol + 1 <= p <= n,
            n == s@.len(),
            i < n,
            spec_open_quote(s@, i as int) == Some(ol as int),
            i + ol < n,
            s@[i + ol] != '\n',
            spec_find_close(s@, i + ol + 1) == spec_find_close(s@, p as int),
        decreases n - p,
    {
        match close_quote_at(s, p, n) {
            Some(cl) => {
                proof {
                    assert(spec_find_close(s@, p as int) == Some(p as int));
                    assert(spec_quote_match(s@, i as int) == Some(p + cl));
                }
                return Some(p + cl);
            },
            None => {
                if s.get_char(p) == '\n' {
                    proof {
                        assert(spec_find_close(s@, p as int) is None);
                        assert(spec_quote_match(s@, i as int) is None);
                    }
                    return None;
                }
            },
        }
        p = p + 1;
    }
    proof {
        assert(spec_find_close(s@, n as int) is None);
    }
    None
}

/// Sets every quoted span of the text off in underscores, so a paginated
/// markdown viewer shows it emphasised: `he said "so"` becomes
/// `he said  _"so"_ `.
pub fn italicize(text: &String) -> (r: String)
    ensures
        r@ == spec_italicize(text@),
{
    let s = text.as_str();
    let n = s.unicode_len();
    let mut out = String::new();
    let mut i: usize = 0;
    while i < n
        invariant
            i <= n,
            n == s@.len(),
            s@ == text@,
            out@ + spec_italicize_from(s@, i as int) == spec_italicize(s@),
        decreases n - i,
    {
        let ghost pre = out@;
        match quote_match_at(s, i, n) {
            Some(e) => {
                out.append(" _");
                out.append(s.substring_char(i, e));
                out.append("_ ");
                proof {
                    let sub = s@.subrange(i as int, e as int);
                    let rest = spec_italicize_from(s@, e as int);
                    assert(spec_italicize_from(s@, i as int) == " _"@ + sub + "_ "@ + rest);
                    assert(out@ =~= pre + " _"@ + sub + "_ "@);
                    assert(pre + (" _"@ + sub + "_ "@ + rest) =~= (pre + " _"@ + sub + "_ "@)
                        + rest);
                    assert(pre + spec_italicize_from(s@, i as int) =~= pre + (" _"@ + sub + "_ "@
                        + rest));
                }
                i = e;
            },
            None => {
                push_char(&mut out, s.get_char(i));
                proof {
                    let rest = spec_italicize_from(s@, i + 1);
                    assert(spec_italicize_from(s@, i as int) == seq![s@[i as int]] + rest);
                    assert(pre + (seq![s@[i as int]] + rest) =~= pre.push(s@[i as int]) + rest);
                }
                i = i + 1;
            },
        }
    }
    proof {
        assert(out@ + spec_italicize_from(s@, n as int) =~= out@);
    }
    out
}

// ---------------------------------------------------------------------------
// Line-break normalization.
// ---------------------------------------------------------------------------

pub open spec fn spec_br_at(s: Seq<char>, i: int) -> bool {
    &&& i >= 0
    &&& i + 4 <= s.len()
    &&& s[i] == '<'
    &&& s[i + 1] == 'b'
    &&& s[i + 2] == 'r'
    &&& s[i + 3] == '>'
}

/// The text from `i` on, with every break tag turned into a newline.
pub open spec fn spec_normalize_breaks_from(s: Seq<char>, i: int) -> Seq<char>
    decreases s.len() - i,
{
    if i < 0 || i >= s.len() {
        Seq::empty()
    } else if spec_br_at(s, i) {
        seq!['\n'] + spec_normalize_breaks_from(s, i + 4)
    } else {
        seq![s[i]] + spec_normalize_breaks_from(s, i + 1)
    }
}

pub open spec fn spec_normalize_breaks(s: Seq<char>) -> Seq<char> {
    spec_normalize_breaks_from(s, 0)
}

/// Turns every `<br>` tag into a newline.
pub fn normalize_breaks(text: &String) -> (r: String)
    ensures
        r@ == spec_normalize_breaks(text@),
{
    let s = text.as_str();
    let n = s.unicode_len();
    let mut out = String::new();
    let mut i: usize = 0;
    while i < n
        invariant
            i <= n,
            n == s@.len(),
            s@ == text@,
            out@ + spec_normalize_breaks_from(s@, i as int) == spec_normalize_breaks(s@),
        decreases n - i,
    {
        if n - i >= 4 && s.get_char(i) == '<' && s.get_char(i + 1) == 'b' && s.get_char(i + 2)
            == 'r' && s.get_char(i + 3) == '>' {
            push_char(&mut out, '\n');
            proof {
                assert(out@.push('\n') =~= out@ + seq!['\n']);
            }
            i = i + 4;
        } else {
            push_char(&mut out, s.get_char(i));
            proof {
                assert(out@.push(s@[i as int]) =~= out@ + seq![s@[i as int]]);
            }
            i = i + 1;
        }
    }
    proof {
        assert(out@ + spec_normalize_breaks_from(s@, n as int) =~= out@);
    }
    out
}

// ---------------------------------------------------------------------------
// Paragraph extraction.
//
// A paragraph is the inner text of a `<p>...</p>` block that stays on one
// line and holds at least one character; extraction lists every paragraph,
// each followed by a newline, and drops everything between them.
// ---------------------------------------------------------------------------

pub open spec fn spec_p_open(s: Seq<char>, i: int) -> bool {
    &&& i >= 0
    &&& i + 3 <= s.len()
    &&& s[i] == '<'
    &&& s[i + 1] == 'p'
    &&& s[i + 2] == '>'
}

pub open spec fn spec_p_close(s: Seq<char>, i: int) -> bool {
    &&& i >= 0
    &&& i + 4 <= s.len()
    &&& s[i] == '<'
    &&& s[i + 1] == '/'
    &&& s[i + 2] == 'p'
    &&& s[i + 3] == '>'
}

/// The nearest position at or after `p` where `</p>` stands, with no line
/// break on the way.
pub open spec fn spec_find_p_close(s: Seq<char>, p: int) -> Option<int>
    decreases s.len() - p,
{
    if p < 0 || p >= s.len() {
        None
    } else if spec_p_close(s, p) {
        Some(p)
    } else if s[p] == '\n' {
        None
    } else {
        spec_find_p_close(s, p + 1)
    }
}

/// Whether a paragraph starts at `i`; when it does, where its closing tag
/// stands.
pub open spec fn spec_p_match(s: Seq<char>, i: int) -> Option<int> {
    if spec_p_open(s, i) && i + 3 < s.len() && s[i + 3] != '\n' {
        match spec_find_p_close(s, i + 4) {
            None => None,
            Some(p) => if i < p && p + 4 <= s.len() {
                Some(p)
            } else {
                None
            },
        }
    } else {
        None
    }
}

/// Every paragraph from `i` on, each followed by a newline.
pub open spec fn spec_paragraphs_from(s: Seq<char>, i: int) -> Seq<char>
    decreases s.len() - i,
{
    if i < 0 || i >= s.len() {
        Seq::empty()
    } else {
        match spec_p_match(s, i) {
            Some(p) => s.subrange(i + 3, p) + seq!['\n'] + spec_paragraphs_from(s, p + 4),
            None => spec_paragraphs_from(s, i + 1),
        }
    }
}

pub open spec fn spec_paragraphs(s: Seq<char>) -> Seq<char> {
    spec_paragraphs_from(s, 0)
}

fn p_match_at(s: &str, i: usize, n: usize) -> (r: Option<usize>)
    requires
        n == s@.len(),
        i < n,
    ensures
        r matches Some(p) ==> spec_p_match(s@, i as int) == Some(p as int) && i + 4 <= p && p + 4 <= n,
        r is None ==> spec_p_match(s@, i as int) is None,
{
    if !(n - i >= 3 && s.get_char(i) == '<' && s.get_char(i + 1) == 'p' && s.get_char(i + 2)
        == '>') {
        return None;
    }
    if n - i <= 3 {
        return None;
    }
    if s.get_char(i + 3) == '\n' {
        return None;
    }
    let mut p = i + 4;
    while p < n
        invariant
            i + 4 <= p <= n,
            n == s@.len(),
            i < n,
            spec_p_open(s@, i as int),
            i + 3 < n,
            s@[i + 3] != '\n',
            spec_find_p_close(s@, i + 4) == spec_find_p_close(s@, p as int),
        decreases n - p,
    {
        if n - p >= 4 && s.get_char(p) == '<' && s.get_char(p + 1) == '/' && s.get_char(p + 2)
            == 'p' && s.get_char(p + 3) == '>' {
            proof {
                assert(spec_find_p_close(s@, p as int) == Some(p as int));
                assert(spec_p_match(s@, i as int) == Some(p as int));
            }
            return Some(p);
        }
        if s.get_char(p) == '\n' {
            proof {
                assert(spec_find_p_close(s@, p as int) is None);
                assert(spec_p_match(s@, i as int) is None);
            }
            return None;
        }
        p = p + 1;
    }
    proof {
        assert(spec_find_p_close(s@, n as int) is None);
    }
    None
}

/// Collects the text of every paragraph block, one line each, and drops the
/// markup between them.
pub fn extract_paragraphs(text: &String) -> (r: String)
    ensures
        r@ == spec_paragraphs(text@),
{
    let s = text.as_str();
    let n = s.unicode_len();
    let mut out = String::new();
    let mut i: usize = 0;
    while i < n
        invariant
            i <= n,
            n == s@.len(),
            s@ == text@,
            out@ + spec_paragraphs_from(s@, i as int) == spec_paragraphs(s@),
        decreases n - i,
    {
        let ghost pre = out@;
        match p_match_at(s, i, n) {
            Some(p) => {
                out.append(s.substring_char(i + 3, p));
                push_char(&mut out, '\n');
                proof {
                    let sub = s@.subrange(i + 3, p as int);
                    let rest = spec_paragraphs_from(s@, p + 4);
                    assert(spec_paragraphs_from(s@, i as int) == sub + seq!['\n'] + rest);
                    assert(out@ =~= pre + sub + seq!['\n']);
                    assert(pre + (sub + seq!['\n'] + rest) =~= (pre + sub + seq!['\n']) + rest);
                }
                i = p + 4;
            },
            None => {
                i = i + 1;
            },
        }
    }
    proof {
        assert(out@ + spec_paragraphs_from(s@, n as int) =~= out@);
    }
    out
}

/// The chapter post-processing pipeline: keep the paragraph blocks when there
/// are any (else the raw text), emphasise quoted spans, and normalize break
/// tags into newlines.
pub open spec fn spec_chapter_text(raw: Seq<char>) -> Seq<char> {
    let paras = spec_paragraphs(raw);
    let base = if paras.len() == 0 {
        raw
    } else {
        paras
    };
    spec_normalize_breaks(spec_italicize(base))
}

/// Turns a scraped chapter body into the text handed to the viewer.
pub fn chapter_text(raw: &String) -> (r: String)
    ensures
        r@ == spec_chapter_text(raw@),
{
    let paras = extract_paragraphs(raw);
    let base = if paras.as_str().unicode_len() == 0 {
        raw.clone()
    } else {
        paras
    };
    let emphasised = italicize(&base);
    normalize_breaks(&emphasised)
}

} // verus!
