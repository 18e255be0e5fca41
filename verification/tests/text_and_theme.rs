use ranobe::add;
use ranobe::providers::{Ranobe, ReadLightNovel};
use ranobe::render::{usize_to_string, TermThemeRenderer};
use ranobe::theme::{ColorfulTheme, SimpleTheme, StyleCodes, Theme};
use ranobe::utils::{chapter_text, extract_paragraphs, italicize, normalize_breaks};

#[test]
fn it_works() {
    let result = add(2, 2);
    assert_eq!(result, 4);
}

#[test]
fn italicize_wraps_quoted_spans() {
    let text = "he said \"so\" and left".to_string();
    assert_eq!(italicize(&text), "he said  _\"so\"_  and left");
}

#[test]
fn italicize_handles_entities_and_typographic_quotes() {
    let text = "a &quot;b&quot; c".to_string();
    assert_eq!(italicize(&text), "a  _&quot;b&quot;_  c");
    let curly = "x \u{201c}hi\u{201d} y".to_string();
    assert_eq!(italicize(&curly), "x  _\u{201c}hi\u{201d}_  y");
    let mixed = "&ldquo;word&rdquo;".to_string();
    assert_eq!(italicize(&mixed), " _&ldquo;word&rdquo;_ ");
}

#[test]
fn italicize_leaves_unpaired_quotes_alone() {
    let text = "no closing \" here".to_string();
    // the quote never closes on this line, so nothing is wrapped
    assert_eq!(italicize(&text), "no closing \" here");
    let across = "a \"x\ny\" b".to_string();
    // a span cannot cross a line break; the second quote pair is also open
    assert_eq!(italicize(&across), "a \"x\ny\" b");
}

#[test]
fn normalize_breaks_rewrites_tags() {
    let text = "one<br>two<br>three".to_string();
    assert_eq!(normalize_breaks(&text), "one\ntwo\nthree");
}

#[test]
fn extract_paragraphs_keeps_only_blocks() {
    let text = "<div><p>first</p>junk<p>second</p></div>".to_string();
    assert_eq!(extract_paragraphs(&text), "first\nsecond\n");
}

#[test]
fn chapter_text_composes_the_pipeline() {
    let raw = "<p>he said \"hi\"<br>there</p>".to_string();
    assert_eq!(chapter_text(&raw), "he said  _\"hi\"_ \nthere\n");
}

#[test]
fn chapter_text_falls_back_to_raw_body() {
    let raw = "plain \"words\"<br>here".to_string();
    assert_eq!(chapter_text(&raw), "plain  _\"words\"_ \nhere");
}

#[test]
fn provider_pages_advance_and_name_their_url() {
    let mut p = ReadLightNovel::new();
    assert_eq!(p.page, 0);
    assert_eq!(p.latest_url(), "https://readlightnovel.me/latest-update/0");
    p.advance_page();
    assert_eq!(p.page, 1);
    assert_eq!(p.latest_url(), "https://readlightnovel.me/latest-update/1");
}

#[test]
fn ranobe_clone_keeps_fields() {
    let r = Ranobe::new("t".to_string(), "u".to_string());
    let c = r.clone();
    assert_eq!(c.title, "t");
    assert_eq!(c.url, "u");
}

#[test]
fn decimal_rendering_is_exact() {
    assert_eq!(usize_to_string(0), "0");
    assert_eq!(usize_to_string(42), "42");
    assert_eq!(usize_to_string(1905), "1905");
}

#[test]
fn simple_theme_formats_plainly() {
    let t = SimpleTheme;
    assert_eq!(t.format_prompt("Pick"), "Pick:");
    assert_eq!(t.format_error("oops"), "error: oops");
    assert_eq!(t.format_input_prompt("Pick", Some("x")), "Pick [x]: ");
    assert_eq!(t.format_input_prompt("", Some("x")), "[x]: ");
    assert_eq!(t.format_input_prompt("Pick", None), "Pick: ");
    assert_eq!(t.format_input_prompt_selection("Pick", "that"), "Pick: that");
}

#[test]
fn simple_theme_places_the_cursor_bar() {
    let t = SimpleTheme;
    assert_eq!(t.format_fuzzy_select_prompt("Go", "abc", 1), "Go a|bc");
    assert_eq!(t.format_fuzzy_select_prompt("Go", "abc", 3), "Go abc|");
    assert_eq!(t.format_fuzzy_select_prompt("", "", 0), "|");
}

#[test]
fn simple_theme_marks_the_active_row() {
    let t = SimpleTheme;
    let pos: Vec<usize> = vec![0];
    // with highlighting on, matched characters are set in bold
    assert_eq!(
        t.format_fuzzy_select_prompt_item("abc", true, true, &pos),
        "> \u{1b}[1ma\u{1b}[0mbc"
    );
    assert_eq!(t.format_fuzzy_select_prompt_item("abc", false, false, &pos), "  abc");
    // highlighting with no matched positions leaves the label bare
    assert_eq!(t.format_fuzzy_select_prompt_item("abc", false, true, &Vec::new()), "  abc");
}

#[test]
fn colorful_theme_brackets_fragments_with_codes() {
    let t = ColorfulTheme::default();
    assert_eq!(
        t.format_error("bad"),
        "\u{1b}[31m\u{2718}\u{1b}[0m \u{1b}[31mbad\u{1b}[0m"
    );
    assert_eq!(
        t.format_input_prompt_selection("Pick", "that"),
        "\u{1b}[32m\u{2714}\u{1b}[0m \u{1b}[1mPick\u{1b}[0m \u{1b}[90m\u{b7}\u{1b}[0m \u{1b}[32mthat\u{1b}[0m"
    );
    assert!(t.inline_selections);
}

#[test]
fn colorful_theme_highlights_matched_positions() {
    let t = ColorfulTheme::default();
    let pos: Vec<usize> = vec![1];
    let line = t.format_fuzzy_select_prompt_item("ab", false, true, &pos);
    assert_eq!(line, "  a\u{1b}[1mb\u{1b}[0m");
    let active = t.format_fuzzy_select_prompt_item("ab", true, true, &pos);
    assert_eq!(
        active,
        "\u{1b}[32m\u{276f}\u{1b}[0m \u{1b}[36ma\u{1b}[0m\u{1b}[36m\u{1b}[1mb\u{1b}[0m\u{1b}[0m"
    );
}

#[test]
fn colorful_theme_consumes_the_cursor_character() {
    let t = ColorfulTheme::default();
    let line = t.format_fuzzy_select_prompt("", "abc", 1);
    assert_eq!(
        line,
        "\u{1b}[90m\u{203a}\u{1b}[0m a\u{1b}[30m\u{1b}[47mb\u{1b}[0mc"
    );
    let end = t.format_fuzzy_select_prompt("", "ab", 2);
    assert_eq!(
        end,
        "\u{1b}[90m\u{203a}\u{1b}[0m ab\u{1b}[30m\u{1b}[47m \u{1b}[0m"
    );
}

#[test]
fn custom_style_codes_apply_around_text() {
    let s = StyleCodes::new("<".to_string(), ">".to_string());
    assert_eq!(s.start, "<");
    assert_eq!(s.end, ">");
    let p = StyleCodes::plain();
    assert_eq!(p.start, "");
    assert_eq!(p.end, "");
}

#[test]
fn renderer_counts_rows_and_erases_exactly() {
    let t = SimpleTheme;
    let mut r = TermThemeRenderer::new(&t);
    let line = r.error("x");
    assert_eq!(line, "error: x");
    assert_eq!(r.height, 1);
    r.add_line();
    assert_eq!(r.height, 2);
    let prompt = r.fuzzy_select_prompt("Go", "a", 1, Some((1, 2)));
    assert_eq!(prompt, " [Page 1/2] Go a|");
    assert_eq!(r.prompt_height, 3);
    assert_eq!(r.height, 0);
    let _ = r.fuzzy_select_prompt_item("x", false, false, &Vec::new());
    assert_eq!(r.height, 1);
    assert_eq!(r.clear(), 4);
    assert_eq!(r.height, 0);
    assert_eq!(r.prompt_height, 0);
    // an input prompt stays on its row: no extra height
    let ip = r.input_prompt("Name", Some("d"));
    assert_eq!(ip, "Name [d]: ");
    assert_eq!(r.height, 0);
}

#[test]
fn renderer_accounts_for_wrapped_labels() {
    let t = SimpleTheme;
    let mut r = TermThemeRenderer::new(&t);
    let _ = r.fuzzy_select_prompt_item("abc", false, false, &Vec::new());
    let _ = r.fuzzy_select_prompt_item("abc", true, false, &Vec::new());
    assert_eq!(r.height, 2);
    // a label of 25 characters plus the two marker columns covers three
    // ten-column rows: two rows beyond its own
    let sizes: Vec<usize> = vec![25, 4];
    let rows = r.clear_preserve_prompt(&sizes, 10);
    assert_eq!(rows, 4);
    assert_eq!(r.height, 0);
}
