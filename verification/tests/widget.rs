use ranobe::fuzzy::{filtered_list, MatchResult};
use ranobe::paging::Paging;
use ranobe::providers::Ranobe;
use ranobe::select::{cyclic_move, Direction, FuzzySelect, InputMode, Key, StepOutcome};
use ranobe::render::TermThemeRenderer;
use ranobe::theme::{ColorfulTheme, SimpleTheme};

fn sweets() -> Vec<Ranobe> {
    vec![
        Ranobe::new("Ice Cream".to_string(), "u0".to_string()),
        Ranobe::new("Vanilla Cupcake".to_string(), "u1".to_string()),
        Ranobe::new("Chocolate Muffin".to_string(), "u2".to_string()),
        Ranobe::new("A Pile of sweet, sweet mustard".to_string(), "u3".to_string()),
    ]
}

fn widget_with(items: &[Ranobe]) -> FuzzySelect<SimpleTheme> {
    let mut w = FuzzySelect::new();
    w.items(items);
    w
}

#[test]
fn empty_query_keeps_original_order() {
    // with no query every candidate matches with one uniform score
    let items = sweets();
    let rows = filtered_list(&items, "");
    assert_eq!(rows.len(), 4);
    for (k, row) in rows.iter().enumerate() {
        assert_eq!(row.index, k);
        assert_eq!(row.score, 0);
    }
}

#[test]
fn query_ice_ranks_ice_cream_first() {
    let items = sweets();
    let rows = filtered_list(&items, "ice");
    assert!(!rows.is_empty());
    assert_eq!(rows[0].index, 0);
    assert_eq!(items[rows[0].index].title, "Ice Cream");
}

#[test]
fn filtered_holds_exactly_the_matches() {
    let items = sweets();
    let rows = filtered_list(&items, "ch");
    assert_eq!(rows.len(), 1);
    assert_eq!(items[rows[0].index].title, "Chocolate Muffin");
}

#[test]
fn filtered_scores_descend_and_ties_keep_order() {
    let items = sweets();
    let rows = filtered_list(&items, "a");
    for pair in rows.windows(2) {
        assert!(pair[0].score >= pair[1].score);
        if pair[0].score == pair[1].score {
            assert!(pair[0].index < pair[1].index);
        }
    }
}

#[test]
fn cyclic_move_wraps_both_ways() {
    assert_eq!(cyclic_move(None, 4, Direction::Up), Some(3));
    assert_eq!(cyclic_move(None, 4, Direction::Down), Some(0));
    assert_eq!(cyclic_move(Some(0), 4, Direction::Up), Some(3));
    assert_eq!(cyclic_move(Some(3), 4, Direction::Down), Some(0));
    assert_eq!(cyclic_move(Some(2), 4, Direction::Up), Some(1));
    assert_eq!(cyclic_move(Some(2), 4, Direction::Down), Some(3));
}

#[test]
fn four_moves_on_four_rows_return_to_start() {
    let mut sel = Some(1);
    for _ in 0..4 {
        sel = cyclic_move(sel, 4, Direction::Down);
    }
    assert_eq!(sel, Some(1));
    let mut sel = Some(1);
    for _ in 0..4 {
        sel = cyclic_move(sel, 4, Direction::Up);
    }
    assert_eq!(sel, Some(1));
}

#[test]
fn paging_update_covers_selection() {
    let mut p = Paging::new(10, Some(4), 30);
    assert_eq!(p.capacity, 2);
    p.update(5);
    assert!(p.current_page * p.capacity <= 5);
    assert!(5 < (p.current_page + 1) * p.capacity);
    assert_eq!(p.current_page, 2);
}

#[test]
fn next_page_twice_wraps_back() {
    // one page boundary: capacity two, four rows, so two pages
    let mut p = Paging::new(4, Some(4), 30);
    assert!(p.active);
    assert_eq!(p.pages, 2);
    let s1 = p.next_page();
    assert_eq!(p.current_page, 1);
    assert_eq!(s1, 2);
    let s2 = p.next_page();
    assert_eq!(p.current_page, 0);
    assert_eq!(s2, 0);
}

#[test]
fn escape_in_normal_mode_cancels() {
    let items = sweets();
    let w = widget_with(&items);
    let mut sess = w.start_session(30);
    assert_eq!(sess.mode, InputMode::Normal);
    let out = w.step(&mut sess, Key::Escape);
    assert_eq!(out, StepOutcome::Cancelled);
}

#[test]
fn typing_narrows_and_resets_selection() {
    let items = sweets();
    let mut w = FuzzySelect::new();
    w.items(&items).default(3);
    let mut sess = w.start_session(30);
    assert_eq!(sess.sel, Some(3));
    assert_eq!(w.step(&mut sess, Key::Char('i')), StepOutcome::Continue);
    assert_eq!(sess.mode, InputMode::Editing);
    assert_eq!(w.step(&mut sess, Key::Char('c')), StepOutcome::Continue);
    assert_eq!(sess.filtered.len(), 3);
    assert_eq!(sess.sel, Some(0));
    assert_eq!(w.step(&mut sess, Key::Char('h')), StepOutcome::Continue);
    assert_eq!(sess.filtered.len(), 1);
    assert_eq!(sess.sel, Some(0));
    assert_eq!(items[sess.filtered[0].index].title, "Chocolate Muffin");
}

#[test]
fn backspace_restores_matches() {
    let items = sweets();
    let w = widget_with(&items);
    let mut sess = w.start_session(30);
    w.step(&mut sess, Key::Char('i'));
    w.step(&mut sess, Key::Char('c'));
    w.step(&mut sess, Key::Char('h'));
    assert_eq!(sess.filtered.len(), 1);
    w.step(&mut sess, Key::Backspace);
    assert_eq!(sess.query, vec!['c']);
    assert_eq!(sess.cursor, 1);
    assert_eq!(sess.filtered.len(), 3);
}

#[test]
fn commit_returns_original_index() {
    let items = sweets();
    let mut w = FuzzySelect::new();
    w.items(&items).default(0);
    let mut sess = w.start_session(30);
    // move down once: selection row one, identity order under the empty query
    w.step(&mut sess, Key::ArrowDown);
    assert_eq!(sess.sel, Some(1));
    let out = w.step(&mut sess, Key::Enter);
    assert_eq!(out, StepOutcome::Committed(1));
    assert_eq!(items[1].title, "Vanilla Cupcake");
}

#[test]
fn arrow_up_from_no_selection_lands_on_last_row() {
    let items = sweets();
    let w = widget_with(&items);
    let mut sess = w.start_session(30);
    assert_eq!(sess.sel, None);
    w.step(&mut sess, Key::ArrowUp);
    assert_eq!(sess.sel, Some(3));
    w.step(&mut sess, Key::ArrowDown);
    assert_eq!(sess.sel, Some(0));
}

#[test]
fn page_keys_wrap_and_snap_selection() {
    // four matching rows at capacity two: the next-page key twice returns
    // to the original page
    let items = sweets();
    let mut w = FuzzySelect::new();
    w.items(&items).max_length(2).default(0);
    let mut sess = w.start_session(30);
    assert!(sess.paging.active);
    assert_eq!(sess.paging.capacity, 2);
    w.step(&mut sess, Key::ArrowRight);
    assert_eq!(sess.paging.current_page, 1);
    assert_eq!(sess.sel, Some(2));
    w.step(&mut sess, Key::ArrowRight);
    assert_eq!(sess.paging.current_page, 0);
    assert_eq!(sess.sel, Some(0));
    w.step(&mut sess, Key::ArrowLeft);
    assert_eq!(sess.paging.current_page, 1);
    assert_eq!(sess.sel, Some(2));
}

#[test]
fn vim_keys_only_act_in_normal_mode() {
    let items = sweets();
    let w = widget_with(&items);
    let mut sess = w.start_session(30);
    w.step(&mut sess, Key::Char('j'));
    assert_eq!(sess.sel, Some(0));
    w.step(&mut sess, Key::Char('k'));
    assert_eq!(sess.sel, Some(3));
    // in editing mode the same letters are query text
    w.step(&mut sess, Key::Char('i'));
    w.step(&mut sess, Key::Char('j'));
    assert_eq!(sess.query, vec!['j']);
    assert_eq!(sess.filtered.len(), 0);
    assert_eq!(sess.sel, None);
}

#[test]
fn selection_is_none_while_nothing_matches() {
    let items = sweets();
    let w = widget_with(&items);
    let mut sess = w.start_session(30);
    w.step(&mut sess, Key::Char('i'));
    for c in "zzz".chars() {
        w.step(&mut sess, Key::Char(c));
        assert_eq!(sess.sel, None);
        assert_eq!(sess.filtered.len(), 0);
    }
    // enter commits nothing without a selection
    w.step(&mut sess, Key::Enter);
    assert_eq!(sess.mode, InputMode::Normal);
    let out = w.step(&mut sess, Key::Enter);
    assert_eq!(out, StepOutcome::Continue);
}

#[test]
fn escape_in_editing_returns_to_normal() {
    let items = sweets();
    let w = widget_with(&items);
    let mut sess = w.start_session(30);
    w.step(&mut sess, Key::Char('i'));
    assert_eq!(sess.mode, InputMode::Editing);
    let out = w.step(&mut sess, Key::Escape);
    assert_eq!(out, StepOutcome::Continue);
    assert_eq!(sess.mode, InputMode::Normal);
}

#[test]
fn initial_text_seeds_query_and_cursor() {
    let items = sweets();
    let mut w = FuzzySelect::new();
    w.items(&items).with_initial_text("ice".to_string());
    let sess = w.start_session(30);
    assert_eq!(sess.query, vec!['i', 'c', 'e']);
    assert_eq!(sess.cursor, 3);
    assert!(!sess.filtered.is_empty());
    assert_eq!(sess.filtered[0].index, 0);
}

#[test]
fn render_frame_lists_the_visible_page() {
    let items = sweets();
    let mut w = FuzzySelect::new();
    w.items(&items).max_length(2).default(0).with_prompt("Pick".to_string());
    let mut sess = w.start_session(30);
    let mut r = TermThemeRenderer::new(&w.theme);
    let lines = w.render_frame(&sess, &mut r);
    assert_eq!(lines.len(), 3);
    assert_eq!(lines[0], " [Page 1/2] Pick |");
    assert_eq!(lines[1], "> Ice Cream");
    assert_eq!(lines[2], "  Vanilla Cupcake");
    assert_eq!(r.prompt_height, 1);
    assert_eq!(r.height, 2);
    // moving the selection to the second page shows that page's rows
    w.step(&mut sess, Key::ArrowRight);
    let lines = w.render_frame(&sess, &mut r);
    assert_eq!(lines[0], " [Page 2/2] Pick |");
    assert_eq!(lines[1], "> Chocolate Muffin");
    assert_eq!(lines[2], "  A Pile of sweet, sweet mustard");
}

#[test]
fn cancel_characters_are_explicit_configuration() {
    let items = sweets();
    // with the built-in empty set, a letter never cancels
    let w = widget_with(&items);
    let mut sess = w.start_session(30);
    assert_eq!(w.step(&mut sess, Key::Char('q')), StepOutcome::Continue);
    // once configured, the letter cancels from Normal mode
    let mut w = FuzzySelect::new();
    w.items(&items).cancel_keys(vec!['q']);
    let mut sess = w.start_session(30);
    assert_eq!(w.step(&mut sess, Key::Char('q')), StepOutcome::Cancelled);
    // but in Editing mode it is query text
    let mut sess = w.start_session(30);
    w.step(&mut sess, Key::Char('i'));
    assert_eq!(w.step(&mut sess, Key::Char('q')), StepOutcome::Continue);
    assert_eq!(sess.query, vec!['q']);
}

#[test]
fn widget_accepts_any_theme() {
    let items = sweets();
    let mut w = FuzzySelect::with_theme(ColorfulTheme::default());
    w.items(&items);
    let sess = w.start_session(30);
    assert_eq!(sess.filtered.len(), 4);
}

#[test]
fn match_result_fields_round_trip() {
    let m = MatchResult { index: 7, score: -3 };
    assert_eq!(m.index, 7);
    assert_eq!(m.score, -3);
}
