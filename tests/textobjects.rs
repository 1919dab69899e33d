use evil_textobj::driver::{apply_textobject, diff_unavailable_message, Outcome};
use evil_textobj::jump::goto_matching_pair;
use evil_textobj::lineops::{change_line, delete_line, get_line_text, yank_line};
use evil_textobj::object::{object_kind, query_name, ObjectKind, Operation, Query, Span};
use evil_textobj::pending::{begin, help_entries, help_title, on_key, KeyState, PendingRequest};
use evil_textobj::range::{Direction, Range, Selection};
use evil_textobj::resolve::{resolve_range, Hunk};

fn rope(text: &str) -> ropey::Rope {
    ropey::Rope::from_str(text)
}

fn run(text: &str, sel: &Selection, code: char, span: Span, count: usize) -> Outcome {
    let rope = rope(text);
    apply_textobject(&rope, sel, code, span, count, Operation::Select, &Vec::new(), &None)
}

fn applied(o: Outcome) -> Vec<Range> {
    match o {
        Outcome::Apply(s, _) => s.ranges,
        other => panic!("expected a new selection, got {:?}", other),
    }
}

#[test]
fn closest_pair_inside_covers_inner_word() {
    let sel = Selection::single(7, 7);
    let r = applied(run("(foo (bar) baz)", &sel, 'm', Span::Inside, 1));
    assert_eq!(r, vec![Range::new(6, 9)]);
}

#[test]
fn closest_pair_around_covers_parens() {
    let sel = Selection::single(7, 7);
    let r = applied(run("(foo (bar) baz)", &sel, 'm', Span::Around, 1));
    assert_eq!(r, vec![Range::new(5, 10)]);
}

#[test]
fn closest_pair_picks_innermost_kind() {
    let sel = Selection::single(4, 4);
    let r = applied(run("[a (b) c]", &sel, 'm', Span::Inside, 1));
    assert_eq!(r, vec![Range::new(4, 5)]);
    let sel = Selection::single(1, 1);
    let r = applied(run("[a (b) c]", &sel, 'm', Span::Inside, 1));
    assert_eq!(r, vec![Range::new(1, 8)]);
}

#[test]
fn count_selects_outer_pair() {
    let sel = Selection::single(2, 2);
    let r = applied(run("((a))", &sel, '(', Span::Around, 2));
    assert_eq!(r, vec![Range::new(0, 5)]);
    let r = applied(run("((a))", &sel, ')', Span::Inside, 1));
    assert_eq!(r, vec![Range::new(2, 3)]);
}

#[test]
fn inside_lies_within_around() {
    let text = "{ x [y] (z) }";
    for pos in 0..13 {
        for code in ['m', '(', '{', '['] {
            let rope = rope(text);
            let r = Range::point(pos);
            let i = resolve_range(&rope, code, Span::Inside, 1, r, None, &None);
            let a = resolve_range(&rope, code, Span::Around, 1, r, None, &None);
            assert!(a.from() <= i.from() && i.to() <= a.to());
        }
    }
}

#[test]
fn backward_range_keeps_direction() {
    let sel = Selection::single(8, 7);
    let r = applied(run("(foo (bar) baz)", &sel, 'm', Span::Inside, 1));
    assert_eq!(r, vec![Range::new(9, 6)]);
    assert_eq!(r[0].direction(), Direction::Backward);
}

#[test]
fn quote_pairs_within_cursor_line() {
    let sel = Selection::single(7, 7);
    let r = applied(run("x\nsay \"hi\" now\n", &sel, '"', Span::Inside, 1));
    assert_eq!(r, vec![Range::new(7, 9)]);
}

#[test]
fn single_quote_on_line_is_a_no_op() {
    let sel = Selection::single(0, 0);
    let o = run("say \"hi there\nnext \"line\"", &sel, '"', Span::Inside, 1);
    assert!(matches!(o, Outcome::NoEffect));
}

#[test]
fn bracket_fallback_searches_forward() {
    let sel = Selection::single(0, 0);
    let r = applied(run("x = (a, b)", &sel, '(', Span::Inside, 1));
    assert_eq!(r, vec![Range::new(5, 9)]);
}

#[test]
fn quote_fallback_lands_past_opening_quote() {
    let sel = Selection::single(0, 0);
    let r = applied(run("let s = \"abc\";", &sel, '"', Span::Inside, 1));
    assert_eq!(r, vec![Range::new(9, 12)]);
}

#[test]
fn fallback_without_later_delimiter_has_no_effect() {
    let sel = Selection::single(0, 0);
    let o = run("abc def", &sel, '(', Span::Around, 1);
    assert!(matches!(o, Outcome::NoEffect));
}

#[test]
fn alphanumeric_code_is_ignored() {
    let sel = Selection::single(1, 1);
    let o = run("(ab)", &sel, 'z', Span::Inside, 1);
    assert!(matches!(o, Outcome::NoEffect));
}

#[test]
fn diff_object_without_diff_aborts() {
    let sel = Selection::single(1, 1);
    let o = run("a\nb\n", &sel, 'g', Span::Inside, 1);
    assert!(matches!(o, Outcome::DiffUnavailable));
    assert_eq!(diff_unavailable_message(), "Diff is not available in current buffer");
    assert_eq!(sel.ranges, vec![Range::new(1, 1)]);
}

#[test]
fn diff_object_selects_hunk_lines() {
    let rope = rope("a\nb\nc\nd\n");
    let sel = Selection::single(2, 2);
    let hunks = Some(vec![Hunk { after_start: 1, after_end: 3 }]);
    let o = apply_textobject(&rope, &sel, 'g', Span::Around, 1, Operation::Delete, &Vec::new(), &hunks);
    match o {
        Outcome::Apply(s, op) => {
            assert_eq!(s.ranges, vec![Range::new(2, 6)]);
            assert_eq!(op, Operation::Delete);
        }
        other => panic!("unexpected {:?}", other),
    }
}

#[test]
fn diff_object_outside_hunk_has_no_effect() {
    let rope = rope("a\nb\nc\nd\n");
    let sel = Selection::single(0, 0);
    let hunks = Some(vec![Hunk { after_start: 1, after_end: 3 }]);
    let o = apply_textobject(&rope, &sel, 'g', Span::Around, 1, Operation::Delete, &Vec::new(), &hunks);
    assert!(matches!(o, Outcome::NoEffect));
}

#[test]
fn outside_object_answers_are_used_per_range() {
    let rope = rope("one two three");
    let sel = Selection { ranges: vec![Range::point(1), Range::point(5)], primary: 1 };
    let ext = vec![Some(Range::new(0, 3)), None];
    let o = apply_textobject(&rope, &sel, 'w', Span::Inside, 1, Operation::Yank, &ext, &None);
    match o {
        Outcome::Apply(s, op) => {
            assert_eq!(s.ranges, vec![Range::new(0, 3), Range::point(5)]);
            assert_eq!(s.primary, 1);
            assert_eq!(op, Operation::Yank);
        }
        other => panic!("unexpected {:?}", other),
    }
}

#[test]
fn transform_keeps_count_and_order() {
    let text = "(a) [b] {c}";
    let sel = Selection { ranges: vec![Range::point(1), Range::point(5), Range::point(9)], primary: 0 };
    let r = applied(run(text, &sel, 'm', Span::Around, 1));
    assert_eq!(r, vec![Range::new(0, 3), Range::new(4, 7), Range::new(8, 11)]);
}

#[test]
fn multi_range_change_in_any_range_counts() {
    let text = "ab (c)";
    let sel = Selection { ranges: vec![Range::point(0), Range::point(4)], primary: 0 };
    let r = applied(run(text, &sel, '(', Span::Inside, 1));
    assert_eq!(r, vec![Range::point(0), Range::new(4, 5)]);
}

#[test]
fn object_codes_map_to_kinds() {
    assert_eq!(object_kind('w'), ObjectKind::Word);
    assert_eq!(object_kind('W'), ObjectKind::BigWord);
    assert_eq!(object_kind('p'), ObjectKind::Paragraph);
    assert_eq!(object_kind('f'), ObjectKind::Syntax(Query::Function));
    assert_eq!(object_kind('T'), ObjectKind::Syntax(Query::Test));
    assert_eq!(object_kind('m'), ObjectKind::ClosestPair);
    assert_eq!(object_kind('g'), ObjectKind::ChangedHunk);
    assert_eq!(object_kind('('), ObjectKind::LiteralPair('('));
    assert_eq!(object_kind('x'), ObjectKind::Ignored);
    assert_eq!(query_name(Query::Parameter), "parameter");
}

#[test]
fn pending_key_waits_for_a_character() {
    let s = begin(Span::Around, Operation::Change, 2);
    let req = PendingRequest { span: Span::Around, op: Operation::Change, count: 2 };
    assert_eq!(s, KeyState::Awaiting(req));
    let (s2, got) = on_key(s, None);
    assert_eq!(s2, s);
    assert_eq!(got, None);
    let (s3, got) = on_key(s2, Some('w'));
    assert_eq!(s3, KeyState::Idle);
    assert_eq!(got, Some((req, 'w')));
    assert_eq!(on_key(KeyState::Idle, Some('w')), (KeyState::Idle, None));
}

#[test]
fn help_overlay_lists_codes() {
    assert_eq!(help_title(Span::Inside), "Match inside");
    assert_eq!(help_title(Span::Around), "Match around");
    let e = help_entries();
    assert_eq!(e.len(), 12);
    assert_eq!(e[0], ('w', "Word"));
    assert_eq!(e[11], (' ', "... or any character acting as a pair"));
    assert_eq!(e[9], ('m', "Closest surrounding pair (tree-sitter)"));
}

#[test]
fn matching_pair_jump_replaces_range() {
    let rope = rope("(ab)");
    let sel = Selection::single(0, 0);
    let out = goto_matching_pair(&rope, &sel, false, Some(3));
    assert_eq!(out.ranges, vec![Range::new(3, 4)]);
    let back = goto_matching_pair(&rope, &out, false, Some(0));
    assert_eq!(back.ranges, vec![Range::new(0, 1)]);
    assert!(back.ranges[0].from() <= 0 && 0 < back.ranges[0].to());
}

#[test]
fn matching_pair_jump_extends_in_select_mode() {
    let rope = rope("(ab)");
    let sel = Selection::single(0, 0);
    let out = goto_matching_pair(&rope, &sel, true, Some(3));
    assert_eq!(out.ranges, vec![Range::new(0, 4)]);
    let sel = Selection::single(3, 3);
    let out = goto_matching_pair(&rope, &sel, true, Some(0));
    assert_eq!(out.ranges, vec![Range::new(4, 0)]);
    let out = goto_matching_pair(&rope, &sel, true, None);
    assert_eq!(out.ranges, vec![Range::new(3, 3)]);
}

#[test]
fn line_operations_cover_whole_lines() {
    let rope = rope("ab\ncd\nef\n");
    let sel = Selection::single(4, 4);
    let (s, op) = change_line(&rope, &sel, 1);
    assert_eq!(s.ranges, vec![Range::new(3, 6)]);
    assert_eq!(op, Operation::Change);
    let (s, op) = yank_line(&rope, &sel, 2);
    assert_eq!(s.ranges, vec![Range::new(3, 9)]);
    assert_eq!(op, Operation::Yank);
    let (s, op) = delete_line(&rope, &sel, 5);
    assert_eq!(s.ranges, vec![Range::new(3, 9)]);
    assert_eq!(op, Operation::Delete);
}

#[test]
fn line_text_under_cursor() {
    let rope = rope("ab\ncd\nef");
    assert_eq!(get_line_text(&rope, &Selection::single(4, 4)), "cd\n");
    assert_eq!(get_line_text(&rope, &Selection::single(7, 7)), "ef");
    assert_eq!(get_line_text(&rope, &Selection::single(20, 20)), "");
}

#[test]
fn line_text_follows_last_range() {
    let rope = rope("ab\ncd\nef");
    let sel = Selection { ranges: vec![Range::point(1), Range::point(4)], primary: 0 };
    assert_eq!(get_line_text(&rope, &sel), "cd\n");
}

#[test]
fn matching_pair_jump_moves_primary_only() {
    let rope = rope("(ab) x");
    let sel = Selection { ranges: vec![Range::point(5), Range::point(0)], primary: 1 };
    let out = goto_matching_pair(&rope, &sel, false, Some(3));
    assert_eq!(out.ranges, vec![Range::point(5), Range::new(3, 4)]);
    assert_eq!(out.primary, 1);
}

#[test]
fn syntax_aware_pair_answer_is_used() {
    let rope = rope("(a [b) c]");
    let sel = Selection::single(4, 4);
    let ext = vec![Some(Range::new(4, 5))];
    let o = apply_textobject(&rope, &sel, 'm', Span::Inside, 1, Operation::Select, &ext, &None);
    match o {
        Outcome::Apply(s, _) => assert_eq!(s.ranges, vec![Range::new(4, 5)]),
        other => panic!("unexpected {:?}", other),
    }
}

#[test]
fn quotes_ignore_outside_pair_answer() {
    let rope = rope("say \"hi\" now");
    let sel = Selection::single(5, 5);
    let ext = vec![Some(Range::new(0, 1))];
    let o = apply_textobject(&rope, &sel, '"', Span::Around, 1, Operation::Select, &ext, &None);
    match o {
        Outcome::Apply(s, _) => assert_eq!(s.ranges, vec![Range::new(4, 8)]),
        other => panic!("unexpected {:?}", other),
    }
}
