use line_staging::{apply_selection, new_index_content, DiffLine, DiffLinePosition, DiffLineType, Hunk, StageError};

fn pos(old: Option<u32>, new: Option<u32>) -> DiffLinePosition {
    DiffLinePosition { old_lineno: old, new_lineno: new }
}

fn line(origin: DiffLineType, old: Option<u32>, new: Option<u32>, content: &str) -> DiffLine {
    DiffLine { origin, position: pos(old, new), content: content.to_string() }
}

fn owned(lines: &[&str]) -> Vec<String> {
    lines.iter().map(|l| l.to_string()).collect()
}

/// The diff of "0\n" against "0\n1\n2\n3\n".
fn three_added() -> Vec<Hunk> {
    vec![Hunk {
        old_start: 1,
        new_start: 1,
        lines: vec![
            line(DiffLineType::Context, Some(1), Some(1), "0\n"),
            line(DiffLineType::Addition, None, Some(2), "1\n"),
            line(DiffLineType::Addition, None, Some(3), "2\n"),
            line(DiffLineType::Addition, None, Some(4), "3\n"),
        ],
    }]
}

#[test]
fn stage_one_added_line() {
    let r = apply_selection(&[pos(None, Some(2))], &three_added(), &owned(&["0"]), false);
    assert_eq!(r, Ok("0\n1\n".to_string()));
}

#[test]
fn unstage_one_added_line() {
    let r = apply_selection(&[pos(None, Some(2))], &three_added(), &owned(&["0", "1", "2", "3"]), true);
    assert_eq!(r, Ok("0\n2\n3\n".to_string()));
}

#[test]
fn stage_every_changed_line_takes_the_working_tree() {
    let sel = [pos(None, Some(2)), pos(None, Some(3)), pos(None, Some(4))];
    let r = apply_selection(&sel, &three_added(), &owned(&["0"]), false);
    assert_eq!(r, Ok("0\n1\n2\n3\n".to_string()));
}

#[test]
fn unstage_every_changed_line_takes_the_commit() {
    let sel = [pos(None, Some(2)), pos(None, Some(3)), pos(None, Some(4))];
    let r = apply_selection(&sel, &three_added(), &owned(&["0", "1", "2", "3"]), true);
    assert_eq!(r, Ok("0\n".to_string()));
}

#[test]
fn stage_then_unstage_same_line_restores_content() {
    let staged = apply_selection(&[pos(None, Some(2))], &three_added(), &owned(&["0"]), false).unwrap();
    assert_eq!(staged, "0\n1\n");
    // the diff of the last commit ("0\n") against the new index content
    let hunks = vec![Hunk {
        old_start: 1,
        new_start: 1,
        lines: vec![
            line(DiffLineType::Context, Some(1), Some(1), "0\n"),
            line(DiffLineType::Addition, None, Some(2), "1\n"),
        ],
    }];
    let back = new_index_content(&[pos(None, Some(2))], &hunks, &staged, true);
    assert_eq!(back, Ok("0\n".to_string()));
}

#[test]
fn stage_deletions_of_file_without_final_newline() {
    let hunks = vec![Hunk {
        old_start: 1,
        new_start: 1,
        lines: vec![
            line(DiffLineType::Deletion, Some(1), None, "a = 1\n"),
            line(DiffLineType::Deletion, Some(2), None, "b = 2"),
            line(DiffLineType::NoNewlineMarker, None, None, "\n\\ No newline at end of file\n"),
            line(DiffLineType::Addition, None, Some(1), "a = 2\n"),
            line(DiffLineType::Addition, None, Some(2), "b = 3\n"),
            line(DiffLineType::Addition, None, Some(3), "c = 4"),
            line(DiffLineType::NoNewlineMarker, None, None, "\n\\ No newline at end of file\n"),
        ],
    }];
    let sel = [pos(Some(1), None), pos(Some(2), None)];
    let r = new_index_content(&sel, &hunks, "a = 1\nb = 2", false);
    assert_eq!(r, Ok(String::new()));
}

#[test]
fn stage_addition_after_no_newline_marker() {
    let hunks = vec![Hunk {
        old_start: 1,
        new_start: 1,
        lines: vec![
            line(DiffLineType::Deletion, Some(1), None, "a = 1"),
            line(DiffLineType::NoNewlineMarker, None, None, "\n\\ No newline at end of file\n"),
            line(DiffLineType::Addition, None, Some(1), "a = 2\n"),
        ],
    }];
    let sel = [pos(None, Some(1))];
    let r = new_index_content(&sel, &hunks, "a = 1", false);
    assert_eq!(r, Ok("a = 1\na = 2\n".to_string()));
}

#[test]
fn empty_selection_keeps_baseline() {
    let r = apply_selection(&[], &three_added(), &owned(&["0"]), false);
    assert_eq!(r, Ok("0\n".to_string()));
}

#[test]
fn unknown_position_is_malformed() {
    let r = apply_selection(&[pos(None, Some(9))], &three_added(), &owned(&["0"]), false);
    assert_eq!(r, Err(StageError::MalformedSelection));
}

#[test]
fn lines_outside_hunks_are_copied() {
    let hunks = vec![Hunk {
        old_start: 3,
        new_start: 3,
        lines: vec![
            line(DiffLineType::Context, Some(3), Some(3), "c\n"),
            line(DiffLineType::Deletion, Some(4), None, "d\n"),
            line(DiffLineType::Addition, None, Some(4), "D\n"),
        ],
    }];
    let base = owned(&["a", "b", "c", "d", "e"]);
    let sel = [pos(Some(4), None), pos(None, Some(4))];
    let r = apply_selection(&sel, &hunks, &base, false);
    assert_eq!(r, Ok("a\nb\nc\nD\ne\n".to_string()));
    let only_deletion = apply_selection(&[pos(Some(4), None)], &hunks, &base, false);
    assert_eq!(only_deletion, Ok("a\nb\nc\ne\n".to_string()));
}

#[test]
fn unstage_restores_deleted_line() {
    // last commit "x\ny\n", index "x\n"
    let hunks = vec![Hunk {
        old_start: 1,
        new_start: 1,
        lines: vec![
            line(DiffLineType::Context, Some(1), Some(1), "x\n"),
            line(DiffLineType::Deletion, Some(2), None, "y\n"),
        ],
    }];
    let r = apply_selection(&[pos(Some(2), None)], &hunks, &owned(&["x"]), true);
    assert_eq!(r, Ok("x\ny\n".to_string()));
    let unchosen = apply_selection(&[pos(Some(1), Some(1))], &hunks, &owned(&["x"]), true);
    assert_eq!(unchosen, Ok("x\n".to_string()));
}

#[test]
fn two_hunks_only_second_chosen() {
    let hunks = vec![
        Hunk { old_start: 1, new_start: 1, lines: vec![line(DiffLineType::Addition, None, Some(1), "new\n")] },
        Hunk {
            old_start: 3,
            new_start: 4,
            lines: vec![line(DiffLineType::Deletion, Some(3), None, "c\n")],
        },
    ];
    let r = apply_selection(&[pos(Some(3), None)], &hunks, &owned(&["a", "b", "c", "d"]), false);
    assert_eq!(r, Ok("a\nb\nd\n".to_string()));
}

#[test]
fn indexed_text_is_split_into_lines() {
    // an empty selection copies every line of the indexed text
    let r = new_index_content(&[], &[], "p\r\nq\nr", false);
    assert_eq!(r, Ok("p\nq\nr\n".to_string()));
    let empty = new_index_content(&[], &[], "", false);
    assert_eq!(empty, Ok(String::new()));
}
