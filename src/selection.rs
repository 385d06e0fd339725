//! The selection resolver: from a baseline, the hunks of a diff against it and
//! a set of chosen lines, the content of the baseline with exactly those
//! lines' changes applied.
use vstd::prelude::*;
use vstd::string::*;

use crate::error::StageError;

verus! {

/// Where a diff line stands: its number in the old snapshot, in the new one,
/// or in both (a context line).
#[derive(Clone, Copy, Debug, PartialEq, Eq, Structural, Hash)]
pub struct DiffLinePosition {
    pub old_lineno: Option<u32>,
    pub new_lineno: Option<u32>,
}

/// What a diff line does between the old and the new snapshot.
#[derive(Clone, Copy, Debug, PartialEq, Eq, Structural)]
pub enum DiffLineType {
    /// Present on both sides.
    Context,
    /// Present on the new side only.
    Addition,
    /// Present on the old side only.
    Deletion,
    /// A "no newline at end of file" note; it carries no line of content.
    NoNewlineMarker,
}

/// One line of a hunk. `content` is the line's text as the diff gives it,
/// with its line terminator when it has one.
#[derive(Clone, Debug)]
pub struct DiffLine {
    pub origin: DiffLineType,
    pub position: DiffLinePosition,
    pub content: String,
}

/// A contiguous block of a diff. `old_start` and `new_start` are the
/// one-based numbers of the block's first line on each side.
#[derive(Clone, Debug)]
pub struct Hunk {
    pub old_start: u32,
    pub new_start: u32,
    pub lines: Vec<DiffLine>,
}

/// The state of the walk over the baseline: how many baseline lines have
/// been consumed, and the lines written so far.
pub type Walk = (nat, Seq<Seq<char>>);

/// The text of each line.
pub open spec fn texts(v: Seq<String>) -> Seq<Seq<char>> {
    v.map_values(|s: String| s@)
}

/// The origin of a line that brings content the baseline lacks. In stage
/// mode (`is_stage == false`) the baseline is the old side of the diff, in
/// unstage mode it is the new side.
pub open spec fn insert_origin(is_stage: bool) -> DiffLineType {
    if is_stage {
        DiffLineType::Deletion
    } else {
        DiffLineType::Addition
    }
}

/// The origin of a line that stands for a line of the baseline that the
/// other snapshot lacks.
pub open spec fn remove_origin(is_stage: bool) -> DiffLineType {
    if is_stage {
        DiffLineType::Addition
    } else {
        DiffLineType::Deletion
    }
}

/// A diff line's text without its line terminator.
pub open spec fn line_text(content: Seq<char>) -> Seq<char> {
    if content.len() > 0 && content.last() == '\n' {
        content.drop_last()
    } else {
        content
    }
}

/// The number, on the baseline's side, of a hunk's first line.
pub open spec fn hunk_start(h: Hunk, is_stage: bool) -> nat {
    if is_stage {
        h.new_start as nat
    } else {
        h.old_start as nat
    }
}

/// Copy the next baseline line, if there is one.
pub open spec fn keep_line(base: Seq<Seq<char>>, w: Walk) -> Walk {
    if w.0 < base.len() {
        (w.0 + 1, w.1.push(base[w.0 as int]))
    } else {
        w
    }
}

/// Drop the next baseline line, if there is one.
pub open spec fn skip_line(base: Seq<Seq<char>>, w: Walk) -> Walk {
    if w.0 < base.len() {
        (w.0 + 1, w.1)
    } else {
        w
    }
}

/// Copy the baseline lines that come before line number `start`.
pub open spec fn catch_up(base: Seq<Seq<char>>, start: nat, w: Walk) -> Walk {
    let target: nat = if start == 0 {
        0
    } else if start - 1 < base.len() {
        (start - 1) as nat
    } else {
        base.len()
    };
    if w.0 < target {
        (target, w.1 + base.subrange(w.0 as int, target as int))
    } else {
        w
    }
}

/// One diff line: context is copied from the baseline; a line that brings
/// content is written iff chosen; a line of the baseline that the other
/// side lacks is dropped iff chosen, and copied otherwise.
pub open spec fn step_line(
    sel: Seq<DiffLinePosition>,
    base: Seq<Seq<char>>,
    is_stage: bool,
    line: DiffLine,
    w: Walk,
) -> Walk {
    let chosen = sel.contains(line.position);
    if line.origin == DiffLineType::Context {
        keep_line(base, w)
    } else if line.origin == insert_origin(is_stage) {
        if chosen {
            (w.0, w.1.push(line_text(line.content@)))
        } else {
            w
        }
    } else if line.origin == remove_origin(is_stage) {
        if chosen {
            skip_line(base, w)
        } else {
            keep_line(base, w)
        }
    } else {
        w
    }
}

pub open spec fn walk_lines(
    sel: Seq<DiffLinePosition>,
    base: Seq<Seq<char>>,
    is_stage: bool,
    lines: Seq<DiffLine>,
    w: Walk,
) -> Walk
    decreases lines.len(),
{
    if lines.len() == 0 {
        w
    } else {
        step_line(sel, base, is_stage, lines.last(), walk_lines(sel, base, is_stage, lines.drop_last(), w))
    }
}

pub open spec fn walk_hunks(
    sel: Seq<DiffLinePosition>,
    base: Seq<Seq<char>>,
    is_stage: bool,
    hunks: Seq<Hunk>,
) -> Walk
    decreases hunks.len(),
{
    if hunks.len() == 0 {
        (0, Seq::empty())
    } else {
        let h = hunks.last();
        let before = walk_hunks(sel, base, is_stage, hunks.drop_last());
        walk_lines(sel, base, is_stage, h.lines@, catch_up(base, hunk_start(h, is_stage), before))
    }
}

/// The lines of the new baseline: the walk over every hunk, then the rest of
/// the baseline.
pub open spec fn resolved_lines(
    sel: Seq<DiffLinePosition>,
    hunks: Seq<Hunk>,
    base: Seq<Seq<char>>,
    is_stage: bool,
) -> Seq<Seq<char>> {
    let w = walk_hunks(sel, base, is_stage, hunks);
    w.1 + base.subrange(w.0 as int, base.len() as int)
}

/// Text made of lines, each followed by a newline (so no lines give the
/// empty text).
pub open spec fn joined(lines: Seq<Seq<char>>) -> Seq<char>
    decreases lines.len(),
{
    if lines.len() == 0 {
        Seq::empty()
    } else {
        joined(lines.drop_last()) + lines.last() + seq!['\n']
    }
}

/// Some line of some hunk stands at `pos`.
pub open spec fn in_hunks(hunks: Seq<Hunk>, pos: DiffLinePosition) -> bool {
    exists|j: int, k: int|
        0 <= j < hunks.len() && 0 <= k < hunks[j].lines@.len() && #[trigger] hunks[j].lines@[k].position
            == pos
}

/// Every chosen position is the position of a line of the hunks.
pub open spec fn selection_known(sel: Seq<DiffLinePosition>, hunks: Seq<Hunk>) -> bool {
    forall|i: int| 0 <= i < sel.len() ==> in_hunks(hunks, #[trigger] sel[i])
}

/// The new content of the baseline.
pub open spec fn resolved_content(
    sel: Seq<DiffLinePosition>,
    hunks: Seq<Hunk>,
    base: Seq<Seq<char>>,
    is_stage: bool,
) -> Seq<char> {
    joined(resolved_lines(sel, hunks, base, is_stage))
}

/// One diff line taken whole: the side of the diff opposite the baseline.
pub open spec fn full_step(base: Seq<Seq<char>>, is_stage: bool, line: DiffLine, w: Walk) -> Walk {
    if line.origin == DiffLineType::Context {
        keep_line(base, w)
    } else if line.origin == insert_origin(is_stage) {
        (w.0, w.1.push(line_text(line.content@)))
    } else if line.origin == remove_origin(is_stage) {
        skip_line(base, w)
    } else {
        w
    }
}

pub open spec fn full_walk_lines(base: Seq<Seq<char>>, is_stage: bool, lines: Seq<DiffLine>, w: Walk) -> Walk
    decreases lines.len(),
{
    if lines.len() == 0 {
        w
    } else {
        full_step(base, is_stage, lines.last(), full_walk_lines(base, is_stage, lines.drop_last(), w))
    }
}

pub open spec fn full_walk_hunks(base: Seq<Seq<char>>, is_stage: bool, hunks: Seq<Hunk>) -> Walk
    decreases hunks.len(),
{
    if hunks.len() == 0 {
        (0, Seq::empty())
    } else {
        let h = hunks.last();
        let before = full_walk_hunks(base, is_stage, hunks.drop_last());
        full_walk_lines(base, is_stage, h.lines@, catch_up(base, hunk_start(h, is_stage), before))
    }
}

/// The content that the hunks lead to from the baseline: in stage mode the
/// working tree's side of the diff, in unstage mode the last commit's.
pub open spec fn target_content(hunks: Seq<Hunk>, base: Seq<Seq<char>>, is_stage: bool) -> Seq<char> {
    let w = full_walk_hunks(base, is_stage, hunks);
    joined(w.1 + base.subrange(w.0 as int, base.len() as int))
}

/// Every added or deleted line of the hunks is chosen.
pub open spec fn every_change_chosen(sel: Seq<DiffLinePosition>, hunks: Seq<Hunk>) -> bool {
    forall|j: int, k: int|
        0 <= j < hunks.len() && 0 <= k < hunks[j].lines@.len() && (hunks[j].lines@[k].origin
            == DiffLineType::Addition || hunks[j].lines@[k].origin == DiffLineType::Deletion)
            ==> sel.contains(#[trigger] hunks[j].lines@[k].position)
}

proof fn full_lines(
    sel: Seq<DiffLinePosition>,
    base: Seq<Seq<char>>,
    is_stage: bool,
    lines: Seq<DiffLine>,
    w: Walk,
)
    requires
        forall|k: int|
            0 <= k < lines.len() && (lines[k].origin == DiffLineType::Addition || lines[k].origin
                == DiffLineType::Deletion) ==> sel.contains(#[trigger] lines[k].position),
    ensures
        walk_lines(sel, base, is_stage, lines, w) == full_walk_lines(base, is_stage, lines, w),
    decreases lines.len(),
{
    if lines.len() > 0 {
        let rest = lines.drop_last();
        assert forall|k: int|
            0 <= k < rest.len() && (rest[k].origin == DiffLineType::Addition || rest[k].origin
                == DiffLineType::Deletion) implies sel.contains(#[trigger] rest[k].position) by {
            assert(rest[k] == lines[k]);
        }
        full_lines(sel, base, is_stage, rest, w);
        assert(lines.last() == lines[lines.len() - 1]);
    }
}

proof fn full_hunks(sel: Seq<DiffLinePosition>, base: Seq<Seq<char>>, is_stage: bool, hunks: Seq<Hunk>)
    requires
        every_change_chosen(sel, hunks),
    ensures
        walk_hunks(sel, base, is_stage, hunks) == full_walk_hunks(base, is_stage, hunks),
    decreases hunks.len(),
{
    if hunks.len() > 0 {
        let rest = hunks.drop_last();
        assert forall|j: int, k: int|
            0 <= j < rest.len() && 0 <= k < rest[j].lines@.len() && (rest[j].lines@[k].origin
                == DiffLineType::Addition || rest[j].lines@[k].origin == DiffLineType::Deletion)
                implies sel.contains(#[trigger] rest[j].lines@[k].position) by {
            assert(rest[j] == hunks[j]);
        }
        full_hunks(sel, base, is_stage, rest);
        let h = hunks.last();
        let last = hunks.len() - 1;
        assert(h == hunks[last]);
        assert forall|k: int|
            0 <= k < h.lines@.len() && (h.lines@[k].origin == DiffLineType::Addition
                || h.lines@[k].origin == DiffLineType::Deletion) implies sel.contains(
            #[trigger] h.lines@[k].position,
        ) by {
            assert(hunks[last].lines@[k] == h.lines@[k]);
        }
        full_lines(
            sel,
            base,
            is_stage,
            h.lines@,
            catch_up(base, hunk_start(h, is_stage), full_walk_hunks(base, is_stage, rest)),
        );
    }
}

/// Choosing every added and deleted line of the hunks gives the content the
/// hunks lead to, as taking the whole change at once would: in stage mode the
/// working tree's side.
pub proof fn full_selection_takes_whole_change(
    sel: Seq<DiffLinePosition>,
    hunks: Seq<Hunk>,
    base: Seq<Seq<char>>,
    is_stage: bool,
)
    requires
        every_change_chosen(sel, hunks),
    ensures
        resolved_content(sel, hunks, base, is_stage) == target_content(hunks, base, is_stage),
{
    full_hunks(sel, base, is_stage, hunks);
}

fn is_chosen(sel: &[DiffLinePosition], pos: DiffLinePosition) -> (r: bool)
    ensures
        r == sel@.contains(pos),
{
    let mut i: usize = 0;
    while i < sel.len()
        invariant
            i <= sel@.len(),
            forall|t: int| 0 <= t < i ==> sel@[t] != pos,
        decreases sel@.len() - i,
    {
        if sel[i] == pos {
            return true;
        }
        i += 1;
    }
    false
}

fn position_in_hunks(hunks: &[Hunk], pos: DiffLinePosition) -> (r: bool)
    ensures
        r == in_hunks(hunks@, pos),
{
    let mut j: usize = 0;
    while j < hunks.len()
        invariant
            j <= hunks@.len(),
            forall|a: int, b: int|
                0 <= a < j && 0 <= b < hunks@[a].lines@.len() ==> hunks@[a].lines@[b].position != pos,
        decreases hunks@.len() - j,
    {
        let lines = &hunks[j].lines;
        let mut k: usize = 0;
        while k < lines.len()
            invariant
                j < hunks@.len(),
                lines@ == hunks@[j as int].lines@,
                k <= lines@.len(),
                forall|b: int| 0 <= b < k ==> lines@[b].position != pos,
            decreases lines@.len() - k,
        {
            if lines[k].position == pos {
                return true;
            }
            k += 1;
        }
        j += 1;
    }
    false
}

fn strip_terminator(content: &String) -> (r: String)
    ensures
        r@ == line_text(content@),
{
    let s = content.as_str();
    let n = s.unicode_len();
    if n > 0 && s.get_char(n - 1) == '\n' {
        s.substring_char(0, n - 1).to_owned()
    } else {
        s.to_owned()
    }
}

/// Copies the next baseline line into `out`, if there is one.
fn keep_next(old_lines: &[String], cursor: &mut usize, out: &mut Vec<String>)
    requires
        *old(cursor) <= old_lines@.len(),
    ensures
        *final(cursor) <= old_lines@.len(),
        (*final(cursor) as nat, texts(final(out)@)) == keep_line(
            texts(old_lines@),
            (*old(cursor) as nat, texts(old(out)@)),
        ),
{
    if *cursor < old_lines.len() {
        out.push(old_lines[*cursor].clone());
        *cursor = *cursor + 1;
        assert(texts(final(out)@) =~= texts(old(out)@).push(texts(old_lines@)[*old(cursor) as int]));
    }
}

/// Applies one diff line to the walk over the baseline (see `step_line`).
fn apply_line(
    sel: &[DiffLinePosition],
    old_lines: &[String],
    is_stage: bool,
    line: &DiffLine,
    cursor: &mut usize,
    out: &mut Vec<String>,
)
    requires
        *old(cursor) <= old_lines@.len(),
    ensures
        *final(cursor) <= old_lines@.len(),
        (*final(cursor) as nat, texts(final(out)@)) == step_line(
            sel@,
            texts(old_lines@),
            is_stage,
            *line,
            (*old(cursor) as nat, texts(old(out)@)),
        ),
{
    let chosen = is_chosen(sel, line.position);
    let insert = if is_stage {
        DiffLineType::Deletion
    } else {
        DiffLineType::Addition
    };
    let remove = if is_stage {
        DiffLineType::Addition
    } else {
        DiffLineType::Deletion
    };
    if line.origin == DiffLineType::Context {
        keep_next(old_lines, cursor, out);
    } else if line.origin == insert {
        if chosen {
            out.push(strip_terminator(&line.content));
            assert(texts(final(out)@) =~= texts(old(out)@).push(line_text(line.content@)));
        }
    } else if line.origin == remove {
        if chosen {
            if *cursor < old_lines.len() {
                *cursor = *cursor + 1;
            }
        } else {
            keep_next(old_lines, cursor, out);
        }
    }
}

/// Applies the chosen lines of `hunks` to the baseline `old_lines`, and
/// returns the new baseline's content, each line followed by a newline.
///
/// `is_stage == false` is stage mode: the hunks go from the baseline (the
/// index) to the working tree, and chosen lines move into the index.
/// `is_stage == true` is unstage mode: the hunks go from the last commit to
/// the baseline (the index), and chosen lines move out of it.
/// Lines outside every hunk are copied unchanged. Every line of the result
/// ends with a newline, the last one included, whether or not the baseline's
/// last line had one.
pub fn apply_selection(
    lines: &[DiffLinePosition],
    hunks: &[Hunk],
    old_lines: &[String],
    is_stage: bool,
) -> (r: Result<String, StageError>)
    ensures
        r is Ok <==> selection_known(lines@, hunks@),
        r is Ok ==> r->Ok_0@ == resolved_content(lines@, hunks@, texts(old_lines@), is_stage),
        r is Err ==> r->Err_0 == StageError::MalformedSelection,
{
    let ghost base = texts(old_lines@);
    let mut i: usize = 0;
    while i < lines.len()
        invariant
            i <= lines@.len(),
            forall|t: int| 0 <= t < i ==> in_hunks(hunks@, #[trigger] lines@[t]),
        decreases lines@.len() - i,
    {
        if !position_in_hunks(hunks, lines[i]) {
            return Err(StageError::MalformedSelection);
        }
        i += 1;
    }
    let mut cursor: usize = 0;
    let mut out: Vec<String> = Vec::new();
    let mut j: usize = 0;
    while j < hunks.len()
        invariant
            j <= hunks@.len(),
            cursor <= old_lines@.len(),
            base == texts(old_lines@),
            (cursor as nat, texts(out@)) == walk_hunks(lines@, base, is_stage, hunks@.subrange(0, j as int)),
        decreases hunks@.len() - j,
    {
        let hunk = &hunks[j];
        let start: u32 = if is_stage {
            hunk.new_start
        } else {
            hunk.old_start
        };
        let ghost before = (cursor as nat, texts(out@));
        while cursor < old_lines.len() && cursor + 1 < start as usize
            invariant
                cursor <= old_lines@.len(),
                before.0 <= cursor,
                base == texts(old_lines@),
                start as nat == hunk_start(*hunk, is_stage),
                catch_up(base, start as nat, before) == catch_up(base, start as nat, (cursor as nat, texts(out@))),
            decreases old_lines@.len() - cursor,
        {
            let ghost pre = (cursor as nat, texts(out@));
            keep_next(old_lines, &mut cursor, &mut out);
            assert(pre.1 + base.subrange(pre.0 as int, pre.0 + 1 as int) =~= texts(out@));
            assert(catch_up(base, start as nat, pre).1 =~= catch_up(base, start as nat, (cursor as nat, texts(out@))).1);
        }
        assert(catch_up(base, start as nat, (cursor as nat, texts(out@))) == (cursor as nat, texts(out@)));
        let ghost caught = (cursor as nat, texts(out@));
        let mut k: usize = 0;
        while k < hunk.lines.len()
            invariant
                j < hunks@.len(),
                *hunk == hunks@[j as int],
                k <= hunk.lines@.len(),
                cursor <= old_lines@.len(),
                base == texts(old_lines@),
                (cursor as nat, texts(out@)) == walk_lines(lines@, base, is_stage, hunk.lines@.subrange(0, k as int), caught),
            decreases hunk.lines@.len() - k,
        {
            apply_line(lines, old_lines, is_stage, &hunk.lines[k], &mut cursor, &mut out);
            assert(hunk.lines@.subrange(0, k + 1).drop_last() =~= hunk.lines@.subrange(0, k as int));
            k += 1;
        }
        assert(hunk.lines@.subrange(0, hunk.lines@.len() as int) =~= hunk.lines@);
        assert(hunks@.subrange(0, j + 1).drop_last() =~= hunks@.subrange(0, j as int));
        j += 1;
    }
    assert(hunks@.subrange(0, hunks@.len() as int) =~= hunks@);
    let ghost walked = texts(out@);
    while cursor < old_lines.len()
        invariant
            cursor <= old_lines@.len(),
            base == texts(old_lines@),
            walked.len() <= texts(out@).len(),
            texts(out@) =~= walked + base.subrange(
                walk_hunks(lines@, base, is_stage, hunks@).0 as int,
                cursor as int,
            ),
            walk_hunks(lines@, base, is_stage, hunks@).0 <= cursor,
            walked == walk_hunks(lines@, base, is_stage, hunks@).1,
        decreases old_lines@.len() - cursor,
    {
        let ghost pre = texts(out@);
        out.push(old_lines[cursor].clone());
        assert(texts(out@) =~= pre.push(base[cursor as int]));
        cursor = cursor + 1;
    }
    let mut text = String::new();
    let mut t: usize = 0;
    while t < out.len()
        invariant
            t <= out@.len(),
            text@ == joined(texts(out@).subrange(0, t as int)),
        decreases out@.len() - t,
    {
        let ghost pre = text@;
        text.append(out[t].as_str());
        text.append("\n");
        proof {
            reveal_strlit("\n");
            let s = texts(out@).subrange(0, t + 1);
            assert(s.drop_last() =~= texts(out@).subrange(0, t as int));
            assert(s.last() == out@[t as int]@);
            assert(text@ =~= pre + out@[t as int]@ + seq!['\n']);
        }
        t += 1;
    }
    assert(texts(out@).subrange(0, out@.len() as int) =~= texts(out@));
    Ok(text)
}

} // verus!
