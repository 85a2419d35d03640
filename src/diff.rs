//! Line-based three-way comparison: two-way line edits, the conflicts
//! between two sets of edits, and the comparison that combines them.
use vstd::prelude::*;

use crate::model::{
    conflict_views, edit_views, Conflict, ConflictView, DiffResponse, EditView, TextChange,
};
use crate::text::{join_lines, joined, lines_of, split_lines, views};

use similar::{ChangeTag, TextDiff};

verus! {

/// The kind of one step of a line diff.
#[derive(PartialEq, Eq, Structural, Clone, Copy, Debug)]
pub enum LineTag {
    Equal,
    Delete,
    Insert,
}

/// The steps of the line diff from `old` to `new`, each with its line.
pub uninterp spec fn line_diff(old: Seq<char>, new: Seq<char>) -> Seq<(LineTag, Seq<char>)>;

/// Relies on `similar::TextDiff::from_lines` and `iter_all_changes`: the
/// steps of a Myers line diff, each with its tag and line. The diff first
/// takes the common prefix as equal, so two equal texts give equal steps only.
#[verifier::external_body]
fn line_diff_steps(old: &str, new: &str) -> (r: Vec<(LineTag, String)>)
    ensures
        r@.len() == line_diff(old@, new@).len(),
        forall|i: int|
            0 <= i < r@.len() ==> r@[i].0 == line_diff(old@, new@)[i].0 && r@[i].1@ == line_diff(
                old@,
                new@,
            )[i].1,
        old@ == new@ ==> forall|i: int| 0 <= i < r@.len() ==> r@[i].0 == LineTag::Equal,
{
    let diff = TextDiff::from_lines(old, new);
    let mut steps = Vec::new();
    for change in diff.iter_all_changes() {
        let tag = match change.tag() {
            ChangeTag::Equal => LineTag::Equal,
            ChangeTag::Delete => LineTag::Delete,
            ChangeTag::Insert => LineTag::Insert,
        };
        steps.push((tag, change.value().to_string()));
    }
    steps
}

/// How many lines of the old text the steps `ops` go past.
pub open spec fn old_lines_passed(ops: Seq<(LineTag, Seq<char>)>) -> nat
    decreases ops.len(),
{
    if ops.len() == 0 {
        0
    } else if ops.last().0 == LineTag::Insert {
        old_lines_passed(ops.drop_last())
    } else {
        old_lines_passed(ops.drop_last()) + 1
    }
}

/// The line edits of the diff steps `ops`: a deletion covers the one old
/// line it removes, an insertion sits before the next old line.
pub open spec fn edits_of(ops: Seq<(LineTag, Seq<char>)>) -> Seq<EditView>
    decreases ops.len(),
{
    if ops.len() == 0 {
        Seq::empty()
    } else {
        let prev = edits_of(ops.drop_last());
        let at = old_lines_passed(ops.drop_last());
        match ops.last().0 {
            LineTag::Equal => prev,
            LineTag::Delete => prev.push(
                EditView { start_line: at, end_line: at + 1, content: ops.last().1 },
            ),
            LineTag::Insert => prev.push(
                EditView { start_line: at, end_line: at, content: ops.last().1 },
            ),
        }
    }
}

/// The line edits from `old` to `new`.
pub open spec fn text_edits(old: Seq<char>, new: Seq<char>) -> Seq<EditView> {
    edits_of(line_diff(old, new))
}

proof fn lemma_old_lines_passed_bound(ops: Seq<(LineTag, Seq<char>)>)
    ensures
        old_lines_passed(ops) <= ops.len(),
    decreases ops.len(),
{
    if ops.len() > 0 {
        lemma_old_lines_passed_bound(ops.drop_last());
    }
}

/// The line edits that turn `old_text` into `new_text`.
pub fn diff_text(old_text: &str, new_text: &str) -> (r: Vec<TextChange>)
    ensures
        edit_views(r@) == text_edits(old_text@, new_text@),
        old_text@ == new_text@ ==> r@.len() == 0,
{
    let steps = line_diff_steps(old_text, new_text);
    let ghost ops = line_diff(old_text@, new_text@);
    let mut changes: Vec<TextChange> = Vec::new();
    let mut line_number: usize = 0;
    let mut i: usize = 0;
    while i < steps.len()
        invariant
            i <= steps@.len(),
            steps@.len() == ops.len(),
            forall|k: int| 0 <= k < steps@.len() ==> steps@[k].0 == ops[k].0 && steps@[k].1@ == ops[k].1,
            line_number == old_lines_passed(ops.subrange(0, i as int)),
            edit_views(changes@) == edits_of(ops.subrange(0, i as int)),
            old_text@ == new_text@ ==> forall|k: int|
                0 <= k < steps@.len() ==> steps@[k].0 == LineTag::Equal,
            old_text@ == new_text@ ==> changes@.len() == 0,
        decreases steps.len() - i,
    {
        let ghost pre = ops.subrange(0, i as int);
        assert(ops.subrange(0, i + 1).drop_last() =~= pre);
        proof {
            lemma_old_lines_passed_bound(pre);
        }
        let tag = steps[i].0;
        match tag {
            LineTag::Delete => {
                changes.push(
                    TextChange {
                        start_line: line_number,
                        end_line: line_number + 1,
                        content: steps[i].1.clone(),
                    },
                );
                line_number = line_number + 1;
            },
            LineTag::Insert => {
                changes.push(
                    TextChange {
                        start_line: line_number,
                        end_line: line_number,
                        content: steps[i].1.clone(),
                    },
                );
            },
            LineTag::Equal => {
                line_number = line_number + 1;
            },
        }
        assert(edit_views(changes@) =~= edits_of(ops.subrange(0, i + 1)));
        i = i + 1;
    }
    assert(ops.subrange(0, steps@.len() as int) =~= ops);
    changes
}

/// Whether two edits touch a common base line: their half-open ranges
/// intersect, and an insertion conflicts only strictly inside the other range.
pub open spec fn edits_overlap(a: EditView, b: EditView) -> bool {
    a.start_line < b.end_line && b.start_line < a.end_line
}

/// Whether two line edits overlap (see `edits_overlap`).
pub fn changes_overlap(change1: &TextChange, change2: &TextChange) -> (r: bool)
    ensures
        r == edits_overlap(change1@, change2@),
{
    change1.start_line < change2.end_line && change2.start_line < change1.end_line
}

/// The lines of `ls` in `[start, end)`, both clamped to the number of lines.
pub open spec fn line_range(ls: Seq<Seq<char>>, start: nat, end: nat) -> Seq<Seq<char>> {
    let s = if start < ls.len() { start as int } else { ls.len() as int };
    let e = if end < ls.len() { end as int } else { ls.len() as int };
    ls.subrange(s, if e < s { s } else { e })
}

/// The lines in `[start_line, end_line)` of `lines`, clamped, joined with `\n`.
pub fn extract_lines(lines: &Vec<String>, start_line: usize, end_line: usize) -> (r: String)
    ensures
        r@ == join_lines(line_range(views(lines@), start_line as nat, end_line as nat)),
{
    let n = lines.len();
    let s = if start_line < n { start_line } else { n };
    let e0 = if end_line < n { end_line } else { n };
    let e = if e0 < s { s } else { e0 };
    let mut part: Vec<String> = Vec::new();
    let mut k: usize = s;
    while k < e
        invariant
            s <= k <= e <= lines@.len(),
            views(part@) == views(lines@).subrange(s as int, k as int),
        decreases e - k,
    {
        let line = lines[k].clone();
        assert(line@ == views(lines@)[k as int]);
        let ghost old_part = part@;
        part.push(line);
        assert(part@ == old_part.push(line));
        assert(views(old_part).len() == k - s);
        assert forall|m: int| 0 <= m < k - s implies views(part@)[m] == views(old_part)[m] by {
            assert(part@[m] == old_part[m]);
        }
        assert(views(part@) =~= views(lines@).subrange(s as int, k + 1));
        k = k + 1;
    }
    assert(line_range(views(lines@), start_line as nat, end_line as nat) == views(lines@).subrange(
        s as int,
        e as int,
    ));
    joined(&part)
}

/// The conflict that the submitter's edit `y` and the head's edit `t` make:
/// `y`'s range, with the base and submitted text over it, and the head's text
/// over `t`'s range.
pub open spec fn conflict_between(
    y: EditView,
    t: EditView,
    base: Seq<Seq<char>>,
    yours: Seq<Seq<char>>,
    theirs: Seq<Seq<char>>,
) -> ConflictView {
    ConflictView {
        start_line: y.start_line,
        end_line: y.end_line,
        base_content: join_lines(line_range(base, y.start_line, y.end_line)),
        your_content: join_lines(line_range(yours, y.start_line, y.end_line)),
        current_content: join_lines(line_range(theirs, t.start_line, t.end_line)),
    }
}

/// The conflicts of the edit `y` with each edit of `ts` that it overlaps, in order.
pub open spec fn conflicts_with(
    y: EditView,
    ts: Seq<EditView>,
    base: Seq<Seq<char>>,
    yours: Seq<Seq<char>>,
    theirs: Seq<Seq<char>>,
) -> Seq<ConflictView>
    decreases ts.len(),
{
    if ts.len() == 0 {
        Seq::empty()
    } else {
        let prev = conflicts_with(y, ts.drop_last(), base, yours, theirs);
        if edits_overlap(y, ts.last()) {
            prev.push(conflict_between(y, ts.last(), base, yours, theirs))
        } else {
            prev
        }
    }
}

/// The conflicts of every overlapping pair of `ys` and `ts`, ordered by the
/// edit of `ys` first and the edit of `ts` second.
pub open spec fn conflicts_between(
    ys: Seq<EditView>,
    ts: Seq<EditView>,
    base: Seq<Seq<char>>,
    yours: Seq<Seq<char>>,
    theirs: Seq<Seq<char>>,
) -> Seq<ConflictView>
    decreases ys.len(),
{
    if ys.len() == 0 {
        Seq::empty()
    } else {
        conflicts_between(ys.drop_last(), ts, base, yours, theirs) + conflicts_with(
            ys.last(),
            ts,
            base,
            yours,
            theirs,
        )
    }
}

/// The conflicts between the submitter's edits and the head's edits, with
/// the text of each region taken from the three contents.
pub fn detect_conflicts(
    your_changes: &Vec<TextChange>,
    their_changes: &Vec<TextChange>,
    base_content: &str,
    your_content: &str,
    their_content: &str,
) -> (r: Vec<Conflict>)
    ensures
        conflict_views(r@) == conflicts_between(
            edit_views(your_changes@),
            edit_views(their_changes@),
            split_lines(base_content@),
            split_lines(your_content@),
            split_lines(their_content@),
        ),
{
    let base_lines = lines_of(base_content);
    let your_lines = lines_of(your_content);
    let their_lines = lines_of(their_content);
    let ghost ys = edit_views(your_changes@);
    let ghost ts = edit_views(their_changes@);
    let ghost bl = split_lines(base_content@);
    let ghost yl = split_lines(your_content@);
    let ghost tl = split_lines(their_content@);
    let mut conflicts: Vec<Conflict> = Vec::new();
    let mut i: usize = 0;
    while i < your_changes.len()
        invariant
            i <= your_changes@.len(),
            ys == edit_views(your_changes@),
            ts == edit_views(their_changes@),
            views(base_lines@) == bl,
            views(your_lines@) == yl,
            views(their_lines@) == tl,
            conflict_views(conflicts@) == conflicts_between(ys.subrange(0, i as int), ts, bl, yl, tl),
        decreases your_changes.len() - i,
    {
        let yc = &your_changes[i];
        let ghost before = conflict_views(conflicts@);
        let mut j: usize = 0;
        while j < their_changes.len()
            invariant
                i < your_changes@.len(),
                j <= their_changes@.len(),
                yc == your_changes@[i as int],
                ys == edit_views(your_changes@),
                ts == edit_views(their_changes@),
                views(base_lines@) == bl,
                views(your_lines@) == yl,
                views(their_lines@) == tl,
                conflict_views(conflicts@) == before + conflicts_with(
                    ys[i as int],
                    ts.subrange(0, j as int),
                    bl,
                    yl,
                    tl,
                ),
            decreases their_changes.len() - j,
        {
            let tc = &their_changes[j];
            assert(ts.subrange(0, j + 1).drop_last() =~= ts.subrange(0, j as int));
            assert(ts.subrange(0, j + 1).last() == tc@);
            assert(ys[i as int] == yc@);
            let ghost prev = conflict_views(conflicts@);
            if changes_overlap(yc, tc) {
                let base_section = extract_lines(&base_lines, yc.start_line, yc.end_line);
                let your_section = extract_lines(&your_lines, yc.start_line, yc.end_line);
                let their_section = extract_lines(&their_lines, tc.start_line, tc.end_line);
                conflicts.push(
                    Conflict {
                        start_line: yc.start_line,
                        end_line: yc.end_line,
                        base_content: base_section,
                        your_content: your_section,
                        current_content: their_section,
                    },
                );
                assert(conflict_views(conflicts@) =~= prev.push(
                    conflict_between(yc@, tc@, bl, yl, tl),
                ));
            }
            assert(conflict_views(conflicts@) =~= before + conflicts_with(
                ys[i as int],
                ts.subrange(0, j + 1),
                bl,
                yl,
                tl,
            ));
            j = j + 1;
        }
        assert(ts.subrange(0, their_changes@.len() as int) =~= ts);
        assert(ys.subrange(0, i + 1).drop_last() =~= ys.subrange(0, i as int));
        i = i + 1;
    }
    assert(ys.subrange(0, your_changes@.len() as int) =~= ys);
    conflicts
}

/// The conflicts of a three-way comparison of `base` against the submitted
/// text `yours` and the current head `theirs`.
pub open spec fn three_way_conflicts(base: Seq<char>, yours: Seq<char>, theirs: Seq<char>) -> Seq<
    ConflictView,
> {
    conflicts_between(
        text_edits(base, yours),
        text_edits(base, theirs),
        split_lines(base),
        split_lines(yours),
        split_lines(theirs),
    )
}

/// Compares `your_content` and `their_content` against `base_content`: the
/// edits of each side, base to yours first, and the conflicts between them.
/// The result can be merged automatically exactly when there is no conflict.
pub fn compare_versions(base_content: &str, your_content: &str, their_content: &str) -> (r:
    DiffResponse)
    ensures
        edit_views(r.changes@) == text_edits(base_content@, your_content@) + text_edits(
            base_content@,
            their_content@,
        ),
        conflict_views(r.conflicts@) == three_way_conflicts(
            base_content@,
            your_content@,
            their_content@,
        ),
        r.can_auto_merge == (r.conflicts@.len() == 0),
        r.base_version@ == "base"@,
        r.compare_version@ == "compare"@,
        base_content@ == your_content@ && your_content@ == their_content@ ==> r.changes@.len() == 0
            && r.conflicts@.len() == 0,
{
    let mut your_changes = diff_text(base_content, your_content);
    let mut their_changes = diff_text(base_content, their_content);
    let conflicts = detect_conflicts(
        &your_changes,
        &their_changes,
        base_content,
        your_content,
        their_content,
    );
    let ghost ys = your_changes@;
    let ghost ts = their_changes@;
    your_changes.append(&mut their_changes);
    assert(edit_views(your_changes@) =~= edit_views(ys) + edit_views(ts));
    let can_auto_merge = conflicts.len() == 0;
    DiffResponse {
        base_version: String::from_str("base"),
        compare_version: String::from_str("compare"),
        changes: your_changes,
        conflicts,
        can_auto_merge,
    }
}

/// The merged line at index `i` of the base lines `b`, the submitted lines
/// `y` and the head's lines `t`; `None` where both sides changed the line
/// differently.
pub open spec fn merge_line(b: Seq<Seq<char>>, y: Seq<Seq<char>>, t: Seq<Seq<char>>, i: int) -> Option<
    Seq<char>,
> {
    let in_b = i < b.len();
    let in_y = i < y.len();
    let in_t = i < t.len();
    if in_b && in_y && in_t {
        if y[i] != b[i] && t[i] != b[i] {
            if y[i] == t[i] {
                Some(y[i])
            } else {
                None
            }
        } else if y[i] != b[i] {
            Some(y[i])
        } else if t[i] != b[i] {
            Some(t[i])
        } else {
            Some(b[i])
        }
    } else if in_y {
        Some(y[i])
    } else if in_t {
        Some(t[i])
    } else {
        Some(b[i])
    }
}

/// The number of lines of the longest of the three.
pub open spec fn max_lines(b: Seq<Seq<char>>, y: Seq<Seq<char>>, t: Seq<Seq<char>>) -> nat {
    let m = if y.len() > t.len() { y.len() } else { t.len() };
    if m > b.len() { m } else { b.len() }
}

/// Whether every line index has a merged line.
pub open spec fn lines_mergeable(b: Seq<Seq<char>>, y: Seq<Seq<char>>, t: Seq<Seq<char>>) -> bool {
    forall|i: int| 0 <= i < max_lines(b, y, t) ==> (#[trigger] merge_line(b, y, t, i)) is Some
}

/// The merged lines, index by index.
pub open spec fn merged_lines(b: Seq<Seq<char>>, y: Seq<Seq<char>>, t: Seq<Seq<char>>) -> Seq<
    Seq<char>,
> {
    Seq::new(max_lines(b, y, t), |i: int| merge_line(b, y, t, i)->0)
}

/// The automatic three-way merge: the merged lines joined with `\n` when
/// the comparison finds no conflict and every line merges; `None` otherwise.
pub open spec fn auto_merge(base: Seq<char>, yours: Seq<char>, theirs: Seq<char>) -> Option<
    Seq<char>,
> {
    let b = split_lines(base);
    let y = split_lines(yours);
    let t = split_lines(theirs);
    if three_way_conflicts(base, yours, theirs).len() == 0 && lines_mergeable(b, y, t) {
        Some(join_lines(merged_lines(b, y, t)))
    } else {
        None
    }
}

/// Merges the submitted text and the head's text over their common base,
/// line by line (see `auto_merge`).
pub fn attempt_auto_merge(base_content: &str, your_content: &str, their_content: &str) -> (r:
    Option<String>)
    ensures
        r matches Some(m) ==> auto_merge(base_content@, your_content@, their_content@) == Some(m@),
        r is None ==> auto_merge(base_content@, your_content@, their_content@) is None,
{
    let diff_result = compare_versions(base_content, your_content, their_content);
    if !diff_result.can_auto_merge {
        return None;
    }
    let base_lines = lines_of(base_content);
    let your_lines = lines_of(your_content);
    let their_lines = lines_of(their_content);
    let ghost b = views(base_lines@);
    let ghost y = views(your_lines@);
    let ghost t = views(their_lines@);
    let m = if your_lines.len() > their_lines.len() {
        your_lines.len()
    } else {
        their_lines.len()
    };
    let n = if m > base_lines.len() {
        m
    } else {
        base_lines.len()
    };
    let mut result: Vec<String> = Vec::new();
    let mut i: usize = 0;
    while i < n
        invariant
            n == max_lines(b, y, t),
            i <= n,
            b == views(base_lines@),
            y == views(your_lines@),
            t == views(their_lines@),
            b == split_lines(base_content@),
            y == split_lines(your_content@),
            t == split_lines(their_content@),
            three_way_conflicts(base_content@, your_content@, their_content@).len() == 0,
            views(result@) == merged_lines(b, y, t).subrange(0, i as int),
            forall|k: int| 0 <= k < i ==> (#[trigger] merge_line(b, y, t, k)) is Some,
        decreases n - i,
    {
        let in_b = i < base_lines.len();
        let in_y = i < your_lines.len();
        let in_t = i < their_lines.len();
        let line: String;
        if in_b && in_y && in_t {
            let y_changed = !(your_lines[i] == base_lines[i]);
            let t_changed = !(their_lines[i] == base_lines[i]);
            if y_changed && t_changed {
                if your_lines[i] == their_lines[i] {
                    line = your_lines[i].clone();
                } else {
                    assert(merge_line(b, y, t, i as int) is None);
                    assert(!lines_mergeable(b, y, t));
                    return None;
                }
            } else if y_changed {
                line = your_lines[i].clone();
            } else if t_changed {
                line = their_lines[i].clone();
            } else {
                line = base_lines[i].clone();
            }
        } else if in_y {
            line = your_lines[i].clone();
        } else if in_t {
            line = their_lines[i].clone();
        } else {
            line = base_lines[i].clone();
        }
        assert(merge_line(b, y, t, i as int) == Some(line@));
        let ghost old_result = result@;
        result.push(line);
        assert(views(result@) =~= merged_lines(b, y, t).subrange(0, i + 1)) by {
            assert(result@ == old_result.push(line));
            assert(views(old_result).len() == i);
            assert(old_result.len() == i);
            assert forall|k: int| 0 <= k < i implies views(result@)[k] == views(old_result)[k] by {
                assert(result@[k] == old_result[k]);
            }
        }
        i = i + 1;
    }
    assert(merged_lines(b, y, t).subrange(0, n as int) =~= merged_lines(b, y, t));
    Some(joined(&result))
}

} // verus!
