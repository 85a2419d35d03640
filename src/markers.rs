//! Conflict markers: rendering conflicts into the head's text, and taking
//! them out again to recover the accepted side.
use vstd::prelude::*;

use crate::diff::{auto_merge, attempt_auto_merge, compare_versions, three_way_conflicts};
use crate::model::{conflict_views, Conflict, ConflictView};
use crate::text::{
    chars_of, join_lines, joined, lemma_join_concat, lemma_split_join, lines_of, no_newline,
    split_lines, views,
};

use regex::Regex;

verus! {

/// The five lines that stand for one conflict: the head's text, then the
/// submitted text, between marker lines.
pub open spec fn marker_block(c: ConflictView) -> Seq<Seq<char>> {
    seq![
        "<<<<<<< CURRENT CHANGES"@,
        c.current_content,
        "======="@,
        c.your_content,
        ">>>>>>> YOUR CHANGES"@,
    ]
}

/// `ls` with the lines of `c`'s range, clamped, replaced by its marker
/// block; the block goes at the end where the range starts past the last line.
pub open spec fn place_block(ls: Seq<Seq<char>>, c: ConflictView) -> Seq<Seq<char>> {
    if c.start_line < ls.len() {
        let e = if c.end_line < ls.len() { c.end_line as int } else { ls.len() as int };
        let e2 = if e < c.start_line { c.start_line as int } else { e };
        ls.subrange(0, c.start_line as int) + marker_block(c) + ls.subrange(e2, ls.len() as int)
    } else {
        ls + marker_block(c)
    }
}

/// The blocks of all of `cs` placed into `ls`, the last conflict first.
pub open spec fn place_blocks(ls: Seq<Seq<char>>, cs: Seq<ConflictView>) -> Seq<Seq<char>>
    decreases cs.len(),
{
    if cs.len() == 0 {
        ls
    } else {
        place_blocks(place_block(ls, cs.last()), cs.drop_last())
    }
}

/// What a marked merge renders: the automatic merge (or the head's text where
/// that fails) when there is no conflict; otherwise the head's lines with the
/// block of each conflict in place.
pub open spec fn marked_merge(base: Seq<char>, yours: Seq<char>, theirs: Seq<char>) -> Seq<char> {
    let cs = three_way_conflicts(base, yours, theirs);
    if cs.len() == 0 {
        match auto_merge(base, yours, theirs) {
            Some(m) => m,
            None => theirs,
        }
    } else {
        join_lines(place_blocks(split_lines(theirs), cs))
    }
}

fn place_conflict_block(lines: &Vec<String>, c: &Conflict) -> (r: Vec<String>)
    ensures
        views(r@) == place_block(views(lines@), c@),
{
    let n = lines.len();
    let mut out: Vec<String> = Vec::new();
    let (head_end, tail_start) = if c.start_line < n {
        let e = if c.end_line < n { c.end_line } else { n };
        (c.start_line, if e < c.start_line { c.start_line } else { e })
    } else {
        (n, n)
    };
    let mut k: usize = 0;
    while k < head_end
        invariant
            head_end <= n == lines@.len(),
            k <= head_end,
            views(out@) == views(lines@).subrange(0, k as int),
        decreases head_end - k,
    {
        let line = lines[k].clone();
        let ghost old_out = out@;
        out.push(line);
        assert(views(out@) =~= views(lines@).subrange(0, k + 1)) by {
            assert(views(old_out).len() == k);
            assert forall|m: int| 0 <= m < k implies views(out@)[m] == views(old_out)[m] by {
                assert(out@[m] == old_out[m]);
            }
        }
        k = k + 1;
    }
    let ghost head = views(out@);
    out.push(String::from_str("<<<<<<< CURRENT CHANGES"));
    out.push(c.current_content.clone());
    out.push(String::from_str("======="));
    out.push(c.your_content.clone());
    out.push(String::from_str(">>>>>>> YOUR CHANGES"));
    assert(views(out@) =~= head + marker_block(c@)) by {
        assert(views(out@).len() == head.len() + 5);
        assert forall|m: int| 0 <= m < head.len() implies views(out@)[m] == head[m] by {}
    }
    let mut k: usize = tail_start;
    while k < n
        invariant
            head_end <= tail_start <= n == lines@.len(),
            tail_start <= k <= n,
            views(out@) == head + marker_block(c@) + views(lines@).subrange(
                tail_start as int,
                k as int,
            ),
        decreases n - k,
    {
        let line = lines[k].clone();
        assert(line@ == views(lines@)[k as int]);
        let ghost old_out = out@;
        out.push(line);
        assert(views(out@) =~= views(old_out).push(line@)) by {
            assert(out@ == old_out.push(line));
            assert forall|m: int| 0 <= m < old_out.len() implies views(out@)[m] == views(
                old_out,
            )[m] by {
                assert(out@[m] == old_out[m]);
            }
        }
        assert(views(lines@).subrange(tail_start as int, k + 1) =~= views(lines@).subrange(
            tail_start as int,
            k as int,
        ).push(line@));
        assert(views(out@) =~= head + marker_block(c@) + views(lines@).subrange(
            tail_start as int,
            k + 1,
        ));
        k = k + 1;
    }
    proof {
        if c.start_line < n {
            assert(views(out@) =~= place_block(views(lines@), c@));
        } else {
            assert(views(lines@).subrange(0, n as int) =~= views(lines@));
            assert(views(out@) =~= place_block(views(lines@), c@));
        }
    }
    out
}

/// The head's text with each conflict of the three-way comparison rendered
/// as a marker block (see `marked_merge`).
pub fn create_marked_merge(base_content: &str, your_content: &str, their_content: &str) -> (r:
    String)
    ensures
        r@ == marked_merge(base_content@, your_content@, their_content@),
{
    let diff_result = compare_versions(base_content, your_content, their_content);
    if diff_result.conflicts.len() == 0 {
        return match attempt_auto_merge(base_content, your_content, their_content) {
            Some(m) => m,
            None => String::from_str(their_content),
        };
    }
    let ghost cs = conflict_views(diff_result.conflicts@);
    let mut result = lines_of(their_content);
    let mut i: usize = diff_result.conflicts.len();
    assert(cs.subrange(0, i as int) =~= cs);
    while i > 0
        invariant
            i <= diff_result.conflicts@.len(),
            cs == conflict_views(diff_result.conflicts@),
            place_blocks(views(result@), cs.subrange(0, i as int)) == place_blocks(
                split_lines(their_content@),
                cs,
            ),
        decreases i,
    {
        let next = place_conflict_block(&result, &diff_result.conflicts[i - 1]);
        assert(cs.subrange(0, i as int).drop_last() =~= cs.subrange(0, i - 1));
        result = next;
        i = i - 1;
    }
    assert(cs.subrange(0, diff_result.conflicts@.len() as int) =~= cs);
    joined(&result)
}

/// The start of the line that opens a conflict block.
pub open spec fn open_marker() -> Seq<char> {
    seq!['<', '<', '<', '<', '<', '<', '<', ' ']
}

/// The line that separates the two sides of a conflict block.
pub open spec fn separator_line() -> Seq<char> {
    seq!['=', '=', '=', '=', '=', '=', '=']
}

/// The start of the line that closes a conflict block.
pub open spec fn close_marker() -> Seq<char> {
    seq!['>', '>', '>', '>', '>', '>', '>', ' ']
}

/// Whether `line` starts with `prefix`.
pub open spec fn starts_with(line: Seq<char>, prefix: Seq<char>) -> bool {
    prefix.len() <= line.len() && line.subrange(0, prefix.len() as int) == prefix
}

/// Whether `s` holds an opening marker with a newline somewhere after it,
/// that is, a line that opens a conflict block.
pub open spec fn has_open_marker_line(s: Seq<char>) -> bool {
    exists|i: int, j: int|
        #![trigger s.subrange(i, i + 8), s[j]]
        0 <= i && i + 8 <= j < s.len() && s.subrange(i, i + 8) == open_marker() && s[j] == '\n'
}

/// Relies on `regex::Regex::is_match` for the pattern `<<<<<<< .*\n`, where
/// `.` matches any character but a newline: it matches where an opening
/// marker is followed, later, by a newline.
#[verifier::external_body]
fn has_conflict_start(content: &str) -> (r: bool)
    ensures
        r == has_open_marker_line(content@),
{
    Regex::new(r"<<<<<<< .*\n").unwrap().is_match(content)
}

/// The scan over marker lines: the lines kept so far, whether a block is
/// open, and whether the scan is in its current-changes side.
pub open spec fn strip_step(st: (Seq<Seq<char>>, bool, bool), line: Seq<char>) -> (
    Seq<Seq<char>>,
    bool,
    bool,
) {
    if starts_with(line, open_marker()) {
        (st.0, true, true)
    } else if line == separator_line() {
        (st.0, st.1, false)
    } else if starts_with(line, close_marker()) {
        (st.0, false, st.2)
    } else if !st.1 || !st.2 {
        (st.0.push(line), st.1, st.2)
    } else {
        st
    }
}

/// The scan over all of `ls`: a line outside any block is kept, the
/// current-changes side of a block is dropped, the other side is kept, and
/// the marker lines themselves are dropped.
pub open spec fn strip_lines(ls: Seq<Seq<char>>) -> (Seq<Seq<char>>, bool, bool)
    decreases ls.len(),
{
    if ls.len() == 0 {
        (Seq::empty(), false, true)
    } else {
        strip_step(strip_lines(ls.drop_last()), ls.last())
    }
}

/// The text that resolving `s` gives: `s` itself when it holds no line that
/// opens a conflict block, otherwise the kept lines joined with `\n`.
pub open spec fn resolved_content(s: Seq<char>) -> Seq<char> {
    if has_open_marker_line(s) {
        join_lines(strip_lines(split_lines(s)).0)
    } else {
        s
    }
}

/// Content that holds no opening conflict marker anywhere comes back from
/// marker stripping exactly as it was.
pub proof fn lemma_unmarked_content_unchanged(s: Seq<char>)
    requires
        forall|i: int| 0 <= i && i + 8 <= s.len() ==> #[trigger] s.subrange(i, i + 8) != open_marker(),
    ensures
        resolved_content(s) == s,
{
}

/// The scan over `ls` from the state `st`.
pub open spec fn strip_fold(st: (Seq<Seq<char>>, bool, bool), ls: Seq<Seq<char>>) -> (
    Seq<Seq<char>>,
    bool,
    bool,
)
    decreases ls.len(),
{
    if ls.len() == 0 {
        st
    } else {
        strip_step(strip_fold(st, ls.drop_last()), ls.last())
    }
}

/// A line that the marker scan passes through: no newline and no marker.
pub open spec fn plain_line(line: Seq<char>) -> bool {
    no_newline(line) && !starts_with(line, open_marker()) && line != separator_line()
        && !starts_with(line, close_marker())
}

/// The lines that a rendered block leaves once its markers are stripped:
/// the lines around it, and the submitted side in its place.
pub open spec fn kept_with_your_side(ls: Seq<Seq<char>>, c: ConflictView) -> Seq<Seq<char>> {
    if c.start_line < ls.len() {
        let e = if c.end_line < ls.len() { c.end_line as int } else { ls.len() as int };
        let e2 = if e < c.start_line { c.start_line as int } else { e };
        ls.subrange(0, c.start_line as int) + seq![c.your_content] + ls.subrange(e2, ls.len() as int)
    } else {
        ls + seq![c.your_content]
    }
}

proof fn lemma_strip_lines_fold(ls: Seq<Seq<char>>)
    ensures
        strip_lines(ls) == strip_fold((Seq::empty(), false, true), ls),
    decreases ls.len(),
{
    if ls.len() > 0 {
        lemma_strip_lines_fold(ls.drop_last());
    }
}

proof fn lemma_strip_fold_concat(st: (Seq<Seq<char>>, bool, bool), a: Seq<Seq<char>>, b: Seq<Seq<char>>)
    ensures
        strip_fold(st, a + b) == strip_fold(strip_fold(st, a), b),
    decreases b.len(),
{
    if b.len() == 0 {
        assert(a + b =~= a);
    } else {
        lemma_strip_fold_concat(st, a, b.drop_last());
        assert((a + b).drop_last() =~= a + b.drop_last());
        assert((a + b).last() == b.last());
    }
}

proof fn lemma_strip_fold_plain(st: (Seq<Seq<char>>, bool, bool), ls: Seq<Seq<char>>)
    requires
        !st.1,
        forall|i: int| 0 <= i < ls.len() ==> plain_line(#[trigger] ls[i]),
    ensures
        strip_fold(st, ls) == (st.0 + ls, false, st.2),
    decreases ls.len(),
{
    if ls.len() == 0 {
        assert(st.0 + ls =~= st.0);
    } else {
        lemma_strip_fold_plain(st, ls.drop_last());
        assert(plain_line(ls[ls.len() - 1]));
        assert((st.0 + ls.drop_last()).push(ls.last()) =~= st.0 + ls);
    }
}

proof fn lemma_marker_literals()
    ensures
        starts_with("<<<<<<< CURRENT CHANGES"@, open_marker()),
        no_newline("<<<<<<< CURRENT CHANGES"@),
        "======="@ == separator_line(),
        !starts_with("======="@, open_marker()),
        no_newline("======="@),
        starts_with(">>>>>>> YOUR CHANGES"@, close_marker()),
        !starts_with(">>>>>>> YOUR CHANGES"@, open_marker()),
        ">>>>>>> YOUR CHANGES"@ != separator_line(),
        no_newline(">>>>>>> YOUR CHANGES"@),
{
    reveal_strlit("<<<<<<< CURRENT CHANGES");
    reveal_strlit("=======");
    reveal_strlit(">>>>>>> YOUR CHANGES");
    assert("<<<<<<< CURRENT CHANGES"@.subrange(0, 8) =~= open_marker());
    assert("======="@ =~= separator_line());
    assert("======="@[0] != open_marker()[0]);
    assert(">>>>>>> YOUR CHANGES"@.subrange(0, 8) =~= close_marker());
    assert(">>>>>>> YOUR CHANGES"@[0] != open_marker()[0]);
    assert(">>>>>>> YOUR CHANGES"@.len() != separator_line().len());
}

proof fn lemma_opens_block(pre: Seq<Seq<char>>, c: ConflictView, post: Seq<Seq<char>>)
    ensures
        has_open_marker_line(join_lines(pre + marker_block(c) + post)),
{
    lemma_marker_literals();
    let block = marker_block(c);
    let all = pre + block + post;
    let x = pre + seq![block[0]];
    let y = seq![block[1], block[2], block[3], block[4]] + post;
    assert(all =~= x + y);
    lemma_join_concat(x, y);
    let z = if pre.len() == 0 {
        Seq::<char>::empty()
    } else {
        join_lines(pre) + seq!['\n']
    };
    assert(join_lines(x) =~= z + block[0]) by {
        if pre.len() > 0 {
            lemma_join_concat(pre, seq![block[0]]);
        } else {
            assert(x =~= seq![block[0]]);
        }
    }
    let s = join_lines(all);
    assert(s == z + block[0] + seq!['\n'] + join_lines(y));
    let i = z.len() as int;
    let j = i + block[0].len();
    assert(s.subrange(i, i + 8) =~= block[0].subrange(0, 8));
    assert(s[j] == '\n');
    assert(has_open_marker_line(s));
}

proof fn lemma_block_scan(pre: Seq<Seq<char>>, c: ConflictView)
    requires
        plain_line(c.current_content),
        plain_line(c.your_content),
    ensures
        strip_fold((pre, false, true), marker_block(c)) == (pre.push(c.your_content), false, false),
{
    lemma_marker_literals();
    let block = marker_block(c);
    let st1 = (pre, false, true);
    assert(block.drop_last().drop_last().drop_last().drop_last().drop_last() =~= Seq::<
        Seq<char>,
    >::empty());
    assert(strip_fold(st1, block) == (pre.push(c.your_content), false, false)) by {
        let b1 = block.subrange(0, 1);
        let b2 = block.subrange(0, 2);
        let b3 = block.subrange(0, 3);
        let b4 = block.subrange(0, 4);
        assert(b1.drop_last() =~= Seq::<Seq<char>>::empty());
        assert(b2.drop_last() =~= b1);
        assert(b3.drop_last() =~= b2);
        assert(b4.drop_last() =~= b3);
        assert(block.drop_last() =~= b4);
        assert(b1.last() == block[0]);
        assert(block[0] == "<<<<<<< CURRENT CHANGES"@);
        assert(strip_fold(st1, b1.drop_last()) == st1);
        assert(strip_fold(st1, b1) == (pre, true, true));
        assert(strip_fold(st1, b2) == (pre, true, true));
        assert(strip_fold(st1, b3) == (pre, true, false));
        assert(strip_fold(st1, b4) == (pre.push(c.your_content), true, false));
    }
}

/// Stripping the markers from a text into which one conflict's block was
/// rendered gives the text back with the block replaced by the submitted
/// side alone: the submitted side survives, the current side goes. The
/// lines around the block and both sides of the conflict are lines without
/// newlines or markers.
pub proof fn lemma_strip_recovers_your_side(ls: Seq<Seq<char>>, c: ConflictView)
    requires
        forall|i: int| 0 <= i < ls.len() ==> plain_line(#[trigger] ls[i]),
        plain_line(c.current_content),
        plain_line(c.your_content),
    ensures
        resolved_content(join_lines(place_block(ls, c))) == join_lines(kept_with_your_side(ls, c)),
{
    lemma_marker_literals();
    let block = marker_block(c);
    let (pre, post) = if c.start_line < ls.len() {
        let e = if c.end_line < ls.len() { c.end_line as int } else { ls.len() as int };
        let e2 = if e < c.start_line { c.start_line as int } else { e };
        (ls.subrange(0, c.start_line as int), ls.subrange(e2, ls.len() as int))
    } else {
        (ls, Seq::<Seq<char>>::empty())
    };
    let all = pre + block + post;
    assert(place_block(ls, c) =~= all) by {
        if c.start_line >= ls.len() {
            assert(ls + block + Seq::<Seq<char>>::empty() =~= ls + block);
        }
    }
    assert(kept_with_your_side(ls, c) =~= pre + seq![c.your_content] + post) by {
        if c.start_line >= ls.len() {
            assert(ls + seq![c.your_content] + Seq::<Seq<char>>::empty() =~= ls + seq![c.your_content]);
        }
    }
    assert forall|i: int| 0 <= i < pre.len() implies plain_line(#[trigger] pre[i]) by {
        assert(pre[i] == ls[i]);
    }
    assert forall|i: int| 0 <= i < post.len() implies plain_line(#[trigger] post[i]) by {
        if c.start_line < ls.len() {
            let e = if c.end_line < ls.len() { c.end_line as int } else { ls.len() as int };
            let e2 = if e < c.start_line { c.start_line as int } else { e };
            assert(post[i] == ls[e2 + i]);
        }
    }
    // the joined text splits back into the same lines
    assert forall|i: int| 0 <= i < all.len() implies no_newline(#[trigger] all[i]) by {
        if i < pre.len() {
            assert(all[i] == pre[i]);
        } else if i < pre.len() + 5 {
            assert(all[i] == block[i - pre.len()]);
        } else {
            assert(all[i] == post[i - pre.len() - 5]);
        }
    }
    lemma_split_join(all);
    lemma_opens_block(pre, c, post);
    // the scan keeps the lines around the block and the submitted side
    lemma_strip_lines_fold(all);
    let st0 = (Seq::<Seq<char>>::empty(), false, true);
    lemma_strip_fold_concat(st0, pre, block + post);
    assert(pre + (block + post) =~= all);
    lemma_strip_fold_plain(st0, pre);
    assert(Seq::<Seq<char>>::empty() + pre =~= pre);
    let st1 = (pre, false, true);
    lemma_strip_fold_concat(st1, block, post);
    lemma_block_scan(pre, c);
    lemma_strip_fold_plain((pre.push(c.your_content), false, false), post);
    assert(pre.push(c.your_content) + post =~= pre + seq![c.your_content] + post);
}

/// A marked merge with one conflict, stripped of its markers, is the head's
/// text with the conflict's region replaced by the submitted side, where the
/// head's lines and both sides of the conflict are plain lines.
pub proof fn lemma_marked_merge_keeps_your_side(base: Seq<char>, yours: Seq<char>, theirs: Seq<char>)
    requires
        three_way_conflicts(base, yours, theirs).len() == 1,
        forall|i: int|
            0 <= i < split_lines(theirs).len() ==> plain_line(#[trigger] split_lines(theirs)[i]),
        plain_line(three_way_conflicts(base, yours, theirs)[0].current_content),
        plain_line(three_way_conflicts(base, yours, theirs)[0].your_content),
    ensures
        resolved_content(marked_merge(base, yours, theirs)) == join_lines(
            kept_with_your_side(split_lines(theirs), three_way_conflicts(base, yours, theirs)[0]),
        ),
{
    let cs = three_way_conflicts(base, yours, theirs);
    assert(cs.drop_last() =~= Seq::<ConflictView>::empty());
    assert(cs.last() == cs[0]);
    let once = place_block(split_lines(theirs), cs[0]);
    assert(place_blocks(once, cs.drop_last()) == once);
    assert(place_blocks(split_lines(theirs), cs) == place_block(split_lines(theirs), cs[0]));
    lemma_strip_recovers_your_side(split_lines(theirs), cs[0]);
}

fn line_starts_with(line: &Vec<char>, prefix: &Vec<char>) -> (r: bool)
    ensures
        r == starts_with(line@, prefix@),
{
    if prefix.len() > line.len() {
        return false;
    }
    let mut k: usize = 0;
    while k < prefix.len()
        invariant
            prefix@.len() <= line@.len(),
            k <= prefix@.len(),
            line@.subrange(0, k as int) == prefix@.subrange(0, k as int),
        decreases prefix.len() - k,
    {
        if line[k] != prefix[k] {
            assert(line@.subrange(0, prefix@.len() as int)[k as int] != prefix@[k as int]);
            return false;
        }
        assert(line@.subrange(0, k + 1) =~= prefix@.subrange(0, k + 1));
        k = k + 1;
    }
    assert(prefix@.subrange(0, prefix@.len() as int) =~= prefix@);
    true
}

/// The content with its conflict markers taken out (see `resolved_content`).
pub fn extract_resolved_content(content: &str) -> (r: String)
    ensures
        r@ == resolved_content(content@),
{
    if !has_conflict_start(content) {
        return String::from_str(content);
    }
    let lines = lines_of(content);
    let open: Vec<char> = vec!['<', '<', '<', '<', '<', '<', '<', ' '];
    let close: Vec<char> = vec!['>', '>', '>', '>', '>', '>', '>', ' '];
    let separator = String::from_str("=======");
    assert(open@ =~= open_marker());
    assert(close@ =~= close_marker());
    proof {
        reveal_strlit("=======");
    }
    assert(separator@ =~= separator_line());
    let mut kept: Vec<String> = Vec::new();
    let mut in_conflict = false;
    let mut current_section = true;
    let mut i: usize = 0;
    while i < lines.len()
        invariant
            i <= lines@.len(),
            open@ == open_marker(),
            close@ == close_marker(),
            separator@ == separator_line(),
            strip_lines(views(lines@).subrange(0, i as int)) == (
                views(kept@),
                in_conflict,
                current_section,
            ),
        decreases lines.len() - i,
    {
        let ghost pre = views(lines@).subrange(0, i as int);
        assert(views(lines@).subrange(0, i + 1).drop_last() =~= pre);
        let line_chars = chars_of(lines[i].as_str());
        if line_starts_with(&line_chars, &open) {
            in_conflict = true;
            current_section = true;
        } else if lines[i] == separator {
            current_section = false;
        } else if line_starts_with(&line_chars, &close) {
            in_conflict = false;
        } else if !in_conflict || !current_section {
            let ghost old_kept = kept@;
            kept.push(lines[i].clone());
            assert(views(kept@) =~= views(old_kept).push(views(lines@)[i as int])) by {
                assert forall|m: int| 0 <= m < old_kept.len() implies views(kept@)[m] == views(
                    old_kept,
                )[m] by {
                    assert(kept@[m] == old_kept[m]);
                }
            }
        }
        i = i + 1;
    }
    assert(views(lines@).subrange(0, lines@.len() as int) =~= views(lines@));
    joined(&kept)
}

} // verus!
