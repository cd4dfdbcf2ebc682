//! Line-level diff computation.
//!
//! A pull previews each changed file as a classic line-alignment diff,
//! grouped into change groups separated by at most two lines of
//! unchanged context. The alignment itself is similar's; the engine
//! works with the grouped operations it returns and with the per-line
//! changes (with emphasised sub-spans) each operation expands to.

use vstd::prelude::*;

verus! {

#[verifier::external_type_specification]
#[verifier::external_body]
pub struct ExDiffOp(similar::DiffOp);

/// One line-alignment operation, as the engine reads it: a run of equal
/// lines, deleted lines, inserted lines, or a replacement of old lines
/// by new ones. Indices are line numbers, zero-based.
pub enum LineOp {
    Equal { old_index: usize, new_index: usize, len: usize },
    Delete { old_index: usize, old_len: usize, new_index: usize },
    Insert { old_index: usize, new_index: usize, new_len: usize },
    Replace { old_index: usize, old_len: usize, new_index: usize, new_len: usize },
}

/// What an opaque alignment operation holds.
pub uninterp spec fn op_model(op: similar::DiffOp) -> LineOp;

/// The grouped line diff of two texts with the given context size;
/// decided by the three alone.
pub uninterp spec fn grouped_line_diff(
    old_text: Seq<char>,
    new_text: Seq<char>,
    context: usize,
) -> Seq<Seq<LineOp>>;

/// The models of a group of opaque operations.
pub open spec fn group_model(g: Seq<similar::DiffOp>) -> Seq<LineOp> {
    g.map_values(|o: similar::DiffOp| op_model(o))
}

/// The models of a grouped diff.
pub open spec fn groups_model(gs: Seq<Vec<similar::DiffOp>>) -> Seq<Seq<LineOp>> {
    gs.map_values(|g: Vec<similar::DiffOp>| group_model(g@))
}

/// The character at this position ends a line token: a newline, or a
/// carriage return not paired with a following newline.
pub open spec fn is_break_at(s: Seq<char>, i: int) -> bool {
    s[i] == '\n' || (s[i] == '\r' && !(i + 1 < s.len() && s[i + 1] == '\n'))
}

/// How many line breaks stand at or after position `i`.
pub open spec fn break_count_from(s: Seq<char>, i: int) -> nat
    decreases s.len() - i,
{
    if i < 0 || i >= s.len() {
        0
    } else {
        (if is_break_at(s, i) {
            1nat
        } else {
            0nat
        }) + break_count_from(s, i + 1)
    }
}

/// How many line tokens the diff splits a text into: one per line
/// break, plus a final unterminated line if any. This mirrors the line
/// tokenizer the alignment runs on, which also breaks at a lone
/// carriage return.
pub open spec fn line_token_count(s: Seq<char>) -> nat {
    break_count_from(s, 0) + (if s.len() > 0 && !is_break_at(s, s.len() - 1) {
        1nat
    } else {
        0nat
    })
}

/// The operation's line ranges lie within the two texts' line tokens.
pub open spec fn op_in_bounds(op: LineOp, old_tokens: nat, new_tokens: nat) -> bool {
    match op {
        LineOp::Equal { old_index, new_index, len } => old_index + len <= old_tokens && new_index
            + len <= new_tokens,
        LineOp::Delete { old_index, old_len, new_index } => old_index + old_len <= old_tokens
            && new_index <= new_tokens,
        LineOp::Insert { old_index, new_index, new_len } => old_index <= old_tokens && new_index
            + new_len <= new_tokens,
        LineOp::Replace { old_index, old_len, new_index, new_len } => old_index + old_len
            <= old_tokens && new_index + new_len <= new_tokens,
    }
}

/// Every operation of the grouped diff lies within the texts' lines.
pub open spec fn grouped_in_bounds(
    grouped: Seq<Seq<LineOp>>,
    old_tokens: nat,
    new_tokens: nat,
) -> bool {
    forall|i: int, j: int|
        0 <= i < grouped.len() && 0 <= j < grouped[i].len() ==> op_in_bounds(
            #[trigger] grouped[i][j],
            old_tokens,
            new_tokens,
        )
}

/// Relies on similar::TextDiff::from_lines and
/// similar::TextDiff::grouped_ops: the grouped line diff is decided by
/// the two texts and the context size alone; every operation's line
/// ranges lie within the two texts' line tokens; equal texts align as
/// one equal run (or none, for empty texts), and grouping drops groups
/// that hold no change, so equal texts yield no groups. The context
/// bound keeps the grouping's doubled context from overflowing.
#[verifier::external_body]
fn diff_grouped(old_text: &str, new_text: &str, context: usize) -> (r: Vec<
    Vec<similar::DiffOp>,
>)
    requires
        context <= usize::MAX / 2,
    ensures
        groups_model(r@) == grouped_line_diff(old_text@, new_text@, context),
        grouped_in_bounds(
            groups_model(r@),
            line_token_count(old_text@),
            line_token_count(new_text@),
        ),
        old_text@ == new_text@ ==> r@.len() == 0,
{
    similar::TextDiff::from_lines(old_text, new_text).grouped_ops(context)
}

/// The change tag of one rendered line.
#[derive(Debug, Clone, Copy, PartialEq, Eq, Structural)]
pub enum ChangeKind {
    Equal,
    Delete,
    Insert,
}

/// One line of a diff preview: its tag, its line number on the old and
/// new side (absent on the side the line does not exist on), the line's
/// text split into sub-spans each marked emphasised or not, and whether
/// the line lacks a terminating newline.
#[derive(Debug)]
pub struct InlineRow {
    pub kind: ChangeKind,
    pub old_ln: Option<usize>,
    pub new_ln: Option<usize>,
    pub spans: Vec<(bool, String)>,
    pub missing_newline: bool,
}

/// The row stands on the old side at this line number.
pub open spec fn row_at(ln: Option<usize>, base: int, offset: int) -> bool {
    match ln {
        Some(v) => v == base + offset,
        None => false,
    }
}

/// How the rows a diff operation expands to relate to that operation:
/// one row per line, tagged like the operation, with running line
/// numbers on the sides the lines exist on; a replacement expands to
/// its deleted lines followed by its inserted lines.
pub open spec fn rows_match_op(rows: Seq<InlineRow>, op: LineOp) -> bool {
    match op {
        LineOp::Equal { old_index, new_index, len } => rows.len() == len && forall|k: int|
            0 <= k < rows.len() ==> rows[k].kind is Equal && row_at(
                #[trigger] rows[k].old_ln,
                old_index as int,
                k,
            ) && row_at(rows[k].new_ln, new_index as int, k),
        LineOp::Delete { old_index, old_len, new_index } => rows.len() == old_len && forall|k: int|
            0 <= k < rows.len() ==> rows[k].kind is Delete && row_at(
                #[trigger] rows[k].old_ln,
                old_index as int,
                k,
            ) && rows[k].new_ln is None,
        LineOp::Insert { old_index, new_index, new_len } => rows.len() == new_len && forall|k: int|
            0 <= k < rows.len() ==> rows[k].kind is Insert && row_at(
                #[trigger] rows[k].new_ln,
                new_index as int,
                k,
            ) && rows[k].old_ln is None,
        LineOp::Replace { old_index, old_len, new_index, new_len } => rows.len() == old_len
            + new_len && (forall|k: int|
            0 <= k < old_len ==> rows[k].kind is Delete && row_at(
                #[trigger] rows[k].old_ln,
                old_index as int,
                k,
            ) && rows[k].new_ln is None) && (forall|k: int|
            old_len <= k < rows.len() ==> rows[k].kind is Insert && row_at(
                #[trigger] rows[k].new_ln,
                new_index as int,
                k - old_len,
            ) && rows[k].old_ln is None),
    }
}

/// Relies on similar::TextDiff::iter_inline_changes: an operation
/// expands to one change per line, tagged and numbered as the operation
/// says, a replacement's deletions before its insertions. The
/// emphasised sub-spans may differ from run to run (inline refinement
/// works under a deadline), so nothing is claimed of them beyond their
/// presence in the rows. The expansion indexes the texts' line tokens
/// by the operation's ranges, so those must lie within the texts.
#[verifier::external_body]
fn inline_rows(old_text: &str, new_text: &str, op: &similar::DiffOp) -> (r: Vec<InlineRow>)
    requires
        op_in_bounds(
            op_model(*op),
            line_token_count(old_text@),
            line_token_count(new_text@),
        ),
    ensures
        rows_match_op(r@, op_model(*op)),
{
    let diff = similar::TextDiff::from_lines(old_text, new_text);
    diff.iter_inline_changes(op).map(
        |c| InlineRow {
            kind: match c.tag() {
                similar::ChangeTag::Delete => ChangeKind::Delete,
                similar::ChangeTag::Insert => ChangeKind::Insert,
                similar::ChangeTag::Equal => ChangeKind::Equal,
            },
            old_ln: c.old_index(),
            new_ln: c.new_index(),
            spans: c.iter_strings_lossy().map(|(e, s)| (e, s.into_owned())).collect(),
            missing_newline: c.missing_newline(),
        },
    ).collect()
}

/// One change group of a diff preview, expanded to its rows: the rows
/// of each of the group's operations, in operation order.
pub struct RowGroup {
    pub ops: Vec<Vec<InlineRow>>,
}

/// The expanded rows of each group match the group's operations.
pub open spec fn groups_expanded(
    groups: Seq<RowGroup>,
    model: Seq<Seq<LineOp>>,
) -> bool {
    groups.len() == model.len() && (forall|i: int|
        0 <= i < groups.len() ==> #[trigger] groups[i].ops@.len() == model[i].len()) && (forall|
        i: int,
        j: int,
    |
        0 <= i < groups.len() && 0 <= j < model[i].len() ==> rows_match_op(
            (#[trigger] groups[i].ops@[j])@,
            model[i][j],
        ))
}

/// Computes the grouped line diff of two texts and expands every
/// operation to its preview rows. Two identical texts produce zero
/// change groups.
pub fn compute_diff(old_text: &str, new_text: &str, context: usize) -> (r: Vec<RowGroup>)
    requires
        context <= usize::MAX / 2,
    ensures
        groups_expanded(r@, grouped_line_diff(old_text@, new_text@, context)),
        r@.len() == grouped_line_diff(old_text@, new_text@, context).len(),
        old_text@ == new_text@ ==> r@.len() == 0,
{
    let groups = diff_grouped(old_text, new_text, context);
    let ghost model = grouped_line_diff(old_text@, new_text@, context);
    let ghost old_tokens = line_token_count(old_text@);
    let ghost new_tokens = line_token_count(new_text@);
    proof {
        assert(groups_model(groups@) == model);
    }
    let mut out: Vec<RowGroup> = Vec::new();
    let mut i: usize = 0;
    while i < groups.len()
        invariant
            i <= groups@.len(),
            groups_model(groups@) == model,
            grouped_in_bounds(model, old_tokens, new_tokens),
            old_tokens == line_token_count(old_text@),
            new_tokens == line_token_count(new_text@),
            model.len() == groups@.len(),
            out@.len() == i,
            forall|a: int|
                0 <= a < i ==> #[trigger] out@[a].ops@.len() == model[a].len(),
            forall|a: int, b: int|
                0 <= a < i && 0 <= b < model[a].len() ==> rows_match_op(
                    (#[trigger] out@[a].ops@[b])@,
                    model[a][b],
                ),
        decreases groups@.len() - i,
    {
        let group = &groups[i];
        proof {
            assert(groups_model(groups@)[i as int] == group_model(group@));
        }
        let mut rows: Vec<Vec<InlineRow>> = Vec::new();
        let mut j: usize = 0;
        while j < group.len()
            invariant
                j <= group@.len(),
                rows@.len() == j,
                0 <= i < groups@.len(),
                group == groups@[i as int],
                groups_model(groups@) == model,
                grouped_in_bounds(model, old_tokens, new_tokens),
                old_tokens == line_token_count(old_text@),
                new_tokens == line_token_count(new_text@),
                forall|b: int|
                    0 <= b < j ==> rows_match_op(
                        #[trigger] rows@[b]@,
                        group_model(group@)[b],
                    ),
            decreases group@.len() - j,
        {
            let op = &group[j];
            proof {
                assert(groups_model(groups@)[i as int] == group_model(group@));
                assert(group_model(group@)[j as int] == op_model(group@[j as int]));
                assert(op_in_bounds(model[i as int][j as int], old_tokens, new_tokens));
            }
            rows.push(inline_rows(old_text, new_text, op));
            j += 1;
        }
        out.push(RowGroup { ops: rows });
        proof {
            assert(model[i as int] == group_model(group@));
        }
        i += 1;
    }
    out
}

} // verus!
