//! Rendering of pull previews.
//!
//! The preview of one changed file targets a fixed 80-column budget: a
//! left gutter holds the paired old and new line numbers, a header
//! names the file's relative path, and each change group is framed by
//! rules, with a separator rule between groups. Deletions, insertions
//! and unchanged lines carry distinct visual treatments, and emphasised
//! sub-spans within a changed line a stronger one. Files that do not
//! decode as text get a bare marker line instead.

use vstd::prelude::*;
use vstd::string::*;
use crate::diff::{
    ChangeKind, InlineRow, RowGroup, compute_diff, grouped_line_diff, groups_expanded,
};
use crate::planner::RenderKind;

verus! {

/// Ten to the power `e`.
pub open spec fn pow10_spec(e: nat) -> nat
    decreases e,
{
    if e == 0 {
        1
    } else {
        10 * pow10_spec((e - 1) as nat)
    }
}

/// The decimal digits of `m`.
pub open spec fn digits_spec(m: nat) -> nat
    decreases m,
{
    if m < 10 {
        1
    } else {
        1 + digits_spec(m / 10)
    }
}

/// The least width whose line numbers fit: the ceiling of the decimal
/// logarithm (zero for counts of one line or none).
pub open spec fn ceil_log10_spec(n: nat) -> nat {
    if n <= 1 {
        0
    } else {
        digits_spec((n - 1) as nat)
    }
}

proof fn lemma_digits_bound(m: nat, b: nat)
    requires
        b >= 1,
        m < pow10_spec(b),
    ensures
        digits_spec(m) <= b,
    decreases b,
{
    if m < 10 {
    } else {
        assert(pow10_spec(b) == 10 * pow10_spec((b - 1) as nat));
        assert(m / 10 < pow10_spec((b - 1) as nat));
        assert(b - 1 >= 1) by {
            if b == 1 {
                assert(m < 10);
            }
        }
        lemma_digits_bound(m / 10, (b - 1) as nat);
    }
}

/// The ceiling of the decimal logarithm of the larger line count.
pub fn ceil_log10(n: usize) -> (r: usize)
    ensures
        r as nat == ceil_log10_spec(n as nat),
        r <= 20,
{
    proof {
        reveal_with_fuel(pow10_spec, 21);
        assert(pow10_spec(20) == 100_000_000_000_000_000_000);
        assert(usize::MAX < pow10_spec(20));
    }
    if n <= 1 {
        return 0;
    }
    let mut m = n - 1;
    let mut w: usize = 1;
    proof {
        lemma_digits_bound(m as nat, 20);
    }
    while m >= 10
        invariant
            digits_spec((n - 1) as nat) == w - 1 + digits_spec(m as nat),
            1 <= w,
            w - 1 + digits_spec(m as nat) <= 20,
        decreases m,
    {
        m = m / 10;
        w += 1;
    }
    w
}

/// How many newline characters the text holds.
pub open spec fn newline_count(s: Seq<char>) -> nat
    decreases s.len(),
{
    if s.len() == 0 {
        0
    } else {
        newline_count(s.drop_last()) + if s.last() == '\n' {
            1nat
        } else {
            0nat
        }
    }
}

/// How many lines the text holds, as a line iterator counts them: one
/// per newline, plus a final unterminated line if any.
pub open spec fn line_count(s: Seq<char>) -> nat {
    newline_count(s) + if s.len() > 0 && s.last() != '\n' {
        1nat
    } else {
        0nat
    }
}

proof fn lemma_newline_le(s: Seq<char>)
    ensures
        newline_count(s) <= s.len(),
    decreases s.len(),
{
    if s.len() > 0 {
        lemma_newline_le(s.drop_last());
    }
}

/// Counts the lines of a text.
pub fn count_lines(s: &str) -> (r: usize)
    ensures
        r as nat == line_count(s@),
{
    let n = s.unicode_len();
    let mut nl: usize = 0;
    let mut i: usize = 0;
    while i < n
        invariant
            n == s@.len(),
            i <= n,
            nl as nat == newline_count(s@.take(i as int)),
            nl <= i,
        decreases n - i,
    {
        let c = s.get_char(i);
        proof {
            assert(s@.take(i + 1).drop_last() =~= s@.take(i as int));
            assert(s@.take(i + 1).last() == s@[i as int]);
        }
        if c == '\n' {
            nl += 1;
        }
        i += 1;
    }
    proof {
        assert(s@.take(n as int) =~= s@);
    }
    if n > 0 && s.get_char(n - 1) != '\n' {
        proof {
            lemma_newline_le(s@.drop_last());
            assert(newline_count(s@) == newline_count(s@.drop_last()));
        }
        nl + 1
    } else {
        nl
    }
}

/// The digit character of one decimal digit.
pub open spec fn digit_char(d: nat) -> char {
    if d == 0 {
        '0'
    } else if d == 1 {
        '1'
    } else if d == 2 {
        '2'
    } else if d == 3 {
        '3'
    } else if d == 4 {
        '4'
    } else if d == 5 {
        '5'
    } else if d == 6 {
        '6'
    } else if d == 7 {
        '7'
    } else if d == 8 {
        '8'
    } else {
        '9'
    }
}

/// The decimal rendering of a number.
pub open spec fn dec_spec(n: nat) -> Seq<char>
    decreases n,
{
    if n < 10 {
        seq![digit_char(n)]
    } else {
        dec_spec(n / 10) + seq![digit_char(n % 10)]
    }
}

fn digit_str(d: usize) -> (r: &'static str)
    requires
        d < 10,
    ensures
        r@ == seq![digit_char(d as nat)],
{
    proof {
        reveal_strlit("0");
        reveal_strlit("1");
        reveal_strlit("2");
        reveal_strlit("3");
        reveal_strlit("4");
        reveal_strlit("5");
        reveal_strlit("6");
        reveal_strlit("7");
        reveal_strlit("8");
        reveal_strlit("9");
    }
    let r: &'static str = if d == 0 {
        "0"
    } else if d == 1 {
        "1"
    } else if d == 2 {
        "2"
    } else if d == 3 {
        "3"
    } else if d == 4 {
        "4"
    } else if d == 5 {
        "5"
    } else if d == 6 {
        "6"
    } else if d == 7 {
        "7"
    } else if d == 8 {
        "8"
    } else {
        "9"
    };
    proof {
        assert(r@ =~= seq![digit_char(d as nat)]);
    }
    r
}

/// Renders a number in decimal.
pub fn dec_string(n: usize) -> (r: String)
    ensures
        r@ == dec_spec(n as nat),
    decreases n,
{
    if n < 10 {
        String::from_str(digit_str(n))
    } else {
        let mut s = dec_string(n / 10);
        s.append(digit_str(n % 10));
        proof {
            assert(s@ =~= dec_spec(n as nat));
        }
        s
    }
}

/// `n` copies of one character.
pub open spec fn repeat_char(c: char, n: nat) -> Seq<char>
    decreases n,
{
    if n == 0 {
        Seq::empty()
    } else {
        repeat_char(c, (n - 1) as nat).push(c)
    }
}

/// `n` copies of a one-character piece.
fn repeat_piece(piece: &str, n: usize) -> (r: String)
    requires
        piece@.len() == 1,
    ensures
        r@ == repeat_char(piece@[0], n as nat),
{
    let mut out = String::new();
    let mut i: usize = 0;
    while i < n
        invariant
            piece@.len() == 1,
            i <= n,
            out@ == repeat_char(piece@[0], i as nat),
        decreases n - i,
    {
        out.append(piece);
        proof {
            assert(piece@ =~= seq![piece@[0]]);
            assert(out@ =~= repeat_char(piece@[0], (i + 1) as nat));
        }
        i += 1;
    }
    out
}

/// The text padded on the right with spaces up to the width; longer
/// texts stay as they are.
pub open spec fn pad_right_spec(s: Seq<char>, w: nat) -> Seq<char> {
    if s.len() < w {
        s + repeat_char(' ', (w - s.len()) as nat)
    } else {
        s
    }
}

fn pad_right(s: &str, w: usize) -> (r: String)
    ensures
        r@ == pad_right_spec(s@, w as nat),
{
    let l = s.unicode_len();
    let mut out = String::from_str(s);
    if l >= w {
        proof {
            assert(out@ =~= pad_right_spec(s@, w as nat));
        }
        return out;
    }
    proof {
        reveal_strlit(" ");
    }
    let pad = repeat_piece(" ", w - l);
    out.append(pad.as_str());
    proof {
        assert(out@ =~= pad_right_spec(s@, w as nat));
    }
    out
}

/// A heavy rule: the frame above a preview.
pub open spec fn top_rule_spec(width_left: nat, total_width: nat) -> Seq<char> {
    repeat_char('\u{2550}', width_left) + "\u{2564}"@ + repeat_char('\u{2550}', total_width)
        + "\n"@
}

/// The header's middle line: the gutter left blank, then the file's
/// relative path.
pub open spec fn name_line_spec(rel: Seq<char>, width_left: nat) -> Seq<char> {
    repeat_char(' ', width_left) + "\u{2502} "@ + rel + "\n"@
}

/// A light rule: below the header, and the separator between change
/// groups.
pub open spec fn mid_rule_spec(width_left: nat, total_width: nat) -> Seq<char> {
    repeat_char('\u{2500}', width_left) + "\u{253c}"@ + repeat_char('\u{2500}', total_width)
        + "\n"@
}

fn rule_line(piece: &str, junction: &str, width_left: usize, total_width: usize) -> (r: String)
    requires
        piece@.len() == 1,
    ensures
        r@ == repeat_char(piece@[0], width_left as nat) + junction@ + repeat_char(
            piece@[0],
            total_width as nat,
        ) + "\n"@,
{
    let mut s = repeat_piece(piece, width_left);
    s.append(junction);
    let tail = repeat_piece(piece, total_width);
    s.append(tail.as_str());
    s.append("\n");
    proof {
        assert(s@ =~= repeat_char(piece@[0], width_left as nat) + junction@ + repeat_char(
            piece@[0],
            total_width as nat,
        ) + "\n"@);
    }
    s
}

fn top_rule(width_left: usize, total_width: usize) -> (r: String)
    ensures
        r@ == top_rule_spec(width_left as nat, total_width as nat),
{
    proof {
        reveal_strlit("\u{2550}");
    }
    let r = rule_line("\u{2550}", "\u{2564}", width_left, total_width);
    proof {
        assert("\u{2550}"@[0] == '\u{2550}');
    }
    r
}

fn mid_rule(width_left: usize, total_width: usize) -> (r: String)
    ensures
        r@ == mid_rule_spec(width_left as nat, total_width as nat),
{
    proof {
        reveal_strlit("\u{2500}");
    }
    let r = rule_line("\u{2500}", "\u{253c}", width_left, total_width);
    proof {
        assert("\u{2500}"@[0] == '\u{2500}');
    }
    r
}

fn name_line(rel: &str, width_left: usize) -> (r: String)
    ensures
        r@ == name_line_spec(rel@, width_left as nat),
{
    proof {
        reveal_strlit(" ");
    }
    let mut s = repeat_piece(" ", width_left);
    s.append("\u{2502} ");
    s.append(rel);
    s.append("\n");
    proof {
        assert(s@ =~= name_line_spec(rel@, width_left as nat));
    }
    s
}

/// The dim or colored style a line's tag selects.
pub open spec fn style_spec(k: ChangeKind) -> Seq<char> {
    match k {
        ChangeKind::Delete => "\x1b[31m"@,
        ChangeKind::Insert => "\x1b[32m"@,
        ChangeKind::Equal => "\x1b[2m"@,
    }
}

/// The stronger style an emphasised sub-span selects.
pub open spec fn bright_spec(k: ChangeKind) -> Seq<char> {
    match k {
        ChangeKind::Delete => "\x1b[91m"@,
        ChangeKind::Insert => "\x1b[92m"@,
        ChangeKind::Equal => "\x1b[2m"@,
    }
}

/// The sign column: `-`, `+`, or blank.
pub open spec fn sign_spec(k: ChangeKind) -> Seq<char> {
    match k {
        ChangeKind::Delete => "-"@,
        ChangeKind::Insert => "+"@,
        ChangeKind::Equal => " "@,
    }
}

fn style_str(k: ChangeKind) -> (r: &'static str)
    ensures
        r@ == style_spec(k),
{
    match k {
        ChangeKind::Delete => "\x1b[31m",
        ChangeKind::Insert => "\x1b[32m",
        ChangeKind::Equal => "\x1b[2m",
    }
}

fn bright_str(k: ChangeKind) -> (r: &'static str)
    ensures
        r@ == bright_spec(k),
{
    match k {
        ChangeKind::Delete => "\x1b[91m",
        ChangeKind::Insert => "\x1b[92m",
        ChangeKind::Equal => "\x1b[2m",
    }
}

fn sign_str(k: ChangeKind) -> (r: &'static str)
    ensures
        r@ == sign_spec(k),
{
    match k {
        ChangeKind::Delete => "-",
        ChangeKind::Insert => "+",
        ChangeKind::Equal => " ",
    }
}

/// A line number, or nothing where the line has no number on that side.
pub open spec fn opt_num_spec(ln: Option<usize>) -> Seq<char> {
    match ln {
        Some(v) => dec_spec(v as nat),
        None => Seq::empty(),
    }
}

/// One sub-span, styled: emphasised spans switch to the stronger
/// treatment, plain ones back to the line's own.
pub open spec fn span_spec(sp: (bool, String), k: ChangeKind) -> Seq<char> {
    if sp.0 {
        "\x1b[0;3m"@ + bright_spec(k) + sp.1@
    } else {
        "\x1b[0m"@ + style_spec(k) + sp.1@
    }
}

/// All sub-spans of a line, styled, in order.
pub open spec fn spans_spec(spans: Seq<(bool, String)>, k: ChangeKind) -> Seq<char>
    decreases spans.len(),
{
    if spans.len() == 0 {
        Seq::empty()
    } else {
        spans_spec(spans.drop_last(), k) + span_spec(spans.last(), k)
    }
}

/// One rendered preview line: the dimmed gutter with the paired line
/// numbers, the sign, the gutter bar, the styled sub-spans, a style
/// reset, and a final newline where the text itself lacks one.
pub open spec fn row_spec(row: InlineRow, w: nat) -> Seq<char> {
    "\x1b[2m"@ + pad_right_spec(opt_num_spec(row.old_ln), w) + " "@ + pad_right_spec(
        opt_num_spec(row.new_ln),
        w,
    ) + " "@ + "\x1b[0m"@ + style_spec(row.kind) + sign_spec(row.kind) + "\x1b[0m"@ + "\u{2502}"@
        + style_spec(row.kind) + " "@ + spans_spec(row.spans@, row.kind) + "\x1b[0m"@ + (
    if row.missing_newline {
        "\n"@
    } else {
        Seq::<char>::empty()
    })
}

/// Renders one preview line.
pub fn render_row(row: &InlineRow, w: usize) -> (r: String)
    ensures
        r@ == row_spec(*row, w as nat),
{
    let mut line = String::from_str("\x1b[2m");
    let old_s: String = match row.old_ln {
        Some(v) => dec_string(v),
        None => String::new(),
    };
    let padded_old = pad_right(old_s.as_str(), w);
    line.append(padded_old.as_str());
    line.append(" ");
    let new_s: String = match row.new_ln {
        Some(v) => dec_string(v),
        None => String::new(),
    };
    let padded_new = pad_right(new_s.as_str(), w);
    line.append(padded_new.as_str());
    line.append(" ");
    line.append("\x1b[0m");
    line.append(style_str(row.kind));
    line.append(sign_str(row.kind));
    line.append("\x1b[0m");
    line.append("\u{2502}");
    line.append(style_str(row.kind));
    line.append(" ");
    let ghost head = line@;
    let mut k: usize = 0;
    while k < row.spans.len()
        invariant
            k <= row.spans@.len(),
            line@ == head + spans_spec(row.spans@.take(k as int), row.kind),
        decreases row.spans@.len() - k,
    {
        let sp = &row.spans[k];
        if sp.0 {
            line.append("\x1b[0;3m");
            line.append(bright_str(row.kind));
        } else {
            line.append("\x1b[0m");
            line.append(style_str(row.kind));
        }
        line.append(sp.1.as_str());
        proof {
            assert(row.spans@.take(k + 1).drop_last() =~= row.spans@.take(k as int));
            assert(row.spans@.take(k + 1).last() == row.spans@[k as int]);
            assert(line@ =~= head + spans_spec(row.spans@.take(k + 1), row.kind));
        }
        k += 1;
    }
    proof {
        assert(row.spans@.take(row.spans@.len() as int) =~= row.spans@);
    }
    line.append("\x1b[0m");
    if row.missing_newline {
        line.append("\n");
    }
    proof {
        assert(line@ =~= row_spec(*row, w as nat));
    }
    line
}

/// The width of one line-number column: the ceiling of the decimal
/// logarithm of the larger line count.
pub open spec fn ln_width_spec(repo_text: Seq<char>, live_text: Seq<char>) -> nat {
    ceil_log10_spec(
        if line_count(live_text) > line_count(repo_text) {
            line_count(live_text)
        } else {
            line_count(repo_text)
        },
    )
}

/// The gutter width of a preview: twice the line-number column width,
/// plus three.
pub open spec fn gutter_spec(repo_text: Seq<char>, live_text: Seq<char>) -> nat {
    2 * ln_width_spec(repo_text, live_text) + 3
}

/// The views of rendered lines.
pub open spec fn line_views(v: Seq<String>) -> Seq<Seq<char>> {
    v.map_values(|s: String| s@)
}

proof fn lemma_line_views_push(v: Seq<String>, s: String)
    ensures
        line_views(v.push(s)) =~= line_views(v).push(s@),
{
}

proof fn lemma_line_views_concat(a: Seq<String>, b: Seq<String>)
    ensures
        line_views(a + b) =~= line_views(a) + line_views(b),
{
}

/// The rendered lines of one operation's rows.
pub open spec fn rows_lines(rows: Seq<InlineRow>, w: nat) -> Seq<Seq<char>> {
    rows.map_values(|row: InlineRow| row_spec(row, w))
}

/// The rendered lines of one change group: each of its operations'
/// rows, in operation order.
pub open spec fn group_lines(ops: Seq<Vec<InlineRow>>, w: nat) -> Seq<Seq<char>>
    decreases ops.len(),
{
    if ops.len() == 0 {
        Seq::empty()
    } else {
        group_lines(ops.drop_last(), w) + rows_lines(ops.last()@, w)
    }
}

proof fn lemma_group_lines_push(ops: Seq<Vec<InlineRow>>, rows: Vec<InlineRow>, w: nat)
    ensures
        group_lines(ops.push(rows), w) == group_lines(ops, w) + rows_lines(rows@, w),
{
    assert(ops.push(rows).drop_last() =~= ops);
    assert(ops.push(rows).last() == rows);
}

/// The body of a preview: every change group's lines, with a separator
/// rule between consecutive groups.
pub open spec fn body_lines(groups: Seq<RowGroup>, w: nat, wl: nat, tw: nat) -> Seq<Seq<char>>
    decreases groups.len(),
{
    if groups.len() == 0 {
        Seq::empty()
    } else if groups.len() == 1 {
        group_lines(groups[0].ops@, w)
    } else {
        body_lines(groups.drop_last(), w, wl, tw) + seq![mid_rule_spec(wl, tw)] + group_lines(
            groups.last().ops@,
            w,
        )
    }
}

proof fn lemma_body_lines_push(groups: Seq<RowGroup>, g: RowGroup, w: nat, wl: nat, tw: nat)
    ensures
        body_lines(groups.push(g), w, wl, tw) == body_lines(groups, w, wl, tw) + (if groups.len()
            > 0 {
            seq![mid_rule_spec(wl, tw)]
        } else {
            Seq::<Seq<char>>::empty()
        }) + group_lines(g.ops@, w),
{
    assert(groups.push(g).drop_last() =~= groups);
    assert(groups.push(g).last() == g);
    if groups.len() == 0 {
        assert(groups.push(g)[0] == g);
        assert(body_lines(groups.push(g), w, wl, tw) =~= body_lines(groups, w, wl, tw)
            + Seq::<Seq<char>>::empty() + group_lines(g.ops@, w));
    }
}

/// Renders the body of a preview from the expanded change groups:
/// every group's rows in order, a separator rule between consecutive
/// groups, every row as [`row_spec`] says.
pub fn render_groups(
    groups: &Vec<RowGroup>,
    w: usize,
    width_left: usize,
    total_width: usize,
) -> (r: Vec<String>)
    ensures
        line_views(r@) == body_lines(
            groups@,
            w as nat,
            width_left as nat,
            total_width as nat,
        ),
{
    let ghost wn = w as nat;
    let ghost wl = width_left as nat;
    let ghost tw = total_width as nat;
    let mut out: Vec<String> = Vec::new();
    proof {
        assert(groups@.take(0) =~= Seq::<RowGroup>::empty());
        assert(line_views(out@) =~= body_lines(groups@.take(0), wn, wl, tw));
    }
    let mut gi: usize = 0;
    while gi < groups.len()
        invariant
            gi <= groups@.len(),
            wn == w as nat && wl == width_left as nat && tw == total_width as nat,
            line_views(out@) == body_lines(groups@.take(gi as int), wn, wl, tw),
        decreases groups@.len() - gi,
    {
        let ghost prefix = body_lines(groups@.take(gi as int), wn, wl, tw);
        if gi > 0 {
            let sep = mid_rule(width_left, total_width);
            proof {
                lemma_line_views_push(out@, sep);
            }
            out.push(sep);
        }
        let ghost sep_lines: Seq<Seq<char>> = if gi > 0 {
            seq![mid_rule_spec(wl, tw)]
        } else {
            Seq::<Seq<char>>::empty()
        };
        proof {
            assert(line_views(out@) =~= prefix + sep_lines);
        }
        let group = &groups[gi];
        let mut oi: usize = 0;
        while oi < group.ops.len()
            invariant
                oi <= group.ops@.len(),
                wn == w as nat && wl == width_left as nat && tw == total_width as nat,
                group == groups@[gi as int],
                0 <= gi < groups@.len(),
                prefix == body_lines(groups@.take(gi as int), wn, wl, tw),
                sep_lines == (if gi > 0 {
                    seq![mid_rule_spec(wl, tw)]
                } else {
                    Seq::<Seq<char>>::empty()
                }),
                line_views(out@) == prefix + sep_lines + group_lines(
                    group.ops@.take(oi as int),
                    wn,
                ),
            decreases group.ops@.len() - oi,
        {
            let rows = &group.ops[oi];
            let ghost block = prefix + sep_lines + group_lines(group.ops@.take(oi as int), wn);
            let mut ri: usize = 0;
            while ri < rows.len()
                invariant
                    ri <= rows@.len(),
                    wn == w as nat,
                    rows == group.ops@[oi as int],
                    0 <= oi < group.ops@.len(),
                    line_views(out@) == block + rows_lines(rows@.take(ri as int), wn),
                decreases rows@.len() - ri,
            {
                let rendered = render_row(&rows[ri], w);
                proof {
                    lemma_line_views_push(out@, rendered);
                }
                out.push(rendered);
                proof {
                    assert(rows_lines(rows@.take(ri + 1), wn) =~= rows_lines(
                        rows@.take(ri as int),
                        wn,
                    ).push(row_spec(rows@[ri as int], wn)));
                    assert(line_views(out@) =~= block + rows_lines(rows@.take(ri + 1), wn));
                }
                ri += 1;
            }
            proof {
                assert(rows@.take(rows@.len() as int) =~= rows@);
                assert(group.ops@.take(oi + 1) =~= group.ops@.take(oi as int).push(
                    group.ops@[oi as int],
                ));
                lemma_group_lines_push(group.ops@.take(oi as int), group.ops@[oi as int], wn);
                assert(line_views(out@) =~= prefix + sep_lines + group_lines(
                    group.ops@.take(oi + 1),
                    wn,
                ));
            }
            oi += 1;
        }
        proof {
            assert(group.ops@.take(group.ops@.len() as int) =~= group.ops@);
            assert(groups@.take(gi + 1) =~= groups@.take(gi as int).push(groups@[gi as int]));
            lemma_body_lines_push(groups@.take(gi as int), groups@[gi as int], wn, wl, tw);
            assert(line_views(out@) =~= body_lines(groups@.take(gi + 1), wn, wl, tw));
        }
        gi += 1;
    }
    proof {
        assert(groups@.take(groups@.len() as int) =~= groups@);
    }
    out
}

/// A rendered preview: its output lines, in print order, and how many
/// change groups the diff produced.
pub struct DiffReport {
    pub lines: Vec<String>,
    pub group_count: usize,
}

/// Renders the line-diff preview of one file: the framed header naming
/// the relative path, then every change group's lines as
/// [`render_groups`] lays them out — the lines after the header are the
/// rendered body of some expansion of the true grouped diff. Two
/// identical texts produce zero change groups and a bare header.
pub fn render_text_diff(repo_text: &str, live_text: &str, rel: &str) -> (r: DiffReport)
    ensures
        r.group_count == grouped_line_diff(repo_text@, live_text@, 2).len(),
        repo_text@ == live_text@ ==> r.group_count == 0,
        r.group_count == 0 ==> r.lines@.len() == 3,
        r.lines@.len() >= 3,
        r.lines@[0]@ == top_rule_spec(
            gutter_spec(repo_text@, live_text@),
            (79 - gutter_spec(repo_text@, live_text@)) as nat,
        ),
        r.lines@[1]@ == name_line_spec(rel@, gutter_spec(repo_text@, live_text@)),
        r.lines@[2]@ == mid_rule_spec(
            gutter_spec(repo_text@, live_text@),
            (79 - gutter_spec(repo_text@, live_text@)) as nat,
        ),
        exists|gs: Seq<RowGroup>|
            groups_expanded(gs, grouped_line_diff(repo_text@, live_text@, 2)) && line_views(
                r.lines@,
            ).skip(3) == #[trigger] body_lines(
                gs,
                ln_width_spec(repo_text@, live_text@),
                gutter_spec(repo_text@, live_text@),
                (79 - gutter_spec(repo_text@, live_text@)) as nat,
            ),
{
    let live_count = count_lines(live_text);
    let repo_count = count_lines(repo_text);
    let larger = if live_count > repo_count {
        live_count
    } else {
        repo_count
    };
    let lnw = ceil_log10(larger);
    let width_left = lnw * 2 + 3;
    let total_width = 80 - width_left - 1;
    let mut lines: Vec<String> = Vec::new();
    lines.push(top_rule(width_left, total_width));
    lines.push(name_line(rel, width_left));
    lines.push(mid_rule(width_left, total_width));
    proof {
        assert(2 <= usize::MAX / 2);
    }
    let groups = compute_diff(repo_text, live_text, 2);
    let group_count = groups.len();
    let mut body = render_groups(&groups, lnw, width_left, total_width);
    let ghost header = lines@;
    let ghost body_snap = body@;
    proof {
        if groups@.len() == 0 {
            assert(line_views(body_snap) =~= Seq::<Seq<char>>::empty());
        }
    }
    lines.append(&mut body);
    proof {
        lemma_line_views_concat(header, body_snap);
        assert(line_views(header).len() == 3);
        assert(line_views(lines@).skip(3) =~= line_views(body_snap));
        assert(groups_expanded(groups@, grouped_line_diff(repo_text@, live_text@, 2))
            && line_views(lines@).skip(3) == body_lines(
            groups@,
            ln_width_spec(repo_text@, live_text@),
            gutter_spec(repo_text@, live_text@),
            (79 - gutter_spec(repo_text@, live_text@)) as nat,
        ));
    }
    DiffReport { lines, group_count }
}

/// The marker line of a file previewed without a diff body: two blank
/// gutter columns, the marker, the gutter bar, the relative path.
pub open spec fn marker_line_spec(mark: Seq<char>, rel: Seq<char>) -> Seq<char> {
    repeat_char(' ', 2) + mark + " "@ + "\u{2502}"@ + " "@ + rel + "\n"@
}

/// Renders the preview of a file that gets no diff body: an addition
/// marker for a file the repository lacks, a modified marker for one
/// whose contents do not decode as text. Two lines: a heavy rule, then
/// the marker line.
pub fn render_marker(kind: RenderKind, rel: &str) -> (r: Vec<String>)
    requires
        !(kind is LineDiff),
    ensures
        r@.len() == 2,
        r@[0]@ == top_rule_spec(4, 75),
        kind is Addition ==> r@[1]@ == marker_line_spec("\x1b[32m+\x1b[0m"@, rel@),
        kind is Modified ==> r@[1]@ == marker_line_spec("\x1b[36m~\x1b[0m"@, rel@),
{
    proof {
        reveal_strlit(" ");
    }
    let mut out: Vec<String> = Vec::new();
    out.push(top_rule(4, 75));
    let mut line = repeat_piece(" ", 2);
    match kind {
        RenderKind::Addition => line.append("\x1b[32m+\x1b[0m"),
        _ => line.append("\x1b[36m~\x1b[0m"),
    }
    line.append(" ");
    line.append("\u{2502}");
    line.append(" ");
    line.append(rel);
    line.append("\n");
    proof {
        if kind is Addition {
            assert(line@ =~= marker_line_spec("\x1b[32m+\x1b[0m"@, rel@));
        } else {
            assert(line@ =~= marker_line_spec("\x1b[36m~\x1b[0m"@, rel@));
        }
    }
    out.push(line);
    out
}

} // verus!
