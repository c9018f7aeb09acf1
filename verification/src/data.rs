//! Tables of numbers as text, tensors from tables, and splitting by rows.
//!
//! A table is written one row per line, the cells of a row separated by
//! commas. White space around a cell does not count, a line of white space
//! only is no row, and a cell that spells no number stands for zero.
use crate::errors::{is_invalid_argument, NeuroxError, NeuroxResult};
use crate::model::slice_rows;
use crate::scalar::{one, zero, Scalar, Text};
use crate::tensor::{buffers, lemma_index_before, lemma_is_build, Matrix, Tensor};
use vstd::prelude::*;

verus! {

/// Whether `c` is white space: what `char::is_whitespace` returns for it.
pub uninterp spec fn whitespace(c: char) -> bool;

/// `char::is_whitespace`: whether the character has the Unicode property
/// `White_Space`. The result depends on the character alone; it is the
/// value that [`whitespace`] names.
#[verifier::external_body]
fn is_whitespace(c: char) -> (b: bool)
    ensures
        b == whitespace(c),
{
    c.is_whitespace()
}

/// `String::push`: appends one character to the end of the string.
pub assume_specification[ String::push ](text: &mut String, c: char)
    ensures
        final(text)@ == old(text)@.push(c),
;

/// The position of the first character at or after `from` that is not
/// white space; the length of the text if there is none.
pub open spec fn leading(s: Text, from: int) -> int
    decreases s.len() - from,
{
    if from < 0 || from >= s.len() {
        s.len() as int
    } else if whitespace(s[from]) {
        leading(s, from + 1)
    } else {
        from
    }
}

/// The position after the last character before `to` that is not white
/// space; zero if there is none.
pub open spec fn trailing(s: Text, to: int) -> int
    decreases to,
{
    if to <= 0 || to > s.len() {
        0
    } else if whitespace(s[to - 1]) {
        trailing(s, to - 1)
    } else {
        to
    }
}

/// The text is white space only.
pub open spec fn blank(s: Text) -> bool {
    leading(s, 0) >= s.len()
}

/// The text without the white space at its start and at its end.
pub open spec fn trimmed(s: Text) -> Text {
    if leading(s, 0) >= trailing(s, s.len() as int) {
        Seq::empty()
    } else {
        s.subrange(leading(s, 0), trailing(s, s.len() as int))
    }
}

/// The position of the first `sep` at or after `from`; the length of the
/// text if there is none.
pub open spec fn next_sep(s: Text, sep: char, from: int) -> int
    decreases s.len() - from,
{
    if from < 0 || from >= s.len() {
        s.len() as int
    } else if s[from] == sep {
        from
    } else {
        next_sep(s, sep, from + 1)
    }
}

/// The first `sep` at or after `from` is found between `from` and the end
/// of the text.
pub proof fn lemma_next_sep_bounds(s: Text, sep: char, from: int)
    requires
        0 <= from <= s.len(),
    ensures
        from <= next_sep(s, sep, from) <= s.len(),
    decreases s.len() - from,
{
    if from < s.len() && s[from] != sep {
        lemma_next_sep_bounds(s, sep, from + 1);
    }
}

/// The pieces that the text from `from` on falls into when it is cut at
/// every `sep`. There is always at least one piece; a text that ends in
/// `sep` has an empty last piece.
pub open spec fn pieces(s: Text, sep: char, from: int) -> Seq<Text>
    decreases s.len() - from,
{
    if from < 0 || from > s.len() {
        Seq::empty()
    } else if next_sep(s, sep, from) >= s.len() {
        seq![s.subrange(from, s.len() as int)]
    } else {
        proof {
            lemma_next_sep_bounds(s, sep, from);
        }
        seq![s.subrange(from, next_sep(s, sep, from))] + pieces(
            s,
            sep,
            next_sep(s, sep, from) + 1,
        )
    }
}

/// The number a cell stands for: the one its trimmed text spells, or zero
/// if it spells none.
pub open spec fn cell_value<S: Scalar>(cell: Text) -> S {
    match S::parse_spec(trimmed(cell)) {
        Some(v) => v,
        None => zero::<S>(),
    }
}

/// The numbers of a line: one for each piece between commas.
pub open spec fn row_values<S: Scalar>(line: Text) -> Seq<S> {
    pieces(line, ',', 0).map_values(|cell: Text| cell_value::<S>(cell))
}

/// The rows of the first `n` lines: one for every line that is not blank.
pub open spec fn rows_of_lines<S: Scalar>(lines: Seq<Text>, n: nat) -> Seq<Seq<S>>
    decreases n,
{
    if n == 0 {
        Seq::empty()
    } else if blank(lines[n - 1]) {
        rows_of_lines(lines, (n - 1) as nat)
    } else {
        rows_of_lines(lines, (n - 1) as nat).push(row_values(lines[n - 1]))
    }
}

/// The rows of a table given as text.
pub open spec fn table<S: Scalar>(text: Text) -> Seq<Seq<S>> {
    rows_of_lines(pieces(text, '\n', 0), pieces(text, '\n', 0).len())
}

/// Every row is as long as the first one.
pub open spec fn rectangular<S>(rows: Seq<Seq<S>>) -> bool {
    forall|i: int| 0 <= i < rows.len() ==> (#[trigger] rows[i]).len() == rows[0].len()
}

/// The matrix whose rows are the given ones, which must be equally long.
pub open spec fn matrix_of_rows<S: Scalar>(rows: Seq<Seq<S>>) -> Matrix<S> {
    Matrix::build(rows.len(), rows[0].len(), |r: int, c: int| rows[r][c])
}

/// A search for the first `sep` may start after any stretch without one.
proof fn lemma_next_sep_skips(s: Text, sep: char, from: int, to: int)
    requires
        0 <= from <= to <= s.len(),
        forall|k: int| from <= k < to ==> s[k] != sep,
    ensures
        next_sep(s, sep, from) == next_sep(s, sep, to),
    decreases to - from,
{
    if from < to {
        lemma_next_sep_skips(s, sep, from + 1, to);
    }
}

/// The characters of a text.
fn chars_of(text: &str) -> (out: Vec<char>)
    ensures
        out@ == text@,
{
    let mut out: Vec<char> = Vec::new();
    for c in it: text.chars()
        invariant
            out@ == it.seq().take(it.index() as int),
            it.seq() == text@,
    {
        out.push(c);
        assert(out@ =~= it.seq().take(it.index() + 1));
    }
    assert(out@ =~= text@);
    out
}

/// Cuts the text at every `sep`.
fn split(s: &Vec<char>, sep: char) -> (out: Vec<Vec<char>>)
    ensures
        buffers(out) == pieces(s@, sep, 0),
{
    let mut out: Vec<Vec<char>> = Vec::new();
    let mut piece: Vec<char> = Vec::new();
    let ghost mut start: int = 0;
    let n = s.len();
    let mut j: usize = 0;
    assert(buffers(out) + pieces(s@, sep, 0) =~= pieces(s@, sep, 0));
    while j < n
        invariant
            n == s@.len(),
            0 <= start <= j <= n,
            piece@ == s@.subrange(start, j as int),
            forall|k: int| start <= k < j ==> s@[k] != sep,
            buffers(out) + pieces(s@, sep, start) == pieces(s@, sep, 0),
        decreases n - j,
    {
        if s[j] == sep {
            proof {
                lemma_next_sep_skips(s@, sep, start, j as int);
                assert(next_sep(s@, sep, j as int) == j);
            }
            let ghost before = buffers(out);
            out.push(piece);
            piece = Vec::new();
            proof {
                assert(buffers(out) =~= before.push(s@.subrange(start, j as int)));
                assert(pieces(s@, sep, start) =~= seq![s@.subrange(start, j as int)] + pieces(
                    s@,
                    sep,
                    j + 1,
                ));
                assert(buffers(out) + pieces(s@, sep, j + 1) =~= before + pieces(s@, sep, start));
                start = j + 1;
            }
            assert(piece@ =~= s@.subrange(start, j + 1));
        } else {
            piece.push(s[j]);
            assert(piece@ =~= s@.subrange(start, j + 1));
        }
        j += 1;
    }
    proof {
        lemma_next_sep_skips(s@, sep, start, n as int);
        assert(pieces(s@, sep, start) =~= seq![s@.subrange(start, n as int)]);
    }
    let ghost before = buffers(out);
    out.push(piece);
    assert(buffers(out) =~= before.push(s@.subrange(start, n as int)));
    assert(buffers(out) =~= before + pieces(s@, sep, start));
    out
}

/// The position of the first character that is not white space.
fn leading_end(s: &Vec<char>) -> (a: usize)
    ensures
        a == leading(s@, 0),
        a <= s@.len(),
{
    let n = s.len();
    let mut a: usize = 0;
    while a < n && is_whitespace(s[a])
        invariant
            n == s@.len(),
            a <= n,
            leading(s@, 0) == leading(s@, a as int),
        decreases n - a,
    {
        a += 1;
    }
    a
}

/// The position after the last character that is not white space.
fn trailing_start(s: &Vec<char>) -> (b: usize)
    ensures
        b == trailing(s@, s@.len() as int),
        b <= s@.len(),
{
    let n = s.len();
    let mut b: usize = n;
    while b > 0 && is_whitespace(s[b - 1])
        invariant
            n == s@.len(),
            b <= n,
            trailing(s@, n as int) == trailing(s@, b as int),
        decreases b,
    {
        b -= 1;
    }
    b
}

/// The text without the white space around it.
fn trim(s: &Vec<char>) -> (out: String)
    ensures
        out@ == trimmed(s@),
{
    let a = leading_end(s);
    let b = trailing_start(s);
    let mut out = String::new();
    if a < b {
        let mut k: usize = a;
        while k < b
            invariant
                a <= k <= b <= s@.len(),
                out@ == s@.subrange(a as int, k as int),
            decreases b - k,
        {
            out.push(s[k]);
            k += 1;
            assert(out@ =~= s@.subrange(a as int, k as int));
        }
    }
    assert(out@ =~= trimmed(s@));
    out
}

/// The numbers of a line.
fn parse_row<S: Scalar>(line: &Vec<char>) -> (row: Vec<S>)
    ensures
        row@ == row_values::<S>(line@),
{
    let cells = split(line, ',');
    let n = cells.len();
    let mut row: Vec<S> = Vec::new();
    let mut i: usize = 0;
    assert(buffers(cells).len() == n);
    while i < n
        invariant
            i <= n,
            n == cells@.len(),
            buffers(cells) == pieces(line@, ',', 0),
            row@.len() == i,
            forall|k: int| 0 <= k < i ==> #[trigger] row@[k] == cell_value::<S>(cells@[k]@),
        decreases n - i,
    {
        let cell = trim(&cells[i]);
        let value = match S::parse(cell.as_str()) {
            Some(v) => v,
            None => S::from_count(0),
        };
        row.push(value);
        i += 1;
    }
    proof {
        assert forall|k: int| 0 <= k < n implies row@[k] == row_values::<S>(line@)[k] by {
            assert(buffers(cells)[k] == cells@[k]@);
        }
        assert(row@ =~= row_values::<S>(line@));
    }
    row
}

/// Builds a tensor from the rows of a table.
///
/// Fails with an invalid argument if there is no row, or if a row is not as
/// long as the first one.
pub fn tensor_from_rows<S: Scalar>(rows: &Vec<Vec<S>>) -> (res: NeuroxResult<Tensor<S>>)
    ensures
        rows@.len() == 0 ==> is_invalid_argument(res, "empty csv"@),
        rows@.len() > 0 && !rectangular(buffers(*rows)) ==> is_invalid_argument(
            res,
            "csv has non-uniform row length"@,
        ),
        rows@.len() > 0 && rectangular(buffers(*rows)) ==> (res matches Ok(t) && t@
            == matrix_of_rows(buffers(*rows)) && t.wf()),
{
    let r = rows.len();
    if r == 0 {
        return Err(NeuroxError::invalid_argument("empty csv"));
    }
    let ghost table = buffers(*rows);
    let c = rows[0].len();
    let mut data: Vec<S> = Vec::new();
    let mut i: usize = 0;
    assert(table[0] == rows@[0]@);
    while i < r
        invariant
            i <= r,
            r == rows@.len(),
            r > 0,
            table == buffers(*rows),
            c == table[0].len(),
            data.len() == i * c,
            forall|k: int| 0 <= k < i ==> (#[trigger] table[k]).len() == c,
            forall|p: int, q: int|
                0 <= p < i && 0 <= q < c ==> #[trigger] data@[p * c + q] == table[p][q],
        decreases r - i,
    {
        assert(table[i as int] == rows@[i as int]@);
        if rows[i].len() != c {
            return Err(NeuroxError::invalid_argument("csv has non-uniform row length"));
        }
        let mut j: usize = 0;
        while j < c
            invariant
                j <= c,
                i < r,
                r == rows@.len(),
                table == buffers(*rows),
                table[i as int] == rows@[i as int]@,
                rows@[i as int]@.len() == c,
                data.len() == i * c + j,
                forall|p: int, q: int|
                    (0 <= p < i && 0 <= q < c) || (p == i && 0 <= q < j) ==> #[trigger] data@[p * c
                        + q] == table[p][q],
            decreases c - j,
        {
            let ghost before = data@;
            data.push(rows[i][j]);
            proof {
                assert forall|p: int, q: int|
                    (0 <= p < i && 0 <= q < c) || (p == i && 0 <= q < j + 1)
                    implies #[trigger] data@[p * c + q] == table[p][q] by {
                    if p == i && q == j {
                    } else {
                        lemma_index_before(i as int, j as int, c as int, p, q);
                        assert(data@[p * c + q] == before[p * c + q]);
                    }
                }
            }
            j += 1;
        }
        proof {
            assert((i + 1) * c == i * c + c) by (nonlinear_arith);
        }
        i += 1;
    }
    let t = Tensor { data, rows: r, cols: c };
    proof {
        lemma_is_build(t@, |p: int, q: int| table[p][q]);
    }
    Ok(t)
}

/// Loads a tensor from the text of a comma-separated table without header.
///
/// Blank lines are skipped, and a cell that spells no number stands for
/// zero. Fails with an invalid argument if the table has no row, or if a
/// row is not as long as the first one.
pub fn tensor_from_csv<S: Scalar>(text: &str) -> (res: NeuroxResult<Tensor<S>>)
    ensures
        table::<S>(text@).len() == 0 ==> is_invalid_argument(res, "empty csv"@),
        table::<S>(text@).len() > 0 && !rectangular(table::<S>(text@)) ==> is_invalid_argument(
            res,
            "csv has non-uniform row length"@,
        ),
        table::<S>(text@).len() > 0 && rectangular(table::<S>(text@)) ==> (res matches Ok(t)
            && t@ == matrix_of_rows(table::<S>(text@)) && t.wf()),
{
    let chars = chars_of(text);
    let lines = split(&chars, '\n');
    let n = lines.len();
    let mut rows: Vec<Vec<S>> = Vec::new();
    let mut i: usize = 0;
    assert(buffers(lines).len() == n);
    assert(buffers(rows) =~= rows_of_lines::<S>(buffers(lines), 0));
    while i < n
        invariant
            i <= n,
            n == lines@.len(),
            buffers(lines) == pieces(text@, '\n', 0),
            buffers(rows) == rows_of_lines::<S>(buffers(lines), i as nat),
        decreases n - i,
    {
        assert(buffers(lines)[i as int] == lines@[i as int]@);
        let ghost before = buffers(rows);
        if leading_end(&lines[i]) < lines[i].len() {
            let row = parse_row::<S>(&lines[i]);
            rows.push(row);
            assert(buffers(rows) =~= before.push(row_values::<S>(lines@[i as int]@)));
        }
        i += 1;
    }
    tensor_from_rows(&rows)
}

/// The number of training rows when `ratio` of `rows` rows go to training:
/// `rows * ratio`, rounded.
pub open spec fn split_point<S: Scalar>(rows: usize, ratio: S) -> usize {
    S::from_count_spec(rows).mul_spec(ratio).to_count_spec()
}

/// The ratio lies strictly between zero and one.
pub open spec fn proper_ratio<S: Scalar>(ratio: S) -> bool {
    ratio.gt_spec(zero::<S>()) && one::<S>().gt_spec(ratio)
}

/// Splits a tensor by rows: the first `ratio` of the rows for training, the
/// remaining ones for testing.
///
/// Fails with an invalid argument unless `ratio` lies strictly between zero
/// and one, and if the rounded share exceeds the number of rows.
pub fn train_test_split<S: Scalar>(t: &Tensor<S>, ratio: S) -> (res: NeuroxResult<
    (Tensor<S>, Tensor<S>),
>)
    requires
        t.wf(),
    ensures
        !proper_ratio(ratio) ==> is_invalid_argument(
            res,
            "Split ratio must be between 0.0 and 1.0"@,
        ),
        proper_ratio(ratio) && split_point(t.rows, ratio) > t.rows ==> is_invalid_argument(
            res,
            "Split point must not exceed the number of rows"@,
        ),
        proper_ratio(ratio) && split_point(t.rows, ratio) <= t.rows ==> (res matches Ok(parts)
            && parts.0@ == t@.slice_rows(0, split_point(t.rows, ratio) as int) && parts.1@
            == t@.slice_rows(split_point(t.rows, ratio) as int, t.rows as int) && parts.0.wf()
            && parts.1.wf()),
{
    if !(ratio.gt(S::from_count(0)) && S::from_count(1).gt(ratio)) {
        return Err(NeuroxError::invalid_argument("Split ratio must be between 0.0 and 1.0"));
    }
    let train_rows = S::from_count(t.rows).mul(ratio).to_count();
    if train_rows > t.rows {
        return Err(
            NeuroxError::invalid_argument("Split point must not exceed the number of rows"),
        );
    }
    let train = match slice_rows(t, 0, train_rows) {
        Ok(part) => part,
        Err(e) => {
            return Err(e);
        },
    };
    let test = match slice_rows(t, train_rows, t.rows) {
        Ok(part) => part,
        Err(e) => {
            return Err(e);
        },
    };
    Ok((train, test))
}

} // verus!
