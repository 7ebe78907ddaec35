use vstd::prelude::*;

use crate::matrix::FennMatrix;

verus! {

/// `n` tab characters.
pub open spec fn tabs(n: nat) -> Seq<char>
    decreases n,
{
    if n == 0 {
        Seq::empty()
    } else {
        tabs((n - 1) as nat).push('\t')
    }
}

/// What follows the element in row `r` and column `c`: a space between two
/// elements of a row; after the last element of a row, `]`, and then, but
/// for the last row, a line break and the indentation.
pub open spec fn after_cell(r: int, c: int, rows: int, cols: int, tab: nat) -> Seq<char> {
    if c == cols - 1 {
        if r != rows - 1 {
            seq![']', '\n'] + tabs(tab)
        } else {
            seq![']']
        }
    } else {
        seq![' ']
    }
}

/// Row `r` up to its first `k` elements: `[`, then each element's text
/// followed by what comes after it.
pub open spec fn row_text(cells: Seq<Seq<char>>, r: int, rows: int, cols: int, tab: nat, k: nat) -> Seq<char>
    decreases k,
{
    if k == 0 {
        seq!['[']
    } else {
        row_text(cells, r, rows, cols, tab, (k - 1) as nat) + cells[r * cols + k - 1] + after_cell(
            r,
            k - 1,
            rows,
            cols,
            tab,
        )
    }
}

/// The text of the first `k` rows, one after the other.
pub open spec fn rows_text(cells: Seq<Seq<char>>, rows: int, cols: int, tab: nat, k: nat) -> Seq<char>
    decreases k,
{
    if k == 0 {
        Seq::empty()
    } else {
        rows_text(cells, rows, cols, tab, (k - 1) as nat) + row_text(
            cells,
            k - 1,
            rows,
            cols,
            tab,
            cols as nat,
        )
    }
}

/// The text of a `rows` by `cols` matrix whose elements read `cells`, row
/// after row, indented by `tab` tabs: the indentation, `[`, the rows, `]`.
pub open spec fn layout_text(cells: Seq<Seq<char>>, rows: nat, cols: nat, tab: nat) -> Seq<char> {
    tabs(tab) + seq!['['] + rows_text(cells, rows as int, cols as int, tab, rows) + seq![']']
}

/// The parts one after the other with `sep` between each two of them.
pub open spec fn join(parts: Seq<Seq<char>>, sep: Seq<char>) -> Seq<char>
    decreases parts.len(),
{
    if parts.len() == 0 {
        Seq::empty()
    } else if parts.len() == 1 {
        parts[0]
    } else {
        join(parts.drop_last(), sep) + sep + parts.last()
    }
}

/// The texts of row `r` of a matrix of `cols` columns whose elements read
/// `cells`, row after row.
pub open spec fn row_cells(cells: Seq<Seq<char>>, r: int, cols: int) -> Seq<Seq<char>> {
    Seq::new(cols as nat, |c: int| cells[r * cols + c])
}

/// Row `r` in brackets, its elements apart by one space.
pub open spec fn bracketed_row(cells: Seq<Seq<char>>, r: int, cols: int) -> Seq<char> {
    seq!['['] + join(row_cells(cells, r, cols), seq![' ']) + seq![']']
}

/// A line break and the indentation.
pub open spec fn line_break(tab: nat) -> Seq<char> {
    seq!['\n'] + tabs(tab)
}

/// Joining one part more adds the separator and that part.
proof fn lemma_join_push(parts: Seq<Seq<char>>, sep: Seq<char>, k: int)
    requires
        1 <= k < parts.len(),
    ensures
        join(parts.take(k + 1), sep) == join(parts.take(k), sep) + sep + parts[k],
{
    assert(parts.take(k + 1).drop_last() =~= parts.take(k));
}

/// The first `k` elements of a row that goes on after them: `[`, the
/// elements apart by spaces, and the space before the next one.
proof fn lemma_row_text_prefix(cells: Seq<Seq<char>>, r: int, rows: int, cols: int, tab: nat, k: nat)
    requires
        1 <= k < cols,
    ensures
        row_text(cells, r, rows, cols, tab, k) == seq!['['] + join(
            row_cells(cells, r, cols).take(k as int),
            seq![' '],
        ) + seq![' '],
    decreases k,
{
    let parts = row_cells(cells, r, cols);
    if k == 1 {
        assert(parts.take(1) =~= seq![cells[r * cols + 0]]);
        assert(join(parts.take(1), seq![' ']) == cells[r * cols + 0]);
        assert(row_text(cells, r, rows, cols, tab, 0) == seq!['[']);
        assert(after_cell(r, 0, rows, cols, tab) == seq![' ']);
        assert(row_text(cells, r, rows, cols, tab, 1) == seq!['['] + cells[r * cols + 0] + seq![' ']);
        assert(row_text(cells, r, rows, cols, tab, k) =~= seq!['['] + join(parts.take(1), seq![' '])
            + seq![' ']);
    } else {
        lemma_row_text_prefix(cells, r, rows, cols, tab, (k - 1) as nat);
        lemma_join_push(parts, seq![' '], k - 1);
        assert(parts[k - 1] == cells[r * cols + k - 1]);
        assert(row_text(cells, r, rows, cols, tab, k) =~= seq!['['] + join(parts.take(k as int), seq![' '])
            + seq![' ']);
    }
}

/// A whole row: the row in brackets, followed by a line break and the
/// indentation unless it is the last row.
proof fn lemma_row_text_whole(cells: Seq<Seq<char>>, r: int, rows: int, cols: int, tab: nat)
    requires
        1 <= cols,
    ensures
        row_text(cells, r, rows, cols, tab, cols as nat) == bracketed_row(cells, r, cols) + if r
            != rows - 1 {
            line_break(tab)
        } else {
            Seq::empty()
        },
{
    let parts = row_cells(cells, r, cols);
    assert(parts.take(cols) =~= parts);
    if cols == 1 {
        assert(parts =~= seq![cells[r * cols + 0]]);
        assert(join(parts, seq![' ']) == cells[r * cols + 0]);
        assert(row_text(cells, r, rows, cols, tab, 0) == seq!['[']);
    } else {
        lemma_row_text_prefix(cells, r, rows, cols, tab, (cols - 1) as nat);
        lemma_join_push(parts, seq![' '], cols - 1);
        assert(parts[cols - 1] == cells[r * cols + cols - 1]);
    }
    assert(row_text(cells, r, rows, cols, tab, cols as nat) =~= bracketed_row(cells, r, cols) + if r
        != rows - 1 {
        line_break(tab)
    } else {
        Seq::empty()
    });
}

/// The first `k` rows of a matrix that goes on after them: the bracketed
/// rows, each followed by a line break and the indentation.
proof fn lemma_rows_text_prefix(cells: Seq<Seq<char>>, rows: int, cols: int, tab: nat, k: nat)
    requires
        1 <= cols,
        1 <= k < rows,
    ensures
        rows_text(cells, rows, cols, tab, k) == join(
            Seq::new(rows as nat, |r: int| bracketed_row(cells, r, cols)).take(k as int),
            line_break(tab),
        ) + line_break(tab),
    decreases k,
{
    let parts = Seq::new(rows as nat, |r: int| bracketed_row(cells, r, cols));
    lemma_row_text_whole(cells, k - 1, rows, cols, tab);
    if k == 1 {
        assert(parts.take(1) =~= seq![bracketed_row(cells, 0, cols)]);
        assert(join(parts.take(1), line_break(tab)) == bracketed_row(cells, 0, cols));
        assert(rows_text(cells, rows, cols, tab, 0) == Seq::<char>::empty());
        assert(rows_text(cells, rows, cols, tab, k) =~= join(parts.take(1), line_break(tab))
            + line_break(tab));
    } else {
        lemma_rows_text_prefix(cells, rows, cols, tab, (k - 1) as nat);
        lemma_join_push(parts, line_break(tab), k - 1);
        assert(rows_text(cells, rows, cols, tab, k) =~= join(parts.take(k as int), line_break(tab))
            + line_break(tab));
    }
}

/// The printed form of a matrix with at least one column: the indentation,
/// `[`, the rows each in brackets with their elements apart by one space,
/// a line break and the indentation between every two rows (and after no
/// other), and `]`.
pub proof fn lemma_layout_joins_rows(cells: Seq<Seq<char>>, rows: nat, cols: nat, tab: nat)
    requires
        1 <= cols,
    ensures
        layout_text(cells, rows, cols, tab) == tabs(tab) + seq!['['] + join(
            Seq::new(rows, |r: int| bracketed_row(cells, r, cols as int)),
            line_break(tab),
        ) + seq![']'],
{
    let parts = Seq::new(rows, |r: int| bracketed_row(cells, r, cols as int));
    if rows == 0 {
    } else if rows == 1 {
        lemma_row_text_whole(cells, 0, rows as int, cols as int, tab);
        assert(join(parts, line_break(tab)) == bracketed_row(cells, 0, cols as int));
        assert(rows_text(cells, rows as int, cols as int, tab, 0) == Seq::<char>::empty());
        assert(rows_text(cells, rows as int, cols as int, tab, rows) =~= join(parts, line_break(tab)));
    } else {
        lemma_rows_text_prefix(cells, rows as int, cols as int, tab, (rows - 1) as nat);
        lemma_row_text_whole(cells, rows - 1, rows as int, cols as int, tab);
        lemma_join_push(parts, line_break(tab), rows - 1);
        assert(parts.take(rows as int) =~= parts);
        assert(rows_text(cells, rows as int, cols as int, tab, rows) =~= join(parts, line_break(tab)));
    }
}

/// The printed form of a matrix with no columns: the indentation, `[`, one
/// `[` per row, and `]`.
pub proof fn lemma_layout_without_columns(cells: Seq<Seq<char>>, rows: nat, tab: nat)
    ensures
        layout_text(cells, rows, 0, tab) == tabs(tab) + seq!['['] + Seq::new(rows, |r: int| '[')
            + seq![']'],
{
    assert forall|k: nat| k <= rows implies #[trigger] rows_text(cells, rows as int, 0, tab, k)
        =~= Seq::new(k, |r: int| '[') by {
        lemma_rows_text_without_columns(cells, rows as int, tab, k);
    }
    assert(rows_text(cells, rows as int, 0, tab, rows) =~= Seq::new(rows, |r: int| '['));
}

/// Rows of no columns are each a lone `[`.
proof fn lemma_rows_text_without_columns(cells: Seq<Seq<char>>, rows: int, tab: nat, k: nat)
    ensures
        rows_text(cells, rows, 0, tab, k) =~= Seq::new(k, |r: int| '['),
    decreases k,
{
    if k > 0 {
        lemma_rows_text_without_columns(cells, rows, tab, (k - 1) as nat);
    }
}

/// How many times `ch` occurs in `s`.
pub open spec fn count_char(s: Seq<char>, ch: char) -> nat
    decreases s.len(),
{
    if s.len() == 0 {
        0
    } else {
        count_char(s.drop_last(), ch) + if s.last() == ch {
            1nat
        } else {
            0nat
        }
    }
}

/// Occurrences in a concatenation add up.
proof fn lemma_count_concat(a: Seq<char>, b: Seq<char>, ch: char)
    ensures
        count_char(a + b, ch) == count_char(a, ch) + count_char(b, ch),
    decreases b.len(),
{
    if b.len() == 0 {
        assert(a + b =~= a);
    } else {
        lemma_count_concat(a, b.drop_last(), ch);
        assert((a + b).drop_last() =~= a + b.drop_last());
    }
}

/// A single character occurs once if it is `ch` and not at all otherwise.
proof fn lemma_count_single(c: char, ch: char)
    ensures
        count_char(seq![c], ch) == if c == ch {
            1nat
        } else {
            0nat
        },
{
    assert(seq![c].drop_last() =~= Seq::<char>::empty());
    assert(count_char(Seq::<char>::empty(), ch) == 0);
    assert(seq![c].last() == c);
}

/// Indentation holds no line break.
proof fn lemma_tabs_have_no_break(n: nat)
    ensures
        count_char(tabs(n), '\n') == 0,
    decreases n,
{
    if n > 0 {
        lemma_tabs_have_no_break((n - 1) as nat);
        assert(tabs(n).drop_last() =~= tabs((n - 1) as nat));
    }
}

/// Joining parts that do not hold `ch` with a separator that holds it
/// `c` times holds it `c` times per separator.
proof fn lemma_count_join(parts: Seq<Seq<char>>, sep: Seq<char>, ch: char, k: nat)
    requires
        1 <= k <= parts.len(),
        forall|i: int| 0 <= i < parts.len() ==> count_char(#[trigger] parts[i], ch) == 0,
    ensures
        count_char(join(parts.take(k as int), sep), ch) == (k - 1) * count_char(sep, ch),
    decreases k,
{
    if k == 1 {
        assert(parts.take(1).len() == 1);
        assert(join(parts.take(1), sep) == parts[0]);
    } else {
        lemma_count_join(parts, sep, ch, (k - 1) as nat);
        lemma_join_push(parts, sep, k - 1);
        lemma_count_concat(join(parts.take(k - 1), sep), sep, ch);
        lemma_count_concat(join(parts.take(k - 1), sep) + sep, parts[k - 1], ch);
        assert((k - 2) * count_char(sep, ch) + count_char(sep, ch) == (k - 1) * count_char(sep, ch))
            by (nonlinear_arith);
    }
}

/// A matrix of at least one column whose elements print without line
/// breaks prints with exactly one line break between every two rows:
/// `rows - 1` of them in all.
pub proof fn lemma_layout_line_breaks(cells: Seq<Seq<char>>, rows: nat, cols: nat, tab: nat)
    requires
        1 <= rows,
        1 <= cols,
        cells.len() == rows * cols,
        forall|i: int| 0 <= i < cells.len() ==> count_char(#[trigger] cells[i], '\n') == 0,
    ensures
        count_char(layout_text(cells, rows, cols, tab), '\n') == rows - 1,
{
    lemma_layout_joins_rows(cells, rows, cols, tab);
    let parts = Seq::new(rows, |r: int| bracketed_row(cells, r, cols as int));
    lemma_tabs_have_no_break(tab);
    lemma_count_single(' ', '\n');
    lemma_count_single('[', '\n');
    lemma_count_single(']', '\n');
    lemma_count_single('\n', '\n');
    lemma_count_concat(seq!['\n'], tabs(tab), '\n');
    assert forall|r: int| 0 <= r < rows implies count_char(#[trigger] parts[r], '\n') == 0 by {
        let row = row_cells(cells, r, cols as int);
        assert forall|c: int| 0 <= c < row.len() implies count_char(#[trigger] row[c], '\n') == 0 by {
            crate::matrix::lemma_cell_in_bounds(r, c, rows as int, cols as int);
        }
        lemma_count_join(row, seq![' '], '\n', cols);
        assert(row.take(cols as int) =~= row);
        lemma_count_concat(seq!['['], join(row, seq![' ']), '\n');
        lemma_count_concat(seq!['['] + join(row, seq![' ']), seq![']'], '\n');
    }
    lemma_count_join(parts, line_break(tab), '\n', rows);
    assert(parts.take(rows as int) =~= parts);
    lemma_count_concat(tabs(tab), seq!['['], '\n');
    lemma_count_concat(tabs(tab) + seq!['['], join(parts, line_break(tab)), '\n');
    lemma_count_concat(tabs(tab) + seq!['['] + join(parts, line_break(tab)), seq![']'], '\n');
    assert((rows - 1) * 1 == rows - 1);
}

/// `String::push`: appends the character `ch` to `s`.
#[verifier::external_body]
fn push_char(s: &mut String, ch: char)
    ensures
        final(s)@ == old(s)@.push(ch),
{
    s.push(ch)
}

/// `String::push_str`: appends the characters of `t` to `s`.
#[verifier::external_body]
fn push_str(s: &mut String, t: &str)
    ensures
        final(s)@ == old(s)@ + t@,
{
    s.push_str(t)
}

/// Appends `n` tab characters to `s`.
fn push_tabs(s: &mut String, n: usize)
    ensures
        final(s)@ == old(s)@ + tabs(n as nat),
{
    let ghost start = s@;
    for i in 0..n
        invariant
            s@ == start + tabs(i as nat),
    {
        push_char(s, '\t');
        assert(start + tabs((i + 1) as nat) =~= (start + tabs(i as nat)).push('\t'));
    }
}

/// Lays out a `rows` by `cols` matrix whose elements read `cells`, row
/// after row, as text indented by `tabbing` tabs: rows in brackets, the
/// elements of a row apart by one space, a line break and the indentation
/// between rows, and the whole in brackets.
pub fn layout(cells: &Vec<String>, rows: usize, cols: usize, tabbing: usize) -> (s: String)
    requires
        cells.len() == rows * cols,
    ensures
        s@ == layout_text(cells@.map_values(|t: String| t@), rows as nat, cols as nat, tabbing as nat),
        cols >= 1 ==> s@ == tabs(tabbing as nat) + seq!['['] + join(
            Seq::new(
                rows as nat,
                |r: int| bracketed_row(cells@.map_values(|t: String| t@), r, cols as int),
            ),
            line_break(tabbing as nat),
        ) + seq![']'],
        cols == 0 ==> s@ == tabs(tabbing as nat) + seq!['['] + Seq::new(rows as nat, |r: int| '[')
            + seq![']'],
        rows >= 1 && cols >= 1 && (forall|i: int|
            0 <= i < cells.len() ==> count_char(#[trigger] cells@[i]@, '\n') == 0) ==> count_char(
            s@,
            '\n',
        ) == rows - 1,
{
    let ghost texts = cells@.map_values(|t: String| t@);
    let mut s = String::new();
    push_tabs(&mut s, tabbing);
    push_char(&mut s, '[');
    let ghost head = s@;
    assert(head =~= tabs(tabbing as nat) + seq!['[']);
    for r in 0..rows
        invariant
            cells.len() == rows * cols,
            texts == cells@.map_values(|t: String| t@),
            head == tabs(tabbing as nat) + seq!['['],
            s@ == head + rows_text(texts, rows as int, cols as int, tabbing as nat, r as nat),
    {
        let ghost before_row = s@;
        push_char(&mut s, '[');
        for c in 0..cols
            invariant
                cells.len() == rows * cols,
                texts == cells@.map_values(|t: String| t@),
                r < rows,
                s@ == before_row + row_text(texts, r as int, rows as int, cols as int, tabbing as nat, c as nat),
        {
            proof {
                crate::matrix::lemma_cell_in_bounds(r as int, c as int, rows as int, cols as int);
            }
            let ghost before_cell = s@;
            push_str(&mut s, cells[r * cols + c].as_str());
            if c == cols - 1 {
                push_char(&mut s, ']');
                if r != rows - 1 {
                    push_char(&mut s, '\n');
                    push_tabs(&mut s, tabbing);
                }
            } else {
                push_char(&mut s, ' ');
            }
            assert(s@ =~= before_row + row_text(texts, r as int, rows as int, cols as int, tabbing as nat, (c + 1) as nat));
        }
        assert(s@ =~= head + rows_text(texts, rows as int, cols as int, tabbing as nat, (r + 1) as nat));
    }
    push_char(&mut s, ']');
    assert(s@ =~= layout_text(texts, rows as nat, cols as nat, tabbing as nat));
    proof {
        if cols >= 1 {
            lemma_layout_joins_rows(texts, rows as nat, cols as nat, tabbing as nat);
        } else {
            lemma_layout_without_columns(texts, rows as nat, tabbing as nat);
        }
        if rows >= 1 && cols >= 1 && (forall|i: int|
            0 <= i < cells.len() ==> count_char(#[trigger] cells@[i]@, '\n') == 0) {
            assert forall|i: int| 0 <= i < texts.len() implies count_char(#[trigger] texts[i], '\n')
                == 0 by {
                assert(texts[i] == cells@[i]@);
            }
            lemma_layout_line_breaks(texts, rows as nat, cols as nat, tabbing as nat);
        }
    }
    s
}

} // verus!

verus! {

impl<T: core::fmt::Display> FennMatrix<T> {
    /// The matrix as text indented by `tabbing` tabs, each element written
    /// by its `Display`, laid out as `layout` does.
    pub fn render(&self, tabbing: usize) -> (s: String)
        requires
            self.wf(),
        ensures
            exists|cells: Seq<String>|
                {
                    &&& cells.len() == self.elems().len()
                    &&& forall|i: int|
                        0 <= i < cells.len() ==> vstd::string::to_string_from_display_ensures::<T>(
                            &self.elems()[i],
                            #[trigger] cells[i],
                        )
                    &&& s@ == layout_text(
                        cells.map_values(|t: String| t@),
                        self.rows(),
                        self.cols(),
                        tabbing as nat,
                    )
                    &&& self.cols() >= 1 ==> s@ == tabs(tabbing as nat) + seq!['['] + join(
                        Seq::new(
                            self.rows(),
                            |r: int| bracketed_row(cells.map_values(|t: String| t@), r, self.cols() as int),
                        ),
                        line_break(tabbing as nat),
                    ) + seq![']']
                },
    {
        let elems = self.as_slice();
        let mut cells: Vec<String> = Vec::with_capacity(elems.len());
        for i in 0..elems.len()
            invariant
                elems@ == self.elems(),
                cells.len() == i,
                forall|j: int|
                    0 <= j < i ==> vstd::string::to_string_from_display_ensures::<T>(
                        &self.elems()[j],
                        #[trigger] cells@[j],
                    ),
        {
            cells.push(elems[i].to_string());
        }
        let (cols, rows) = self.dimensions();
        layout(&cells, rows, cols, tabbing)
    }
}

} // verus!
