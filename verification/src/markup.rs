//! The vector markup shows the modules: the path of the markup can be read
//! back square by square, so two symbols with the same markup have the same
//! modules.

use vstd::prelude::*;
use crate::color::hex_digit;
use crate::encode::{canvas_side, cell_is_dark, decimal, svg_markup, svg_square, svg_squares};

verus! {

/// Whether a character is a decimal digit.
pub open spec fn is_digit(c: char) -> bool {
    c == '0' || c == '1' || c == '2' || c == '3' || c == '4' || c == '5' || c == '6' || c == '7'
        || c == '8' || c == '9'
}

/// Whether every character of a text is a decimal digit.
pub open spec fn all_digits(s: Seq<char>) -> bool {
    forall|i: int| 0 <= i < s.len() ==> is_digit(#[trigger] s[i])
}

/// Whether a text begins with `M` and holds no other `M`.
pub open spec fn starts_a_path(s: Seq<char>) -> bool {
    &&& s.len() >= 1
    &&& s[0] == 'M'
    &&& forall|i: int| 1 <= i < s.len() ==> #[trigger] s[i] != 'M'
}

/// The value of a decimal digit.
pub open spec fn digit_number(c: char) -> nat {
    if c == '1' {
        1
    } else if c == '2' {
        2
    } else if c == '3' {
        3
    } else if c == '4' {
        4
    } else if c == '5' {
        5
    } else if c == '6' {
        6
    } else if c == '7' {
        7
    } else if c == '8' {
        8
    } else if c == '9' {
        9
    } else {
        0
    }
}

/// The number that a text of decimal digits denotes.
pub open spec fn decimal_number(s: Seq<char>) -> nat
    decreases s.len(),
{
    if s.len() == 0 {
        0
    } else {
        10 * decimal_number(s.drop_last()) + digit_number(s.last())
    }
}

/// The decimal notation of a number is made of digits and is not empty.
pub proof fn lemma_decimal_is_digits(n: nat)
    ensures
        decimal(n).len() >= 1,
        all_digits(decimal(n)),
    decreases n,
{
    if n >= 10 {
        lemma_decimal_is_digits(n / 10);
    }
}

/// The decimal notation of a number denotes that number.
pub proof fn lemma_decimal_number(n: nat)
    ensures
        decimal_number(decimal(n)) == n,
    decreases n,
{
    let s = decimal(n);
    if n < 10 {
        assert(s.drop_last() =~= Seq::<char>::empty());
        assert(s.last() == hex_digit(n as int));
    } else {
        lemma_decimal_number(n / 10);
        assert(s.drop_last() =~= decimal(n / 10));
        assert(s.last() == hex_digit((n % 10) as int));
    }
}

/// Two texts of digits, each followed by one mark that begins with no digit
/// and by a rest, that are the same as a whole are the same digits followed
/// by the same rest.
proof fn lemma_split_at_mark(
    a: Seq<char>,
    b: Seq<char>,
    mark: Seq<char>,
    r: Seq<char>,
    q: Seq<char>,
)
    requires
        all_digits(a),
        all_digits(b),
        mark.len() >= 1,
        !is_digit(mark[0]),
        a + (mark + r) == b + (mark + q),
    ensures
        a == b,
        r == q,
{
    let left = a + (mark + r);
    let right = b + (mark + q);
    if a.len() < b.len() {
        assert(left[a.len() as int] == mark[0]);
        assert(right[a.len() as int] == b[a.len() as int]);
        assert(is_digit(b[a.len() as int]));
    }
    if b.len() < a.len() {
        assert(right[b.len() as int] == mark[0]);
        assert(left[b.len() as int] == a[b.len() as int]);
        assert(is_digit(a[b.len() as int]));
    }
    assert(a =~= left.subrange(0, a.len() as int));
    assert(b =~= right.subrange(0, b.len() as int));
    let from = a.len() + mark.len();
    assert(r =~= left.subrange(from as int, left.len() as int));
    assert(q =~= right.subrange(from as int, right.len() as int));
}

/// Two texts that end in a path each and are the same as a whole end in the
/// same path, after the same text.
proof fn lemma_last_path(u: Seq<char>, s: Seq<char>, w: Seq<char>, t: Seq<char>)
    requires
        starts_a_path(s),
        starts_a_path(t),
        u + s == w + t,
    ensures
        s == t,
        u == w,
{
    let left = u + s;
    let right = w + t;
    if s.len() < t.len() {
        let k = t.len() - s.len();
        assert(left[u.len() as int] == s[0]);
        assert(right[w.len() + k] == t[k]);
    }
    if t.len() < s.len() {
        let k = s.len() - t.len();
        assert(right[w.len() as int] == t[0]);
        assert(left[u.len() + k] == s[k]);
    }
    assert(u =~= left.subrange(0, u.len() as int));
    assert(w =~= right.subrange(0, w.len() as int));
    assert(s =~= left.subrange(u.len() as int, left.len() as int));
    assert(t =~= right.subrange(w.len() as int, right.len() as int));
}

/// The path of a square begins with `M` and holds no other `M`.
pub proof fn lemma_square_starts_a_path(x: int, y: int)
    requires
        0 <= x,
        0 <= y,
    ensures
        starts_a_path(svg_square(x, y)),
{
    let left = decimal((x * 8) as nat);
    let top = decimal((y * 8) as nat);
    lemma_decimal_is_digits((x * 8) as nat);
    lemma_decimal_is_digits((y * 8) as nat);
    let back = left + (seq!['V'] + top);
    let middle = top + (seq!['h', '8', 'v', '8', 'H'] + back);
    let tail = left + (seq![' '] + middle);
    assert forall|i: int| 0 <= i < back.len() implies #[trigger] back[i] != 'M' by {
        if i < left.len() {
            assert(is_digit(left[i]));
        } else if i > left.len() {
            assert(is_digit(top[i - left.len() - 1]));
        }
    }
    assert forall|i: int| 0 <= i < middle.len() implies #[trigger] middle[i] != 'M' by {
        if i < top.len() {
            assert(is_digit(top[i]));
        } else if i >= top.len() + 5 {
            assert(middle[i] == back[i - top.len() - 5]);
        }
    }
    assert forall|i: int| 0 <= i < tail.len() implies #[trigger] tail[i] != 'M' by {
        if i < left.len() {
            assert(is_digit(left[i]));
        } else if i > left.len() {
            assert(tail[i] == middle[i - left.len() - 1]);
        }
    }
    let square = svg_square(x, y);
    assert(square =~= seq!['M'] + tail);
    assert forall|i: int| 1 <= i < square.len() implies #[trigger] square[i] != 'M' by {
        assert(square[i] == tail[i - 1]);
    }
}

/// The paths of two squares are the same only where the squares are.
pub proof fn lemma_square_is_lossless(x: int, y: int, other_x: int, other_y: int)
    requires
        0 <= x,
        0 <= y,
        0 <= other_x,
        0 <= other_y,
        svg_square(x, y) == svg_square(other_x, other_y),
    ensures
        x == other_x,
        y == other_y,
{
    let left = decimal((x * 8) as nat);
    let top = decimal((y * 8) as nat);
    let other_left = decimal((other_x * 8) as nat);
    let other_top = decimal((other_y * 8) as nat);
    lemma_decimal_is_digits((x * 8) as nat);
    lemma_decimal_is_digits((y * 8) as nat);
    lemma_decimal_is_digits((other_x * 8) as nat);
    lemma_decimal_is_digits((other_y * 8) as nat);
    let sides = seq!['h', '8', 'v', '8', 'H'];
    let back = left + (seq!['V'] + top);
    let other_back = other_left + (seq!['V'] + other_top);
    let middle = top + (sides + back);
    let other_middle = other_top + (sides + other_back);
    let tail = left + (seq![' '] + middle);
    let other_tail = other_left + (seq![' '] + other_middle);
    assert(tail =~= svg_square(x, y).subrange(1, svg_square(x, y).len() as int));
    assert(other_tail =~= svg_square(other_x, other_y).subrange(
        1,
        svg_square(other_x, other_y).len() as int,
    ));
    lemma_split_at_mark(left, other_left, seq![' '], middle, other_middle);
    lemma_split_at_mark(top, other_top, sides, back, other_back);
    lemma_decimal_number((x * 8) as nat);
    lemma_decimal_number((y * 8) as nat);
    lemma_decimal_number((other_x * 8) as nat);
    lemma_decimal_number((other_y * 8) as nat);
}

/// The cell of the canvas with the number `i`, counting row by row.
pub open spec fn cell_shows(modules: Seq<bool>, side: int, margin: int, i: int) -> bool {
    cell_is_dark(
        modules,
        side,
        margin,
        i % canvas_side(side, margin),
        i / canvas_side(side, margin),
    )
}

/// The paths of the first `n` cells do not end in the path of a later cell.
proof fn lemma_no_later_square(
    modules: Seq<bool>,
    side: int,
    margin: int,
    n: nat,
    before: Seq<char>,
    later: int,
)
    requires
        0 < canvas_side(side, margin),
        n <= later,
    ensures
        svg_squares(modules, side, margin, n) != before + svg_square(
            later % canvas_side(side, margin),
            later / canvas_side(side, margin),
        ),
    decreases n,
{
    let cells = canvas_side(side, margin);
    let last = svg_square(later % cells, later / cells);
    lemma_cell_of(cells, later);
    lemma_square_starts_a_path(later % cells, later / cells);
    if svg_squares(modules, side, margin, n) == before + last {
        if n == 0 {
            assert((before + last).len() >= 1);
        } else {
            let i = n - 1;
            lemma_cell_of(cells, i);
            let earlier = svg_squares(modules, side, margin, i as nat);
            if cell_is_dark(modules, side, margin, i % cells, i / cells) {
                lemma_square_starts_a_path(i % cells, i / cells);
                lemma_last_path(earlier, svg_square(i % cells, i / cells), before, last);
                lemma_square_is_lossless(i % cells, i / cells, later % cells, later / cells);
            } else {
                assert(earlier + Seq::<char>::empty() =~= earlier);
                lemma_no_later_square(modules, side, margin, i as nat, before, later);
            }
        }
    }
}

/// A cell number is its row times the width of the canvas plus its column.
proof fn lemma_cell_of(cells: int, i: int)
    requires
        0 < cells,
        0 <= i,
    ensures
        0 <= i % cells < cells,
        0 <= i / cells,
        i == (i / cells) * cells + i % cells,
{
    assert(0 <= i % cells < cells && 0 <= i / cells && i == (i / cells) * cells + i % cells)
        by (nonlinear_arith)
        requires
            0 < cells,
            0 <= i,
    ;
}

/// Two symbols whose first `n` cells give the same paths show the same in
/// each of those cells.
proof fn lemma_squares_show_the_cells(
    first: Seq<bool>,
    second: Seq<bool>,
    side: int,
    margin: int,
    n: nat,
)
    requires
        0 < canvas_side(side, margin),
        svg_squares(first, side, margin, n) == svg_squares(second, side, margin, n),
    ensures
        forall|i: int|
            0 <= i < n ==> cell_shows(first, side, margin, i) == #[trigger] cell_shows(
                second,
                side,
                margin,
                i,
            ),
    decreases n,
{
    if n > 0 {
        let cells = canvas_side(side, margin);
        let i = n - 1;
        lemma_cell_of(cells, i);
        let x = i % cells;
        let y = i / cells;
        let one = svg_squares(first, side, margin, i as nat);
        let other = svg_squares(second, side, margin, i as nat);
        let dark = cell_is_dark(first, side, margin, x, y);
        let other_dark = cell_is_dark(second, side, margin, x, y);
        lemma_square_starts_a_path(x, y);
        assert(one + Seq::<char>::empty() =~= one);
        assert(other + Seq::<char>::empty() =~= other);
        if dark && other_dark {
            lemma_last_path(one, svg_square(x, y), other, svg_square(x, y));
        } else if dark {
            lemma_no_later_square(second, side, margin, i as nat, one, i);
        } else if other_dark {
            lemma_no_later_square(first, side, margin, i as nat, other, i);
        }
        lemma_squares_show_the_cells(first, second, side, margin, i as nat);
    }
}

/// The vector markup shows the modules: two symbols of one side whose markup
/// with one margin and one pair of colors is the same text have the same
/// modules.
pub proof fn lemma_svg_shows_the_modules(
    first: Seq<bool>,
    second: Seq<bool>,
    side: int,
    margin: int,
    dark: Seq<char>,
    light: Seq<char>,
)
    requires
        0 < side,
        0 <= margin,
        first.len() == side * side,
        second.len() == side * side,
        svg_markup(first, side, margin, dark, light) == svg_markup(
            second,
            side,
            margin,
            dark,
            light,
        ),
    ensures
        first == second,
{
    let cells = canvas_side(side, margin);
    let count = (cells * cells) as nat;
    assert(cells * cells >= 0) by (nonlinear_arith)
        requires
            cells > 0,
    ;
    let one = svg_squares(first, side, margin, count);
    let other = svg_squares(second, side, margin, count);
    let whole = svg_markup(first, side, margin, dark, light);
    let other_whole = svg_markup(second, side, margin, dark, light);
    let close = "\"/></svg>"@;
    let open = whole.subrange(0, whole.len() - close.len() - one.len());
    assert(whole =~= open + one + close);
    let other_open = other_whole.subrange(0, other_whole.len() - close.len() - other.len());
    assert(other_whole =~= other_open + other + close);
    assert(open.len() == other_open.len());
    assert(one =~= whole.subrange(open.len() as int, whole.len() - close.len()));
    assert(other =~= other_whole.subrange(
        other_open.len() as int,
        other_whole.len() - close.len(),
    ));
    lemma_squares_show_the_cells(first, second, side, margin, count);
    assert forall|i: int| 0 <= i < first.len() implies first[i] == second[i] by {
        let column = i % side;
        let row = i / side;
        assert(0 <= row < side && 0 <= column < side && i == row * side + column)
            by (nonlinear_arith)
            requires
                0 <= i < side * side,
                0 < side,
                column == i % side,
                row == i / side,
        ;
        let x = column + margin;
        let y = row + margin;
        let at = y * cells + x;
        assert(at % cells == x && at / cells == y && 0 <= at < cells * cells) by (nonlinear_arith)
            requires
                0 <= x < cells,
                0 <= y < cells,
                at == y * cells + x,
        ;
        assert(cell_shows(first, side, margin, at) == cell_shows(second, side, margin, at));
        assert(cell_is_dark(first, side, margin, x, y) == first[i]);
        assert(cell_is_dark(second, side, margin, x, y) == second[i]);
    }
    assert(first =~= second);
}

} // verus!
