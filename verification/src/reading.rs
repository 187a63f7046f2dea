//! Reading a line of a data file back into the cells of a grid.
//!
//! Nothing in the library reads its own output; what stands here says how a
//! reader takes a line apart, and proves that it then finds the cells that
//! were written.

use crate::text::{
    all_digits, cell_text, decimal, decimal_value, digit_char, digit_value, grid_line,
    grid_line_upto, is_digit, signed_text, split,
};
use vstd::prelude::*;

verus! {

/// The test for a comma, as a value.
pub open spec fn comma_test() -> spec_fn(char) -> bool {
    |c: char| c == ','
}

/// `s` without the blanks at its start.
pub open spec fn trim_start(s: Seq<char>) -> Seq<char>
    decreases s.len(),
{
    if s.len() > 0 && s[0] == ' ' {
        trim_start(s.drop_first())
    } else {
        s
    }
}

/// `s` without the blanks at its end.
pub open spec fn trim_end(s: Seq<char>) -> Seq<char>
    decreases s.len(),
{
    if s.len() > 0 && s.last() == ' ' {
        trim_end(s.drop_last())
    } else {
        s
    }
}

/// The integer that `field` writes between blanks: digits, with or without a
/// minus sign in front.
pub open spec fn read_cell(field: Seq<char>) -> Option<int> {
    let text = trim_end(trim_start(field));
    if text.len() > 0 && text[0] == '-' {
        let digits = text.skip(1);
        if digits.len() > 0 && all_digits(digits) {
            Some(-(decimal_value(digits) as int))
        } else {
            None
        }
    } else if text.len() > 0 && all_digits(text) {
        Some(decimal_value(text) as int)
    } else {
        None
    }
}

/// The fields of a line: what stands before each of its commas.
pub open spec fn fields_of(line: Seq<char>) -> Seq<Seq<char>> {
    split(line, comma_test()).drop_last()
}

/// The cells that a line of a data file holds, one for each comma.
pub open spec fn read_grid_line(line: Seq<char>) -> Seq<Option<int>> {
    fields_of(line).map_values(|field: Seq<char>| read_cell(field))
}

/// The digits of a number are digits, at least one, and write that number.
pub proof fn lemma_decimal_reads_back(n: nat)
    ensures
        decimal(n).len() >= 1,
        all_digits(decimal(n)),
        decimal_value(decimal(n)) == n,
    decreases n,
{
    let digits = decimal(n);
    if n < 10 {
        assert(is_digit(digit_char(n as int)) && digit_value(digit_char(n as int)) == n);
        assert(digits.drop_last() =~= Seq::<char>::empty());
        assert(decimal_value(digits.drop_last()) == 0);
    } else {
        lemma_decimal_reads_back(n / 10);
        let low = digit_char((n % 10) as int);
        assert(is_digit(low) && digit_value(low) == n % 10);
        assert(digits.drop_last() =~= decimal(n / 10));
        assert(digits.last() == low);
    }
}

/// Blanks in front of a text that starts with none are trimmed away.
proof fn lemma_trim_start_padding(count: nat, text: Seq<char>)
    requires
        text.len() > 0,
        text[0] != ' ',
    ensures
        trim_start(Seq::new(count, |i: int| ' ') + text) == text,
    decreases count,
{
    let padded = Seq::new(count, |i: int| ' ') + text;
    if count == 0 {
        assert(padded =~= text);
    } else {
        assert(padded.drop_first() =~= Seq::new((count - 1) as nat, |i: int| ' ') + text);
        lemma_trim_start_padding((count - 1) as nat, text);
    }
}

/// A cell that was written is read back as the same integer, and its text
/// holds no comma.
pub proof fn lemma_cell_reads_back(v: i8)
    ensures
        read_cell(cell_text(v)) == Some(v as int),
        forall|i: int| 0 <= i < cell_text(v).len() ==> cell_text(v)[i] != ',',
{
    let magnitude: nat = if v < 0 {
        (-v) as nat
    } else {
        v as nat
    };
    let digits = decimal(magnitude);
    lemma_decimal_reads_back(magnitude);
    let text = signed_text(v as int);
    assert(is_digit(digits[0]));
    assert(is_digit(digits.last()));
    assert(text.len() > 0 && text[0] != ' ' && text.last() != ' ') by {
        if v < 0 {
            assert(text =~= seq!['-'] + digits);
            assert(text.last() == digits.last());
        }
    }
    if text.len() < 2 {
        lemma_trim_start_padding((2 - text.len()) as nat, text);
    }
    assert(trim_start(cell_text(v)) == text);
    assert(trim_end(text) == text);
    if v < 0 {
        assert(text.skip(1) =~= digits);
    }
    assert forall|i: int| 0 <= i < cell_text(v).len() implies cell_text(v)[i] != ',' by {
        let padding = cell_text(v).len() - text.len();
        if i >= padding {
            assert(cell_text(v)[i] == text[i - padding]);
            if v < 0 && i - padding > 0 {
                assert(text[i - padding] == digits[i - padding - 1]);
                assert(is_digit(digits[i - padding - 1]));
            } else if v >= 0 {
                assert(is_digit(digits[i - padding]));
            }
        }
    }
}

/// Text without a separator, put behind `s`, grows the last piece of `s`.
pub proof fn lemma_split_grows_last(s: Seq<char>, more: Seq<char>, sep: spec_fn(char) -> bool)
    requires
        forall|i: int| 0 <= i < more.len() ==> !sep(more[i]),
    ensures
        split(s, sep).len() >= 1,
        split(s + more, sep) == split(s, sep).drop_last().push(split(s, sep).last() + more),
    decreases more.len(),
{
    crate::text::lemma_split_nonempty(s, sep);
    let pieces = split(s, sep);
    if more.len() == 0 {
        assert(s + more =~= s);
        assert(pieces.last() + more =~= pieces.last());
        assert(pieces.drop_last().push(pieces.last()) =~= pieces);
    } else {
        let shorter = more.drop_last();
        lemma_split_grows_last(s, shorter, sep);
        assert((s + more).drop_last() =~= s + shorter);
        assert((s + more).last() == more.last());
        assert(!sep(more.last()));
        let before = split(s + shorter, sep);
        assert(before.drop_last() =~= pieces.drop_last());
        assert(before.last().push(more.last()) =~= pieces.last() + more);
    }
}

/// The fields of a line that was written are the texts of its cells.
pub proof fn lemma_fields_of_grid_line(cells: Seq<i8>, n: nat)
    requires
        n <= cells.len(),
    ensures
        split(grid_line_upto(cells, n), comma_test()).len() == n + 1,
        split(grid_line_upto(cells, n), comma_test()).last() == Seq::<char>::empty(),
        fields_of(grid_line_upto(cells, n)) == Seq::new(n, |i: int| cell_text(cells[i])),
    decreases n,
{
    let sep = comma_test();
    if n == 0 {
        assert(fields_of(grid_line_upto(cells, n)) =~= Seq::new(n, |i: int| cell_text(cells[i])));
    } else {
        let shorter = grid_line_upto(cells, (n - 1) as nat);
        let cell = cell_text(cells[n - 1]);
        lemma_fields_of_grid_line(cells, (n - 1) as nat);
        lemma_cell_reads_back(cells[n - 1]);
        lemma_split_grows_last(shorter, cell, sep);
        let grown = shorter + cell;
        let line = grid_line_upto(cells, n);
        assert(line =~= grown.push(','));
        assert(line.drop_last() =~= grown);
        assert(sep(line.last()));
        assert(split(line, sep) == split(grown, sep).push(Seq::empty()));
        assert(Seq::<char>::empty() + cell =~= cell);
        assert(fields_of(line) =~= Seq::new(n, |i: int| cell_text(cells[i])));
    }
}

/// Reading a line that was written gives the cells back: as many as were
/// written, the same integers, in the same order.
pub proof fn lemma_grid_line_reads_back(cells: Seq<i8>, n: nat)
    requires
        n <= cells.len(),
    ensures
        read_grid_line(grid_line_upto(cells, n)) == Seq::new(n, |i: int| Some(cells[i] as int)),
{
    lemma_fields_of_grid_line(cells, n);
    assert forall|i: int| 0 <= i < n implies read_cell(cell_text(cells[i])) == Some(
        cells[i] as int,
    ) by {
        lemma_cell_reads_back(cells[i]);
    }
    assert(read_grid_line(grid_line_upto(cells, n)) =~= Seq::new(
        n,
        |i: int| Some(cells[i] as int),
    ));
}

/// Reading the line of a grid gives its 64 cells back.
pub proof fn lemma_grid_reads_back(cells: Seq<i8>)
    requires
        cells.len() == 64,
    ensures
        read_grid_line(grid_line(cells)) == cells.map_values(|v: i8| Some(v as int)),
{
    lemma_grid_line_reads_back(cells, 64);
    assert(Seq::new(64, |i: int| Some(cells[i] as int)) =~= cells.map_values(
        |v: i8| Some(v as int),
    ));
}

} // verus!
