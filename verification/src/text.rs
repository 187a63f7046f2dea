//! Building blocks for working on text one character at a time.

use vstd::prelude::*;
use vstd::std_specs::iter::IteratorSpec;

verus! {

/// `String::push` appends one character to the end of the string.
pub assume_specification[ String::push ](s: &mut String, c: char)
    ensures
        final(s)@ == old(s)@.push(c),
;

/// The characters of `s`, in order, as a vector.
pub(crate) fn chars_of(s: &str) -> (out: Vec<char>)
    ensures
        out@ == s@,
{
    let mut out: Vec<char> = Vec::new();
    let chars = s.chars();
    for c in it: chars
        invariant
            it.seq() == s@,
            out@ == s@.take(it.index()),
    {
        out.push(c);
        assert(s@.take(it.index() + 1) =~= s@.take(it.index()).push(c));
    }
    assert(s@.take(s@.len() as int) =~= s@);
    out
}

/// The texts of a list of strings.
pub open spec fn texts(strings: Seq<String>) -> Seq<Seq<char>> {
    strings.map_values(|s: String| s@)
}

/// The string whose characters are those of `v` from `from` up to, not
/// including, `to`.
pub(crate) fn string_of_range(v: &Vec<char>, from: usize, to: usize) -> (out: String)
    requires
        from <= to <= v@.len(),
    ensures
        out@ == v@.subrange(from as int, to as int),
{
    let mut out = String::new();
    let mut i: usize = from;
    while i < to
        invariant
            from <= i <= to <= v@.len(),
            out@ == v@.subrange(from as int, i as int),
        decreases to - i,
    {
        out.push(v[i]);
        assert(v@.subrange(from as int, i + 1) =~= v@.subrange(from as int, i as int).push(
            v@[i as int],
        ));
        i += 1;
    }
    out
}

/// Whether `c` is white space: a blank, a tab, a line break, or one of the
/// other characters that Unicode lists as white space.
pub open spec fn is_space(c: char) -> bool {
    let code = c as u32;
    ||| 0x09 <= code <= 0x0D
    ||| code == 0x20
    ||| code == 0x85
    ||| code == 0xA0
    ||| code == 0x1680
    ||| 0x2000 <= code <= 0x200A
    ||| code == 0x2028
    ||| code == 0x2029
    ||| code == 0x202F
    ||| code == 0x205F
    ||| code == 0x3000
}

/// Whether `c` is white space.
pub(crate) fn is_whitespace(c: char) -> (r: bool)
    ensures
        r == is_space(c),
{
    let code: u32 = c as u32;
    (0x09 <= code && code <= 0x0D) || code == 0x20 || code == 0x85 || code == 0xA0 || code
        == 0x1680 || (0x2000 <= code && code <= 0x200A) || code == 0x2028 || code == 0x2029
        || code == 0x202F || code == 0x205F || code == 0x3000
}

/// The test for white space, as a value.
pub open spec fn space_test() -> spec_fn(char) -> bool {
    |c: char| is_space(c)
}

/// The pieces of `s` between the characters for which `sep` holds, in order.
/// There is one piece more than there are separators, and a piece is empty
/// where two separators meet or one stands at an end.
pub open spec fn split(s: Seq<char>, sep: spec_fn(char) -> bool) -> Seq<Seq<char>>
    decreases s.len(),
{
    if s.len() == 0 {
        seq![Seq::empty()]
    } else {
        let before = split(s.drop_last(), sep);
        if sep(s.last()) {
            before.push(Seq::empty())
        } else {
            before.drop_last().push(before.last().push(s.last()))
        }
    }
}

/// A split has at least one piece.
pub proof fn lemma_split_nonempty(s: Seq<char>, sep: spec_fn(char) -> bool)
    ensures
        split(s, sep).len() >= 1,
    decreases s.len(),
{
    if s.len() > 0 {
        lemma_split_nonempty(s.drop_last(), sep);
    }
}

/// The character that writes the decimal digit `d`.
pub open spec fn digit_char(d: int) -> char {
    if d == 0 {
        '0'
    } else if d == 1 {
        '1'
    } else if d == 2 {
        '2'
    } else if d == 3 {
        '3'
    } else if d == 4 {
        '4'
    } else if d == 5 {
        '5'
    } else if d == 6 {
        '6'
    } else if d == 7 {
        '7'
    } else if d == 8 {
        '8'
    } else {
        '9'
    }
}

/// The decimal digits of `n`, most significant first, without leading zeros.
pub open spec fn decimal(n: nat) -> Seq<char>
    decreases n,
{
    if n < 10 {
        seq![digit_char(n as int)]
    } else {
        decimal(n / 10).push(digit_char((n % 10) as int))
    }
}

/// Whether `c` is one of the digits 0 to 9.
pub open spec fn is_digit(c: char) -> bool {
    0x30 <= c as u32 <= 0x39
}

/// The number that the digit `c` writes.
pub open spec fn digit_value(c: char) -> int {
    c as u32 - 0x30
}

/// The number that the decimal digits `s` write, most significant first.
pub open spec fn decimal_value(s: Seq<char>) -> nat
    decreases s.len(),
{
    if s.len() == 0 {
        0
    } else {
        (decimal_value(s.drop_last()) * 10 + digit_value(s.last())) as nat
    }
}

/// Whether every character of `s` is a digit.
pub open spec fn all_digits(s: Seq<char>) -> bool {
    forall|i: int| 0 <= i < s.len() ==> is_digit(#[trigger] s[i])
}

/// A number written in digits does not get smaller where more digits follow.
pub proof fn lemma_decimal_value_grows(s: Seq<char>, k: int)
    requires
        all_digits(s),
        0 <= k <= s.len(),
    ensures
        decimal_value(s.take(k)) <= decimal_value(s),
    decreases s.len() - k,
{
    if k < s.len() {
        lemma_decimal_value_grows(s, k + 1);
        assert(s.take(k + 1).drop_last() =~= s.take(k));
        assert(is_digit(s[k]));
    } else {
        assert(s.take(k) =~= s);
    }
}

/// An integer in decimal, with a minus sign in front where it is negative.
pub open spec fn signed_text(v: int) -> Seq<char> {
    if v < 0 {
        seq!['-'] + decimal((-v) as nat)
    } else {
        decimal(v as nat)
    }
}

/// `s` with blanks in front until it is at least `width` characters long.
pub open spec fn pad_left(s: Seq<char>, width: nat) -> Seq<char> {
    if s.len() < width {
        Seq::new((width - s.len()) as nat, |i: int| ' ') + s
    } else {
        s
    }
}

/// One grid cell as it is written out: in decimal, right-aligned in two columns.
pub open spec fn cell_text(v: i8) -> Seq<char> {
    pad_left(signed_text(v as int), 2)
}

/// The character of one decimal digit.
pub(crate) fn digit_to_char(d: u8) -> (c: char)
    requires
        d < 10,
    ensures
        c == digit_char(d as int),
{
    match d {
        0 => '0',
        1 => '1',
        2 => '2',
        3 => '3',
        4 => '4',
        5 => '5',
        6 => '6',
        7 => '7',
        8 => '8',
        _ => '9',
    }
}

/// Appends one grid cell to `out`.
pub(crate) fn push_cell(out: &mut String, v: i8)
    ensures
        final(out)@ == old(out)@ + cell_text(v),
{
    let negative = v < 0;
    let wide: i16 = v as i16;
    let magnitude: u8 = if negative {
        (-wide) as u8
    } else {
        wide as u8
    };
    let ghost before = out@;
    let ghost digits = decimal(magnitude as nat);
    let ghost sign: Seq<char> = if negative {
        seq!['-']
    } else {
        Seq::empty()
    };
    proof {
        reveal_with_fuel(decimal, 3);
        assert(signed_text(v as int) =~= sign + digits);
    }
    if !negative && magnitude < 10 {
        out.push(' ');
    }
    if negative {
        out.push('-');
    }
    if magnitude >= 100 {
        out.push(digit_to_char(magnitude / 100));
    }
    if magnitude >= 10 {
        out.push(digit_to_char((magnitude / 10) % 10));
    }
    out.push(digit_to_char(magnitude % 10));
    proof {
        if magnitude >= 100 {
            assert(digits =~= seq![
                digit_char(magnitude as int / 100),
                digit_char((magnitude as int / 10) % 10),
                digit_char(magnitude as int % 10),
            ]);
        } else if magnitude >= 10 {
            assert(digits =~= seq![
                digit_char(magnitude as int / 10),
                digit_char(magnitude as int % 10),
            ]);
        } else {
            assert(digits =~= seq![digit_char(magnitude as int)]);
        }
        if !negative && magnitude < 10 {
            assert(Seq::new(1, |i: int| ' ') =~= seq![' ']);
        }
        assert(out@ =~= before + cell_text(v));
    }
}

/// The first `n` cells of a grid as they stand in a data file: each cell in
/// two columns or more, with a comma after it.
pub open spec fn grid_line_upto(cells: Seq<i8>, n: nat) -> Seq<char>
    decreases n,
{
    if n == 0 {
        Seq::empty()
    } else {
        grid_line_upto(cells, (n - 1) as nat) + cell_text(cells[n - 1]) + seq![',']
    }
}

/// The 64 cells of a grid as they stand in a data file, on one line without
/// a line break.
pub open spec fn grid_line(cells: Seq<i8>) -> Seq<char> {
    grid_line_upto(cells, 64)
}

/// The first `n` cells of a grid as a picture for the eye: a blank after each
/// cell, and a line break after each row of eight.
pub open spec fn grid_picture_upto(cells: Seq<i8>, n: nat) -> Seq<char>
    decreases n,
{
    if n == 0 {
        Seq::empty()
    } else {
        let before = grid_picture_upto(cells, (n - 1) as nat) + cell_text(cells[n - 1]) + seq![' '];
        if n % 8 == 0 {
            before + seq!['\n']
        } else {
            before
        }
    }
}

/// The 64 cells of a grid as a picture of eight rows.
pub open spec fn grid_picture(cells: Seq<i8>) -> Seq<char> {
    grid_picture_upto(cells, 64)
}

/// Appends the data line of `board` to `out`.
pub(crate) fn push_grid_line(out: &mut String, board: &Vec<i8>)
    requires
        board@.len() >= 64,
    ensures
        final(out)@ == old(out)@ + grid_line(board@),
{
    let ghost before = out@;
    let mut i: usize = 0;
    while i < 64
        invariant
            i <= 64,
            board@.len() >= 64,
            out@ == before + grid_line_upto(board@, i as nat),
        decreases 64 - i,
    {
        push_cell(out, board[i]);
        out.push(',');
        i += 1;
        assert(out@ =~= before + grid_line_upto(board@, i as nat));
    }
}

/// Appends the picture of `board` to `out`.
pub(crate) fn push_grid_picture(out: &mut String, board: &Vec<i8>)
    requires
        board@.len() >= 64,
    ensures
        final(out)@ == old(out)@ + grid_picture(board@),
{
    let ghost before = out@;
    let mut i: usize = 0;
    while i < 64
        invariant
            i <= 64,
            board@.len() >= 64,
            out@ == before + grid_picture_upto(board@, i as nat),
        decreases 64 - i,
    {
        push_cell(out, board[i]);
        out.push(' ');
        if (i + 1) % 8 == 0 {
            out.push('\n');
        }
        i += 1;
        assert(out@ =~= before + grid_picture_upto(board@, i as nat));
    }
}

} // verus!
