//! Cell coordinates: bijective base-26 column letters and `A1`-style references.
use vstd::prelude::*;
use crate::text::{int_text, push_char};
use crate::xml_writer::write_int;

verus! {

/// The letter for the bijective base-26 digit `d` (`1 <= d <= 26`).
pub open spec fn letter(d: int) -> char {
    ((d + 64) as u8) as char
}

/// Column letters of the 1-based column index `col`; empty for `col <= 0`.
pub open spec fn col_letters(col: int) -> Seq<char>
    decreases col,
{
    if col <= 0 {
        Seq::empty()
    } else if col <= 26 {
        seq![letter(col)]
    } else if col % 26 == 0 {
        col_letters(col / 26 - 1) + seq!['Z']
    } else {
        col_letters(col / 26) + seq![letter(col % 26)]
    }
}

/// Reads column letters back as a number: each letter `A`..`Z` is a digit 1..26.
pub open spec fn col_value(s: Seq<char>) -> int
    decreases s.len(),
{
    if s.len() == 0 {
        0
    } else {
        col_value(s.drop_last()) * 26 + (s.last() as int - 64)
    }
}

/// The `A1`-style reference of the cell at 1-based `row` and `col`.
pub open spec fn cell_ref(row: int, col: int) -> Seq<char> {
    col_letters(col) + int_text(row)
}

/// Decoding the letters of any positive column gives the column back.
pub proof fn lemma_col_round_trip(n: int)
    requires
        n >= 1,
    ensures
        col_value(col_letters(n)) == n,
    decreases n,
{
    if n <= 26 {
        let s = seq![letter(n)];
        assert(s.drop_last() =~= Seq::<char>::empty());
        assert(letter(n) as int == n + 64);
        assert(col_value(s.drop_last()) == 0);
        assert(col_letters(n) == s);
    } else if n % 26 == 0 {
        lemma_col_round_trip(n / 26 - 1);
        let s = col_letters(n / 26 - 1) + seq!['Z'];
        assert(s.drop_last() =~= col_letters(n / 26 - 1));
        assert(col_value(s) == col_value(col_letters(n / 26 - 1)) * 26 + 26);
        assert(col_letters(n) == s);
        assert((n / 26 - 1) * 26 + 26 == n) by (nonlinear_arith)
            requires n % 26 == 0, n > 26;
    } else {
        lemma_col_round_trip(n / 26);
        let s = col_letters(n / 26) + seq![letter(n % 26)];
        assert(s.drop_last() =~= col_letters(n / 26));
        assert(letter(n % 26) as int == n % 26 + 64);
        assert(col_value(s) == col_value(col_letters(n / 26)) * 26 + n % 26);
        assert(col_letters(n) == s);
        assert((n / 26) * 26 + n % 26 == n) by (nonlinear_arith);
    }
}

/// Column letters of `col` (`1 -> "A"`, `26 -> "Z"`, `27 -> "AA"`); empty for `col <= 0`.
pub fn encode_col(col: i128) -> (r: String)
    ensures
        r@ == col_letters(col as int),
    decreases col,
{
    if col <= 0 {
        String::new()
    } else if col <= 26 {
        let mut s = String::new();
        push_char(&mut s, ((col + 64) as u8) as char);
        assert(s@ =~= col_letters(col as int));
        s
    } else {
        let m = col / 26;
        let r = col % 26;
        if r == 0 {
            let mut s = encode_col(m - 1);
            push_char(&mut s, 'Z');
            assert(s@ =~= col_letters(col as int));
            s
        } else {
            let mut s = encode_col(m);
            push_char(&mut s, ((r + 64) as u8) as char);
            assert(s@ =~= col_letters(col as int));
            s
        }
    }
}

/// The `A1`-style reference of the cell at row `y` and column `x`: column letters, then the row number.
pub fn to_excel_coords(y: i128, x: i128) -> (r: String)
    ensures
        r@ == cell_ref(y as int, x as int),
{
    let mut s = encode_col(x);
    write_int(&mut s, y);
    s
}

} // verus!
