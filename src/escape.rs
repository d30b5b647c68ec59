//! Terminal control sequences, as produced by `termion`, and their
//! mathematical form.
use vstd::prelude::*;

verus! {

/// The character of the decimal digit `d`.
pub open spec fn digit_char(d: nat) -> char
    recommends
        d < 10,
{
    (('0' as u8) + (d as u8)) as char
}

/// The decimal digits of `n`, most significant first, without leading zeros.
pub open spec fn decimal(n: nat) -> Seq<char>
    decreases n,
{
    if n < 10 {
        seq![digit_char(n)]
    } else {
        decimal(n / 10) + seq![digit_char(n % 10)]
    }
}

/// The control sequence introducer, `ESC [`.
pub open spec fn csi() -> Seq<char> {
    seq!['\x1b', '[']
}

/// Moves the cursor to column `col`, row `row` (both one-based).
pub open spec fn goto_seq(col: nat, row: nat) -> Seq<char> {
    csi() + decimal(row) + seq![';'] + decimal(col) + seq!['H']
}

/// Sets the foreground to the 256-color palette entry `n`.
pub open spec fn fg_seq(n: nat) -> Seq<char> {
    csi() + seq!['3', '8', ';', '5', ';'] + decimal(n) + seq!['m']
}

/// Resets the foreground to the terminal's default.
pub open spec fn fg_reset_seq() -> Seq<char> {
    csi() + seq!['3', '9', 'm']
}

/// Clears the entire screen.
pub open spec fn clear_all_seq() -> Seq<char> {
    csi() + seq!['2', 'J']
}

/// Relies on the `Display` of `termion::cursor::Goto`, which writes
/// `ESC [ row ; col H` and debug-asserts that the position is not `(0, 0)`.
#[verifier::external_body]
pub(crate) fn goto(col: u16, row: u16) -> (r: String)
    requires
        col != 0 || row != 0,
    ensures
        r@ == goto_seq(col as nat, row as nat),
{
    format!("{}", termion::cursor::Goto(col, row))
}

/// Relies on the `Display` of `termion::color::Fg(termion::color::AnsiValue(n))`,
/// which writes `ESC [ 38 ; 5 ; n m`.
#[verifier::external_body]
pub(crate) fn fg_ansi(n: u8) -> (r: String)
    ensures
        r@ == fg_seq(n as nat),
{
    format!("{}", termion::color::Fg(termion::color::AnsiValue(n)))
}

/// Relies on the `Display` of `termion::color::Fg(termion::color::Reset)`,
/// which writes `ESC [ 39 m`.
#[verifier::external_body]
pub(crate) fn fg_reset() -> (r: String)
    ensures
        r@ == fg_reset_seq(),
{
    format!("{}", termion::color::Fg(termion::color::Reset))
}

/// Relies on the `Display` of `termion::clear::All`, which writes `ESC [ 2 J`.
#[verifier::external_body]
pub(crate) fn clear_all() -> (r: String)
    ensures
        r@ == clear_all_seq(),
{
    format!("{}", termion::clear::All)
}

} // verus!
