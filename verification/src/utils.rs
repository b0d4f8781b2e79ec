//! Small helpers for building strings.

use termion::color;
use termion::style;
use vstd::prelude::*;
use vstd::string::StringExecFns;
use vstd::string::StrSliceExecFns;

verus! {

/// `n` copies of `fill`, one after the other.
pub open spec fn repeated(fill: Seq<char>, n: nat) -> Seq<char>
    decreases n,
{
    if n == 0 {
        Seq::empty()
    } else {
        repeated(fill, (n - 1) as nat) + fill
    }
}

/// `s` padded on the left with copies of `fill_by` up to `size` bytes: one copy
/// for each byte that the UTF-8 encoding of `s` is shorter than `size`, none
/// where it is not shorter. A `size` of zero gives the empty string.
pub open spec fn zfill_spec(s: Seq<char>, fill_by: Seq<char>, size: nat) -> Seq<char> {
    if size == 0 {
        Seq::empty()
    } else {
        let width = vstd::utf8::encode_utf8(s).len();
        let missing = if size >= width {
            (size - width) as nat
        } else {
            0
        };
        repeated(fill_by, missing) + s
    }
}

/// The decimal digit of a number below ten.
pub open spec fn digit_spec(d: nat) -> char {
    if d == 0 {
        '0'
    } else if d == 1 {
        '1'
    } else if d == 2 {
        '2'
    } else if d == 3 {
        '3'
    } else if d == 4 {
        '4'
    } else if d == 5 {
        '5'
    } else if d == 6 {
        '6'
    } else if d == 7 {
        '7'
    } else if d == 8 {
        '8'
    } else {
        '9'
    }
}

/// `n` written in decimal, without leading zeros.
pub open spec fn decimal_digits(n: nat) -> Seq<char>
    decreases n,
{
    if n < 10 {
        seq![digit_spec(n)]
    } else {
        decimal_digits(n / 10).push(digit_spec(n % 10))
    }
}

fn digit(d: usize) -> (c: char)
    requires
        d < 10,
    ensures
        c == digit_spec(d as nat),
{
    if d == 0 {
        '0'
    } else if d == 1 {
        '1'
    } else if d == 2 {
        '2'
    } else if d == 3 {
        '3'
    } else if d == 4 {
        '4'
    } else if d == 5 {
        '5'
    } else if d == 6 {
        '6'
    } else if d == 7 {
        '7'
    } else if d == 8 {
        '8'
    } else {
        '9'
    }
}

/// `n` written in decimal.
pub fn decimal_string(n: usize) -> (r: String)
    ensures
        r@ == decimal_digits(n as nat),
    decreases n,
{
    if n < 10 {
        let mut s = String::new();
        s.push(digit(n));
        assert(s@ =~= seq![digit_spec(n as nat)]);
        s
    } else {
        let mut s = decimal_string(n / 10);
        s.push(digit(n % 10));
        s
    }
}

/// Pads `s` on the left with copies of `fill_by` up to `size` bytes.
pub fn zfill(s: &str, fill_by: &str, size: usize) -> (r: String)
    ensures
        r@ == zfill_spec(s@, fill_by@, size as nat),
{
    let mut out = String::new();
    if size == 0 {
        return out;
    }
    let width = s.as_bytes().len();
    let missing: usize = if size >= width {
        size - width
    } else {
        0
    };
    let mut i: usize = 0;
    assert(out@ =~= repeated(fill_by@, 0));
    while i < missing
        invariant
            i <= missing,
            out@ == repeated(fill_by@, i as nat),
        decreases missing - i,
    {
        out.append(fill_by);
        i += 1;
    }
    out.append(s);
    out
}

/// `s` with every tilde replaced by `home`.
pub open spec fn tildes_replaced(s: Seq<char>, home: Seq<char>) -> Seq<char>
    decreases s.len(),
{
    if s.len() == 0 {
        Seq::empty()
    } else if s.last() == '~' {
        tildes_replaced(s.drop_last(), home) + home
    } else {
        tildes_replaced(s.drop_last(), home).push(s.last())
    }
}

/// The path `s` with the user's home directory `home` written out: a path
/// that begins with a tilde has every tilde replaced by `home`, any other is
/// left as it is.
pub open spec fn tilde_expanded(s: Seq<char>, home: Seq<char>) -> Seq<char> {
    if s.len() > 0 && s[0] == '~' {
        tildes_replaced(s, home)
    } else {
        s
    }
}

/// Writes out the home directory `home` in the path `s`.
pub fn expand_tilde(s: &str, home: &str) -> (r: String)
    ensures
        r@ == tilde_expanded(s@, home@),
{
    if s.unicode_len() == 0 || s.get_char(0) != '~' {
        return String::from_str(s);
    }
    let mut out = String::new();
    for c in iter: s.chars()
        invariant
            iter.seq() == s@,
            out@ == tildes_replaced(s@.take(iter.index() as int), home@),
    {
        proof {
            let next = s@.take(iter.index() + 1);
            assert(next.drop_last() =~= s@.take(iter.index() as int));
            assert(next.last() == c);
        }
        if c == '~' {
            out.append(home);
        } else {
            out.push(c);
        }
    }
    assert(s@.take(s@.len() as int) =~= s@);
    out
}

/// `s` between the escape sequences that turn the text red and back to its
/// colour.
pub open spec fn red_spec(s: Seq<char>) -> Seq<char> {
    "\u{1b}[38;5;1m"@ + s + "\u{1b}[39m"@
}

/// `s` between the escape sequences that turn the text bold and back.
pub open spec fn bold_spec(s: Seq<char>) -> Seq<char> {
    "\u{1b}[1m"@ + s + "\u{1b}[m"@
}

/// Trusted: `termion::color::Fg` of `Red` and of `Reset`, written around `s`
/// with `format!`. termion writes the first as the escape sequence
/// `ESC [ 38;5;1 m` and the second as `ESC [ 39 m`.
#[verifier::external_body]
pub fn red(s: &str) -> (r: String)
    ensures
        r@ == red_spec(s@),
{
    format!("{}{}{}", color::Fg(color::Red), s, color::Fg(color::Reset))
}

/// Trusted: `termion::style::Bold` and `termion::style::Reset`, written
/// around `s` with `format!`. termion writes the first as the escape sequence
/// `ESC [ 1 m` and the second as `ESC [ m`.
#[verifier::external_body]
pub(crate) fn as_bold(s: &str) -> (r: String)
    ensures
        r@ == bold_spec(s@),
{
    format!("{}{}{}", style::Bold, s, style::Reset)
}

} // verus!
