//! Human-readable sizes in binary units.
use vstd::prelude::*;

verus! {

pub const KB: u64 = 1024;

pub const MB: u64 = 1048576;

pub const GB: u64 = 1073741824;

pub const TB: u64 = 1099511627776;

/// The character of a decimal digit.
pub open spec fn digit_char(d: nat) -> char {
    seq!['0', '1', '2', '3', '4', '5', '6', '7', '8', '9'][d as int]
}

/// The decimal numeral of `n`, without leading zeros.
pub open spec fn decimal(n: nat) -> Seq<char>
    decreases n,
{
    if n < 10 {
        seq![digit_char(n)]
    } else {
        decimal(n / 10).push(digit_char(n % 10))
    }
}

/// `a / b` rounded to the nearest integer, ties to the even neighbour.
pub open spec fn div_round_even(a: nat, b: nat) -> nat {
    let q = a / b;
    let r = a % b;
    if 2 * r > b || (2 * r == b && q % 2 == 1) {
        q + 1
    } else {
        q
    }
}

/// `size / unit` written with exactly two decimals.
pub open spec fn two_places(size: nat, unit: nat) -> Seq<char> {
    let h = div_round_even(size * 100, unit);
    decimal(h / 100) + seq!['.', digit_char((h % 100) / 10), digit_char(h % 10)]
}

/// The display text of a size in bytes: whole bytes below one KB, else two
/// decimals in the largest binary unit not above the size, up to TB.
pub open spec fn size_text(size: u64) -> Seq<char> {
    if size < KB {
        decimal(size as nat) + seq!['B']
    } else if size < MB {
        two_places(size as nat, KB as nat) + seq!['K', 'B']
    } else if size < GB {
        two_places(size as nat, MB as nat) + seq!['M', 'B']
    } else if size < TB {
        two_places(size as nat, GB as nat) + seq!['G', 'B']
    } else {
        two_places(size as nat, TB as nat) + seq![' ', 'T', 'B']
    }
}

fn digit_str(d: u64) -> (r: &'static str)
    requires
        d < 10,
    ensures
        r@ == seq![digit_char(d as nat)],
{
    if d == 0 {
        proof { reveal_strlit("0"); }
        "0"
    } else if d == 1 {
        proof { reveal_strlit("1"); }
        "1"
    } else if d == 2 {
        proof { reveal_strlit("2"); }
        "2"
    } else if d == 3 {
        proof { reveal_strlit("3"); }
        "3"
    } else if d == 4 {
        proof { reveal_strlit("4"); }
        "4"
    } else if d == 5 {
        proof { reveal_strlit("5"); }
        "5"
    } else if d == 6 {
        proof { reveal_strlit("6"); }
        "6"
    } else if d == 7 {
        proof { reveal_strlit("7"); }
        "7"
    } else if d == 8 {
        proof { reveal_strlit("8"); }
        "8"
    } else {
        proof { reveal_strlit("9"); }
        "9"
    }
}

/// Appends the decimal numeral of `n`.
fn push_decimal(out: &mut String, n: u64)
    ensures
        final(out)@ == old(out)@ + decimal(n as nat),
    decreases n,
{
    if n >= 10 {
        push_decimal(out, n / 10);
    }
    out.append(digit_str(n % 10));
    proof {
        assert(decimal(n as nat) =~= if n < 10 {
            seq![digit_char(n as nat)]
        } else {
            decimal((n / 10) as nat).push(digit_char((n % 10) as nat))
        });
    }
}

/// Appends `size / unit` with two decimals.
fn push_two_places(out: &mut String, size: u64, unit: u64)
    requires
        unit == KB || unit == MB || unit == GB || unit == TB,
    ensures
        final(out)@ == old(out)@ + two_places(size as nat, unit as nat),
{
    let a: u128 = size as u128 * 100;
    let b: u128 = unit as u128;
    let q: u128 = a / b;
    let r: u128 = a % b;
    let h: u128 = if 2 * r > b || (2 * r == b && q % 2 == 1) {
        q + 1
    } else {
        q
    };
    assert(h == div_round_even(size as nat * 100, unit as nat));
    assert(h <= u64::MAX) by (nonlinear_arith)
        requires
            h <= q + 1,
            q == a / b,
            b >= 1024,
            a == size as u128 * 100,
            size <= u64::MAX,
    ;
    let h: u64 = h as u64;
    push_decimal(out, h / 100);
    proof { reveal_strlit("."); }
    out.append(".");
    out.append(digit_str((h % 100) / 10));
    out.append(digit_str(h % 10));
}

/// The display text of `size` bytes: "1023B", "1.00KB", "4.77MB", "1.00 TB".
pub fn formatted_size(size: u64) -> (r: String)
    ensures
        r@ == size_text(size),
{
    let mut out = String::new();
    if size < KB {
        push_decimal(&mut out, size);
        proof { reveal_strlit("B"); }
        out.append("B");
    } else if size < MB {
        push_two_places(&mut out, size, KB);
        proof { reveal_strlit("KB"); }
        out.append("KB");
    } else if size < GB {
        push_two_places(&mut out, size, MB);
        proof { reveal_strlit("MB"); }
        out.append("MB");
    } else if size < TB {
        push_two_places(&mut out, size, GB);
        proof { reveal_strlit("GB"); }
        out.append("GB");
    } else {
        push_two_places(&mut out, size, TB);
        proof { reveal_strlit(" TB"); }
        out.append(" TB");
    }
    assert(out@ =~= size_text(size));
    out
}

} // verus!
