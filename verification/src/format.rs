//! Human-readable formatting of byte counts.
//!
//! A count below 1024 is printed in bytes ("512 B"); otherwise it is scaled
//! by the largest binary unit not above it and printed with two fractional
//! digits ("1.50 KB"), rounding half to even.

use vstd::prelude::*;

verus! {

pub const KB: u64 = 1024;

pub const MB: u64 = 1024 * KB;

pub const GB: u64 = 1024 * MB;

pub const TB: u64 = 1024 * GB;

/// The character for one decimal digit.
pub open spec fn digit_char(d: nat) -> char {
    if d == 0 {
        '0'
    } else if d == 1 {
        '1'
    } else if d == 2 {
        '2'
    } else if d == 3 {
        '3'
    } else if d == 4 {
        '4'
    } else if d == 5 {
        '5'
    } else if d == 6 {
        '6'
    } else if d == 7 {
        '7'
    } else if d == 8 {
        '8'
    } else {
        '9'
    }
}

/// Decimal digits of `n`, most significant first; empty for zero.
pub open spec fn dec_aux(n: nat) -> Seq<char>
    decreases n,
{
    if n == 0 {
        Seq::<char>::empty()
    } else {
        dec_aux(n / 10).push(digit_char(n % 10))
    }
}

/// The decimal representation of `n` ("0" for zero).
pub open spec fn dec_rep(n: nat) -> Seq<char> {
    if n == 0 {
        seq!['0']
    } else {
        dec_aux(n)
    }
}

/// `n` scaled by `unit`, in hundredths, rounded half to even.
pub open spec fn scaled_hundredths(bytes: nat, unit: nat) -> nat
    recommends
        unit > 0,
{
    let q = (bytes * 100) / unit;
    let r = (bytes * 100) % unit;
    if 2 * r > unit {
        q + 1
    } else if 2 * r < unit {
        q
    } else if q % 2 == 0 {
        q
    } else {
        q + 1
    }
}

/// Two fractional digits, zero-padded on the left.
pub open spec fn two_digits(f: nat) -> Seq<char>
    recommends
        f < 100,
{
    if f < 10 {
        seq!['0'] + dec_rep(f)
    } else {
        dec_rep(f)
    }
}

/// "x.yz" followed by `suffix`, for `bytes` scaled by `unit`.
pub open spec fn spec_scaled_size(bytes: nat, unit: nat, suffix: Seq<char>) -> Seq<char> {
    let h = scaled_hundredths(bytes, unit);
    dec_rep(h / 100) + seq!['.'] + two_digits(h % 100) + suffix
}

/// What `format_size` returns for a byte count.
pub open spec fn spec_format_size(bytes: nat) -> Seq<char> {
    if bytes >= TB {
        spec_scaled_size(bytes, TB as nat, " TB"@)
    } else if bytes >= GB {
        spec_scaled_size(bytes, GB as nat, " GB"@)
    } else if bytes >= MB {
        spec_scaled_size(bytes, MB as nat, " MB"@)
    } else if bytes >= KB {
        spec_scaled_size(bytes, KB as nat, " KB"@)
    } else {
        dec_rep(bytes) + " B"@
    }
}

fn digit_str(d: u64) -> (r: &'static str)
    requires
        d < 10,
    ensures
        r@ == seq![digit_char(d as nat)],
{
    proof {
        reveal_strlit("0");
        reveal_strlit("1");
        reveal_strlit("2");
        reveal_strlit("3");
        reveal_strlit("4");
        reveal_strlit("5");
        reveal_strlit("6");
        reveal_strlit("7");
        reveal_strlit("8");
        reveal_strlit("9");
    }
    let r: &'static str = if d == 0 {
        "0"
    } else if d == 1 {
        "1"
    } else if d == 2 {
        "2"
    } else if d == 3 {
        "3"
    } else if d == 4 {
        "4"
    } else if d == 5 {
        "5"
    } else if d == 6 {
        "6"
    } else if d == 7 {
        "7"
    } else if d == 8 {
        "8"
    } else {
        "9"
    };
    proof {
        assert(r@ =~= seq![digit_char(d as nat)]);
    }
    r
}

/// Renders `n` in decimal.
pub fn u64_to_dec_string(n: u64) -> (s: String)
    ensures
        s@ == dec_rep(n as nat),
{
    if n == 0 {
        let s = String::from_str("0");
        proof {
            reveal_strlit("0");
            assert(s@ =~= dec_rep(0));
        }
        return s;
    }
    let mut s = String::new();
    let mut m: u64 = n;
    while m > 0
        invariant
            dec_aux(n as nat) == dec_aux(m as nat) + s@,
        decreases m,
    {
        let d: u64 = m % 10;
        let ds: &str = digit_str(d);
        let t = String::from_str(ds);
        let prepended = t.concat(s.as_str());
        proof {
            assert(dec_aux(m as nat) == dec_aux((m as nat) / 10).push(digit_char((m as nat) % 10)));
            assert(dec_aux((m as nat) / 10).push(digit_char((m as nat) % 10)) =~= dec_aux(
                (m as nat) / 10,
            ) + seq![digit_char((m as nat) % 10)]);
            assert((dec_aux((m as nat) / 10) + seq![digit_char((m as nat) % 10)]) + s@ =~= dec_aux(
                (m as nat) / 10,
            ) + (seq![digit_char((m as nat) % 10)] + s@));
            assert((m / 10) as nat == (m as nat) / 10);
            assert((m % 10) as nat == (m as nat) % 10);
        }
        s = prepended;
        m = m / 10;
    }
    proof {
        assert(dec_aux(0) + s@ =~= s@);
    }
    s
}

fn scale_to_hundredths(bytes: u64, unit: u64) -> (h: u64)
    requires
        unit >= 1024,
    ensures
        h as nat == scaled_hundredths(bytes as nat, unit as nat),
{
    let wide: u128 = (bytes as u128) * 100;
    let q: u128 = wide / (unit as u128);
    let rem: u128 = wide % (unit as u128);
    proof {
        assert(wide <= 0xffffffffffffffffu128 * 100);
        vstd::arithmetic::div_mod::lemma_div_is_ordered_by_denominator(
            wide as int,
            1024int,
            unit as int,
        );
        assert((0xffffffffffffffffu128 * 100) / 1024 < 0xffffffffffffffffu128);
        vstd::arithmetic::div_mod::lemma_div_is_ordered(
            wide as int,
            0xffffffffffffffff as int * 100,
            1024int,
        );
        assert(q < 0xffffffffffffffffu128);
    }
    let round_up: bool = 2 * rem > unit as u128 || (2 * rem == unit as u128 && q % 2 == 1);
    if round_up {
        (q + 1) as u64
    } else {
        q as u64
    }
}

fn format_scaled(bytes: u64, unit: u64, suffix: &str) -> (s: String)
    requires
        unit >= 1024,
    ensures
        s@ == spec_scaled_size(bytes as nat, unit as nat, suffix@),
{
    let h = scale_to_hundredths(bytes, unit);
    let int_part: u64 = h / 100;
    let frac: u64 = h % 100;
    let mut s = u64_to_dec_string(int_part);
    s.append(".");
    proof {
        reveal_strlit(".");
        assert("."@ =~= seq!['.']);
    }
    if frac < 10 {
        s.append("0");
        proof {
            reveal_strlit("0");
            assert("0"@ =~= seq!['0']);
        }
    }
    let fs = u64_to_dec_string(frac);
    s.append(fs.as_str());
    s.append(suffix);
    proof {
        assert(s@ =~= spec_scaled_size(bytes as nat, unit as nat, suffix@));
    }
    s
}

/// Formats a byte count with the largest binary unit not above it,
/// two fractional digits, rounding half to even; plain bytes below 1024.
pub fn format_size(bytes: u64) -> (s: String)
    ensures
        s@ == spec_format_size(bytes as nat),
{
    if bytes >= TB {
        format_scaled(bytes, TB, " TB")
    } else if bytes >= GB {
        format_scaled(bytes, GB, " GB")
    } else if bytes >= MB {
        format_scaled(bytes, MB, " MB")
    } else if bytes >= KB {
        format_scaled(bytes, KB, " KB")
    } else {
        let mut s = u64_to_dec_string(bytes);
        s.append(" B");
        s
    }
}

} // verus!
