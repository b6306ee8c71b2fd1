//! Human-readable byte-size formatting: repeated division by 1024 up to the
//! TB unit, with no decimal places at the byte unit and two decimal places
//! (rounded to the nearest hundredth, ties away from zero) at larger units.

use vstd::prelude::*;
use crate::decimal::{dec_digit, dec_spec, dec_chars, exec_dec_digit};

verus! {

pub const KIB: u64 = 1024;

pub const MIB: u64 = 1048576;

pub const GIB: u64 = 1073741824;

pub const TIB: u64 = 1099511627776;

/// The index of the unit a byte count is rendered with:
/// 0 = B, 1 = KB, 2 = MB, 3 = GB, 4 = TB (the cap).
pub open spec fn size_unit_idx(bytes: nat) -> nat {
    if bytes < 1024 {
        0
    } else if bytes < 1048576 {
        1
    } else if bytes < 1073741824 {
        2
    } else if bytes < 1099511627776 {
        3
    } else {
        4
    }
}

/// The divisor that belongs to a unit index.
pub open spec fn unit_divisor(i: nat) -> nat {
    if i == 1 {
        1024
    } else if i == 2 {
        1048576
    } else if i == 3 {
        1073741824
    } else {
        1099511627776
    }
}

/// The unit label for a unit index.
pub open spec fn unit_label(i: nat) -> Seq<char> {
    if i == 0 {
        seq!['B']
    } else if i == 1 {
        seq!['K', 'B']
    } else if i == 2 {
        seq!['M', 'B']
    } else if i == 3 {
        seq!['G', 'B']
    } else {
        seq!['T', 'B']
    }
}

/// `bytes / d` in hundredths, rounded to the nearest (ties away from zero).
pub open spec fn hundredths(bytes: nat, d: nat) -> nat {
    (bytes / d) * 100 + (200 * (bytes % d) + d) / (2 * d)
}

/// The rendered size text for a byte count.
pub open spec fn format_bytes_spec(bytes: nat) -> Seq<char> {
    let i = size_unit_idx(bytes);
    if i == 0 {
        dec_spec(bytes) + seq![' ', 'B']
    } else {
        let h = hundredths(bytes, unit_divisor(i));
        dec_spec(h / 100) + seq!['.', dec_digit((h % 100) / 10), dec_digit(h % 10), ' ']
            + unit_label(i)
    }
}

/// Render a byte count as text: `0` gives "0 B", `1024` gives "1.00 KB",
/// and a count of a tebibyte or more always uses the TB unit.
pub fn format_bytes_readable(bytes: u64) -> (r: String)
    ensures
        r@ == format_bytes_spec(bytes as nat),
{
    if bytes < KIB {
        let mut out = dec_chars(bytes);
        out.push(' ');
        out.push('B');
        proof {
            assert(out@ =~= format_bytes_spec(bytes as nat));
        }
        return crate::text::chars_to_string(&out);
    }
    let d: u64 = if bytes < MIB {
        KIB
    } else if bytes < GIB {
        MIB
    } else if bytes < TIB {
        GIB
    } else {
        TIB
    };
    proof {
        assert(d == unit_divisor(size_unit_idx(bytes as nat)));
    }
    let q = bytes / d;
    let rem = bytes % d;
    assert(q <= bytes / 1024) by (nonlinear_arith)
        requires
            d >= 1024,
            q == bytes / d,
    ;
    let rounded = (200 * rem + d) / (2 * d);
    assert(rounded <= 100) by (nonlinear_arith)
        requires
            rem < d,
            d >= 1,
            rounded == (200 * rem + d) / (2 * d),
    ;
    let h = q * 100 + rounded;
    proof {
        assert(h == hundredths(bytes as nat, d as nat));
    }
    let mut out = dec_chars(h / 100);
    out.push('.');
    out.push(exec_dec_digit((h % 100) / 10));
    out.push(exec_dec_digit(h % 10));
    out.push(' ');
    if d == KIB {
        out.push('K');
    } else if d == MIB {
        out.push('M');
    } else if d == GIB {
        out.push('G');
    } else {
        out.push('T');
    }
    out.push('B');
    proof {
        assert(out@ =~= format_bytes_spec(bytes as nat));
    }
    crate::text::chars_to_string(&out)
}

/// A count of at least one tebibyte is always rendered with the TB unit,
/// never a higher one: the rendered text ends in " TB".
pub proof fn lemma_tb_is_the_cap(bytes: nat)
    requires
        bytes >= 1099511627776,
    ensures
        size_unit_idx(bytes) == 4,
        format_bytes_spec(bytes).len() >= 3,
        format_bytes_spec(bytes).subrange(
            format_bytes_spec(bytes).len() - 3,
            format_bytes_spec(bytes).len() as int,
        ) =~= seq![' ', 'T', 'B'],
{
    crate::decimal::lemma_dec_digits(hundredths(bytes, unit_divisor(4)) / 100);
}

} // verus!
