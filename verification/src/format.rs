use vstd::prelude::*;

verus! {

/// The decimal digit character that stands for `d`.
pub open spec fn digit_char(d: nat) -> char
    recommends
        d < 10,
{
    if d == 0 {
        '0'
    } else if d == 1 {
        '1'
    } else if d == 2 {
        '2'
    } else if d == 3 {
        '3'
    } else if d == 4 {
        '4'
    } else if d == 5 {
        '5'
    } else if d == 6 {
        '6'
    } else if d == 7 {
        '7'
    } else if d == 8 {
        '8'
    } else {
        '9'
    }
}

/// The decimal numeral of `n`, most significant digit first, without leading zeros.
pub open spec fn decimal(n: nat) -> Seq<char>
    decreases n,
{
    if n < 10 {
        seq![digit_char(n)]
    } else {
        decimal(n / 10).push(digit_char(n % 10))
    }
}

fn digit_of(d: u64) -> (c: char)
    requires
        d < 10,
    ensures
        c == digit_char(d as nat),
{
    if d == 0 {
        '0'
    } else if d == 1 {
        '1'
    } else if d == 2 {
        '2'
    } else if d == 3 {
        '3'
    } else if d == 4 {
        '4'
    } else if d == 5 {
        '5'
    } else if d == 6 {
        '6'
    } else if d == 7 {
        '7'
    } else if d == 8 {
        '8'
    } else {
        '9'
    }
}

/// `String::push` of std appends one character to the string.
pub assume_specification[ String::push ](s: &mut String, c: char)
    ensures
        final(s)@ == old(s)@.push(c),
;

/// Appends the decimal numeral of `n` to `out`.
pub fn push_decimal(out: &mut String, n: u64)
    ensures
        final(out)@ == old(out)@ + decimal(n as nat),
    decreases n,
{
    if n >= 10 {
        push_decimal(out, n / 10);
    }
    out.push(digit_of(n % 10));
    proof {
        if n >= 10 {
            assert(final(out)@ =~= old(out)@ + decimal(n as nat));
        } else {
            assert(final(out)@ =~= old(out)@ + decimal(n as nat));
        }
    }
}

/// The decimal numeral of `n` as a string.
pub fn decimal_string(n: u64) -> (s: String)
    ensures
        s@ == decimal(n as nat),
{
    let mut s = String::new();
    push_decimal(&mut s, n);
    proof {
        assert(s@ =~= decimal(n as nat));
    }
    s
}

/// Index of the unit in which `n` bytes are shown: 0 for bytes, then one step
/// for each factor of 1024, up to 6 for exbibytes.
pub open spec fn unit_index(n: nat) -> nat {
    if n < 1024 {
        0
    } else if n < 1048576 {
        1
    } else if n < 1073741824 {
        2
    } else if n < 1099511627776 {
        3
    } else if n < 1125899906842624 {
        4
    } else if n < 1152921504606846976 {
        5
    } else {
        6
    }
}

/// The number of bytes in one unit of index `k`: 1024 to the power `k`.
pub open spec fn unit_bytes(k: nat) -> nat {
    if k == 0 {
        1
    } else if k == 1 {
        1024
    } else if k == 2 {
        1048576
    } else if k == 3 {
        1073741824
    } else if k == 4 {
        1099511627776
    } else if k == 5 {
        1125899906842624
    } else {
        1152921504606846976
    }
}

/// The letter that names the unit of index `k`, for `k` from 1 to 6.
pub open spec fn unit_letter(k: nat) -> char {
    if k == 1 {
        'K'
    } else if k == 2 {
        'M'
    } else if k == 3 {
        'G'
    } else if k == 4 {
        'T'
    } else if k == 5 {
        'P'
    } else {
        'E'
    }
}

/// The scaled form of a byte count. Below 1024 it is the numeral and ` B`.
/// From there on it is the count in the largest unit that does not exceed it,
/// with two decimals, cut off and not rounded, then a space, the unit's letter
/// and `B`: 1536 gives `1.50 KB`.
pub open spec fn human_readable(n: nat) -> Seq<char> {
    let k = unit_index(n);
    if k == 0 {
        decimal(n) + seq![' ', 'B']
    } else {
        let unit = unit_bytes(k);
        let hundredths = (n % unit) * 100 / unit;
        decimal(n / unit) + seq![
            '.',
            digit_char(hundredths / 10),
            digit_char(hundredths % 10),
            ' ',
            unit_letter(k),
            'B',
        ]
    }
}

/// What a size is shown as: scaled where `human` is set, else its numeral.
pub open spec fn size_display(n: nat, human: bool) -> Seq<char> {
    if human {
        human_readable(n)
    } else {
        decimal(n)
    }
}

fn unit_of(n: u64) -> (r: (u64, char))
    requires
        n >= 1024,
    ensures
        r.0 == unit_bytes(unit_index(n as nat)),
        r.1 == unit_letter(unit_index(n as nat)),
        1024 <= r.0 <= n,
{
    if n < 1048576 {
        (1024, 'K')
    } else if n < 1073741824 {
        (1048576, 'M')
    } else if n < 1099511627776 {
        (1073741824, 'G')
    } else if n < 1125899906842624 {
        (1099511627776, 'T')
    } else if n < 1152921504606846976 {
        (1125899906842624, 'P')
    } else {
        (1152921504606846976, 'E')
    }
}

/// Hundredths of a unit in a remainder below the unit, cut off.
fn hundredths_of(rest: u64, unit: u64) -> (h: u64)
    requires
        rest < unit,
    ensures
        h == (rest as nat) * 100 / (unit as nat),
        h < 100,
{
    let wide: u128 = (rest as u128) * 100;
    let q: u128 = wide / (unit as u128);
    proof {
        assert(q < 100) by (nonlinear_arith)
            requires
                wide == rest * 100,
                q == wide / (unit as u128),
                rest < unit,
        ;
    }
    q as u64
}

/// The scaled, human-readable form of a byte count.
pub fn human_readable_size(bytes: u64) -> (s: String)
    ensures
        s@ == human_readable(bytes as nat),
{
    let mut s = String::new();
    if bytes < 1024 {
        push_decimal(&mut s, bytes);
        s.push(' ');
        s.push('B');
        proof {
            assert(s@ =~= human_readable(bytes as nat));
        }
    } else {
        let (unit, letter) = unit_of(bytes);
        let h: u64 = hundredths_of(bytes % unit, unit);
        push_decimal(&mut s, bytes / unit);
        s.push('.');
        s.push(digit_of(h / 10));
        s.push(digit_of(h % 10));
        s.push(' ');
        s.push(letter);
        s.push('B');
        proof {
            assert(s@ =~= human_readable(bytes as nat));
        }
    }
    s
}

/// A byte count as it is shown: scaled where `human_readable` is set, else as
/// its decimal numeral.
pub fn format_size(bytes: u64, human_readable: bool) -> (s: String)
    ensures
        s@ == size_display(bytes as nat, human_readable),
{
    if human_readable {
        human_readable_size(bytes)
    } else {
        decimal_string(bytes)
    }
}

} // verus!
