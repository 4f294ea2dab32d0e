use vstd::prelude::*;

verus! {

/// The character of a decimal digit `d` (0 through 9).
pub open spec fn digit_char(d: int) -> char {
    seq!['0', '1', '2', '3', '4', '5', '6', '7', '8', '9'][d]
}

/// The decimal digits of a natural number, most significant first, without
/// leading zeros (zero itself is written "0").
pub open spec fn decimal_digits(n: nat) -> Seq<char>
    decreases n,
{
    if n < 10 {
        seq![digit_char(n as int)]
    } else {
        decimal_digits(n / 10) + seq![digit_char((n % 10) as int)]
    }
}

/// How Rust's `Display` writes an integer: an optional minus sign, then the
/// decimal digits of its magnitude.
pub open spec fn decimal(n: int) -> Seq<char> {
    if n < 0 {
        seq!['-'] + decimal_digits((-n) as nat)
    } else {
        decimal_digits(n as nat)
    }
}

/// The number that a decimal digit character stands for.
pub open spec fn digit_value(c: char) -> int {
    c as u32 - 48
}

/// Whether `c` is one of the characters '0' through '9'.
pub open spec fn is_digit(c: char) -> bool {
    48 <= c as u32 <= 57
}

/// The number that a string of decimal digits reads as.
pub open spec fn read_decimal(ds: Seq<char>) -> int
    decreases ds.len(),
{
    if ds.len() == 0 {
        0
    } else {
        read_decimal(ds.drop_last()) * 10 + digit_value(ds.last())
    }
}

proof fn lemma_digit_char(d: int)
    requires
        0 <= d < 10,
    ensures
        is_digit(digit_char(d)),
        digit_value(digit_char(d)) == d,
{
    let ds = seq!['0', '1', '2', '3', '4', '5', '6', '7', '8', '9'];
    assert(ds[0] == '0' && ds[1] == '1' && ds[2] == '2' && ds[3] == '3' && ds[4] == '4');
    assert(ds[5] == '5' && ds[6] == '6' && ds[7] == '7' && ds[8] == '8' && ds[9] == '9');
}

/// The decimal form of a natural number is a non-empty string of digits,
/// with no leading zero unless it is "0", that reads back as the number.
pub proof fn decimal_digits_read_back(n: nat)
    ensures
        decimal_digits(n).len() > 0,
        forall|i: int| 0 <= i < decimal_digits(n).len() ==> is_digit(#[trigger] decimal_digits(n)[i]),
        decimal_digits(n).len() > 1 ==> decimal_digits(n)[0] != '0',
        read_decimal(decimal_digits(n)) == n,
    decreases n,
{
    if n < 10 {
        lemma_digit_char(n as int);
        let ds = decimal_digits(n);
        assert(ds.drop_last() =~= Seq::<char>::empty());
        assert(read_decimal(Seq::<char>::empty()) == 0);
        assert(read_decimal(ds) == read_decimal(ds.drop_last()) * 10 + digit_value(ds.last()));
    } else {
        decimal_digits_read_back(n / 10);
        lemma_digit_char((n % 10) as int);
        let hi = decimal_digits(n / 10);
        let ds = decimal_digits(n);
        assert(ds == hi + seq![digit_char((n % 10) as int)]);
        assert(ds.drop_last() =~= hi);
        assert(ds.last() == digit_char((n % 10) as int));
        assert(read_decimal(ds) == read_decimal(hi) * 10 + digit_value(ds.last()));
        assert((n / 10) * 10 + n % 10 == n);
        assert(ds[0] == hi[0]);
        if hi.len() == 1 {
            assert(n / 10 > 0);
            assert(n / 10 < 10) by {
                if n / 10 >= 10 {
                    assert(decimal_digits(n / 10) == decimal_digits(n / 100) + seq![digit_char(
                        ((n / 10) % 10) as int,
                    )]);
                    decimal_digits_read_back(n / 100);
                }
            }
            lemma_digit_char((n / 10) as int);
            assert(hi[0] == digit_char((n / 10) as int));
        }
        assert forall|i: int| 0 <= i < ds.len() implies is_digit(#[trigger] ds[i]) by {
            if i < hi.len() {
                assert(ds[i] == hi[i]);
            }
        }
    }
}

/// The decimal form of an integer is a minus sign followed by the form of
/// its magnitude when it is negative, and the form of the integer itself
/// otherwise; it never starts with a minus sign for a number that is not
/// negative.
pub proof fn decimal_reads_back(n: int)
    ensures
        n < 0 ==> decimal(n)[0] == '-' && read_decimal(decimal(n).drop_first()) == -n,
        n >= 0 ==> is_digit(decimal(n)[0]) && read_decimal(decimal(n)) == n,
{
    if n < 0 {
        decimal_digits_read_back((-n) as nat);
        assert(decimal(n).drop_first() =~= decimal_digits((-n) as nat));
    } else {
        decimal_digits_read_back(n as nat);
    }
}

/// Appends the decimal digits of `n` to `out`.
fn append_digits(out: &mut String, n: u64)
    ensures
        final(out)@ == old(out)@ + decimal_digits(n as nat),
    decreases n,
{
    if n >= 10 {
        append_digits(out, n / 10);
    }
    let d: usize = (n % 10) as usize;
    let all = "0123456789";
    proof {
        reveal_strlit("0123456789");
    }
    let digit = all.substring_char(d, d + 1);
    assert(digit@ =~= seq![digit_char(d as int)]);
    out.append(digit);
    assert(final(out)@ =~= old(out)@ + decimal_digits(n as nat));
}

/// Appends the decimal form of `n` to `out`, as `format!("{}", n)` writes it.
pub fn append_decimal(out: &mut String, n: i64)
    ensures
        final(out)@ == old(out)@ + decimal(n as int),
{
    if n < 0 {
        let minus = "-";
        proof {
            reveal_strlit("-");
        }
        out.append(minus);
        let magnitude: u64 = ((-(n + 1)) as u64) + 1;
        assert(magnitude as nat == (-n) as nat);
        append_digits(out, magnitude);
        assert(final(out)@ =~= old(out)@ + decimal(n as int));
    } else {
        append_digits(out, n as u64);
    }
}

} // verus!
