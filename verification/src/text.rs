//! Decimal digits in text: the zero-padded numbers a calendar date is written
//! with, and the integer fields it is read back from.
use vstd::prelude::*;
use vstd::string::*;

verus! {

/// Whether `c` is one of the ASCII digits `0`-`9`.
pub open spec fn is_digit(c: char) -> bool {
    '0' <= c && c <= '9'
}

/// The value of an ASCII digit.
pub open spec fn digit_value(c: char) -> int {
    c as int - '0' as int
}

/// The ASCII digit for `d` in `0..10`.
pub open spec fn digit_char(d: int) -> char {
    (d + '0' as int) as char
}

/// Every character of `s` is an ASCII digit.
pub open spec fn all_digits(s: Seq<char>) -> bool {
    forall|i: int| 0 <= i < s.len() ==> #[trigger] is_digit(s[i])
}

/// The number the digits of `s` spell, most significant first.
pub open spec fn digits_value(s: Seq<char>) -> int
    decreases s.len(),
{
    if s.len() == 0 {
        0
    } else {
        digits_value(s.drop_last()) * 10 + digit_value(s.last())
    }
}

/// `n` written in decimal with no leading zero (`0` is written `0`).
pub open spec fn decimal(n: nat) -> Seq<char>
    decreases n,
{
    if n < 10 {
        seq![digit_char(n as int)]
    } else {
        decimal(n / 10).push(digit_char((n % 10) as int))
    }
}

/// `n` in decimal, left-padded with `0` to at least `width` characters.
pub open spec fn zero_pad(n: nat, width: nat) -> Seq<char> {
    let digits = decimal(n);
    if digits.len() < width {
        Seq::new((width - digits.len()) as nat, |i: int| '0') + digits
    } else {
        digits
    }
}

/// `v` as `format!("{:0w$}", v)` writes it: a minus sign for a negative value,
/// then the magnitude zero-padded so the whole text is at least `width` long.
pub open spec fn padded_int(v: int, width: nat) -> Seq<char> {
    if v < 0 {
        seq!['-'] + zero_pad((-v) as nat, if width >= 1 { (width - 1) as nat } else { 0 })
    } else {
        zero_pad(v as nat, width)
    }
}

/// The value Rust's `str::parse` gives an integer field: an optional sign
/// (`-` only when `signed`), then at least one ASCII digit.
pub open spec fn parse_integer(s: Seq<char>, signed: bool) -> Option<int> {
    if s.len() > 0 && (s[0] == '+' || (signed && s[0] == '-')) {
        let rest = s.drop_first();
        if rest.len() > 0 && all_digits(rest) {
            if s[0] == '-' {
                Some(-digits_value(rest))
            } else {
                Some(digits_value(rest))
            }
        } else {
            None
        }
    } else if s.len() > 0 && all_digits(s) {
        Some(digits_value(s))
    } else {
        None
    }
}

/// Appends `c` to `text`.
///
/// Trusted: calls `String::push`, whose documentation says it appends the
/// given character to the end of the string.
#[verifier::external_body]
pub(crate) fn push_char(text: &mut String, c: char)
    ensures
        final(text)@ == old(text)@.push(c),
{
    text.push(c);
}

proof fn lemma_digits_bound(s: Seq<char>)
    requires
        all_digits(s),
    ensures
        0 <= digits_value(s) < pow10(s.len()),
    decreases s.len(),
{
    if s.len() > 0 {
        assert(all_digits(s.drop_last())) by {
            assert forall|i: int| 0 <= i < s.drop_last().len() implies is_digit(
                #[trigger] s.drop_last()[i],
            ) by {
                assert(is_digit(s[i]));
            }
        }
        assert(is_digit(s[s.len() - 1]));
        lemma_digits_bound(s.drop_last());
    }
}

/// `10` to the power `n`.
pub open spec fn pow10(n: nat) -> int
    decreases n,
{
    if n == 0 {
        1
    } else {
        10 * pow10((n - 1) as nat)
    }
}

proof fn lemma_decimal_digits(n: nat)
    ensures
        all_digits(decimal(n)),
        digits_value(decimal(n)) == n,
        decimal(n).len() >= 1,
    decreases n,
{
    let d = decimal(n);
    assert(digit_value(digit_char((n % 10) as int)) == n % 10);
    assert(is_digit(digit_char((n % 10) as int)));
    if n >= 10 {
        lemma_decimal_digits(n / 10);
        let prefix = decimal(n / 10);
        assert(d.drop_last() =~= prefix);
        assert(n == (n / 10) * 10 + n % 10) by (nonlinear_arith);
        assert(d.last() == digit_char((n % 10) as int));
        assert(digits_value(d) == digits_value(prefix) * 10 + digit_value(d.last()));
        assert(digits_value(d) == (n / 10) * 10 + n % 10);
        assert forall|i: int| 0 <= i < d.len() implies #[trigger] is_digit(d[i]) by {
            if i < prefix.len() {
                assert(d[i] == prefix[i]);
            }
        }
    } else {
        assert(d.drop_last() =~= Seq::<char>::empty());
        assert(digits_value(d) == digits_value(d.drop_last()) * 10 + digit_value(d.last()));
        assert(digits_value(Seq::<char>::empty()) == 0);
    }
}

proof fn lemma_leading_zeros(k: nat, s: Seq<char>)
    ensures
        digits_value(Seq::new(k, |i: int| '0') + s) == digits_value(s),
        all_digits(s) ==> all_digits(Seq::new(k, |i: int| '0') + s),
    decreases s.len(), k,
{
    let zeros = Seq::new(k, |i: int| '0');
    if s.len() > 0 {
        lemma_leading_zeros(k, s.drop_last());
        assert((zeros + s).drop_last() =~= zeros + s.drop_last());
    } else if k > 0 {
        lemma_leading_zeros((k - 1) as nat, s);
        assert((zeros + s).drop_last() =~= Seq::new((k - 1) as nat, |i: int| '0') + s);
    } else {
        assert(zeros + s =~= s);
    }
    if all_digits(s) {
        assert forall|i: int| 0 <= i < (zeros + s).len() implies #[trigger] is_digit(
            (zeros + s)[i],
        ) by {
            if i >= k {
                assert((zeros + s)[i] == s[i - k]);
            }
        }
    }
}

/// A number below `10^width`, zero-padded to `width`, is exactly `width`
/// digits that spell it back.
pub proof fn lemma_zero_pad_reads_back(n: nat, width: nat)
    requires
        width >= 1,
        n < pow10(width),
    ensures
        zero_pad(n, width).len() == width,
        all_digits(zero_pad(n, width)),
        digits_value(zero_pad(n, width)) == n,
        parse_integer(zero_pad(n, width), false) == Some(n as int),
        parse_integer(zero_pad(n, width), true) == Some(n as int),
{
    lemma_decimal_digits(n);
    lemma_decimal_len_bound(n, width);
    let digits = decimal(n);
    if digits.len() < width {
        lemma_leading_zeros((width - digits.len()) as nat, digits);
    }
    let s = zero_pad(n, width);
    assert(is_digit(s[0]));
}

/// `padded_int(v, 4)` is four characters that parse back to `v` as a signed
/// field, for every `v` in `-999..=9999`.
pub proof fn lemma_padded_year_reads_back(v: int)
    requires
        -999 <= v <= 9999,
    ensures
        padded_int(v, 4).len() == 4,
        parse_integer(padded_int(v, 4), true) == Some(v),
{
    assert(pow10(4) == 10000 && pow10(3) == 1000) by {
        reveal_with_fuel(pow10, 5);
    }
    if v < 0 {
        lemma_zero_pad_reads_back((-v) as nat, 3);
        let s = padded_int(v, 4);
        assert(s.drop_first() =~= zero_pad((-v) as nat, 3));
    } else {
        lemma_zero_pad_reads_back(v as nat, 4);
    }
}

/// Reads characters `from..to` of `text` as an integer field.
pub(crate) fn parse_field(text: &str, from: usize, to: usize, signed: bool) -> (result: Option<i32>)
    requires
        from < to <= text@.len(),
        to - from <= 4,
    ensures
        match parse_integer(text@.subrange(from as int, to as int), signed) {
            Some(v) => result matches Some(r) && r as int == v,
            None => result is None,
        },
        result matches Some(v) ==> -pow10((to - from) as nat) < v < pow10((to - from) as nat),
        result matches Some(v) ==> (!signed ==> v >= 0),
{
    let ghost s = text@.subrange(from as int, to as int);
    let first = text.get_char(from);
    let negative = signed && first == '-';
    let start = if first == '+' || negative {
        from + 1
    } else {
        from
    };
    if start == to {
        return None;
    }
    let mut value: i32 = 0;
    let mut i = start;
    while i < to
        invariant
            from <= start <= i <= to <= text@.len(),
            to - from <= 4,
            start < to,
            s == text@.subrange(from as int, to as int),
            first == text@[from as int],
            negative == (signed && first == '-'),
            start == (if first == '+' || negative { from + 1 } else { from as int }),
            0 <= value < pow10((i - start) as nat),
            all_digits(text@.subrange(start as int, i as int)),
            value == digits_value(text@.subrange(start as int, i as int)),
        decreases to - i,
    {
        let c = text.get_char(i);
        if !('0' <= c && c <= '9') {
            proof {
                let rest = text@.subrange(start as int, to as int);
                assert(rest[i - start] == c);
                assert(!is_digit(rest[i - start]));
                if first == '+' || negative {
                    assert(s.drop_first() =~= rest);
                } else {
                    assert(s =~= rest);
                }
            }
            return None;
        }
        let ghost prev = text@.subrange(start as int, i as int);
        proof {
            lemma_digits_bound(prev);
            assert(pow10(prev.len()) <= 1000) by {
                assert(prev.len() <= 3);
                reveal_with_fuel(pow10, 4);
            }
            assert(text@.subrange(start as int, i + 1).drop_last() =~= prev);
            assert(all_digits(text@.subrange(start as int, i + 1))) by {
                assert forall|k: int| 0 <= k < i + 1 - start implies is_digit(
                    #[trigger] text@.subrange(start as int, i + 1)[k],
                ) by {
                    if k < i - start {
                        assert(text@.subrange(start as int, i + 1)[k] == prev[k]);
                    }
                }
            }
        }
        value = value * 10 + (c as u32 - '0' as u32) as i32;
        i = i + 1;
        proof {
            assert(pow10((i - start) as nat) == 10 * pow10((i - 1 - start) as nat));
        }
    }
    proof {
        assert(pow10((i - start) as nat) <= 10000) by {
            reveal_with_fuel(pow10, 5);
        }
        let rest = text@.subrange(start as int, to as int);
        if first == '+' || negative {
            assert(s.drop_first() =~= rest);
        } else {
            assert(s =~= rest);
        }
    }
    proof {
        assert(pow10((to - start) as nat) <= pow10((to - from) as nat)) by {
            if start != from {
                assert(pow10((to - from) as nat) == 10 * pow10((to - start) as nat));
            }
        }
    }
    if negative {
        Some(-value)
    } else {
        Some(value)
    }
}


/// The ASCII digit for `d`.
fn digit_to_char(d: u32) -> (c: char)
    requires
        d < 10,
    ensures
        c == digit_char(d as int),
{
    let code: u8 = 48u8 + d as u8;
    code as char
}

/// Number of characters in `decimal(n)`.
fn decimal_len(n: u64) -> (len: usize)
    ensures
        len == decimal(n as nat).len(),
        len <= 20,
    decreases n,
{
    proof {
        assert(pow10(20) == 100000000000000000000) by {
            reveal_with_fuel(pow10, 21);
        }
        lemma_decimal_len_bound(n as nat, 20);
    }
    if n < 10 {
        1
    } else {
        let rest = decimal_len(n / 10);
        rest + 1
    }
}

proof fn lemma_decimal_len_bound(n: nat, k: nat)
    requires
        k >= 1,
        n < pow10(k),
    ensures
        decimal(n).len() <= k,
    decreases n,
{
    if n >= 10 {
        assert(k >= 2) by {
            if k == 1 {
                assert(pow10(1) == 10) by {
                    reveal_with_fuel(pow10, 2);
                }
            }
        }
        assert(n / 10 < pow10((k - 1) as nat));
        lemma_decimal_len_bound(n / 10, (k - 1) as nat);
    }
}

/// Appends `decimal(n)` to `out`.
fn push_decimal(out: &mut String, n: u64)
    ensures
        final(out)@ == old(out)@ + decimal(n as nat),
    decreases n,
{
    if n >= 10 {
        push_decimal(out, n / 10);
    }
    push_char(out, digit_to_char((n % 10) as u32));
    proof {
        if n >= 10 {
            assert(old(out)@ + decimal(n as nat) =~= old(out)@ + decimal((n / 10) as nat) + seq![
                digit_char((n % 10) as int),
            ]);
        } else {
            assert(decimal(n as nat) =~= seq![digit_char(n as int)]);
        }
    }
}

/// Appends `padded_int(v, width)` to `out`, as `write!(out, "{:0w$}", v)` does.
pub(crate) fn push_padded(out: &mut String, v: i64, width: usize)
    requires
        v > i64::MIN,
    ensures
        final(out)@ == old(out)@ + padded_int(v as int, width as nat),
{
    let magnitude: u64 = if v < 0 {
        push_char(out, '-');
        (-v) as u64
    } else {
        v as u64
    };
    let pad_to: usize = if v < 0 {
        if width >= 1 {
            width - 1
        } else {
            0
        }
    } else {
        width
    };
    let ghost before_zeros = out@;
    let len = decimal_len(magnitude);
    let mut written: usize = len;
    while written < pad_to
        invariant
            len <= written,
            len == decimal(magnitude as nat).len(),
            written <= pad_to || written == len,
            out@ == before_zeros + Seq::new((written - len) as nat, |i: int| '0'),
        decreases pad_to - written,
    {
        push_char(out, '0');
        proof {
            assert(before_zeros + Seq::new((written + 1 - len) as nat, |i: int| '0')
                =~= before_zeros + Seq::new((written - len) as nat, |i: int| '0') + seq!['0']);
        }
        written = written + 1;
    }
    let ghost zeros_written = out@;
    push_decimal(out, magnitude);
    proof {
        let digits = decimal(magnitude as nat);
        if digits.len() < pad_to {
            assert(written == pad_to);
            assert(zero_pad(magnitude as nat, pad_to as nat) =~= Seq::new(
                (pad_to - digits.len()) as nat,
                |i: int| '0',
            ) + digits);
        } else {
            assert(written == len);
            assert(Seq::new((written - len) as nat, |i: int| '0') =~= Seq::<char>::empty());
        }
        if v < 0 {
            assert(out@ =~= old(out)@ + (seq!['-'] + zero_pad(magnitude as nat, pad_to as nat)));
        } else {
            assert(out@ =~= old(out)@ + zero_pad(magnitude as nat, pad_to as nat));
        }
    }
}

} // verus!
