//! Unsigned numbers as text: what they look like in decimal and hexadecimal,
//! and which texts are read back as numbers.

use crate::text::chars_of;
use vstd::prelude::*;

verus! {

/// The lower-case digit for `d`, which is below 16.
pub open spec fn digit_char(d: nat) -> char {
    if d < 10 {
        (48 + d) as char
    } else {
        (87 + d) as char
    }
}

/// The number that the digit `c` stands for: `0` to `9`, then `a` to `f` in
/// either case.
pub open spec fn digit_value(c: char) -> Option<nat> {
    if '0' <= c && c <= '9' {
        Some((c as nat - 48) as nat)
    } else if 'a' <= c && c <= 'f' {
        Some((c as nat - 87) as nat)
    } else if 'A' <= c && c <= 'F' {
        Some((c as nat - 55) as nat)
    } else {
        None
    }
}

/// `c` is a digit in `base`.
pub open spec fn is_digit(c: char, base: nat) -> bool {
    digit_value(c) is Some && digit_value(c)->0 < base
}

/// `n` written in `base`, most significant digit first, without leading zeros.
pub open spec fn numeral(n: nat, base: nat) -> Seq<char>
    decreases n,
{
    if base < 2 || n < base {
        seq![digit_char(n)]
    } else {
        proof {
            assert(n / base < n) by (nonlinear_arith)
                requires
                    n >= base,
                    base >= 2,
            ;
        }
        numeral(n / base, base).push(digit_char(n % base))
    }
}

/// `n` in decimal.
pub open spec fn decimal(n: nat) -> Seq<char> {
    numeral(n, 10)
}

/// `n` in hexadecimal, with zeros in front up to eight digits.
pub open spec fn hex8(n: nat) -> Seq<char> {
    zero_padded(numeral(n, 16), 8)
}

/// `s` with zeros in front up to `width` characters.
pub open spec fn zero_padded(s: Seq<char>, width: nat) -> Seq<char> {
    if s.len() >= width {
        s
    } else {
        Seq::new((width - s.len()) as nat, |i: int| '0') + s
    }
}

/// The number that the digits `s` spell in `base`.
pub open spec fn numeral_value(s: Seq<char>, base: nat) -> nat
    decreases s.len(),
{
    if s.len() == 0 {
        0
    } else {
        numeral_value(s.drop_last(), base) * base + digit_value(s.last())->0
    }
}

/// Every character of `s` is a digit in `base`.
pub open spec fn all_digits(s: Seq<char>, base: nat) -> bool {
    forall|i: int| 0 <= i < s.len() ==> is_digit(#[trigger] s[i], base)
}

/// The digits of `s`, without the plus sign that may stand in front of them.
pub open spec fn unsigned_part(s: Seq<char>) -> Seq<char> {
    if s.len() > 0 && s[0] == '+' {
        s.drop_first()
    } else {
        s
    }
}

/// What `s` is read as in `base`: at least one digit, a plus sign allowed in
/// front, nothing else, and a value that fits 64 bits.
pub open spec fn number_of(s: Seq<char>, base: nat) -> Option<u64> {
    let t = unsigned_part(s);
    if t.len() > 0 && all_digits(t, base) && numeral_value(t, base) <= u64::MAX {
        Some(numeral_value(t, base) as u64)
    } else {
        None
    }
}

/// The lower-case digit for `d`.
pub fn digit_of(d: u64) -> (r: char)
    requires
        d < 16,
    ensures
        r == digit_char(d as nat),
{
    if d < 10 {
        (48u8 + d as u8) as char
    } else {
        (87u8 + d as u8) as char
    }
}

/// The value of the hexadecimal digit `c`.
pub fn value_of_digit(c: char) -> (r: Option<u64>)
    ensures
        r is Some <==> digit_value(c) is Some,
        r is Some ==> r->0 == digit_value(c)->0 && r->0 < 16,
{
    let n: u32 = c as u32;
    if 48 <= n && n <= 57 {
        Some((n - 48) as u64)
    } else if 97 <= n && n <= 102 {
        Some((n - 87) as u64)
    } else if 65 <= n && n <= 70 {
        Some((n - 55) as u64)
    } else {
        None
    }
}

/// Appends `n` in `base` to `out`.
fn push_numeral(n: u64, base: u64, out: &mut String)
    requires
        2 <= base <= 16,
    ensures
        final(out)@ == old(out)@ + numeral(n as nat, base as nat),
    decreases n,
{
    if n < base {
        out.push(digit_of(n));
        assert(out@ =~= old(out)@ + numeral(n as nat, base as nat));
    } else {
        assert(n / base < n && n % base < base) by (nonlinear_arith)
            requires
                n >= base,
                base >= 2,
        ;
        push_numeral(n / base, base, out);
        let last: u64 = n % base;
        out.push(digit_of(last));
        assert(out@ =~= old(out)@ + numeral(n as nat, base as nat));
    }
}

/// `n` in decimal.
pub fn decimal_of(n: u64) -> (r: String)
    ensures
        r@ == decimal(n as nat),
{
    let mut s = String::new();
    push_numeral(n, 10, &mut s);
    assert(s@ =~= decimal(n as nat));
    s
}

/// `n` in hexadecimal, without leading zeros.
pub fn hex_of(n: u64) -> (r: String)
    ensures
        r@ == numeral(n as nat, 16),
{
    let mut s = String::new();
    push_numeral(n, 16, &mut s);
    assert(s@ =~= numeral(n as nat, 16));
    s
}

/// `n` in hexadecimal, at least eight digits.
pub fn hex8_of(n: u64) -> (r: String)
    ensures
        r@ == hex8(n as nat),
{
    let h = hex_of(n);
    let width: usize = chars_of(h.as_str()).len();
    let mut s = String::new();
    let mut i: usize = width;
    while i < 8
        invariant
            width == numeral(n as nat, 16).len(),
            width <= i,
            width >= 8 ==> s@.len() == 0,
            i <= 8 || i == width,
            s@ =~= Seq::new((i - width) as nat, |k: int| '0'),
        decreases 8 - i,
    {
        s.push('0');
        i += 1;
    }
    s.append(h.as_str());
    assert(s@ =~= hex8(n as nat));
    s
}

proof fn value_grows(s: Seq<char>, i: int, base: nat)
    requires
        0 <= i <= s.len(),
        base >= 1,
    ensures
        numeral_value(s.take(i), base) <= numeral_value(s, base),
    decreases s.len() - i,
{
    if i == s.len() {
        assert(s.take(i) =~= s);
    } else {
        value_grows(s, i + 1, base);
        assert(s.take(i + 1).drop_last() =~= s.take(i));
        let v = numeral_value(s.take(i), base);
        assert(v * base >= v) by (nonlinear_arith)
            requires
                base >= 1,
        ;
    }
}

/// Reads `s` as a number in `base`.
pub fn parse_number(s: &str, base: u64) -> (r: Option<u64>)
    requires
        2 <= base <= 16,
    ensures
        r == number_of(s@, base as nat),
{
    let v = chars_of(s);
    let mut i: usize = 0;
    if v.len() > 0 && v[0] == '+' {
        i = 1;
    }
    let start: usize = i;
    let ghost t = unsigned_part(s@);
    assert(t =~= s@.skip(start as int));
    if i == v.len() {
        return None;
    }
    let mut acc: u64 = 0;
    assert(t.take(0) =~= Seq::<char>::empty());
    while i < v.len()
        invariant
            v@ == s@,
            start <= i <= v@.len(),
            start < v@.len(),
            2 <= base <= 16,
            t == unsigned_part(s@),
            t == s@.skip(start as int),
            all_digits(t.take(i - start), base as nat),
            acc == numeral_value(t.take(i - start), base as nat),
        decreases v@.len() - i,
    {
        let ghost k = i - start;
        assert(t[k] == v@[i as int]);
        assert(t.take(k + 1).drop_last() =~= t.take(k));
        match value_of_digit(v[i]) {
            Some(d) => {
                if d >= base {
                    assert(!is_digit(t[k], base as nat));
                    return None;
                }
                proof {
                    value_grows(t, k + 1, base as nat);
                    assert(acc * base <= u64::MAX * 16) by (nonlinear_arith)
                        requires
                            0 <= acc <= u64::MAX,
                            2 <= base <= 16,
                    ;
                }
                let wide: u128 = acc as u128 * base as u128 + d as u128;
                if wide > u64::MAX as u128 {
                    return None;
                }
                acc = wide as u64;
                assert forall|j: int| 0 <= j < k + 1 implies is_digit(
                    #[trigger] t.take(k + 1)[j],
                    base as nat,
                ) by {
                    if j < k {
                        assert(t.take(k)[j] == t.take(k + 1)[j]);
                    }
                }
            },
            None => {
                assert(!is_digit(t[k], base as nat));
                return None;
            },
        }
        i += 1;
    }
    assert(t.take(t.len() as int) =~= t);
    Some(acc)
}

proof fn digit_round_trip(d: nat)
    requires
        d < 16,
    ensures
        digit_value(digit_char(d)) == Some(d),
        digit_char(d) != '+',
{
}

proof fn numeral_reads_back(n: nat, base: nat)
    requires
        2 <= base <= 16,
    ensures
        numeral(n, base).len() > 0,
        all_digits(numeral(n, base), base),
        numeral_value(numeral(n, base), base) == n,
        numeral(n, base)[0] != '+',
    decreases n,
{
    if n < base {
        digit_round_trip(n);
        let s = numeral(n, base);
        assert(s.drop_last() =~= Seq::<char>::empty());
        assert(s.last() == digit_char(n));
        assert(numeral_value(s.drop_last(), base) == 0);
        assert(0 * base == 0) by (nonlinear_arith);
    } else {
        assert(n / base < n) by (nonlinear_arith)
            requires
                n >= base,
                base >= 2,
        ;
        numeral_reads_back(n / base, base);
        assert(n % base < base && n / base * base + n % base == n) by (nonlinear_arith)
            requires
                base >= 2,
        ;
        digit_round_trip(n % base);
        let head = numeral(n / base, base);
        assert(numeral(n, base).drop_last() =~= head);
        assert(numeral(n, base).last() == digit_char(n % base));
    }
}

/// A number in decimal is digits alone, and not empty.
pub proof fn numeral_digits(n: nat, base: nat)
    requires
        2 <= base <= 10,
    ensures
        numeral(n, base).len() > 0,
        forall|i: int|
            0 <= i < numeral(n, base).len() ==> '0' <= #[trigger] numeral(n, base)[i] <= '9',
{
    numeral_reads_back(n, base);
    assert forall|i: int| 0 <= i < numeral(n, base).len() implies '0' <= #[trigger] numeral(
        n,
        base,
    )[i] <= '9' by {
        assert(is_digit(numeral(n, base)[i], base));
    }
}

/// What is written in decimal or hexadecimal reads back as the same number.
pub proof fn numbers_read_back(n: u64, base: nat)
    requires
        2 <= base <= 16,
    ensures
        number_of(numeral(n as nat, base), base) == Some(n),
{
    numeral_reads_back(n as nat, base);
}

proof fn zeros_add_nothing(s: Seq<char>, zeros: nat, base: nat)
    requires
        2 <= base <= 16,
        all_digits(s, base),
    ensures
        all_digits(Seq::new(zeros, |i: int| '0') + s, base),
        numeral_value(Seq::new(zeros, |i: int| '0') + s, base) == numeral_value(s, base),
    decreases s.len() + zeros,
{
    let z = Seq::new(zeros, |i: int| '0');
    let t = z + s;
    assert forall|i: int| 0 <= i < t.len() implies is_digit(#[trigger] t[i], base) by {
        if i >= zeros {
            assert(t[i] == s[i - zeros]);
        }
    }
    if s.len() > 0 {
        assert(t.drop_last() =~= z + s.drop_last());
        assert(all_digits(s.drop_last(), base)) by {
            assert forall|i: int| 0 <= i < s.len() - 1 implies is_digit(#[trigger] s.drop_last()[i], base) by {
                assert(s.drop_last()[i] == s[i]);
            }
        }
        zeros_add_nothing(s.drop_last(), zeros, base);
    } else if zeros > 0 {
        let y = Seq::new((zeros - 1) as nat, |i: int| '0');
        assert(t.drop_last() =~= y + s);
        zeros_add_nothing(s, (zeros - 1) as nat, base);
        assert(0 * base == 0) by (nonlinear_arith);
    } else {
        assert(t =~= s);
    }
}

/// Leading zeros change nothing: a padded block number reads back too.
pub proof fn padded_numbers_read_back(n: u64)
    ensures
        number_of(hex8(n as nat), 16) == Some(n),
{
    numeral_reads_back(n as nat, 16);
    let s = numeral(n as nat, 16);
    if s.len() < 8 {
        zeros_add_nothing(s, (8 - s.len()) as nat, 16);
    }
}

} // verus!
