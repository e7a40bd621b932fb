//! Numbers in names and headers are what they stand for.

use crate::digits::{
    all_digits, decimal, decimal_of, digit_char, digit_of, hex8_of, hex_of, is_digit, numeral,
    numeral_value, parse_number, unsigned_part, value_of_digit,
};
use crate::fetching::get_range;
use crate::metrics::Metrics;
use crate::ranges::range_header;
use vstd::prelude::*;

verus! {

/// The worth of the place value digit `c`.
pub open spec fn place(c: char) -> int {
    if c <= '9' {
        c as int - '0' as int
    } else if c <= 'F' {
        c as int - 'A' as int + 10
    } else {
        c as int - 'a' as int + 10
    }
}

/// The number that `s` spells in `base`, place by place.
pub open spec fn worth(s: Seq<char>, base: int) -> int
    decreases s.len(),
{
    if s.len() == 0 {
        0
    } else {
        worth(s.drop_last(), base) * base + place(s.last())
    }
}

/// `c` is a decimal digit.
pub open spec fn plain_digit(c: char) -> bool {
    '0' <= c && c <= '9'
}

/// `c` is a hexadecimal digit, in either case.
pub open spec fn hex_digit(c: char) -> bool {
    plain_digit(c) || ('a' <= c && c <= 'f') || ('A' <= c && c <= 'F')
}

/// `s` is `n` in decimal: digits alone, none in front that says nothing.
pub open spec fn spells(s: Seq<char>, n: int) -> bool {
    &&& s.len() > 0
    &&& forall|i: int| 0 <= i < s.len() ==> plain_digit(#[trigger] s[i])
    &&& s.len() > 1 ==> s[0] != '0'
    &&& worth(s, 10) == n
}

/// `s` asks for the bytes from `first` to `last`, both of them included.
pub open spec fn asks_for(s: Seq<char>, first: int, last: int) -> bool {
    exists|a: Seq<char>, b: Seq<char>| #[trigger]
        spells(a, first) && #[trigger] spells(b, last) && s == "bytes="@ + a + "-"@ + b
}

pub(crate) proof fn written_in(n: nat, base: nat)
    requires
        base == 10 || base == 16,
    ensures
        numeral(n, base).len() > 0,
        forall|i: int|
            0 <= i < numeral(n, base).len() ==> {
                let c = #[trigger] numeral(n, base)[i];
                plain_digit(c) || (base == 16 && 'a' <= c && c <= 'f')
            },
        n > 0 ==> numeral(n, base)[0] != '0',
        worth(numeral(n, base), base as int) == n,
    decreases n,
{
    let s = numeral(n, base);
    if n < base {
        assert(s.drop_last() =~= Seq::<char>::empty());
        assert(worth(s.drop_last(), base as int) == 0);
        assert(0 * base == 0) by (nonlinear_arith);
    } else {
        assert(0 < n / base < n && n % base < base && n / base * base + n % base == n)
            by (nonlinear_arith)
            requires
                n >= base,
                base >= 2,
        ;
        written_in(n / base, base);
        let head = numeral(n / base, base);
        assert(s.drop_last() =~= head);
        assert(s.last() == digit_char(n % base));
        assert forall|i: int| 0 <= i < s.len() implies {
            let c = #[trigger] s[i];
            plain_digit(c) || (base == 16 && 'a' <= c && c <= 'f')
        } by {
            if i < head.len() {
                assert(s[i] == head[i]);
            }
        }
        assert(s[0] == head[0]);
    }
}

/// A number in decimal spells that number.
pub proof fn decimals_spell_their_number(n: u64, r: String)
    requires
        call_ensures(decimal_of, (n,), r),
    ensures
        spells(r@, n as int),
{
    decimal_spelled(n as nat);
}

pub(crate) proof fn decimal_spelled(n: nat)
    ensures
        spells(decimal(n), n as int),
{
    written_in(n, 10);
    if n == 0 {
        assert(numeral(0, 10).len() == 1);
    }
}

/// A number in hexadecimal spells that number, in lower case.
pub proof fn hexadecimals_spell_their_number(n: u64, r: String)
    requires
        call_ensures(hex_of, (n,), r),
    ensures
        r@.len() > 0,
        r@.len() > 1 ==> r@[0] != '0',
        forall|i: int|
            0 <= i < r@.len() ==> hex_digit(#[trigger] r@[i]) && !('A' <= r@[i] && r@[i] <= 'F'),
        worth(r@, 16) == n,
{
    written_in(n as nat, 16);
    if n == 0 {
        assert(numeral(0, 16).len() == 1);
    }
}

/// A digit stands for its place value, in either case, and a place value is
/// written as its digit.
pub proof fn digits_stand_for_their_place(c: char, r: Option<u64>, d: u64, w: char)
    requires
        call_ensures(value_of_digit, (c,), r),
        d < 16,
        call_ensures(digit_of, (d,), w),
    ensures
        r is Some <==> hex_digit(c),
        r is Some ==> r->0 == place(c),
        hex_digit(w) && place(w) == d && !('A' <= w && w <= 'F'),
{
}

proof fn zeros_are_worth_nothing(s: Seq<char>, zeros: nat, base: int)
    ensures
        worth(Seq::new(zeros, |i: int| '0') + s, base) == worth(s, base),
    decreases s.len() + zeros,
{
    let z = Seq::new(zeros, |i: int| '0');
    let t = z + s;
    if s.len() > 0 {
        assert(t.drop_last() =~= z + s.drop_last());
        zeros_are_worth_nothing(s.drop_last(), zeros, base);
    } else if zeros > 0 {
        let y = Seq::new((zeros - 1) as nat, |i: int| '0');
        assert(t.drop_last() =~= y + s);
        zeros_are_worth_nothing(s, (zeros - 1) as nat, base);
        assert(0 * base == 0) by (nonlinear_arith);
    } else {
        assert(t =~= s);
    }
}

/// A block number has eight digits at least, more only where it needs them,
/// and spells the number.
pub proof fn padded_numbers_spell_their_number(n: u64, r: String)
    requires
        call_ensures(hex8_of, (n,), r),
    ensures
        r@.len() >= 8,
        r@.len() > 8 ==> r@[0] != '0',
        forall|i: int|
            0 <= i < r@.len() ==> hex_digit(#[trigger] r@[i]) && !('A' <= r@[i] && r@[i] <= 'F'),
        worth(r@, 16) == n,
{
    written_in(n as nat, 16);
    let s = numeral(n as nat, 16);
    if s.len() < 8 {
        zeros_are_worth_nothing(s, (8 - s.len()) as nat, 16);
        assert forall|i: int| 0 <= i < r@.len() implies hex_digit(#[trigger] r@[i]) && !('A'
            <= r@[i] && r@[i] <= 'F') by {
            if i >= 8 - s.len() {
                assert(r@[i] == s[i - (8 - s.len())]);
            }
        }
    }
    if n == 0 {
        assert(numeral(0, 16).len() == 1);
    }
}

proof fn same_worth(s: Seq<char>, base: nat)
    requires
        base == 10 || base == 16,
        forall|i: int| 0 <= i < s.len() ==> is_digit(#[trigger] s[i], base),
    ensures
        numeral_value(s, base) == worth(s, base as int),
    decreases s.len(),
{
    if s.len() > 0 {
        assert forall|i: int| 0 <= i < s.len() - 1 implies is_digit(
            #[trigger] s.drop_last()[i],
            base,
        ) by {
            assert(s.drop_last()[i] == s[i]);
        }
        same_worth(s.drop_last(), base);
        assert(is_digit(s[s.len() - 1], base));
    }
}

/// `c` is a digit in `base`, decimal or hexadecimal.
pub open spec fn digit_in(c: char, base: int) -> bool {
    if base == 10 {
        plain_digit(c)
    } else {
        hex_digit(c)
    }
}

pub(crate) proof fn digits_are_read(t: Seq<char>, base: nat)
    requires
        base == 10 || base == 16,
    ensures
        all_digits(t, base) <==> forall|i: int|
            0 <= i < t.len() ==> digit_in(#[trigger] t[i], base as int),
        base == 10 ==> (all_digits(t, base) <==> forall|i: int|
            0 <= i < t.len() ==> plain_digit(#[trigger] t[i])),
        all_digits(t, base) ==> numeral_value(t, base) == worth(t, base as int),
{
    assert forall|i: int| 0 <= i < t.len() implies is_digit(#[trigger] t[i], base) == digit_in(
        t[i],
        base as int,
    ) by {}
    if all_digits(t, base) {
        same_worth(t, base);
        assert forall|i: int| 0 <= i < t.len() implies digit_in(#[trigger] t[i], base as int) by {
            assert(is_digit(t[i], base));
        }
        if base == 10 {
            assert forall|i: int| 0 <= i < t.len() implies plain_digit(#[trigger] t[i]) by {
                assert(is_digit(t[i], base));
            }
        }
    } else {
        let i = choose|i: int| 0 <= i < t.len() && !is_digit(#[trigger] t[i], base);
        assert(!digit_in(t[i], base as int));
    }
}

/// Digits alone, with at most a plus sign in front, are read as the number
/// that they spell, where it fits; nothing else is read as a number.
pub proof fn numbers_are_read_as_they_are_spelled(
    s: &str,
    base: u64,
    r: Option<u64>,
    t: Seq<char>,
)
    requires
        base == 10 || base == 16,
        call_ensures(parse_number, (s, base), r),
        s@ == t && (t.len() > 0 ==> t[0] != '+') || s@ == seq!['+'] + t,
    ensures
        r is Some <==> {
            &&& t.len() > 0
            &&& forall|i: int| 0 <= i < t.len() ==> digit_in(#[trigger] t[i], base as int)
            &&& worth(t, base as int) <= u64::MAX
        },
        r is Some ==> r->0 == worth(t, base as int),
{
    if s@ == seq!['+'] + t {
        assert(s@[0] == '+');
    }
    assert(unsigned_part(s@) =~= t);
    digits_are_read(t, base as nat);
}

/// A range header names its first byte and its last.
pub proof fn headers_name_first_and_last(start: u64, end: u64, r: String)
    requires
        call_ensures(range_header, (start, end), r),
        start < end,
    ensures
        asks_for(r@, start as int, end - 1),
{
    decimal_spelled(start as nat);
    decimal_spelled((end - 1) as nat);
}

/// The request for a range asks for exactly the bytes wanted, up to the
/// largest offset that there is; only a request for everything is open-ended.
pub proof fn fetches_ask_for_what_is_wanted(
    offset: u64,
    len: usize,
    m: &mut Metrics,
    r: String,
)
    requires
        call_ensures(get_range, (offset, len, m), r),
        len > 0,
        offset < u64::MAX,
    ensures
        !(offset == 0 && len == usize::MAX) && offset + len <= u64::MAX ==> asks_for(
            r@,
            offset as int,
            offset + len - 1,
        ),
        offset + len > u64::MAX ==> asks_for(r@, offset as int, u64::MAX - 1),
        offset == 0 && len == usize::MAX ==> r@ == "bytes=0-"@,
{
    decimal_spelled(offset as nat);
    if offset + len > u64::MAX {
        decimal_spelled((u64::MAX - 1) as nat);
    } else {
        decimal_spelled((offset + len - 1) as nat);
    }
}

} // verus!
