//! CRC-64/ECMA-182, the checksum that the object store reports back for an
//! upload and that guards every block of the disk cache: polynomial in
//! reflected form, all ones before the first byte, all bits flipped after the
//! last.

use vstd::prelude::*;

verus! {

/// The reflected polynomial.
pub const POLY: u64 = 0xC96C_5795_D787_0F42;

/// The register before the first byte, and the mask applied after the last.
pub const ALL_ONES: u64 = 0xFFFF_FFFF_FFFF_FFFF;

/// One bit through the register.
pub open spec fn bit_step(c: u64) -> u64 {
    (c >> 1) ^ (if c & 1 == 1 {
        POLY
    } else {
        0
    })
}

/// `n` bits through the register.
pub open spec fn bit_steps(c: u64, n: nat) -> u64
    decreases n,
{
    if n == 0 {
        c
    } else {
        bit_step(bit_steps(c, (n - 1) as nat))
    }
}

/// One byte through the register.
pub open spec fn byte_step(c: u64, b: u8) -> u64 {
    bit_steps(c ^ (b as u64), 8)
}

/// The register `c` after the bytes `data`.
pub open spec fn register(c: u64, data: Seq<u8>) -> u64
    decreases data.len(),
{
    if data.len() == 0 {
        c
    } else {
        byte_step(register(c, data.drop_last()), data.last())
    }
}

/// The checksum of `data`.
pub open spec fn checksum(data: Seq<u8>) -> u64 {
    register(ALL_ONES, data) ^ ALL_ONES
}

fn advance(start: u64, data: &[u8]) -> (r: u64)
    ensures
        r == register(start, data@),
{
    let mut crc: u64 = start;
    let mut i: usize = 0;
    assert(data@.take(0) =~= Seq::<u8>::empty());
    while i < data.len()
        invariant
            i <= data@.len(),
            crc == register(start, data@.take(i as int)),
        decreases data@.len() - i,
    {
        let ghost before = crc;
        crc = crc ^ (data[i] as u64);
        let ghost mixed = crc;
        let mut k: u64 = 0;
        while k < 8
            invariant
                k <= 8,
                crc == bit_steps(mixed, k as nat),
            decreases 8 - k,
        {
            crc = (crc >> 1) ^ (if crc & 1 == 1 {
                POLY
            } else {
                0
            });
            k += 1;
        }
        assert(data@.take(i + 1).drop_last() =~= data@.take(i as int));
        assert(data@.take(i + 1).last() == data@[i as int]);
        i += 1;
    }
    assert(data@.take(data@.len() as int) =~= data@);
    crc
}

/// The checksum of `data`.
pub fn crc64ecma(data: &[u8]) -> (r: u64)
    ensures
        r == checksum(data@),
{
    advance(ALL_ONES, data) ^ ALL_ONES
}

/// The checksum of bytes that arrive in pieces.
#[derive(Clone, Copy, Debug)]
pub struct Crc64Ecma {
    pub crc: u64,
}

impl Crc64Ecma {
    /// `self` has been fed exactly `data`.
    pub open spec fn has_read(self, data: Seq<u8>) -> bool {
        self.crc == register(ALL_ONES, data)
    }

    pub fn new() -> (r: Self)
        ensures
            r.has_read(Seq::empty()),
            r.crc == ALL_ONES,
    {
        Crc64Ecma { crc: ALL_ONES }
    }

    /// Feeds `data`.
    pub fn update(&mut self, data: &[u8])
        ensures
            final(self).crc == register(old(self).crc, data@),
            forall|before: Seq<u8>|
                #[trigger] old(self).has_read(before) ==> final(self).has_read(before + data@),
    {
        let ghost was = *self;
        self.crc = advance(self.crc, data);
        proof {
            assert forall|before: Seq<u8>| #[trigger] was.has_read(before) implies self.has_read(
                before + data@,
            ) by {
                register_of_pieces(ALL_ONES, before, data@);
            }
        }
    }

    /// The checksum of everything fed.
    pub fn finalize(self) -> (r: u64)
        ensures
            r == self.crc ^ ALL_ONES,
            forall|data: Seq<u8>| #[trigger] self.has_read(data) ==> r == checksum(data),
    {
        self.crc ^ ALL_ONES
    }
}

/// The register after `a` and then `b` is the register after both together:
/// a checksum taken in pieces is the checksum taken at once.
pub proof fn register_of_pieces(c: u64, a: Seq<u8>, b: Seq<u8>)
    ensures
        register(c, a + b) == register(register(c, a), b),
    decreases b.len(),
{
    if b.len() == 0 {
        assert(a + b =~= a);
    } else {
        assert((a + b).drop_last() =~= a + b.drop_last());
        register_of_pieces(c, a, b.drop_last());
    }
}

proof fn bit_step_injective(a: u64, b: u64)
    requires
        bit_step(a) == bit_step(b),
    ensures
        a == b,
{
    assert(a == b) by (bit_vector)
        requires
            ((a >> 1) ^ (if a & 1 == 1 {
                0xC96C_5795_D787_0F42u64
            } else {
                0
            })) == ((b >> 1) ^ (if b & 1 == 1 {
                0xC96C_5795_D787_0F42u64
            } else {
                0
            })),
    ;
}

proof fn bit_steps_injective(a: u64, b: u64, n: nat)
    requires
        bit_steps(a, n) == bit_steps(b, n),
    ensures
        a == b,
    decreases n,
{
    if n > 0 {
        bit_step_injective(bit_steps(a, (n - 1) as nat), bit_steps(b, (n - 1) as nat));
        bit_steps_injective(a, b, (n - 1) as nat);
    }
}

proof fn register_injective(a: u64, b: u64, data: Seq<u8>)
    requires
        register(a, data) == register(b, data),
    ensures
        a == b,
    decreases data.len(),
{
    if data.len() > 0 {
        let x = register(a, data.drop_last());
        let y = register(b, data.drop_last());
        let d = data.last() as u64;
        bit_steps_injective(x ^ d, y ^ d, 8);
        assert(x == y) by (bit_vector)
            requires
                x ^ d == y ^ d,
        ;
        register_injective(a, b, data.drop_last());
    }
}

/// Changing any one byte changes the checksum.
pub proof fn one_changed_byte_is_detected(data: Seq<u8>, i: int, x: u8)
    requires
        0 <= i < data.len(),
        x != data[i],
    ensures
        checksum(data.update(i, x)) != checksum(data),
{
    let head = data.take(i);
    let tail = data.skip(i + 1);
    let old_byte = data[i];
    assert(data =~= head.push(old_byte) + tail);
    assert(data.update(i, x) =~= head.push(x) + tail);
    register_of_pieces(ALL_ONES, head.push(old_byte), tail);
    register_of_pieces(ALL_ONES, head.push(x), tail);
    let c = register(ALL_ONES, head);
    assert(head.push(old_byte).drop_last() =~= head);
    assert(head.push(x).drop_last() =~= head);
    let p = register(ALL_ONES, data);
    let q = register(ALL_ONES, data.update(i, x));
    if checksum(data.update(i, x)) == checksum(data) {
        assert(p == q) by (bit_vector)
            requires
                p ^ 0xFFFF_FFFF_FFFF_FFFFu64 == q ^ 0xFFFF_FFFF_FFFF_FFFFu64,
        ;
        register_injective(byte_step(c, old_byte), byte_step(c, x), tail);
        bit_steps_injective(c ^ (old_byte as u64), c ^ (x as u64), 8);
        assert(old_byte == x) by (bit_vector)
            requires
                c ^ (old_byte as u64) == c ^ (x as u64),
        ;
    }
}

/// Bit `j` of a number, the lowest first.
pub open spec fn bit_at(c: u64, j: int) -> bool {
    (c >> (j as u64)) & 1 == 1
}

/// Whether the generator polynomial of ECMA-182 has the term of degree
/// `63 - j`. The term of degree 64, which it has, is not asked for.
pub open spec fn generator(j: int) -> bool {
    (0x42F0_E1EB_A9EA_3693u64 >> ((63 - j) as u64)) & 1 == 1
}

/// The bits of some bytes: eight for each, its lowest first.
pub open spec fn message(data: Seq<u8>) -> Seq<bool> {
    Seq::new(8 * data.len(), |i: int| (data[i / 8] >> ((i % 8) as u8)) & 1 == 1)
}

/// What a long division of the polynomial with these coefficients, that of the
/// highest degree first, by the generator leaves.
pub open spec fn divided(bits: Seq<bool>) -> Seq<bool>
    decreases bits.len(),
{
    if bits.len() <= 64 {
        bits
    } else {
        divided(
            Seq::new(
                (bits.len() - 1) as nat,
                |i: int| bits[i + 1] != (bits[0] && i < 64 && generator(i)),
            ),
        )
    }
}

/// What is divided for the checksum of `data`: its bits and 64 zeros behind
/// them, with the first 64 flipped.
pub open spec fn dividend(data: Seq<u8>) -> Seq<bool> {
    Seq::new(
        8 * data.len() + 64,
        |i: int| (i < 8 * data.len() && message(data)[i]) != (i < 64),
    )
}

spec fn fed(c: u64, b: bool) -> u64 {
    (c >> 1) ^ (if (c & 1 == 1) != b {
        0xC96C_5795_D787_0F42u64
    } else {
        0
    })
}

spec fn run(c: u64, m: Seq<bool>) -> u64
    decreases m.len(),
{
    if m.len() == 0 {
        c
    } else {
        run(fed(c, m[0]), m.drop_first())
    }
}

spec fn mixed(m: Seq<bool>, c: u64) -> Seq<bool> {
    Seq::new(m.len() + 64, |i: int| (i < m.len() && m[i]) != (i < 64 && bit_at(c, i)))
}

proof fn fed_bit(c: u64, b: bool, i: int)
    requires
        0 <= i < 64,
    ensures
        bit_at(fed(c, b), i) == ((i + 1 < 64 && bit_at(c, i + 1)) != ((bit_at(c, 0) != b)
            && generator(i))),
{
    let k = i as u64;
    let up = (63 - i) as u64;
    let flip = (c & 1 == 1) != b;
    assert(c >> 0u64 == c) by (bit_vector);
    assert((0x42F0_E1EB_A9EA_3693u64 >> up) & 1 == (0xC96C_5795_D787_0F42u64 >> k) & 1)
        by (bit_vector)
        requires
            k < 64,
            up == 63 - k,
    ;
    let p: u64 = if flip {
        0xC96C_5795_D787_0F42u64
    } else {
        0
    };
    let x: u64 = (c >> 1) ^ p;
    assert(0u64 >> k == 0) by (bit_vector);
    assert(0u64 & 1 == 0) by (bit_vector);
    if k < 63 {
        let next = (k + 1) as u64;
        assert(((x >> k) & 1 == 1) == (((c >> next) & 1 == 1) != ((p >> k) & 1 == 1)))
            by (bit_vector)
            requires
                x == (c >> 1) ^ p,
                k < 63,
                next == k + 1,
        ;
    } else {
        assert(((x >> k) & 1 == 1) == ((p >> k) & 1 == 1)) by (bit_vector)
            requires
                x == (c >> 1) ^ p,
                k == 63,
        ;
    }
}

proof fn divided_runs(m: Seq<bool>, c: u64)
    ensures
        divided(mixed(m, c)) == mixed(Seq::empty(), run(c, m)),
    decreases m.len(),
{
    let bits = mixed(m, c);
    if m.len() == 0 {
        assert(bits =~= mixed(Seq::empty(), c));
    } else {
        let next = fed(c, m[0]);
        let rest = m.drop_first();
        let left = Seq::new(
            (bits.len() - 1) as nat,
            |i: int| bits[i + 1] != (bits[0] && i < 64 && generator(i)),
        );
        assert forall|i: int| 0 <= i < left.len() implies left[i] == mixed(rest, next)[i] by {
            assert(bits[0] == (m[0] != bit_at(c, 0)));
            if i < 64 {
                fed_bit(c, m[0], i);
            }
            if i < rest.len() {
                assert(rest[i] == m[i + 1]);
            }
        }
        assert(left =~= mixed(rest, next));
        divided_runs(rest, next);
    }
}

proof fn runs_chain(c: u64, a: Seq<bool>, b: Seq<bool>)
    ensures
        run(c, a + b) == run(run(c, a), b),
    decreases a.len(),
{
    if a.len() == 0 {
        assert(a + b =~= b);
    } else {
        assert((a + b).drop_first() =~= a.drop_first() + b);
        runs_chain(fed(c, a[0]), a.drop_first(), b);
    }
}

spec fn byte_bits(b: u8, from: int) -> Seq<bool> {
    Seq::new((8 - from) as nat, |i: int| (b >> ((from + i) as u8)) & 1 == 1)
}

proof fn byte_runs(start: u64, c: u64, b: u8, k: nat)
    requires
        k <= 8,
        bit_steps(start ^ (b as u64), k) == c ^ ((b as u64) >> (k as u64)),
    ensures
        run(c, byte_bits(b, k as int)) == byte_step(start, b),
    decreases 8 - k,
{
    let w = b as u64;
    let j = k as u64;
    let m = byte_bits(b, k as int);
    if k == 8 {
        assert(w >> 8u64 == 0) by (bit_vector)
            requires
                w == b as u64,
        ;
        assert(c ^ 0u64 == c) by (bit_vector);
        assert(m =~= Seq::<bool>::empty());
    } else {
        let bit = (b >> (k as u8)) & 1 == 1;
        let at = k as u8;
        let next = (j + 1) as u64;
        assert(m[0] == bit);
        assert(m.drop_first() =~= byte_bits(b, (k + 1) as int));
        assert(((c ^ (w >> j)) >> 1) ^ (if (c ^ (w >> j)) & 1 == 1 {
            0xC96C_5795_D787_0F42u64
        } else {
            0
        }) == ((c >> 1) ^ (if (c & 1 == 1) != ((b >> at) & 1 == 1) {
            0xC96C_5795_D787_0F42u64
        } else {
            0
        })) ^ (w >> next)) by (bit_vector)
            requires
                w == b as u64,
                j < 8,
                at == j,
                next == j + 1,
        ;
        assert(bit_steps(start ^ w, k + 1) == bit_step(c ^ (w >> j)));
        byte_runs(start, fed(c, bit), b, k + 1);
    }
}

proof fn register_runs(c: u64, data: Seq<u8>)
    ensures
        register(c, data) == run(c, message(data)),
    decreases data.len(),
{
    let m = message(data);
    if data.len() == 0 {
        assert(m =~= Seq::<bool>::empty());
    } else {
        let (head, b) = (data.drop_last(), data.last());
        register_runs(c, head);
        let before = register(c, head);
        assert(before ^ (b as u64) == before ^ ((b as u64) >> 0u64)) by (bit_vector);
        byte_runs(before, before, b, 0);
        assert forall|i: int| 0 <= i < m.len() implies m[i] == (message(head) + byte_bits(b, 0))[i] by {
            if i >= 8 * head.len() {
                assert(i / 8 == head.len());
                assert(i % 8 == i - 8 * head.len());
            }
        }
        assert(m =~= message(head) + byte_bits(b, 0));
        runs_chain(c, message(head), byte_bits(b, 0));
    }
}

/// The checksum is the remainder that it is named for: the bits of the data,
/// byte by byte, divided by the generator polynomial of ECMA-182, with the bits
/// of what is left flipped. This holds of all bytes, whatever their values.
pub proof fn checksums_are_remainders(data: Seq<u8>)
    ensures
        divided(dividend(data)).len() == 64,
        forall|j: int|
            0 <= j < 64 ==> bit_at(checksum(data), j) == !#[trigger] divided(dividend(data))[j],
{
    let m = message(data);
    assert forall|i: int| 0 <= i < 64 implies bit_at(0xFFFF_FFFF_FFFF_FFFFu64, i) by {
        let k = i as u64;
        assert((0xFFFF_FFFF_FFFF_FFFFu64 >> k) & 1 == 1) by (bit_vector)
            requires
                k < 64,
        ;
    }
    assert(dividend(data) =~= mixed(m, 0xFFFF_FFFF_FFFF_FFFFu64));
    divided_runs(m, 0xFFFF_FFFF_FFFF_FFFFu64);
    register_runs(0xFFFF_FFFF_FFFF_FFFFu64, data);
    let r = register(0xFFFF_FFFF_FFFF_FFFFu64, data);
    assert forall|j: int| 0 <= j < 64 implies bit_at(checksum(data), j)
        == !#[trigger] divided(dividend(data))[j] by {
        let k = j as u64;
        assert((((r ^ 0xFFFF_FFFF_FFFF_FFFFu64) >> k) & 1 == 1) == !((r >> k) & 1 == 1))
            by (bit_vector)
            requires
                k < 64,
        ;
    }
}

} // verus!
