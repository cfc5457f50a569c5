//! A most-significant-bit-first reader over bytes, with Exp-Golomb decoding.
use vstd::arithmetic::power2::{lemma2_to64, lemma_pow2_strictly_increases, lemma_pow2_unfold, pow2};
use vstd::prelude::*;

verus! {

/// Bit `i` of `data`: bits are numbered from the most significant bit of the first byte.
pub open spec fn bit_at(data: Seq<u8>, i: int) -> bool {
    (data[i / 8] >> ((7 - i % 8) as u8)) & 1u8 == 1u8
}

/// The bytes of `data` as a sequence of bits.
pub open spec fn bits_of(data: Seq<u8>) -> Seq<bool> {
    Seq::new(8 * data.len(), |i: int| bit_at(data, i))
}

/// The unsigned number that the `n` bits starting at `pos` spell, the first bit most significant.
pub open spec fn bits_value(bits: Seq<bool>, pos: int, n: nat) -> nat
    decreases n,
{
    if n == 0 {
        0
    } else {
        2 * bits_value(bits, pos, (n - 1) as nat) + if bits[pos + n - 1] {
            1nat
        } else {
            0nat
        }
    }
}

/// Reading `n` bits at `pos`: the value read and the position after it, or `None` when
/// fewer than `n` bits remain.
pub open spec fn read_bits_spec(bits: Seq<bool>, pos: int, n: nat) -> Option<(nat, int)> {
    if 0 <= pos && pos + n <= bits.len() {
        Some((bits_value(bits, pos, n), pos + n))
    } else {
        None
    }
}


/// Reading one bit at `pos` as a flag.
pub open spec fn read_flag_spec(bits: Seq<bool>, pos: int) -> Option<(bool, int)> {
    if 0 <= pos < bits.len() {
        Some((bits[pos], pos + 1))
    } else {
        None
    }
}

/// The number of zero bits from `pos` up to the first one bit or the end of `bits`.
pub open spec fn zero_run(bits: Seq<bool>, pos: int) -> nat
    decreases bits.len() - pos,
{
    if pos < 0 || pos >= bits.len() || bits[pos] {
        0
    } else {
        1 + zero_run(bits, pos + 1)
    }
}

/// Unsigned Exp-Golomb decoding at `pos`: `zeros` zero bits, a one bit, then `zeros` suffix
/// bits give `2^zeros - 1 + suffix`. It fails when the bits run out before the one bit or the
/// suffix, and when the value would not fit in 32 bits (more than 31 leading zeros).
pub open spec fn read_ue_spec(bits: Seq<bool>, pos: int) -> Option<(nat, int)> {
    let zeros = zero_run(bits, pos);
    if 0 <= pos && pos + 2 * zeros + 1 <= bits.len() && zeros <= 31 {
        Some(((pow2(zeros) - 1 + bits_value(bits, pos + zeros + 1, zeros)) as nat, pos + 2 * zeros + 1))
    } else {
        None
    }
}

/// The zig-zag map from Exp-Golomb code numbers to signed values: 0, 1, -1, 2, -2, ...
pub open spec fn zigzag(code: nat) -> int {
    if code % 2 == 0 {
        -((code / 2) as int)
    } else {
        ((code + 1) / 2) as int
    }
}

/// Signed Exp-Golomb decoding at `pos`.
pub open spec fn read_se_spec(bits: Seq<bool>, pos: int) -> Option<(int, int)> {
    match read_ue_spec(bits, pos) {
        Some((code, next)) => Some((zigzag(code), next)),
        None => None,
    }
}

/// `n` bits spell a number below `2^n`.
pub proof fn lemma_bits_value_bound(bits: Seq<bool>, pos: int, n: nat)
    ensures
        bits_value(bits, pos, n) < pow2(n),
    decreases n,
{
    if n == 0 {
        lemma2_to64();
    } else {
        lemma_bits_value_bound(bits, pos, (n - 1) as nat);
        lemma_pow2_unfold(n);
    }
}

/// A run of zero bits continues the run that starts after it.
proof fn lemma_zero_run_step(bits: Seq<bool>, pos: int)
    requires
        0 <= pos < bits.len(),
        !bits[pos],
    ensures
        zero_run(bits, pos) == 1 + zero_run(bits, pos + 1),
{
}

/// The `n`-bit big-endian spelling of `x`, most significant bit first.
pub open spec fn binary(x: nat, n: nat) -> Seq<bool>
    decreases n,
{
    if n == 0 {
        Seq::empty()
    } else {
        binary(x / 2, (n - 1) as nat).push(x % 2 == 1)
    }
}

/// The position of the highest one bit of `x` (0 for 0 and 1).
pub open spec fn ilog2(x: nat) -> nat
    decreases x,
{
    if x < 2 {
        0
    } else {
        1 + ilog2(x / 2)
    }
}

/// The unsigned Exp-Golomb code of `v`: as many zeros as `v + 1` has bits after its highest
/// one bit, then `v + 1` in binary (0 is `1`, 1 is `010`, 2 is `011`, 3 is `00100`, ...).
pub open spec fn ue_code(v: nat) -> Seq<bool> {
    let zeros = ilog2(v + 1);
    Seq::new(zeros, |i: int| false) + seq![true] + binary((v + 1 - pow2(zeros)) as nat, zeros)
}

/// Reading `a + b` bits at once gives the first `a` bits shifted left by `b`, plus the `b`
/// bits after them.
pub proof fn lemma_bits_value_split(bits: Seq<bool>, pos: int, a: nat, b: nat)
    ensures
        bits_value(bits, pos, a + b) == bits_value(bits, pos, a) * pow2(b) + bits_value(
            bits,
            pos + a,
            b,
        ),
    decreases b,
{
    if b == 0 {
        lemma2_to64();
    } else {
        lemma_bits_value_split(bits, pos, a, (b - 1) as nat);
        lemma_pow2_unfold(b);
        let va = bits_value(bits, pos, a);
        let p = pow2((b - 1) as nat);
        assert(2 * (va * p) == va * (2 * p)) by (nonlinear_arith);
        assert(bits_value(bits, pos, a + b) == 2 * bits_value(bits, pos, (a + b - 1) as nat) + (
        if bits[pos + (a + b) - 1] {
            1nat
        } else {
            0nat
        }));
        assert(bits_value(bits, pos + a, b) == 2 * bits_value(bits, pos + a, (b - 1) as nat) + (
        if bits[pos + a + b - 1] {
            1nat
        } else {
            0nat
        }));
    }
}

/// A read depends on the bytes and the position alone: a fresh reader over the same bytes
/// that first skips `skip` bits reads the same `n` bits as any reader standing at `skip`,
/// and reading them together with the skipped bits gives the two parts side by side. A read
/// that would pass the end of the bytes fails.
pub proof fn lemma_reread_region(data: Seq<u8>, skip: nat, n: nat)
    ensures
        skip + n <= 8 * data.len() ==> {
            let bits = bits_of(data);
            &&& read_bits_spec(bits, 0, skip) == Some((bits_value(bits, 0, skip), skip as int))
            &&& read_bits_spec(bits, skip as int, n) == Some(
                (bits_value(bits, skip as int, n), (skip + n) as int),
            )
            &&& bits_value(bits, 0, skip + n) == bits_value(bits, 0, skip) * pow2(n)
                + bits_value(bits, skip as int, n)
        },
        skip + n > 8 * data.len() ==> read_bits_spec(bits_of(data), skip as int, n) is None,
{
    lemma_bits_value_split(bits_of(data), 0, skip, n);
}

proof fn lemma_binary_len(x: nat, n: nat)
    ensures
        binary(x, n).len() == n,
    decreases n,
{
    if n > 0 {
        lemma_binary_len(x / 2, (n - 1) as nat);
    }
}

/// Bits that spell `x` in binary read back as `x`.
proof fn lemma_bits_value_binary(bits: Seq<bool>, pos: int, x: nat, n: nat)
    requires
        0 <= pos,
        pos + n <= bits.len(),
        x < pow2(n),
        forall|i: int| 0 <= i < n ==> bits[pos + i] == #[trigger] binary(x, n)[i],
    ensures
        bits_value(bits, pos, n) == x,
    decreases n,
{
    lemma_binary_len(x, n);
    if n == 0 {
        lemma2_to64();
    } else {
        lemma_pow2_unfold(n);
        let m = (n - 1) as nat;
        lemma_binary_len(x / 2, m);
        assert forall|i: int| 0 <= i < m implies bits[pos + i] == #[trigger] binary(x / 2, m)[i] by {
            assert(binary(x, n)[i] == binary(x / 2, m)[i]);
        }
        assert(binary(x, n)[m as int] == (x % 2 == 1));
        lemma_bits_value_binary(bits, pos, x / 2, m);
    }
}

proof fn lemma_ilog2_bounds(x: nat)
    requires
        x >= 1,
    ensures
        pow2(ilog2(x)) <= x < pow2(ilog2(x) + 1),
    decreases x,
{
    if x < 2 {
        lemma2_to64();
    } else {
        lemma_ilog2_bounds(x / 2);
        lemma_pow2_unfold(ilog2(x));
        lemma_pow2_unfold(ilog2(x) + 1);
    }
}

/// Exactly `z` zero bits followed by a one bit make a zero run of length `z`.
proof fn lemma_zero_run_exact(bits: Seq<bool>, pos: int, z: nat)
    requires
        0 <= pos,
        pos + z < bits.len(),
        forall|i: int| pos <= i < pos + z ==> !#[trigger] bits[i],
        bits[pos + z],
    ensures
        zero_run(bits, pos) == z,
    decreases z,
{
    if z > 0 {
        lemma_zero_run_exact(bits, pos + 1, (z - 1) as nat);
    }
}

/// Decoding the Exp-Golomb code of `v` gives `v` back and stops right after the code.
pub proof fn lemma_ue_round_trip(bits: Seq<bool>, pos: int, v: nat)
    requires
        v < u32::MAX,
        0 <= pos,
        pos + ue_code(v).len() <= bits.len(),
        bits.subrange(pos, pos + ue_code(v).len()) == ue_code(v),
    ensures
        read_ue_spec(bits, pos) == Some((v, pos + ue_code(v).len())),
{
    let z = ilog2(v + 1);
    lemma_ilog2_bounds(v + 1);
    lemma2_to64();
    if z >= 32 {
        if z > 32 {
            lemma_pow2_strictly_increases(32, z);
        }
        assert(false);
    }
    lemma_pow2_unfold(z + 1);
    let rest = (v + 1 - pow2(z)) as nat;
    lemma_binary_len(rest, z);
    let code = ue_code(v);
    assert(code.len() == 2 * z + 1);
    assert forall|i: int| pos <= i < pos + z implies !#[trigger] bits[i] by {
        assert(bits[i] == bits.subrange(pos, pos + code.len())[i - pos]);
    }
    assert(bits[pos + z] == code[z as int]);
    lemma_zero_run_exact(bits, pos, z);
    assert forall|i: int| 0 <= i < z implies bits[pos + z + 1 + i] == #[trigger] binary(rest, z)[i] by {
        assert(bits[pos + z + 1 + i] == code[z + 1 + i]);
    }
    lemma_bits_value_binary(bits, pos + z + 1, rest, z);
}

/// The zig-zag law of signed Exp-Golomb codes: the code of `2k` decodes to `-k`, the code of
/// `2k + 1` to `k + 1`.
pub proof fn lemma_se_zigzag(bits: Seq<bool>, pos: int, k: nat)
    requires
        0 <= pos,
    ensures
        2 * k < u32::MAX && pos + ue_code(2 * k).len() <= bits.len() && bits.subrange(
            pos,
            pos + ue_code(2 * k).len(),
        ) == ue_code(2 * k) ==> read_se_spec(bits, pos) == Some(
            (-(k as int), pos + ue_code(2 * k).len()),
        ),
        2 * k + 1 < u32::MAX && pos + ue_code(2 * k + 1).len() <= bits.len() && bits.subrange(
            pos,
            pos + ue_code(2 * k + 1).len(),
        ) == ue_code(2 * k + 1) ==> read_se_spec(bits, pos) == Some(
            ((k + 1) as int, pos + ue_code(2 * k + 1).len()),
        ),
{
    if 2 * k < u32::MAX && pos + ue_code(2 * k).len() <= bits.len() && bits.subrange(
        pos,
        pos + ue_code(2 * k).len(),
    ) == ue_code(2 * k) {
        lemma_ue_round_trip(bits, pos, 2 * k);
    }
    if 2 * k + 1 < u32::MAX && pos + ue_code(2 * k + 1).len() <= bits.len() && bits.subrange(
        pos,
        pos + ue_code(2 * k + 1).len(),
    ) == ue_code(2 * k + 1) {
        lemma_ue_round_trip(bits, pos, 2 * k + 1);
    }
}

pub struct BitReader<'a> {
    data: &'a [u8],
    byte_pos: usize,
    bit_offset: usize,
}

impl<'a> BitReader<'a> {
    #[verifier::type_invariant]
    spec fn inv(&self) -> bool {
        &&& self.bit_offset < 8
        &&& self.byte_pos * 8 + self.bit_offset <= self.data@.len() * 8
    }

    /// The bits that the reader walks over.
    pub closed spec fn bits(&self) -> Seq<bool> {
        bits_of(self.data@)
    }

    /// The number of bits read so far.
    pub closed spec fn pos(&self) -> int {
        self.byte_pos * 8 + self.bit_offset
    }

    /// The cursor never stands before the first bit (and the reads keep it within the bits).
    pub proof fn lemma_pos_nonnegative(&self)
        ensures
            0 <= self.pos(),
    {
    }

    /// At the cursor of any reader, decoding inverts the Exp-Golomb code: when the bits from
    /// the cursor begin with the code of `v`, `read_ue` gives `v` and stops right after it.
    pub proof fn lemma_read_ue_inverts(&self, v: nat)
        requires
            v < u32::MAX,
            self.pos() + ue_code(v).len() <= self.bits().len(),
            self.bits().subrange(self.pos(), self.pos() + ue_code(v).len()) == ue_code(v),
        ensures
            read_ue_spec(self.bits(), self.pos()) == Some((v, self.pos() + ue_code(v).len())),
    {
        lemma_ue_round_trip(self.bits(), self.pos(), v);
    }

    /// The zig-zag law at the cursor of any reader: `read_se` turns the code of `2k` into
    /// `-k` and the code of `2k + 1` into `k + 1`, and stops right after the code.
    pub proof fn lemma_read_se_zigzag(&self, k: nat)
        ensures
            2 * k < u32::MAX && self.pos() + ue_code(2 * k).len() <= self.bits().len()
                && self.bits().subrange(self.pos(), self.pos() + ue_code(2 * k).len()) == ue_code(
                2 * k,
            ) ==> read_se_spec(self.bits(), self.pos()) == Some(
                (-(k as int), self.pos() + ue_code(2 * k).len()),
            ),
            2 * k + 1 < u32::MAX && self.pos() + ue_code(2 * k + 1).len() <= self.bits().len()
                && self.bits().subrange(self.pos(), self.pos() + ue_code(2 * k + 1).len())
                == ue_code(2 * k + 1) ==> read_se_spec(self.bits(), self.pos()) == Some(
                ((k + 1) as int, self.pos() + ue_code(2 * k + 1).len()),
            ),
    {
        lemma_se_zigzag(self.bits(), self.pos(), k);
    }

    pub fn new(data: &'a [u8]) -> (r: Self)
        ensures
            r.bits() == bits_of(data@),
            r.pos() == 0,
    {
        BitReader { data, byte_pos: 0, bit_offset: 0 }
    }

    /// The bit under the cursor; the cursor is not moved.
    fn peek_bit(&self) -> (b: u8)
        requires
            self.pos() < self.bits().len(),
        ensures
            b == 0 || b == 1,
            (b == 1) == self.bits()[self.pos()],
    {
        proof {
            use_type_invariant(self);
        }
        let ghost p = self.pos();
        assert(self.byte_pos < self.data@.len()) by (nonlinear_arith)
            requires
                self.byte_pos * 8 + self.bit_offset < self.data@.len() * 8,
                self.bit_offset < 8,
        ;
        proof {
            vstd::arithmetic::div_mod::lemma_fundamental_div_mod_converse(
                p,
                8,
                self.byte_pos as int,
                self.bit_offset as int,
            );
        }
        let byte = self.data[self.byte_pos];
        let shift = (7 - self.bit_offset) as u8;
        let b = (byte >> shift) & 1u8;
        assert(b == 0 || b == 1) by (bit_vector)
            requires
                b == (byte >> shift) & 1u8,
        ;
        b
    }

    /// Moves the cursor one bit forward.
    fn advance(&mut self)
        requires
            old(self).pos() < old(self).bits().len(),
        ensures
            final(self).bits() == old(self).bits(),
            final(self).pos() == old(self).pos() + 1,
    {
        proof {
            use_type_invariant(&*self);
        }
        if self.bit_offset == 7 {
            assert(self.byte_pos < self.data@.len()) by (nonlinear_arith)
                requires
                    self.byte_pos * 8 + self.bit_offset < self.data@.len() * 8,
                    self.bit_offset < 8,
            ;
            let len = self.data.len();
            assert(self.byte_pos < len);
            self.bit_offset = 0;
            self.byte_pos = self.byte_pos + 1;
        } else {
            self.bit_offset = self.bit_offset + 1;
        }
    }

    /// Reads the next `n` bits, most significant first. When fewer than `n` bits remain the
    /// read fails and the cursor stops at the end of the data.
    pub fn read_bits(&mut self, n: usize) -> (r: Option<u32>)
        requires
            n <= 32,
        ensures
            final(self).bits() == old(self).bits(),
            0 <= final(self).pos() <= final(self).bits().len(),
            match read_bits_spec(old(self).bits(), old(self).pos(), n as nat) {
                Some((v, p)) => r matches Some(x) && x as nat == v && final(self).pos() == p,
                None => r is None && final(self).pos() == old(self).bits().len(),
            },
    {
        proof {
            use_type_invariant(&*self);
        }
        let ghost bits = self.bits();
        let ghost start = self.pos();
        let mut val: u32 = 0;
        let mut i: usize = 0;
        proof {
            lemma2_to64();
        }
        while i < n
            invariant
                n <= 32,
                bits == old(self).bits(),
                start == old(self).pos(),
                i <= n,
                self.bits() == bits,
                0 <= start,
                self.pos() == start + i,
                self.pos() <= bits.len(),
                val as nat == bits_value(bits, start, i as nat),
                val < pow2(i as nat),
            decreases n - i,
        {
            proof {
                use_type_invariant(&*self);
            }
            if self.byte_pos >= self.data.len() {
                return None;
            }
            let b = self.peek_bit();
            proof {
                lemma_pow2_unfold((i + 1) as nat);
                lemma_pow2_strictly_increases(i as nat, 32);
                lemma2_to64();
            }
            val = val * 2 + b as u32;
            self.advance();
            i = i + 1;
        }
        proof {
            if n < 32 {
                lemma_pow2_strictly_increases(n as nat, 32);
            }
        }
        Some(val)
    }
    /// Reads one bit as a flag.
    pub fn read_flag(&mut self) -> (r: Option<bool>)
        ensures
            final(self).bits() == old(self).bits(),
            0 <= final(self).pos() <= final(self).bits().len(),
            match read_flag_spec(old(self).bits(), old(self).pos()) {
                Some((f, p)) => r == Some(f) && final(self).pos() == p,
                None => r is None,
            },
    {
        let r = self.read_bits(1);
        proof {
            reveal_with_fuel(bits_value, 2);
        }
        match r {
            Some(b) => Some(b == 1),
            None => None,
        }
    }

    /// Reads an unsigned Exp-Golomb code.
    pub fn read_ue(&mut self) -> (r: Option<u32>)
        ensures
            final(self).bits() == old(self).bits(),
            0 <= final(self).pos() <= final(self).bits().len(),
            match read_ue_spec(old(self).bits(), old(self).pos()) {
                Some((v, p)) => r matches Some(x) && x as nat == v && final(self).pos() == p,
                None => r is None,
            },
            r matches Some(x) ==> x < u32::MAX,
    {
        proof {
            use_type_invariant(&*self);
        }
        let ghost bits = self.bits();
        let ghost start = self.pos();
        let mut zeros: usize = 0;
        loop
            invariant_except_break
                self.pos() == start + zeros,
            invariant
                bits == old(self).bits(),
                start == old(self).pos(),
                self.bits() == bits,
                0 <= start,
                zeros <= 32,
                self.pos() <= bits.len(),
                zero_run(bits, start) == zeros + zero_run(bits, start + zeros),
            ensures
                self.bits() == bits,
                zeros <= 31,
                self.pos() == start + zeros + 1,
                self.pos() <= bits.len(),
                zero_run(bits, start) == zeros,
            decreases 32 - zeros,
        {
            proof {
                use_type_invariant(&*self);
            }
            if zeros == 32 {
                return None;
            }
            if self.byte_pos >= self.data.len() {
                return None;
            }
            let b = self.peek_bit();
            self.advance();
            if b == 1 {
                break;
            }
            proof {
                lemma_zero_run_step(bits, start + zeros);
            }
            zeros = zeros + 1;
        }
        let suffix = match self.read_bits(zeros) {
            Some(x) => x,
            None => return None,
        };
        proof {
            lemma_bits_value_bound(bits, start + zeros + 1, zeros as nat);
            lemma_pow2_strictly_increases(zeros as nat, 32);
            lemma2_to64();
            vstd::bits::lemma_u32_shl_is_mul(1, zeros as u32);
        }
        let base: u32 = 1u32 << (zeros as u32);
        Some(base - 1 + suffix)
    }

    /// Reads a signed Exp-Golomb code.
    pub fn read_se(&mut self) -> (r: Option<i32>)
        ensures
            final(self).bits() == old(self).bits(),
            0 <= final(self).pos() <= final(self).bits().len(),
            match read_se_spec(old(self).bits(), old(self).pos()) {
                Some((v, p)) => r matches Some(x) && x as int == v && final(self).pos() == p,
                None => r is None,
            },
    {
        let code = match self.read_ue() {
            Some(c) => c,
            None => return None,
        };
        let half = code / 2;
        if code % 2 == 0 {
            Some(-(half as i32))
        } else {
            Some((half + 1) as i32)
        }
    }
}

} // verus!
