//! A cursor over a byte buffer that hands out bit fields, least significant
//! bit of the first unread byte first.
use vstd::prelude::*;
use crate::error::DecodeError;

verus! {

/// Bit positions are kept as `u64`: a buffer holds fewer bytes than this.
pub const MAX_BUFFER_LEN: u64 = 0x1000_0000_0000_0000;

/// No bit position, and no aligned position, goes beyond this.
pub const MAX_BIT_POSITION: u64 = 0x8000_0000_0000_0000;

/// `2` to the power `n`.
pub open spec fn two_pow(n: nat) -> nat
    decreases n,
{
    if n == 0 {
        1
    } else {
        2 * two_pow((n - 1) as nat)
    }
}

/// Bit `p` of `s`, counting from the least significant bit of `s[0]`.
pub open spec fn bit_at(s: Seq<u8>, p: int) -> int {
    ((s[p / 8] >> ((p % 8) as u8)) & 1u8) as int
}

/// The unsigned value of the `w` bits of `s` from bit `pos` on, the first of
/// them the least significant.
pub open spec fn bits_le(s: Seq<u8>, pos: int, w: nat) -> int
    decreases w,
{
    if w == 0 {
        0
    } else {
        bits_le(s, pos, (w - 1) as nat) + bit_at(s, pos + w - 1) * two_pow((w - 1) as nat)
    }
}

/// The value of a `w`-bit two's-complement field whose unsigned reading is `v`.
pub open spec fn sign_extend(v: int, w: nat) -> int {
    if w > 0 && v >= two_pow((w - 1) as nat) {
        v - two_pow(w)
    } else {
        v
    }
}

/// The most significant of the `w` low bits of `v`.
pub open spec fn top_bit(v: int, w: nat) -> int {
    (v / two_pow((w - 1) as nat) as int) % 2
}

/// `x` rounded up to a multiple of `m`.
pub open spec fn align_up(x: int, m: int) -> int {
    if x % m == 0 {
        x
    } else {
        x + (m - x % m)
    }
}

pub proof fn lemma_two_pow_pos(n: nat)
    ensures
        two_pow(n) >= 1,
    decreases n,
{
    if n > 0 {
        lemma_two_pow_pos((n - 1) as nat);
    }
}

pub proof fn lemma_two_pow_monotonic(a: nat, b: nat)
    requires
        a <= b,
    ensures
        two_pow(a) <= two_pow(b),
    decreases b,
{
    if a < b {
        lemma_two_pow_monotonic(a, (b - 1) as nat);
        lemma_two_pow_pos((b - 1) as nat);
    }
}

pub proof fn lemma_two_pow_32()
    ensures
        two_pow(32) == 0x1_0000_0000,
{
    reveal_with_fuel(two_pow, 33);
}

pub proof fn lemma_bit_at_range(s: Seq<u8>, p: int)
    ensures
        0 <= bit_at(s, p) <= 1,
{
    let b = s[p / 8];
    let k = (p % 8) as u8;
    assert((b >> k) & 1u8 <= 1u8) by (bit_vector);
}

pub proof fn lemma_bits_le_range(s: Seq<u8>, pos: int, w: nat)
    ensures
        0 <= bits_le(s, pos, w) < two_pow(w),
    decreases w,
{
    if w > 0 {
        lemma_bits_le_range(s, pos, (w - 1) as nat);
        lemma_bit_at_range(s, pos + w - 1);
        let h = two_pow((w - 1) as nat) as int;
        let v = bits_le(s, pos, (w - 1) as nat);
        let b = bit_at(s, pos + w - 1);
        assert(0 <= v + b * h < 2 * h) by (nonlinear_arith)
            requires
                0 <= v < h,
                0 <= b <= 1,
        ;
    }
}

/// A sign-extended field of `w` bits, `w` at most 32, lies in
/// `[-2^(w-1), 2^(w-1))`, and so in `[-2^31, 2^31)`.
pub proof fn lemma_sign_extend_range(v: int, w: nat)
    requires
        1 <= w <= 32,
        0 <= v < two_pow(w),
    ensures
        -0x8000_0000 <= sign_extend(v, w) < 0x8000_0000,
{
    lemma_two_pow_monotonic((w - 1) as nat, 31);
    reveal_with_fuel(two_pow, 32);
}

/// A field of `w` bits whose top bit is set stands for `v - 2^w`; one whose
/// top bit is clear stands for `v` itself.
pub proof fn lemma_sign_extension(v: int, w: nat)
    requires
        w >= 1,
        0 <= v < two_pow(w),
    ensures
        top_bit(v, w) == 1 ==> sign_extend(v, w) == v - two_pow(w),
        top_bit(v, w) == 0 ==> sign_extend(v, w) == v,
{
    let h = two_pow((w - 1) as nat) as int;
    lemma_two_pow_pos((w - 1) as nat);
    assert(two_pow(w) == 2 * h);
    if v >= h {
        assert(v / h == 1) by (nonlinear_arith)
            requires
                h <= v < 2 * h,
        ;
    } else {
        assert(v / h == 0) by (nonlinear_arith)
            requires
                0 <= v < h,
        ;
    }
}

/// `2^w` for `w` at most 32.
fn two_pow_u64(w: u32) -> (r: u64)
    requires
        w <= 32,
    ensures
        r as int == two_pow(w as nat),
{
    let mut r: u64 = 1;
    let mut i: u32 = 0;
    while i < w
        invariant
            i <= w <= 32,
            r as int == two_pow(i as nat),
        decreases w - i,
    {
        proof {
            lemma_two_pow_monotonic((i + 1) as nat, 32);
            lemma_two_pow_32();
        }
        r = r * 2;
        i = i + 1;
    }
    r
}

/// The signed value of a `w`-bit two's-complement field whose bits, read as
/// unsigned, are `v`.
pub fn sign_extend_bits(v: u32, w: u32) -> (r: i64)
    requires
        w <= 32,
        (v as int) < two_pow(w as nat),
    ensures
        r as int == sign_extend(v as int, w as nat),
{
    if w == 0 {
        return v as i64;
    }
    let half = two_pow_u64(w - 1);
    let full = two_pow_u64(w);
    if v as u64 >= half {
        v as i64 - full as i64
    } else {
        v as i64
    }
}

/// A read cursor over a byte buffer, at a bit position counted from the
/// buffer's first bit.
pub struct BitReader {
    buf: Vec<u8>,
    bit_pos: u64,
}

impl BitReader {
    /// The bytes read.
    pub closed spec fn bytes(&self) -> Seq<u8> {
        self.buf@
    }

    /// The bit position of the next read.
    pub closed spec fn position(&self) -> int {
        self.bit_pos as int
    }

    pub open spec fn wf(&self) -> bool {
        self.bytes().len() < MAX_BUFFER_LEN && 0 <= self.position() <= MAX_BIT_POSITION
    }

    /// Whether `w` bits from the cursor on run past the end of the buffer.
    pub open spec fn exhausted_by(&self, w: nat) -> bool {
        w > 0 && self.position() + w > 8 * self.bytes().len()
    }

    /// A reader at the first bit of `buf`.
    pub fn new(buf: Vec<u8>) -> (r: BitReader)
        requires
            buf@.len() < MAX_BUFFER_LEN,
        ensures
            r.wf(),
            r.bytes() == buf@,
            r.position() == 0,
    {
        BitReader { buf, bit_pos: 0 }
    }

    /// The bit position of the next read.
    pub fn bit_position(&self) -> (r: u64)
        ensures
            r as int == self.position(),
    {
        self.bit_pos
    }

    /// Reads `w` bits as an unsigned value, the first bit the least
    /// significant, and moves past them. Fails, moving nothing, when they run
    /// past the end of the buffer.
    pub fn read_bits(&mut self, w: u32) -> (r: Result<u32, DecodeError>)
        requires
            old(self).wf(),
            w <= 32,
        ensures
            final(self).wf(),
            final(self).bytes() == old(self).bytes(),
            match r {
                Ok(v) => !old(self).exhausted_by(w as nat) && v as int == bits_le(
                    old(self).bytes(),
                    old(self).position(),
                    w as nat,
                ) && final(self).position() == old(self).position() + w,
                Err(e) => e == DecodeError::BufferExhausted && old(self).exhausted_by(w as nat)
                    && final(self).position() == old(self).position(),
            },
    {
        let blen: usize = self.buf.len();
        let len = blen as u64;
        if w == 0 {
            return Ok(0);
        }
        if self.bit_pos + w as u64 > 8 * len {
            return Err(DecodeError::BufferExhausted);
        }
        let start = self.bit_pos;
        let ghost s = self.buf@;
        let mut value: u64 = 0;
        let mut p: u64 = 1;
        let mut j: u32 = 0;
        while j < w
            invariant
                j <= w <= 32,
                self.buf@ == s,
                s.len() == len,
                s.len() == blen,
                len < MAX_BUFFER_LEN,
                self.bit_pos == start,
                start + w <= 8 * len,
                value as int == bits_le(s, start as int, j as nat),
                p as int == two_pow(j as nat),
                value < p,
            decreases w - j,
        {
            let pos = start + j as u64;
            assert(pos / 8 < blen);
            let idx = (pos / 8) as usize;
            let byte = self.buf[idx];
            let off = (pos % 8) as u8;
            let bit = (byte >> off) & 1u8;
            proof {
                lemma_bit_at_range(s, pos as int);
                assert(byte == s[(pos as int) / 8]);
                assert(off == ((pos as int) % 8) as u8);
                assert(bit as int == bit_at(s, pos as int));
                lemma_two_pow_monotonic((j + 1) as nat, 32);
                lemma_two_pow_32();
            }
            assert(bit as u64 * p <= p) by (nonlinear_arith)
                requires
                    bit <= 1,
            ;
            assert(value + bit as u64 * p < 2 * p) by (nonlinear_arith)
                requires
                    bit <= 1,
                    value < p,
            ;
            value = value + bit as u64 * p;
            p = p * 2;
            j = j + 1;
        }
        proof {
            lemma_two_pow_monotonic(w as nat, 32);
            lemma_two_pow_32();
        }
        self.bit_pos = start + w as u64;
        Ok(value as u32)
    }

    /// Moves the cursor up to the next multiple of `n` bytes from the start of
    /// the buffer; it stays where it is when already there.
    pub fn align_to_bytes(&mut self, n: u64)
        requires
            old(self).wf(),
            n > 0,
            old(self).position() + 8 * n <= MAX_BIT_POSITION,
        ensures
            final(self).wf(),
            final(self).bytes() == old(self).bytes(),
            final(self).position() == align_up(old(self).position(), 8 * n),
    {
        let m = 8 * n;
        let rem = self.bit_pos % m;
        if rem != 0 {
            self.bit_pos = self.bit_pos + (m - rem);
        }
    }
}

} // verus!
