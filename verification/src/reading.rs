//! Frame assembly and validation: packing 40 classified bits into the
//! five fields of a sensor reading, and the checksum rule that decides
//! whether a decoded reading can be trusted.

use vstd::prelude::*;
use vstd::arithmetic::power2::pow2;

verus! {

/// True when every entry of `s` in `[start, end)` is a classified bit,
/// that is, `0` or `1`.
pub open spec fn all_bits_binary(s: Seq<i32>, start: int, end: int) -> bool {
    forall|i: int| start <= i < end ==> s[i] == 0 || s[i] == 1
}

/// The big-endian, most-significant-bit-first value of the bit span
/// `[start, end)` of `s`: bit `i` carries the weight `2^(end - i - 1)`,
/// so the first bit of the span is its most significant one.
pub open spec fn bits_value(s: Seq<i32>, start: int, end: int) -> int
    decreases end - start,
{
    if start >= end {
        0
    } else {
        s[start] * pow2((end - start - 1) as nat) + bits_value(s, start + 1, end)
    }
}

/// Extending a span by one bit on the right doubles the value of the
/// span and adds the new bit: the later a bit arrives, the lower its
/// weight.
pub proof fn lemma_bits_value_snoc(s: Seq<i32>, start: int, end: int)
    requires
        start <= end,
    ensures
        bits_value(s, start, end + 1) == 2 * bits_value(s, start, end) + s[end],
    decreases end - start,
{
    vstd::arithmetic::power2::lemma2_to64();
    if start < end {
        lemma_bits_value_snoc(s, start + 1, end);
        vstd::arithmetic::power2::lemma_pow2_unfold((end + 1 - start - 1) as nat);
        assert(s[start] * pow2((end + 1 - start - 1) as nat) == 2 * (s[start] * pow2(
            (end - start - 1) as nat,
        ))) by (nonlinear_arith)
            requires
                pow2((end + 1 - start - 1) as nat) == 2 * pow2((end - start - 1) as nat),
        ;
    } else {
        assert(bits_value(s, start + 1, end + 1) == 0);
        assert(bits_value(s, start, end + 1) == s[start] * pow2(0) + 0);
    }
}

/// A span of `n` binary bits packs to a value in `[0, 2^n)`.
pub proof fn lemma_bits_value_bound(s: Seq<i32>, start: int, end: int)
    requires
        start <= end,
        all_bits_binary(s, start, end),
    ensures
        0 <= bits_value(s, start, end) < pow2((end - start) as nat),
    decreases end - start,
{
    vstd::arithmetic::power2::lemma2_to64();
    if start < end {
        lemma_bits_value_bound(s, start + 1, end);
        vstd::arithmetic::power2::lemma_pow2_unfold((end - start) as nat);
        assert(s[start] == 0 || s[start] == 1);
        if s[start] == 0 {
            assert(s[start] * pow2((end - start - 1) as nat) == 0);
        } else {
            assert(s[start] * pow2((end - start - 1) as nat) == pow2((end - start - 1) as nat));
        }
    }
}

/// A span of zero bits packs to zero.
pub proof fn lemma_bits_value_zero(s: Seq<i32>, start: int, end: int)
    requires
        start <= end,
        forall|i: int| start <= i < end ==> s[i] == 0,
    ensures
        bits_value(s, start, end) == 0,
    decreases end - start,
{
    if start < end {
        lemma_bits_value_zero(s, start + 1, end);
    }
}

/// Packing is most-significant-bit-first: if bit `k` is the only set
/// bit of the span, the span's value is `2^(end - k - 1)` — the
/// earlier the bit, the higher its weight.
pub proof fn lemma_single_bit_weight(s: Seq<i32>, start: int, end: int, k: int)
    requires
        start <= k < end,
        s[k] == 1,
        forall|i: int| start <= i < end && i != k ==> s[i] == 0,
    ensures
        bits_value(s, start, end) == pow2((end - k - 1) as nat),
    decreases end - start,
{
    if start == k {
        lemma_bits_value_zero(s, start + 1, end);
    } else {
        lemma_single_bit_weight(s, start + 1, end, k);
    }
}

/// One decoded sensor sample. Each field is the value of one 8-bit span
/// of the 40-bit raw frame, in the order the sensor sends them. A
/// reading may be constructed even when the checksum does not match;
/// validity is a derived property that callers must query through
/// [`Dht11Reading::is_valid`] before trusting the sample.
#[derive(Clone, Copy, Debug, PartialEq, Eq, Structural)]
pub struct Dht11Reading {
    pub humidity_integer: i32,
    pub humidity_decimal: i32,
    pub temperature_integer: i32,
    pub temperature_decimal: i32,
    pub checksum: i32,
}

/// The reading decoded from the bit sequence `s`: five consecutive
/// 8-bit big-endian spans, starting at bit 0.
pub open spec fn reading_of_bits(s: Seq<i32>) -> Dht11Reading {
    Dht11Reading {
        humidity_integer: bits_value(s, 0, 8) as i32,
        humidity_decimal: bits_value(s, 8, 16) as i32,
        temperature_integer: bits_value(s, 16, 24) as i32,
        temperature_decimal: bits_value(s, 24, 32) as i32,
        checksum: bits_value(s, 32, 40) as i32,
    }
}

/// The sensor's integrity rule: the checksum byte must equal the sum of
/// the four data bytes, reduced modulo 256.
pub open spec fn spec_valid(r: Dht11Reading) -> bool {
    (r.humidity_integer + r.humidity_decimal + r.temperature_integer + r.temperature_decimal)
        % 256 == r.checksum
}

impl Dht11Reading {
    /// Every field is a byte value, as decoding from a binary frame
    /// guarantees.
    pub open spec fn wf(self) -> bool {
        &&& 0 <= self.humidity_integer <= 255
        &&& 0 <= self.humidity_decimal <= 255
        &&& 0 <= self.temperature_integer <= 255
        &&& 0 <= self.temperature_decimal <= 255
        &&& 0 <= self.checksum <= 255
    }

    /// Pack the bit span `[start, end)` of `buffer` into an integer,
    /// most significant bit first.
    pub fn bits_to_int(buffer: &[i32], start: usize, end: usize) -> (num: i32)
        requires
            start <= end <= buffer@.len(),
            end - start <= 30,
            all_bits_binary(buffer@, start as int, end as int),
        ensures
            num == bits_value(buffer@, start as int, end as int),
    {
        proof {
            vstd::arithmetic::power2::lemma2_to64();
        }
        let mut num: i32 = 0;
        let mut i: usize = start;
        while i < end
            invariant
                start <= i <= end <= buffer@.len(),
                end - start <= 30,
                all_bits_binary(buffer@, start as int, end as int),
                num == bits_value(buffer@, start as int, i as int),
                pow2(30) == 0x40000000,
            decreases end - i,
        {
            proof {
                lemma_bits_value_bound(buffer@, start as int, i as int);
                lemma_bits_value_snoc(buffer@, start as int, i as int);
                if (i - start) < 30 {
                    vstd::arithmetic::power2::lemma_pow2_strictly_increases(
                        (i - start) as nat,
                        30,
                    );
                }
            }
            num = 2 * num + buffer[i];
            i += 1;
        }
        num
    }

    /// Decode a 40-bit frame into the five fields, in the order the
    /// sensor sends them: humidity (integer, then decimal part),
    /// temperature (integer, then decimal part), checksum.
    pub fn from_buffer(buffer: &[i32]) -> (r: Dht11Reading)
        requires
            buffer@.len() >= 40,
            all_bits_binary(buffer@, 0, 40),
        ensures
            r == reading_of_bits(buffer@),
            r.wf(),
    {
        proof {
            vstd::arithmetic::power2::lemma2_to64();
            lemma_bits_value_bound(buffer@, 0, 8);
            lemma_bits_value_bound(buffer@, 8, 16);
            lemma_bits_value_bound(buffer@, 16, 24);
            lemma_bits_value_bound(buffer@, 24, 32);
            lemma_bits_value_bound(buffer@, 32, 40);
        }
        Dht11Reading {
            humidity_integer: Self::bits_to_int(buffer, 0, 8),
            humidity_decimal: Self::bits_to_int(buffer, 8, 16),
            temperature_integer: Self::bits_to_int(buffer, 16, 24),
            temperature_decimal: Self::bits_to_int(buffer, 24, 32),
            checksum: Self::bits_to_int(buffer, 32, 40),
        }
    }

    /// Whether the checksum byte matches the sum of the four data
    /// bytes modulo 256. Computed on demand from the fields alone.
    pub fn is_valid(&self) -> (valid: bool)
        requires
            self.wf(),
        ensures
            valid == spec_valid(*self),
    {
        let sum: i32 = self.humidity_decimal + self.humidity_integer + self.temperature_decimal
            + self.temperature_integer;
        proof {
            assert((sum & 0xFF) == sum % 256) by (bit_vector)
                requires
                    0 <= sum <= 1020,
            ;
        }
        sum & 0xFF == self.checksum
    }
}

} // verus!
