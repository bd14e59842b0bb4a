use crate::error::OmniError;
use vstd::prelude::*;
use vstd::std_specs::cmp::PartialEqSpecImpl;
use vstd::std_specs::convert::FromSpecImpl;
use vstd::std_specs::convert::TryFromSpecImpl;

verus! {

// ============================================================================
// Constants
// ============================================================================

const CONTINUATION_BIT: u8 = 0x80;

const DATA_BITS_MASK: u8 = 0x7F;

const BITS_PER_VARINT_BYTE: usize = 7;

/// The largest number of bytes a varint of a `type_bits`-bit integer can take.
pub fn varint_max_bytes(type_bits: usize) -> (r: usize)
    requires
        type_bits + 7 <= usize::MAX,
    ensures
        r == (type_bits + 6) / 7,
{
    assert(BITS_PER_VARINT_BYTE == 7);
    (type_bits + BITS_PER_VARINT_BYTE - 1) / BITS_PER_VARINT_BYTE
}

// ============================================================================
// Mathematical model of LEB128
// ============================================================================

/// `128^i`: the weight of the `i`-th byte of a varint.
pub open spec fn place(i: nat) -> nat
    decreases i,
{
    if i == 0 {
        1
    } else {
        128 * place((i - 1) as nat)
    }
}

/// The number that the data bits of `bytes` stand for, little-endian in 7-bit groups.
pub open spec fn leb_value(bytes: Seq<u8>) -> nat
    decreases bytes.len(),
{
    if bytes.len() == 0 {
        0
    } else {
        (bytes[0] % 128) as nat + 128 * leb_value(bytes.drop_first())
    }
}

/// The number of bytes up to and including the first byte without the
/// continuation bit, if there is one.
pub open spec fn leb_len(bytes: Seq<u8>) -> Option<nat>
    decreases bytes.len(),
{
    if bytes.len() == 0 {
        None
    } else if bytes[0] < 128 {
        Some(1)
    } else {
        match leb_len(bytes.drop_first()) {
            Some(n) => Some(n + 1),
            None => None,
        }
    }
}

/// The minimal LEB128 encoding of `v`.
pub open spec fn leb_encode(v: nat) -> Seq<u8>
    decreases v,
{
    if v < 128 {
        seq![v as u8]
    } else {
        seq![(v % 128 + 128) as u8] + leb_encode(v / 128)
    }
}

/// Decoding a varint into a type whose largest value is `max`: the value and the
/// number of bytes read, or `None` when the varint does not end inside `bytes`
/// or its value exceeds `max`. Bytes after the varint are never looked at.
pub open spec fn leb_decode(bytes: Seq<u8>, max: nat) -> Option<(nat, nat)> {
    match leb_len(bytes) {
        Some(n) => if leb_value(bytes.take(n as int)) <= max {
            Some((leb_value(bytes.take(n as int)), n))
        } else {
            None
        },
        None => None,
    }
}

// ============================================================================
// Lemmas
// ============================================================================

pub proof fn lemma_place_pos(i: nat)
    ensures
        place(i) >= 1,
    decreases i,
{
    if i > 0 {
        lemma_place_pos((i - 1) as nat);
    }
}

/// Appending a byte adds its data bits at the next place.
pub proof fn lemma_value_push(s: Seq<u8>, b: u8)
    ensures
        leb_value(s.push(b)) == leb_value(s) + (b % 128) as nat * place(s.len()),
    decreases s.len(),
{
    let x = (b % 128) as nat;
    if s.len() == 0 {
        assert(s.push(b).drop_first() =~= Seq::<u8>::empty());
        assert(leb_value(Seq::<u8>::empty()) == 0);
        assert(s.push(b)[0] == b);
        assert(leb_value(s.push(b)) == x);
        assert(place(0) == 1);
    } else {
        assert(s.push(b).drop_first() =~= s.drop_first().push(b));
        assert(s.push(b)[0] == s[0]);
        lemma_value_push(s.drop_first(), b);
        let p = place((s.len() - 1) as nat);
        assert(place(s.len()) == 128 * p);
        assert(128 * (x * p) == x * (128 * p)) by (nonlinear_arith);
        assert(leb_value(s.push(b)) == (s[0] % 128) as nat + 128 * leb_value(s.drop_first().push(b)));
        assert(leb_value(s) == (s[0] % 128) as nat + 128 * leb_value(s.drop_first()));
    }
}

/// The value of a byte string is below the place of its length.
pub proof fn lemma_value_bound(s: Seq<u8>)
    ensures
        leb_value(s) < place(s.len()),
    decreases s.len(),
{
    if s.len() > 0 {
        lemma_value_bound(s.drop_first());
        let a = (s[0] % 128) as nat;
        let v = leb_value(s.drop_first());
        let p = place((s.len() - 1) as nat);
        assert(a + 128 * v < 128 * p) by (nonlinear_arith)
            requires
                a < 128,
                v < p,
        ;
    }
}

/// The value only grows as bytes are appended.
pub proof fn lemma_value_take_mono(s: Seq<u8>, i: int, j: int)
    requires
        0 <= i <= j <= s.len(),
    ensures
        leb_value(s.take(i)) <= leb_value(s.take(j)),
    decreases j - i,
{
    if i < j {
        lemma_value_take_mono(s, i, j - 1);
        assert(s.take(j) =~= s.take(j - 1).push(s[j - 1]));
        lemma_value_push(s.take(j - 1), s[j - 1]);
    }
}

/// The encoding of `v` decodes, as a sequence of data bits, to `v`.
pub proof fn lemma_encode_value(v: nat)
    ensures
        leb_value(leb_encode(v)) == v,
    decreases v,
{
    let e = leb_encode(v);
    if v < 128 {
        assert(e.drop_first() =~= Seq::<u8>::empty());
        assert(e[0] == v as u8);
        assert(leb_value(e) == (e[0] % 128) as nat + 128 * leb_value(e.drop_first()));
    } else {
        lemma_encode_value(v / 128);
        assert(e.drop_first() =~= leb_encode(v / 128));
        let b = (v % 128 + 128) as u8;
        assert(e[0] == b);
        assert(b % 128 == v % 128);
        assert(leb_value(e) == (e[0] % 128) as nat + 128 * leb_value(e.drop_first()));
        assert(v == v % 128 + 128 * (v / 128));
    }
}

/// Only the last byte of an encoding lacks the continuation bit, whatever follows it.
pub proof fn lemma_encode_len(v: nat, rest: Seq<u8>)
    ensures
        leb_len(leb_encode(v) + rest) == Some(leb_encode(v).len()),
        leb_encode(v).len() >= 1,
    decreases v,
{
    if v < 128 {
    } else {
        lemma_encode_len(v / 128, rest);
        assert((leb_encode(v) + rest).drop_first() =~= leb_encode(v / 128) + rest);
    }
}

/// `leb_len` only depends on the bytes up to the end of the varint.
pub proof fn lemma_len_prefix(s1: Seq<u8>, s2: Seq<u8>)
    requires
        leb_len(s1) is Some,
    ensures
        leb_len(s1 + s2) == leb_len(s1),
        leb_len(s1)->0 <= s1.len(),
        leb_len(s1)->0 >= 1,
    decreases s1.len(),
{
    if s1[0] < 128 {
        assert((s1 + s2)[0] == s1[0]);
    } else {
        assert((s1 + s2)[0] == s1[0]);
        assert((s1 + s2).drop_first() =~= s1.drop_first() + s2);
        lemma_len_prefix(s1.drop_first(), s2);
    }
}

/// The last byte counted by `leb_len` is the terminator, all before it continue.
pub proof fn lemma_len_shape(s: Seq<u8>, i: int)
    requires
        0 <= i < s.len(),
        forall|k: int| 0 <= k < i ==> s[k] >= 128,
    ensures
        s[i] < 128 ==> leb_len(s) == Some((i + 1) as nat),
        s[i] >= 128 ==> leb_len(s) == (match leb_len(s.skip(i + 1)) {
            Some(n) => Some((n + i + 1) as nat),
            None => None,
        }),
    decreases i,
{
    if i > 0 {
        let t = s.drop_first();
        assert forall|k: int| 0 <= k < i - 1 implies t[k] >= 128 by {
            assert(t[k] == s[k + 1]);
        }
        lemma_len_shape(t, i - 1);
        assert(t.skip(i) =~= s.skip(i + 1));
        assert(s[0] >= 128);
    }
}

/// No terminator among the first `i` bytes and none in the rest: none at all.
pub proof fn lemma_len_none(s: Seq<u8>)
    requires
        forall|k: int| 0 <= k < s.len() ==> s[k] >= 128,
    ensures
        leb_len(s) is None,
    decreases s.len(),
{
    if s.len() > 0 {
        let t = s.drop_first();
        assert forall|k: int| 0 <= k < t.len() implies t[k] >= 128 by {
            assert(t[k] == s[k + 1]);
        }
        lemma_len_none(t);
    }
}

// ============================================================================
// Laws
// ============================================================================

/// Round trip: decoding the encoding of any value that fits the target type gives
/// back the value and the length of the encoding, whatever bytes follow it.
pub proof fn law_decode_encode(v: nat, max: nat, rest: Seq<u8>)
    requires
        v <= max,
    ensures
        leb_decode(leb_encode(v) + rest, max) == Some((v, leb_encode(v).len())),
{
    lemma_encode_len(v, rest);
    lemma_encode_value(v);
    let e = leb_encode(v);
    assert((e + rest).take(e.len() as int) =~= e);
}

/// A value that does not fit the target type is refused.
pub proof fn law_decode_encode_too_large(v: nat, max: nat, rest: Seq<u8>)
    requires
        v > max,
    ensures
        leb_decode(leb_encode(v) + rest, max) is None,
{
    lemma_encode_len(v, rest);
    lemma_encode_value(v);
    let e = leb_encode(v);
    assert((e + rest).take(e.len() as int) =~= e);
}

/// Decoding reads nothing after the end of the varint: appending bytes never
/// changes a successful result.
pub proof fn law_decode_prefix(s1: Seq<u8>, s2: Seq<u8>, max: nat)
    requires
        leb_decode(s1, max) is Some,
    ensures
        leb_decode(s1 + s2, max) == leb_decode(s1, max),
{
    lemma_len_prefix(s1, s2);
    let n = leb_len(s1)->0;
    assert((s1 + s2).take(n as int) =~= s1.take(n as int));
}

/// The encoding is as short as the value allows: `v` takes `k` bytes only if it
/// does not fit in `k - 1`.
pub proof fn law_encode_minimal(v: nat)
    ensures
        leb_encode(v).len() == 1 || v >= place((leb_encode(v).len() - 1) as nat),
        v < place(leb_encode(v).len()),
{
    lemma_encode_value(v);
    lemma_value_bound(leb_encode(v));
    lemma_encode_minimal_aux(v);
}

proof fn lemma_encode_minimal_aux(v: nat)
    ensures
        leb_encode(v).len() == 1 || v >= place((leb_encode(v).len() - 1) as nat),
    decreases v,
{
    if v >= 128 {
        lemma_encode_minimal_aux(v / 128);
        let k = leb_encode(v / 128).len();
        lemma_encode_len(v / 128, Seq::empty());
        assert(leb_encode(v).len() == k + 1);
        if k == 1 {
            assert(place(1) == 128 * place(0));
        } else {
            let p = place((k - 1) as nat);
            assert(place(k) == 128 * p);
            assert(v >= 128 * p) by (nonlinear_arith)
                requires
                    v / 128 >= p,
            ;
        }
    }
}

// ============================================================================
// Encoding and decoding
// ============================================================================

/// What a scan of `bytes` for a varint bounded by `max` finds: the value has
/// grown beyond `max` by the end of the varint (or of the input, if the varint
/// does not end).
pub open spec fn leb_scan_overflows(bytes: Seq<u8>, max: nat) -> bool {
    let end = match leb_len(bytes) {
        Some(n) => n,
        None => bytes.len(),
    };
    leb_value(bytes.take(end as int)) > max
}

/// The outcome of scanning bytes for one bounded varint.
pub enum VarintScan {
    /// The varint ended: its value and the number of bytes it took.
    Complete(u128, usize),
    /// Its value exceeds the bound.
    Overflow,
    /// The input ended before the varint did.
    Incomplete,
}

/// The minimal LEB128 encoding of `value`: seven data bits per byte, least
/// significant group first, the continuation bit set on every byte but the last.
pub fn encode_u128(value: u128) -> (r: Vec<u8>)
    ensures
        r@ == leb_encode(value as nat),
{
    let mut buf: Vec<u8> = Vec::new();
    let mut val: u128 = value;
    loop
        invariant_except_break
            buf@ + leb_encode(val as nat) == leb_encode(value as nat),
        ensures
            buf@ == leb_encode(value as nat),
        decreases val,
    {
        let byte: u8 = (val % 128) as u8;
        let ghost old_val = val;
        let ghost old_buf = buf@;
        val = val / 128;
        if val != 0 {
            let b: u8 = byte | CONTINUATION_BIT;
            assert(byte < 128 ==> byte | 0x80u8 == byte + 128) by (bit_vector);
            buf.push(b);
            assert(leb_encode(old_val as nat) == seq![b] + leb_encode(val as nat));
            assert(buf@ + leb_encode(val as nat) =~= old_buf + leb_encode(old_val as nat));
        } else {
            buf.push(byte);
            assert(buf@ =~= old_buf + leb_encode(old_val as nat));
            break;
        }
    }
    buf
}

/// Scans `bytes` for one varint whose value may not exceed `max`.
pub fn scan_varint(bytes: &[u8], max: u128) -> (r: VarintScan)
    ensures
        leb_scan_overflows(bytes@, max as nat) <==> r is Overflow,
        !leb_scan_overflows(bytes@, max as nat) ==> match leb_len(bytes@) {
            Some(n) => r == VarintScan::Complete(
                leb_value(bytes@.take(n as int)) as u128,
                n as usize,
            ),
            None => r is Incomplete,
        },
{
    let mut result: u128 = 0;
    let mut weight: u128 = 1;
    let mut big: bool = false;
    let mut i: usize = 0;
    proof {
        assert(bytes@.take(0) =~= Seq::<u8>::empty());
    }
    while i < bytes.len()
        invariant
            i <= bytes.len(),
            result as nat == leb_value(bytes@.take(i as int)),
            result <= max,
            !big ==> weight as nat == place(i as nat),
            big ==> place(i as nat) > max,
            forall|k: int| 0 <= k < i ==> bytes@[k] >= 128,
        decreases bytes.len() - i,
    {
        let byte: u8 = bytes[i];
        let data: u8 = byte & DATA_BITS_MASK;
        assert(byte & 0x7fu8 == byte % 128) by (bit_vector);
        assert(data == byte % 128);
        let ghost s = bytes@;
        proof {
            assert(s.take(i + 1) =~= s.take(i as int).push(byte));
            lemma_value_push(s.take(i as int), byte);
            lemma_place_pos(i as nat);
        }
        let ghost next: nat = leb_value(s.take(i + 1));
        if big {
            if data != 0 {
                proof {
                    assert((data as nat) * place(i as nat) >= place(i as nat)) by (nonlinear_arith)
                        requires
                            data >= 1,
                    ;
                    lemma_scan_overflow(s, i as int, max as nat);
                }
                return VarintScan::Overflow;
            }
            assert(byte % 128 == 0);
            assert(next == result + 0 * place(i as nat));
        } else {
            let room: u128 = (max - result) / weight;
            if (data as u128) > room {
                proof {
                    let d = data as nat;
                    let w = weight as nat;
                    let m = (max - result) as nat;
                    assert(d * w > m) by (nonlinear_arith)
                        requires
                            w >= 1,
                            d > m / w,
                    ;
                    lemma_scan_overflow(s, i as int, max as nat);
                }
                return VarintScan::Overflow;
            }
            proof {
                let d = data as nat;
                let w = weight as nat;
                let m = (max - result) as nat;
                assert(d * w <= m) by (nonlinear_arith)
                    requires
                        w >= 1,
                        d <= m / w,
                ;
            }
            result = result + (data as u128) * weight;
            if weight > max / 128 {
                proof {
                    let w = weight as nat;
                    assert(128 * w > max) by (nonlinear_arith)
                        requires
                            w > max / 128,
                    ;
                }
                big = true;
            } else {
                weight = weight * 128;
            }
        }
        assert(byte & 0x80u8 == 0 <==> byte < 128) by (bit_vector);
        if byte & CONTINUATION_BIT == 0 {
            proof {
                lemma_len_shape(s, i as int);
            }
            return VarintScan::Complete(result, i + 1);
        }
        i = i + 1;
    }
    proof {
        lemma_len_none(bytes@);
        assert(bytes@.take(bytes@.len() as int) =~= bytes@);
    }
    VarintScan::Incomplete
}

/// Once the value of the first `i + 1` bytes exceeds `max`, so does the value of
/// the whole scan.
proof fn lemma_scan_overflow(s: Seq<u8>, i: int, max: nat)
    requires
        0 <= i < s.len(),
        forall|k: int| 0 <= k < i ==> s[k] >= 128,
        leb_value(s.take(i + 1)) > max,
    ensures
        leb_scan_overflows(s, max),
{
    lemma_len_shape(s, i);
    let end = match leb_len(s) {
        Some(n) => n,
        None => s.len(),
    };
    if s[i] >= 128 {
        match leb_len(s.skip(i + 1)) {
            Some(n) => {
                lemma_len_prefix(s.skip(i + 1), Seq::empty());
                assert(s.skip(i + 1) + Seq::<u8>::empty() =~= s.skip(i + 1));
            },
            None => {},
        }
    }
    assert(i + 1 <= end <= s.len());
    lemma_value_take_mono(s, i + 1, end as int);
}

/// The bounded decoder every integer type shares.
pub fn decode_bounded(bytes: &[u8], max: u128) -> (r: Option<(u128, usize)>)
    ensures
        match leb_decode(bytes@, max as nat) {
            Some((v, n)) => r == Some((v as u128, n as usize)),
            None => r is None,
        },
{
    match scan_varint(bytes, max) {
        VarintScan::Complete(v, n) => Some((v, n)),
        _ => None,
    }
}

/// Encodes a `u64` as a varint.
pub fn encode_varint(value: u64) -> (r: Vec<u8>)
    ensures
        r@ == leb_encode(value as nat),
{
    encode_u128(value as u128)
}

/// The result of reading one `u64` varint from the front of `bytes`.
pub open spec fn varint_result(bytes: Seq<u8>) -> Result<(u64, usize), OmniError> {
    if leb_scan_overflows(bytes, u64::MAX as nat) {
        Err(OmniError::VarintOverflow)
    } else {
        match leb_len(bytes) {
            Some(n) => Ok((leb_value(bytes.take(n as int)) as u64, n as usize)),
            None => Err(OmniError::UnexpectedEof),
        }
    }
}

/// Decodes one `u64` varint from the front of `bytes`: its value and the number
/// of bytes it took.
pub fn decode_varint(bytes: &[u8]) -> (r: Result<(u64, usize), OmniError>)
    ensures
        r == varint_result(bytes@),
        r matches Ok((v, n)) ==> 1 <= n <= bytes@.len() && v == leb_value(bytes@.take(n as int)),
{
    match scan_varint(bytes, u64::MAX as u128) {
        VarintScan::Complete(v, n) => {
            proof {
                lemma_len_prefix(bytes@, Seq::empty());
                assert(bytes@ + Seq::<u8>::empty() =~= bytes@);
            }
            assert(bytes@.len() == bytes.len());
            assert(v <= u64::MAX);
            Ok((v as u64, n))
        },
        VarintScan::Overflow => Err(OmniError::VarintOverflow),
        VarintScan::Incomplete => Err(OmniError::UnexpectedEof),
    }
}

/// Reading the encoding of a `u64` gives the value back and consumes exactly
/// the encoding, whatever follows.
pub proof fn law_varint_roundtrip(v: u64, rest: Seq<u8>)
    ensures
        varint_result(leb_encode(v as nat) + rest) == Ok::<(u64, usize), OmniError>(
            (v, leb_encode(v as nat).len() as usize),
        ),
        leb_encode(v as nat).len() <= 10,
{
    let e = leb_encode(v as nat);
    lemma_encode_len(v as nat, rest);
    lemma_encode_value(v as nat);
    assert((e + rest).take(e.len() as int) =~= e);
    law_encode_minimal(v as nat);
    if e.len() > 10 {
        lemma_place_monotone(10, (e.len() - 1) as nat);
        lemma_place_10();
    }
}

/// A value below `128^k` takes at most `k` bytes.
pub proof fn law_encode_len_bound(v: nat, k: nat)
    requires
        k >= 1,
        v < place(k),
    ensures
        leb_encode(v).len() <= k,
{
    law_encode_minimal(v);
    let e = leb_encode(v);
    if e.len() > k {
        lemma_place_monotone(k, (e.len() - 1) as nat);
    }
}

proof fn lemma_place_10()
    ensures
        place(10) == 1180591620717411303424nat,
{
    reveal_with_fuel(place, 11);
}

/// `place` grows with its argument.
pub proof fn lemma_place_monotone(i: nat, j: nat)
    requires
        i <= j,
    ensures
        place(i) <= place(j),
    decreases j,
{
    if i < j {
        lemma_place_monotone(i, (j - 1) as nat);
    }
}

// ============================================================================
// Traits
// ============================================================================

/// Integers that can be written as a varint.
pub trait IntoVarint: Sized {
    /// The number this value stands for.
    spec fn varint_value(self) -> nat;

    /// The minimal LEB128 encoding of the value.
    fn to_varint(self) -> (r: Vec<u8>)
        ensures
            r@ == leb_encode(self.varint_value()),
    ;
}

/// Integers that can be read back from a varint.
pub trait FromVarint: IntoVarint {
    /// The largest value of the type.
    spec fn varint_max() -> nat;

    /// The value of the type that stands for `v` (for `v <= varint_max()`).
    spec fn from_varint_value(v: nat) -> Self;

    /// Every value of the type is in its range and stands for itself.
    proof fn lemma_value_in_range(self)
        ensures
            self.varint_value() <= Self::varint_max(),
            Self::from_varint_value(self.varint_value()) == self,
    ;

    /// The value that stands for `v` has the number `v`, for every `v` in range.
    proof fn lemma_from_value(v: nat)
        requires
            v <= Self::varint_max(),
        ensures
            Self::from_varint_value(v).varint_value() == v,
    ;

    /// Decodes the varint at the front of `bytes`: the value and the number of
    /// bytes read, or `None` when the varint does not end or overflows the type.
    fn from_varint(bytes: &[u8]) -> (r: Option<(Self, usize)>)
        ensures
            match leb_decode(bytes@, Self::varint_max()) {
                Some((v, n)) => r == Some((Self::from_varint_value(v), n as usize)),
                None => r is None,
            },
    ;
}

impl IntoVarint for u8 {
    open spec fn varint_value(self) -> nat {
        self as nat
    }

    fn to_varint(self) -> (r: Vec<u8>) {
        encode_u128(self as u128)
    }
}

impl FromVarint for u8 {
    open spec fn varint_max() -> nat {
        u8::MAX as nat
    }

    open spec fn from_varint_value(v: nat) -> u8 {
        v as u8
    }

    proof fn lemma_value_in_range(self) {
    }

    proof fn lemma_from_value(v: nat) {
    }

    fn from_varint(bytes: &[u8]) -> (r: Option<(u8, usize)>) {
        match decode_bounded(bytes, u8::MAX as u128) {
            Some((v, n)) => Some((v as u8, n)),
            None => None,
        }
    }
}

impl IntoVarint for u16 {
    open spec fn varint_value(self) -> nat {
        self as nat
    }

    fn to_varint(self) -> (r: Vec<u8>) {
        encode_u128(self as u128)
    }
}

impl FromVarint for u16 {
    open spec fn varint_max() -> nat {
        u16::MAX as nat
    }

    open spec fn from_varint_value(v: nat) -> u16 {
        v as u16
    }

    proof fn lemma_value_in_range(self) {
    }

    proof fn lemma_from_value(v: nat) {
    }

    fn from_varint(bytes: &[u8]) -> (r: Option<(u16, usize)>) {
        match decode_bounded(bytes, u16::MAX as u128) {
            Some((v, n)) => Some((v as u16, n)),
            None => None,
        }
    }
}

impl IntoVarint for u32 {
    open spec fn varint_value(self) -> nat {
        self as nat
    }

    fn to_varint(self) -> (r: Vec<u8>) {
        encode_u128(self as u128)
    }
}

impl FromVarint for u32 {
    open spec fn varint_max() -> nat {
        u32::MAX as nat
    }

    open spec fn from_varint_value(v: nat) -> u32 {
        v as u32
    }

    proof fn lemma_value_in_range(self) {
    }

    proof fn lemma_from_value(v: nat) {
    }

    fn from_varint(bytes: &[u8]) -> (r: Option<(u32, usize)>) {
        match decode_bounded(bytes, u32::MAX as u128) {
            Some((v, n)) => Some((v as u32, n)),
            None => None,
        }
    }
}

impl IntoVarint for u64 {
    open spec fn varint_value(self) -> nat {
        self as nat
    }

    fn to_varint(self) -> (r: Vec<u8>) {
        encode_u128(self as u128)
    }
}

impl FromVarint for u64 {
    open spec fn varint_max() -> nat {
        u64::MAX as nat
    }

    open spec fn from_varint_value(v: nat) -> u64 {
        v as u64
    }

    proof fn lemma_value_in_range(self) {
    }

    proof fn lemma_from_value(v: nat) {
    }

    fn from_varint(bytes: &[u8]) -> (r: Option<(u64, usize)>) {
        match decode_bounded(bytes, u64::MAX as u128) {
            Some((v, n)) => Some((v as u64, n)),
            None => None,
        }
    }
}

impl IntoVarint for u128 {
    open spec fn varint_value(self) -> nat {
        self as nat
    }

    fn to_varint(self) -> (r: Vec<u8>) {
        encode_u128(self as u128)
    }
}

impl FromVarint for u128 {
    open spec fn varint_max() -> nat {
        u128::MAX as nat
    }

    open spec fn from_varint_value(v: nat) -> u128 {
        v as u128
    }

    proof fn lemma_value_in_range(self) {
    }

    proof fn lemma_from_value(v: nat) {
    }

    fn from_varint(bytes: &[u8]) -> (r: Option<(u128, usize)>) {
        match decode_bounded(bytes, u128::MAX as u128) {
            Some((v, n)) => Some((v as u128, n)),
            None => None,
        }
    }
}

impl IntoVarint for usize {
    open spec fn varint_value(self) -> nat {
        self as nat
    }

    fn to_varint(self) -> (r: Vec<u8>) {
        encode_u128(self as u128)
    }
}

impl FromVarint for usize {
    open spec fn varint_max() -> nat {
        usize::MAX as nat
    }

    open spec fn from_varint_value(v: nat) -> usize {
        v as usize
    }

    proof fn lemma_value_in_range(self) {
    }

    proof fn lemma_from_value(v: nat) {
    }

    fn from_varint(bytes: &[u8]) -> (r: Option<(usize, usize)>) {
        match decode_bounded(bytes, usize::MAX as u128) {
            Some((v, n)) => Some((v as usize, n)),
            None => None,
        }
    }
}

// ============================================================================
// VarInt: always a valid encoding
// ============================================================================

/// A varint that is valid by construction: its bytes are always the minimal
/// encoding of some `u128`. It can only be built from an integer (or a decimal
/// string), so invalid bytes cannot get in from outside.
pub struct VarInt {
    data: Vec<u8>,
}

impl View for VarInt {
    type V = nat;

    /// The number the varint stands for.
    closed spec fn view(&self) -> nat {
        leb_value(self.data@)
    }
}

impl VarInt {
    /// The encoded bytes.
    pub closed spec fn bytes(&self) -> Seq<u8> {
        self.data@
    }

    #[verifier::type_invariant]
    closed spec fn is_canonical(&self) -> bool {
        &&& self.data@ == leb_encode(leb_value(self.data@))
        &&& leb_value(self.data@) <= u128::MAX
    }

    /// Internal constructor: only ever given a canonical encoding.
    fn from_raw(data: Vec<u8>) -> (r: Self)
        requires
            data@ == leb_encode(leb_value(data@)),
            leb_value(data@) <= u128::MAX,
        ensures
            r@ == leb_value(data@),
            r.bytes() == data@,
    {
        VarInt { data }
    }

    fn from_value(value: u128) -> (r: Self)
        ensures
            r@ == value as nat,
            r.bytes() == leb_encode(value as nat),
    {
        let data = encode_u128(value);
        proof {
            lemma_encode_value(value as nat);
        }
        VarInt::from_raw(data)
    }

    /// Converts into any integer type the value fits in.
    pub fn try_convert<T: FromVarint>(&self) -> (r: Option<T>)
        ensures
            self@ <= T::varint_max() ==> r == Some(T::from_varint_value(self@)),
            self@ > T::varint_max() ==> r is None,
    {
        proof {
            use_type_invariant(self);
            law_decode_encode_any(self@, T::varint_max());
        }
        match T::from_varint(self.data.as_slice()) {
            Some((val, _)) => Some(val),
            None => None,
        }
    }

    /// Whether the value fits in `T`.
    pub fn fits_in<T: FromVarint>(&self) -> (r: bool)
        ensures
            r == (self@ <= T::varint_max()),
    {
        self.try_convert::<T>().is_some()
    }

    /// The value as a `u128`; always succeeds, since a varint is always valid.
    pub(crate) fn as_u128(&self) -> (r: u128)
        ensures
            r as nat == self@,
    {
        proof {
            use_type_invariant(self);
        }
        match self.try_convert::<u128>() {
            Some(v) => v,
            None => {
                assert(false);
                0
            },
        }
    }

    /// The encoded bytes.
    pub fn as_slice(&self) -> (r: &[u8])
        ensures
            r@ == self.bytes(),
            r@ == leb_encode(self@),
    {
        proof {
            use_type_invariant(self);
        }
        self.data.as_slice()
    }

    /// A copy of the encoded bytes.
    pub fn to_vec(&self) -> (r: Vec<u8>)
        ensures
            r@ == self.bytes(),
            r@ == leb_encode(self@),
    {
        proof {
            use_type_invariant(self);
        }
        self.data.clone()
    }

    /// The number of encoded bytes.
    pub fn len(&self) -> (r: usize)
        ensures
            r == leb_encode(self@).len(),
    {
        proof {
            use_type_invariant(self);
        }
        self.data.len()
    }
}

impl Clone for VarInt {
    fn clone(&self) -> (r: Self)
        ensures
            r@ == self@,
            r.bytes() == self.bytes(),
    {
        proof {
            use_type_invariant(self);
        }
        let data = self.data.clone();
        assert(data@ =~= self.data@);
        VarInt { data }
    }
}

impl core::ops::Deref for VarInt {
    type Target = [u8];

    fn deref(&self) -> (r: &[u8])
        ensures
            r@ == leb_encode(self@),
    {
        self.as_slice()
    }
}

impl AsRef<[u8]> for VarInt {
    fn as_ref(&self) -> (r: &[u8])
        ensures
            r@ == leb_encode(self@),
    {
        self.as_slice()
    }
}

/// Iterating a varint walks its encoded bytes.
impl<'b> IntoIterator for &'b VarInt {
    type Item = &'b u8;

    type IntoIter = core::slice::Iter<'b, u8>;

    fn into_iter(self) -> (r: core::slice::Iter<'b, u8>)
        ensures
            vstd::std_specs::iter::IteratorSpec::remaining(&r) == self.bytes().as_ref(),
            self.bytes() == leb_encode(self@),
    {
        self.as_slice().iter()
    }
}

/// Converting the varint of an integer `x` into an integer type `U` keeps the
/// number whenever it fits `U` (`try_convert` refuses exactly the numbers above
/// `U::varint_max()`), and converting it back into the type of `x` gives `x`.
pub proof fn law_try_convert<T: FromVarint, U: FromVarint>(x: T)
    ensures
        x.varint_value() <= T::varint_max(),
        T::from_varint_value(x.varint_value()) == x,
        x.varint_value() <= U::varint_max() ==> U::from_varint_value(
            x.varint_value(),
        ).varint_value() == x.varint_value(),
{
    x.lemma_value_in_range();
    if x.varint_value() <= U::varint_max() {
        U::lemma_from_value(x.varint_value());
    }
}

/// Decoding the canonical encoding of a value gives the value back when it fits.
proof fn law_decode_encode_any(v: nat, max: nat)
    ensures
        v <= max ==> leb_decode(leb_encode(v), max) == Some((v, leb_encode(v).len())),
        v > max ==> leb_decode(leb_encode(v), max) is None,
{
    assert(leb_encode(v) + Seq::<u8>::empty() =~= leb_encode(v));
    if v <= max {
        law_decode_encode(v, max, Seq::empty());
    } else {
        law_decode_encode_too_large(v, max, Seq::empty());
    }
}

/// Every `u8` is a valid varint.
impl From<u8> for VarInt {
    fn from(val: u8) -> (r: VarInt)
        ensures
            r@ == val as nat,
    {
        let data = val.to_varint();
        proof {
            lemma_encode_value(val as nat);
        }
        VarInt::from_raw(data)
    }
}

impl FromSpecImpl<u8> for VarInt {
    open spec fn obeys_from_spec() -> bool {
        false
    }

    open spec fn from_spec(v: u8) -> VarInt {
        choose|r: VarInt| r@ == v as nat
    }
}

/// A varint does not fit every smaller type.
impl TryFrom<VarInt> for u8 {
    type Error = &'static str;

    fn try_from(vi: VarInt) -> (r: Result<u8, &'static str>)
        ensures
            vi@ <= u8::MAX ==> r == Ok::<u8, &'static str>(vi@ as u8),
            vi@ > u8::MAX ==> r == Err::<u8, &'static str>("VarInt value overflows target type"),
    {
        match vi.try_convert::<u8>() {
            Some(v) => Ok(v),
            None => Err("VarInt value overflows target type"),
        }
    }
}

impl TryFromSpecImpl<VarInt> for u8 {
    open spec fn obeys_try_from_spec() -> bool {
        false
    }

    open spec fn try_from_spec(v: VarInt) -> Result<u8, &'static str> {
        if v@ <= u8::MAX {
            Ok(v@ as u8)
        } else {
            Err("VarInt value overflows target type")
        }
    }
}

impl<'b> TryFrom<&'b VarInt> for u8 {
    type Error = &'static str;

    fn try_from(vi: &'b VarInt) -> (r: Result<u8, &'static str>)
        ensures
            vi@ <= u8::MAX ==> r == Ok::<u8, &'static str>(vi@ as u8),
            vi@ > u8::MAX ==> r == Err::<u8, &'static str>("VarInt value overflows target type"),
    {
        match vi.try_convert::<u8>() {
            Some(v) => Ok(v),
            None => Err("VarInt value overflows target type"),
        }
    }
}

impl<'b> TryFromSpecImpl<&'b VarInt> for u8 {
    open spec fn obeys_try_from_spec() -> bool {
        false
    }

    open spec fn try_from_spec(v: &'b VarInt) -> Result<u8, &'static str> {
        if v@ <= u8::MAX {
            Ok(v@ as u8)
        } else {
            Err("VarInt value overflows target type")
        }
    }
}

/// Every `u16` is a valid varint.
impl From<u16> for VarInt {
    fn from(val: u16) -> (r: VarInt)
        ensures
            r@ == val as nat,
    {
        let data = val.to_varint();
        proof {
            lemma_encode_value(val as nat);
        }
        VarInt::from_raw(data)
    }
}

impl FromSpecImpl<u16> for VarInt {
    open spec fn obeys_from_spec() -> bool {
        false
    }

    open spec fn from_spec(v: u16) -> VarInt {
        choose|r: VarInt| r@ == v as nat
    }
}

/// A varint does not fit every smaller type.
impl TryFrom<VarInt> for u16 {
    type Error = &'static str;

    fn try_from(vi: VarInt) -> (r: Result<u16, &'static str>)
        ensures
            vi@ <= u16::MAX ==> r == Ok::<u16, &'static str>(vi@ as u16),
            vi@ > u16::MAX ==> r == Err::<u16, &'static str>("VarInt value overflows target type"),
    {
        match vi.try_convert::<u16>() {
            Some(v) => Ok(v),
            None => Err("VarInt value overflows target type"),
        }
    }
}

impl TryFromSpecImpl<VarInt> for u16 {
    open spec fn obeys_try_from_spec() -> bool {
        false
    }

    open spec fn try_from_spec(v: VarInt) -> Result<u16, &'static str> {
        if v@ <= u16::MAX {
            Ok(v@ as u16)
        } else {
            Err("VarInt value overflows target type")
        }
    }
}

impl<'b> TryFrom<&'b VarInt> for u16 {
    type Error = &'static str;

    fn try_from(vi: &'b VarInt) -> (r: Result<u16, &'static str>)
        ensures
            vi@ <= u16::MAX ==> r == Ok::<u16, &'static str>(vi@ as u16),
            vi@ > u16::MAX ==> r == Err::<u16, &'static str>("VarInt value overflows target type"),
    {
        match vi.try_convert::<u16>() {
            Some(v) => Ok(v),
            None => Err("VarInt value overflows target type"),
        }
    }
}

impl<'b> TryFromSpecImpl<&'b VarInt> for u16 {
    open spec fn obeys_try_from_spec() -> bool {
        false
    }

    open spec fn try_from_spec(v: &'b VarInt) -> Result<u16, &'static str> {
        if v@ <= u16::MAX {
            Ok(v@ as u16)
        } else {
            Err("VarInt value overflows target type")
        }
    }
}

/// Every `u32` is a valid varint.
impl From<u32> for VarInt {
    fn from(val: u32) -> (r: VarInt)
        ensures
            r@ == val as nat,
    {
        let data = val.to_varint();
        proof {
            lemma_encode_value(val as nat);
        }
        VarInt::from_raw(data)
    }
}

impl FromSpecImpl<u32> for VarInt {
    open spec fn obeys_from_spec() -> bool {
        false
    }

    open spec fn from_spec(v: u32) -> VarInt {
        choose|r: VarInt| r@ == v as nat
    }
}

/// A varint does not fit every smaller type.
impl TryFrom<VarInt> for u32 {
    type Error = &'static str;

    fn try_from(vi: VarInt) -> (r: Result<u32, &'static str>)
        ensures
            vi@ <= u32::MAX ==> r == Ok::<u32, &'static str>(vi@ as u32),
            vi@ > u32::MAX ==> r == Err::<u32, &'static str>("VarInt value overflows target type"),
    {
        match vi.try_convert::<u32>() {
            Some(v) => Ok(v),
            None => Err("VarInt value overflows target type"),
        }
    }
}

impl TryFromSpecImpl<VarInt> for u32 {
    open spec fn obeys_try_from_spec() -> bool {
        false
    }

    open spec fn try_from_spec(v: VarInt) -> Result<u32, &'static str> {
        if v@ <= u32::MAX {
            Ok(v@ as u32)
        } else {
            Err("VarInt value overflows target type")
        }
    }
}

impl<'b> TryFrom<&'b VarInt> for u32 {
    type Error = &'static str;

    fn try_from(vi: &'b VarInt) -> (r: Result<u32, &'static str>)
        ensures
            vi@ <= u32::MAX ==> r == Ok::<u32, &'static str>(vi@ as u32),
            vi@ > u32::MAX ==> r == Err::<u32, &'static str>("VarInt value overflows target type"),
    {
        match vi.try_convert::<u32>() {
            Some(v) => Ok(v),
            None => Err("VarInt value overflows target type"),
        }
    }
}

impl<'b> TryFromSpecImpl<&'b VarInt> for u32 {
    open spec fn obeys_try_from_spec() -> bool {
        false
    }

    open spec fn try_from_spec(v: &'b VarInt) -> Result<u32, &'static str> {
        if v@ <= u32::MAX {
            Ok(v@ as u32)
        } else {
            Err("VarInt value overflows target type")
        }
    }
}

/// Every `u64` is a valid varint.
impl From<u64> for VarInt {
    fn from(val: u64) -> (r: VarInt)
        ensures
            r@ == val as nat,
    {
        let data = val.to_varint();
        proof {
            lemma_encode_value(val as nat);
        }
        VarInt::from_raw(data)
    }
}

impl FromSpecImpl<u64> for VarInt {
    open spec fn obeys_from_spec() -> bool {
        false
    }

    open spec fn from_spec(v: u64) -> VarInt {
        choose|r: VarInt| r@ == v as nat
    }
}

/// A varint does not fit every smaller type.
impl TryFrom<VarInt> for u64 {
    type Error = &'static str;

    fn try_from(vi: VarInt) -> (r: Result<u64, &'static str>)
        ensures
            vi@ <= u64::MAX ==> r == Ok::<u64, &'static str>(vi@ as u64),
            vi@ > u64::MAX ==> r == Err::<u64, &'static str>("VarInt value overflows target type"),
    {
        match vi.try_convert::<u64>() {
            Some(v) => Ok(v),
            None => Err("VarInt value overflows target type"),
        }
    }
}

impl TryFromSpecImpl<VarInt> for u64 {
    open spec fn obeys_try_from_spec() -> bool {
        false
    }

    open spec fn try_from_spec(v: VarInt) -> Result<u64, &'static str> {
        if v@ <= u64::MAX {
            Ok(v@ as u64)
        } else {
            Err("VarInt value overflows target type")
        }
    }
}

impl<'b> TryFrom<&'b VarInt> for u64 {
    type Error = &'static str;

    fn try_from(vi: &'b VarInt) -> (r: Result<u64, &'static str>)
        ensures
            vi@ <= u64::MAX ==> r == Ok::<u64, &'static str>(vi@ as u64),
            vi@ > u64::MAX ==> r == Err::<u64, &'static str>("VarInt value overflows target type"),
    {
        match vi.try_convert::<u64>() {
            Some(v) => Ok(v),
            None => Err("VarInt value overflows target type"),
        }
    }
}

impl<'b> TryFromSpecImpl<&'b VarInt> for u64 {
    open spec fn obeys_try_from_spec() -> bool {
        false
    }

    open spec fn try_from_spec(v: &'b VarInt) -> Result<u64, &'static str> {
        if v@ <= u64::MAX {
            Ok(v@ as u64)
        } else {
            Err("VarInt value overflows target type")
        }
    }
}

/// Every `u128` is a valid varint.
impl From<u128> for VarInt {
    fn from(val: u128) -> (r: VarInt)
        ensures
            r@ == val as nat,
    {
        let data = val.to_varint();
        proof {
            lemma_encode_value(val as nat);
        }
        VarInt::from_raw(data)
    }
}

impl FromSpecImpl<u128> for VarInt {
    open spec fn obeys_from_spec() -> bool {
        false
    }

    open spec fn from_spec(v: u128) -> VarInt {
        choose|r: VarInt| r@ == v as nat
    }
}

/// A varint does not fit every smaller type.
impl TryFrom<VarInt> for u128 {
    type Error = &'static str;

    fn try_from(vi: VarInt) -> (r: Result<u128, &'static str>)
        ensures
            vi@ <= u128::MAX ==> r == Ok::<u128, &'static str>(vi@ as u128),
            vi@ > u128::MAX ==> r == Err::<u128, &'static str>("VarInt value overflows target type"),
    {
        match vi.try_convert::<u128>() {
            Some(v) => Ok(v),
            None => Err("VarInt value overflows target type"),
        }
    }
}

impl TryFromSpecImpl<VarInt> for u128 {
    open spec fn obeys_try_from_spec() -> bool {
        false
    }

    open spec fn try_from_spec(v: VarInt) -> Result<u128, &'static str> {
        if v@ <= u128::MAX {
            Ok(v@ as u128)
        } else {
            Err("VarInt value overflows target type")
        }
    }
}

impl<'b> TryFrom<&'b VarInt> for u128 {
    type Error = &'static str;

    fn try_from(vi: &'b VarInt) -> (r: Result<u128, &'static str>)
        ensures
            vi@ <= u128::MAX ==> r == Ok::<u128, &'static str>(vi@ as u128),
            vi@ > u128::MAX ==> r == Err::<u128, &'static str>("VarInt value overflows target type"),
    {
        match vi.try_convert::<u128>() {
            Some(v) => Ok(v),
            None => Err("VarInt value overflows target type"),
        }
    }
}

impl<'b> TryFromSpecImpl<&'b VarInt> for u128 {
    open spec fn obeys_try_from_spec() -> bool {
        false
    }

    open spec fn try_from_spec(v: &'b VarInt) -> Result<u128, &'static str> {
        if v@ <= u128::MAX {
            Ok(v@ as u128)
        } else {
            Err("VarInt value overflows target type")
        }
    }
}

/// Every `usize` is a valid varint.
impl From<usize> for VarInt {
    fn from(val: usize) -> (r: VarInt)
        ensures
            r@ == val as nat,
    {
        let data = val.to_varint();
        proof {
            lemma_encode_value(val as nat);
        }
        VarInt::from_raw(data)
    }
}

impl FromSpecImpl<usize> for VarInt {
    open spec fn obeys_from_spec() -> bool {
        false
    }

    open spec fn from_spec(v: usize) -> VarInt {
        choose|r: VarInt| r@ == v as nat
    }
}

/// A varint does not fit every smaller type.
impl TryFrom<VarInt> for usize {
    type Error = &'static str;

    fn try_from(vi: VarInt) -> (r: Result<usize, &'static str>)
        ensures
            vi@ <= usize::MAX ==> r == Ok::<usize, &'static str>(vi@ as usize),
            vi@ > usize::MAX ==> r == Err::<usize, &'static str>("VarInt value overflows target type"),
    {
        match vi.try_convert::<usize>() {
            Some(v) => Ok(v),
            None => Err("VarInt value overflows target type"),
        }
    }
}

impl TryFromSpecImpl<VarInt> for usize {
    open spec fn obeys_try_from_spec() -> bool {
        false
    }

    open spec fn try_from_spec(v: VarInt) -> Result<usize, &'static str> {
        if v@ <= usize::MAX {
            Ok(v@ as usize)
        } else {
            Err("VarInt value overflows target type")
        }
    }
}

impl<'b> TryFrom<&'b VarInt> for usize {
    type Error = &'static str;

    fn try_from(vi: &'b VarInt) -> (r: Result<usize, &'static str>)
        ensures
            vi@ <= usize::MAX ==> r == Ok::<usize, &'static str>(vi@ as usize),
            vi@ > usize::MAX ==> r == Err::<usize, &'static str>("VarInt value overflows target type"),
    {
        match vi.try_convert::<usize>() {
            Some(v) => Ok(v),
            None => Err("VarInt value overflows target type"),
        }
    }
}

impl<'b> TryFromSpecImpl<&'b VarInt> for usize {
    open spec fn obeys_try_from_spec() -> bool {
        false
    }

    open spec fn try_from_spec(v: &'b VarInt) -> Result<usize, &'static str> {
        if v@ <= usize::MAX {
            Ok(v@ as usize)
        } else {
            Err("VarInt value overflows target type")
        }
    }
}

// ============================================================================
// Decimal text
// ============================================================================

/// The character of a decimal digit.
pub open spec fn digit_char(d: nat) -> char {
    (48 + d) as char
}

/// The decimal representation of `v`: no sign, no leading zeros.
pub open spec fn decimal_digits(v: nat) -> Seq<char>
    decreases v,
{
    if v < 10 {
        seq![digit_char(v)]
    } else {
        decimal_digits(v / 10).push(digit_char(v % 10))
    }
}

pub open spec fn is_decimal_digit(c: char) -> bool {
    48 <= (c as u32) <= 57
}

/// The number a string of decimal digits stands for.
pub open spec fn digits_value(s: Seq<char>) -> nat
    decreases s.len(),
{
    if s.len() == 0 {
        0
    } else {
        digits_value(s.drop_last()) * 10 + ((s.last() as u32) - 48) as nat
    }
}

/// The decimal text of a number stands for it: every character is a decimal
/// digit, the digits are worth the number, there is no leading zero (the text
/// of 0 is `0`), and parsing the text gives the number back whenever it fits.
pub proof fn law_decimal_digits(v: nat, max: nat)
    ensures
        decimal_digits(v).len() >= 1,
        forall|i: int|
            0 <= i < decimal_digits(v).len() ==> is_decimal_digit(#[trigger] decimal_digits(v)[i]),
        digits_value(decimal_digits(v)) == v,
        v > 0 ==> decimal_digits(v)[0] != '0',
        v == 0 ==> decimal_digits(v) == seq!['0'],
        v <= max ==> parse_unsigned(decimal_digits(v), max) == Some(v),
        v > max ==> parse_unsigned(decimal_digits(v), max) is None,
    decreases v,
{
    let s = decimal_digits(v);
    if v < 10 {
        assert((digit_char(v) as u32) == 48 + v);
        assert(s.drop_last() =~= Seq::<char>::empty());
        assert(digits_value(s.drop_last()) == 0);
        assert(s.last() == digit_char(v));
    } else {
        law_decimal_digits(v / 10, max);
        let t = decimal_digits(v / 10);
        assert((digit_char(v % 10) as u32) == 48 + v % 10);
        assert(s.drop_last() =~= t);
        assert(s.last() == digit_char(v % 10));
        assert(v == (v / 10) * 10 + v % 10);
        assert(s[0] == t[0]);
        assert forall|i: int| 0 <= i < s.len() implies is_decimal_digit(#[trigger] s[i]) by {
            if i < t.len() {
                assert(s[i] == t[i]);
            }
        }
    }
    assert(s[0] != '+');
    assert(unsigned_digits(s) == s);
}

/// What follows the optional `+` of an unsigned number.
pub open spec fn unsigned_digits(s: Seq<char>) -> Seq<char> {
    if s.len() > 0 && s[0] == '+' {
        s.drop_first()
    } else {
        s
    }
}

/// What parsing an unsigned integer with largest value `max` from `s` gives: an
/// optional `+`, then one or more decimal digits whose value fits.
pub open spec fn parse_unsigned(s: Seq<char>, max: nat) -> Option<nat> {
    let d = unsigned_digits(s);
    if d.len() > 0 && (forall|i: int| 0 <= i < d.len() ==> is_decimal_digit(#[trigger] d[i]))
        && digits_value(d) <= max {
        Some(digits_value(d))
    } else {
        None
    }
}

/// A string of decimal digits is worth at least each of its prefixes.
proof fn lemma_digits_value_prefix(s: Seq<char>, k: int)
    requires
        0 <= k <= s.len(),
        forall|i: int| 0 <= i < s.len() ==> is_decimal_digit(#[trigger] s[i]),
    ensures
        digits_value(s.take(k)) <= digits_value(s),
    decreases s.len(),
{
    if k < s.len() {
        let t = s.drop_last();
        assert(t.take(k) =~= s.take(k));
        lemma_digits_value_prefix(t, k);
    } else {
        assert(s.take(k) =~= s);
    }
}

/// The text of one decimal digit.
fn digit_text(d: u128) -> (r: &'static str)
    requires
        d < 10,
    ensures
        r@ == seq![digit_char(d as nat)],
{
    proof {
        reveal_strlit("0");
        reveal_strlit("1");
        reveal_strlit("2");
        reveal_strlit("3");
        reveal_strlit("4");
        reveal_strlit("5");
        reveal_strlit("6");
        reveal_strlit("7");
        reveal_strlit("8");
        reveal_strlit("9");
    }
    if d == 0 {
        "0"
    } else if d == 1 {
        "1"
    } else if d == 2 {
        "2"
    } else if d == 3 {
        "3"
    } else if d == 4 {
        "4"
    } else if d == 5 {
        "5"
    } else if d == 6 {
        "6"
    } else if d == 7 {
        "7"
    } else if d == 8 {
        "8"
    } else {
        "9"
    }
}

/// The decimal representation of `v`: its digits, without sign or leading zeros.
fn u128_to_decimal(v: u128) -> (r: String)
    ensures
        r@ == decimal_digits(v as nat),
    decreases v,
{
    if v < 10 {
        String::from_str(digit_text(v))
    } else {
        let mut out = u128_to_decimal(v / 10);
        out.append(digit_text(v % 10));
        out
    }
}

/// Parses an optional `+` followed by one or more decimal digits whose value
/// fits a `u128`, as `str::parse::<u128>` does.
fn parse_u128(s: &str) -> (r: Option<u128>)
    ensures
        match parse_unsigned(s@, u128::MAX as nat) {
            Some(v) => r == Some(v as u128),
            None => r is None,
        },
{
    let n = s.unicode_len();
    let mut start: usize = 0;
    if n > 0 && s.get_char(0) == '+' {
        start = 1;
    }
    let ghost d = s@.subrange(start as int, n as int);
    proof {
        if start == 1 {
            assert(d =~= s@.drop_first());
        } else {
            assert(d =~= s@);
        }
    }
    if start == n {
        return None;
    }
    let mut acc: u128 = 0;
    let mut i: usize = start;
    proof {
        assert(d.take(0) =~= Seq::<char>::empty());
    }
    while i < n
        invariant
            start <= i <= n,
            start < n,
            n == s@.len(),
            d == s@.subrange(start as int, n as int),
            d == unsigned_digits(s@),
            forall|k: int| 0 <= k < i - start ==> is_decimal_digit(#[trigger] d[k]),
            acc as nat == digits_value(d.take(i - start)),
        decreases n - i,
    {
        let c = s.get_char(i);
        let code = c as u32;
        assert(d[i - start] == c);
        if code < 48 || code > 57 {
            assert(!is_decimal_digit(d[i - start]));
            return None;
        }
        let digit = (code - 48) as u128;
        let ghost next = d.take(i - start + 1);
        proof {
            assert(next.drop_last() =~= d.take(i - start));
            assert(next.last() == c);
        }
        let step = match acc.checked_mul(10) {
            Some(m) => m.checked_add(digit),
            None => None,
        };
        match step {
            Some(a) => {
                acc = a;
            },
            None => {
                proof {
                    assert(digits_value(next) > u128::MAX);
                    if forall|k: int| 0 <= k < d.len() ==> is_decimal_digit(#[trigger] d[k]) {
                        lemma_digits_value_prefix(d, i - start + 1);
                    }
                }
                return None;
            },
        }
        i = i + 1;
    }
    proof {
        assert(d.take(n - start) =~= d);
    }
    Some(acc)
}

impl VarInt {
    /// The value in decimal, as `Display` shows it.
    pub fn to_string(&self) -> (r: String)
        ensures
            r@ == decimal_digits(self@),
    {
        let v = self.as_u128();
        u128_to_decimal(v)
    }

    /// Parses a decimal number into a varint; covers the whole `u128` range.
    pub fn from_decimal_str(s: &str) -> (r: Result<VarInt, &'static str>)
        ensures
            match parse_unsigned(s@, u128::MAX as nat) {
                Some(v) => r matches Ok(vi) && vi@ == v,
                None => r == Err::<VarInt, &'static str>("Not a valid decimal number"),
            },
    {
        match parse_u128(s) {
            Some(v) => Ok(VarInt::from(v)),
            None => Err("Not a valid decimal number"),
        }
    }
}

impl core::str::FromStr for VarInt {
    type Err = &'static str;

    fn from_str(s: &str) -> (r: Result<VarInt, &'static str>)
        ensures
            match parse_unsigned(s@, u128::MAX as nat) {
                Some(v) => r matches Ok(vi) && vi@ == v,
                None => r == Err::<VarInt, &'static str>("Not a valid decimal number"),
            },
    {
        VarInt::from_decimal_str(s)
    }
}

// ============================================================================
// Equality by value
// ============================================================================

/// `<u128 as Hash>::hash`: feeds the number to the hasher. Nothing is claimed of
/// the hasher's state afterwards.
#[verifier::external_body]
fn hash_u128<H: core::hash::Hasher>(v: u128, state: &mut H) {
    core::hash::Hash::hash(&v, state)
}

/// `core::fmt::Formatter`, carried through unopened (for the `Debug` impls).
#[verifier::external_type_specification]
#[verifier::external_body]
pub struct ExFormatter<'a>(core::fmt::Formatter<'a>);

/// `core::fmt::Error`, carried through unopened.
#[verifier::external_type_specification]
#[verifier::external_body]
pub struct ExFmtError(core::fmt::Error);

/// `write!` with `VarInt({} | {:?})`: the number, then the bytes as a list.
#[verifier::external_body]
fn write_varint_debug(f: &mut core::fmt::Formatter<'_>, value: u128, bytes: &[u8]) -> core::fmt::Result {
    write!(f, "VarInt({} | {:?})", value, bytes)
}

/// Shows the number and the bytes: `VarInt(300 | [172, 2])`.
impl core::fmt::Debug for VarInt {
    fn fmt(&self, f: &mut core::fmt::Formatter<'_>) -> core::fmt::Result {
        write_varint_debug(f, self.as_u128(), self.data.as_slice())
    }
}

/// Hashes the number the varint stands for, so that equal varints hash alike.
impl core::hash::Hash for VarInt {
    fn hash<H: core::hash::Hasher>(&self, state: &mut H) {
        hash_u128(self.as_u128(), state);
    }
}

/// Two varints are equal when they stand for the same number.
impl PartialEq for VarInt {
    fn eq(&self, other: &Self) -> (r: bool) {
        self.as_u128() == other.as_u128()
    }
}

impl PartialEqSpecImpl for VarInt {
    open spec fn obeys_eq_spec() -> bool {
        true
    }

    open spec fn eq_spec(&self, other: &VarInt) -> bool {
        self@ == other@
    }
}

impl Eq for VarInt {

}

} // verus!
