use vstd::prelude::*;

use crate::text::{latin1_chars, latin1_to_string};

use vstd::string::StringSliceAdditionalSpecFns;

verus! {

/// The maximum value for a one-byte Graal-encoded integer.
pub const GUINT8_MAX: u64 = 0xDF;

/// The maximum value for a two-byte Graal-encoded integer.
pub const GUINT16_MAX: u64 = 0x705F;

/// The maximum value for a three-byte Graal-encoded integer.
pub const GUINT24_MAX: u64 = 0x38305F;

/// The maximum value for a four-byte Graal-encoded integer.
pub const GUINT32_MAX: u64 = 0x1C18305F;

/// The maximum value for a five-byte Graal-encoded integer. The encoding could hold more,
/// but in practice it only carries values up to 0xFFFFFFFF.
pub const GUINT40_MAX: u64 = 0xFFFFFFFF;

/// 128 to the power `n`.
pub open spec fn pow128(n: nat) -> nat
    decreases n,
{
    if n == 0 {
        1
    } else {
        128 * pow128((n - 1) as nat)
    }
}

/// Every byte is at least 32, the printable offset of the Graal encoding.
pub open spec fn all_printable(s: Seq<u8>) -> bool {
    forall|i: int| 0 <= i < s.len() ==> #[trigger] s[i] >= 32
}

/// Every byte is a printable offset plus a seven-bit chunk, as the encoder produces them.
pub open spec fn all_encoded_digits(s: Seq<u8>) -> bool {
    forall|i: int| 0 <= i < s.len() ==> 32 <= #[trigger] s[i] < 160
}

/// The value of a Graal-encoded byte sequence: each byte less 32 is a digit in base 128,
/// the most significant first.
pub open spec fn decode_spec(s: Seq<u8>) -> int
    decreases s.len(),
{
    if s.len() == 0 {
        0
    } else {
        decode_spec(s.drop_last()) * 128 + (s.last() - 32)
    }
}

/// The largest value that `n` Graal-encoded bytes carry: every digit 223, the byte 0xFF.
pub open spec fn gmax(n: nat) -> nat
    decreases n,
{
    if n == 0 {
        0
    } else {
        223 * pow128((n - 1) as nat) + gmax((n - 1) as nat)
    }
}

/// The leading digit of the `n`-byte encoding of `v`: `v` divided by `128^(n - 1)`, at most
/// 223.
pub open spec fn top_digit(v: nat, n: nat) -> nat {
    let q = v / pow128((n - 1) as nat);
    if q > 223 {
        223
    } else {
        q
    }
}

/// The `n`-byte Graal encoding of `v`: the leading digit as large as it can be, at most 223,
/// then the encoding of what is left in `n - 1` bytes; each digit plus 32. For `v` up to
/// `gmax(n)` the bytes decode to `v`.
pub open spec fn encode_spec(v: nat, n: nat) -> Seq<u8>
    decreases n,
{
    if n == 0 {
        seq![]
    } else {
        let t = top_digit(v, n);
        seq![(t + 32) as u8] + encode_spec((v - t * pow128((n - 1) as nat)) as nat, (n - 1) as nat)
    }
}

/// The big-endian value of two bytes.
pub open spec fn be_u16(a: u8, b: u8) -> u16 {
    (a * 256 + b) as u16
}

/// The big-endian value of four bytes.
pub open spec fn be_u32(a: u8, b: u8, c: u8, d: u8) -> u32 {
    (a * 0x1000000 + b * 0x10000 + c * 0x100 + d) as u32
}

/// The big-endian bytes of a 16-bit value.
pub open spec fn be_bytes_u16(v: u16) -> Seq<u8> {
    seq![(v / 256) as u8, (v % 256) as u8]
}

/// The big-endian bytes of a 32-bit value.
pub open spec fn be_bytes_u32(v: u32) -> Seq<u8> {
    seq![
        (v / 0x1000000) as u8,
        ((v / 0x10000) % 256) as u8,
        ((v / 0x100) % 256) as u8,
        (v % 256) as u8,
    ]
}

/// The index of the first zero byte of `s`, if there is one.
pub open spec fn first_zero(s: Seq<u8>) -> Option<nat>
    decreases s.len(),
{
    if s.len() == 0 {
        None
    } else if s[0] == 0 {
        Some(0)
    } else {
        match first_zero(s.drop_first()) {
            Some(k) => Some(k + 1),
            None => None,
        }
    }
}

/// The largest value that `n` Graal bytes can carry, each digit at most 223.
pub proof fn lemma_decode_bound(s: Seq<u8>)
    ensures
        decode_spec(s) * 127 <= 223 * (pow128(s.len()) - 1),
    decreases s.len(),
{
    if s.len() > 0 {
        lemma_decode_bound(s.drop_last());
        assert(pow128(s.len()) == 128 * pow128(s.drop_last().len()));
    }
}

proof fn lemma_decode_nonneg(s: Seq<u8>)
    requires
        all_printable(s),
    ensures
        decode_spec(s) >= 0,
    decreases s.len(),
{
    if s.len() > 0 {
        assert(all_printable(s.drop_last()));
        lemma_decode_nonneg(s.drop_last());
    }
}

proof fn lemma_pow128_9()
    ensures
        pow128(9) == 0x8000000000000000,
{
    reveal_with_fuel(pow128, 10);
}

proof fn lemma_pow128_mono(a: nat, b: nat)
    requires
        a <= b,
    ensures
        pow128(a) <= pow128(b),
    decreases b,
{
    if a < b {
        lemma_pow128_mono(a, (b - 1) as nat);
    }
}

/// A Graal-encoded sequence of at most nine bytes has a value that fits in a `u64`.
proof fn lemma_decode_fits(s: Seq<u8>)
    requires
        s.len() <= 9,
        all_printable(s),
    ensures
        0 <= decode_spec(s) <= u64::MAX,
{
    lemma_decode_bound(s);
    lemma_decode_nonneg(s);
    lemma_pow128_mono(s.len(), 9);
    lemma_pow128_9();
}

proof fn lemma_pow128_pos(n: nat)
    ensures
        pow128(n) > 0,
    decreases n,
{
    if n > 0 {
        lemma_pow128_pos((n - 1) as nat);
    }
}

/// A leading byte adds its digit times `128` to the power of the number of bytes after it.
proof fn lemma_decode_front(d: u8, rest: Seq<u8>)
    ensures
        decode_spec(seq![d] + rest) == (d - 32) * pow128(rest.len()) + decode_spec(rest),
    decreases rest.len(),
{
    let s = seq![d] + rest;
    if rest.len() > 0 {
        let r = rest.drop_last();
        lemma_decode_front(d, r);
        assert(s.drop_last() =~= seq![d] + r);
        assert(s.last() == rest.last());
        let p = pow128(r.len());
        assert(pow128(rest.len()) == 128 * p);
        let x: int = d - 32;
        let dr = decode_spec(r);
        let l: int = rest.last() - 32;
        assert(decode_spec(s) == decode_spec(seq![d] + r) * 128 + l);
        assert(decode_spec(rest) == dr * 128 + l);
        assert((x * p + dr) * 128 + l == x * (128 * p) + (dr * 128 + l)) by (nonlinear_arith);
        assert(decode_spec(seq![d] + r) == x * p + dr);
        assert(decode_spec(s) == x * pow128(rest.len()) + decode_spec(rest));
    } else {
        assert(s.drop_last() =~= Seq::<u8>::empty());
        assert(rest =~= Seq::<u8>::empty());
        assert(pow128(0) == 1);
        assert(decode_spec(s) == decode_spec(Seq::<u8>::empty()) * 128 + (d - 32));
        assert(decode_spec(s) == d - 32);
    }
}

/// `n` bytes can carry every value below `128^n`.
proof fn lemma_gmax_covers(n: nat)
    ensures
        pow128(n) <= gmax(n) + 1,
    decreases n,
{
    if n > 0 {
        lemma_gmax_covers((n - 1) as nat);
        lemma_pow128_pos((n - 1) as nat);
    }
}

/// Decoding what the encoder produced gives back the value, for values up to `gmax(n)`.
pub proof fn lemma_decode_encode(v: nat, n: nat)
    requires
        v <= gmax(n),
    ensures
        decode_spec(encode_spec(v, n)) == v,
        encode_spec(v, n).len() == n,
        all_printable(encode_spec(v, n)),
    decreases n,
{
    if n > 0 {
        let b = pow128((n - 1) as nat);
        lemma_pow128_pos((n - 1) as nat);
        lemma_gmax_covers((n - 1) as nat);
        let q = v / b;
        let t = top_digit(v, n);
        vstd::arithmetic::div_mod::lemma_fundamental_div_mod(v as int, b as int);
        assert(0 <= v % b < b) by {
            vstd::arithmetic::div_mod::lemma_mod_bound(v as int, b as int);
        }
        assert(t * b <= q * b) by (nonlinear_arith)
            requires
                t <= q,
                b > 0,
        ;
        let rem = (v - t * b) as nat;
        if q <= 223 {
            assert(rem == v % b);
        } else {
            assert(223 * b <= q * b) by (nonlinear_arith)
                requires
                    223 <= q,
                    b > 0,
            ;
        }
        assert(rem <= gmax((n - 1) as nat));
        lemma_decode_encode(rem, (n - 1) as nat);
        let rest = encode_spec(rem, (n - 1) as nat);
        lemma_decode_front((t + 32) as u8, rest);
        assert(encode_spec(v, n) == seq![(t + 32) as u8] + rest);
    }
}

/// Bytes that are all encoded digits below 128 decode to a value below `128^n`.
proof fn lemma_decode_small(s: Seq<u8>)
    requires
        all_encoded_digits(s),
    ensures
        0 <= decode_spec(s) < pow128(s.len()),
    decreases s.len(),
{
    if s.len() > 0 {
        lemma_decode_small(s.drop_last());
        let p = pow128(s.drop_last().len());
        let d = decode_spec(s.drop_last());
        let x = s.last() - 32;
        assert(0 <= x < 128);
        assert(d * 128 + x < 128 * p) by (nonlinear_arith)
            requires
                0 <= d < p,
                0 <= x < 128,
        ;
    }
}

/// A sequence of encoded digits below 128 is what the encoder produces for its own value.
pub proof fn lemma_encode_decode(s: Seq<u8>)
    requires
        all_encoded_digits(s),
    ensures
        decode_spec(s) >= 0,
        encode_spec(decode_spec(s) as nat, s.len()) =~= s,
    decreases s.len(),
{
    lemma_decode_small(s);
    if s.len() > 0 {
        let rest = s.drop_first();
        assert(all_encoded_digits(rest));
        assert(s =~= seq![s[0]] + rest);
        lemma_decode_front(s[0], rest);
        lemma_decode_small(rest);
        lemma_encode_decode(rest);
        let b: int = pow128(rest.len()) as int;
        let x: int = s[0] - 32;
        let dr: int = decode_spec(rest);
        let v: int = x * b + dr;
        assert(v / b == x && v % b == dr) by {
            vstd::arithmetic::div_mod::lemma_fundamental_div_mod_converse(v, b, x, dr);
        }
        assert(((s.len() - 1) as nat) == rest.len());
        assert(top_digit(v as nat, s.len()) == x);
        assert(v - x * b == dr);
    }
}

/// Kinds of failure of the underlying byte source.
#[derive(Debug, Clone, Copy, PartialEq, Eq)]
pub enum IoErrorKind {
    /// The source ended before the requested bytes could be read.
    UnexpectedEof,
}

/// Errors that can occur when reading or writing Graal-encoded data.
#[derive(Debug, Clone, Copy, PartialEq, Eq)]
pub enum GraalIoError {
    /// A null terminator was not found when reading a string.
    NoNullTerminator(),
    /// A value exceeds the maximum for a Graal-encoded integer: the value, then the maximum.
    ValueExceedsMaximum(u64, u64),
    /// The byte source failed.
    Io(IoErrorKind),
}

/// A reader that reads Graal-encoded data from a sequence of bytes.
pub struct GraalReader {
    inner: Vec<u8>,
    pos: usize,
}

impl View for GraalReader {
    /// The bytes, and the position of the next byte to read.
    type V = (Seq<u8>, nat);

    closed spec fn view(&self) -> (Seq<u8>, nat) {
        (self.inner@, self.pos as nat)
    }
}

/// The bytes of a reader that are still to be read.
pub open spec fn remaining(r: (Seq<u8>, nat)) -> Seq<u8> {
    r.0.skip(r.1 as int)
}

/// The reader state after a read that ran out of bytes: all of them consumed.
pub open spec fn exhausted(r: (Seq<u8>, nat)) -> (Seq<u8>, nat) {
    (r.0, r.0.len())
}

/// The reader state after reading `n` more bytes.
pub open spec fn advanced(r: (Seq<u8>, nat), n: nat) -> (Seq<u8>, nat) {
    (r.0, r.1 + n)
}

/// The result of reading `n` Graal-encoded bytes from a reader state.
pub open spec fn read_gu_spec(r: (Seq<u8>, nat), n: nat) -> Result<u64, GraalIoError> {
    if r.1 + n <= r.0.len() {
        Ok(decode_spec(r.0.subrange(r.1 as int, (r.1 + n) as int)) as u64)
    } else {
        Err(GraalIoError::Io(IoErrorKind::UnexpectedEof))
    }
}

/// Reading `n` Graal-encoded bytes from this reader state does not underflow a byte.
pub open spec fn gu_readable(r: (Seq<u8>, nat), n: nat) -> bool {
    r.1 + n <= r.0.len() ==> all_printable(r.0.subrange(r.1 as int, (r.1 + n) as int))
}

impl GraalReader {
    #[verifier::type_invariant]
    spec fn inv(self) -> bool {
        self.pos <= self.inner.len()
    }

    /// Creates a reader over the given bytes, positioned at the first byte.
    pub fn new(inner: Vec<u8>) -> (r: Self)
        ensures
            r@ == (inner@, 0nat),
    {
        GraalReader { inner, pos: 0 }
    }

    /// The bytes that the reader reads from.
    pub fn into_inner(self) -> (v: Vec<u8>)
        ensures
            v@ == self@.0,
    {
        self.inner
    }

    /// The position of the next byte to read, which is never past the end of the bytes.
    pub fn position(&self) -> (p: usize)
        ensures
            p == self@.1,
            p <= self@.0.len(),
    {
        proof {
            use_type_invariant(self);
        }
        self.pos
    }

    /// Decodes a sequence of Graal-encoded bytes.
    pub fn decode_bits(slice: &[u8]) -> (value: u64)
        requires
            slice@.len() <= 9,
            all_printable(slice@),
        ensures
            value == decode_spec(slice@),
    {
        let mut value: u64 = 0;
        let mut i: usize = 0;
        while i < slice.len()
            invariant
                i <= slice@.len() <= 9,
                all_printable(slice@),
                value == decode_spec(slice@.take(i as int)),
            decreases slice@.len() - i,
        {
            let chunk = slice[i] - 32;
            let ghost next = slice@.take(i + 1);
            proof {
                assert(next.drop_last() =~= slice@.take(i as int));
                assert(all_printable(next));
                lemma_decode_fits(next);
            }
            value = value * 128 + chunk as u64;
            i = i + 1;
        }
        assert(slice@.take(i as int) =~= slice@);
        value
    }

    /// Takes the next `n` bytes, if there are that many.
    fn take_bytes(&mut self, n: usize) -> (r: Option<Vec<u8>>)
        ensures
            old(self)@.1 + n <= old(self)@.0.len() ==> {
                &&& r matches Some(b)
                &&& b@ == old(self)@.0.subrange(old(self)@.1 as int, old(self)@.1 + n)
                &&& final(self)@ == advanced(old(self)@, n as nat)
            },
            old(self)@.1 + n > old(self)@.0.len() ==> r is None && final(self)@ == exhausted(old(self)@),
    {
        proof {
            use_type_invariant(&*self);
        }
        if n <= self.inner.len() - self.pos {
            let mut out: Vec<u8> = Vec::new();
            let mut i: usize = 0;
            let start = self.pos;
            let data = &self.inner;
            while i < n
                invariant
                    i <= n,
                    start + n <= data.len(),
                    out@ =~= data@.subrange(start as int, start + i),
                decreases n - i,
            {
                out.push(data[start + i]);
                i = i + 1;
            }
            self.pos = self.pos + n;
            Some(out)
        } else {
            self.pos = self.inner.len();
            None
        }
    }

    /// Reads a null-terminated string. Each byte before the terminator is read as the
    /// Latin-1 character of the same code; the length in bytes comes with it.
    pub fn read_string(&mut self) -> (r: Result<(String, u32), GraalIoError>)
        ensures
            match first_zero(remaining(old(self)@)) {
                Some(k) => {
                    &&& r matches Ok((s, len))
                    &&& s@ == latin1_chars(remaining(old(self)@).take(k as int))
                    &&& len == k as u32
                    &&& final(self)@ == advanced(old(self)@, k + 1)
                },
                None => r == Err::<(String, u32), GraalIoError>(GraalIoError::NoNullTerminator())
                    && final(self)@ == exhausted(old(self)@),
            },
    {
        proof {
            use_type_invariant(&*self);
        }
        let ghost rest = remaining(self@);
        let start = self.pos;
        let mut i = self.pos;
        while i < self.inner.len() && self.inner[i] != 0
            invariant
                start == self.pos,
                rest == self.inner@.skip(start as int),
                start <= i <= self.inner@.len(),
                forall|j: int| start <= j < i ==> self.inner@[j] != 0,
            decreases self.inner@.len() - i,
        {
            i = i + 1;
        }
        proof {
            lemma_first_zero_scan(rest, (i - start) as nat);
        }
        if i == self.inner.len() {
            self.pos = self.inner.len();
            return Err(GraalIoError::NoNullTerminator());
        }
        let count = i - start;
        let bytes = self.take_bytes(count).unwrap();
        let s = latin1_to_string(bytes.as_slice());
        proof {
            assert(bytes@ =~= rest.take(count as int));
        }
        self.pos = self.pos + 1;
        Ok((s, count as u32))
    }

    /// Reads a string that is prefixed by its length as a one-byte Graal-encoded integer.
    pub fn read_gstring(&mut self) -> (r: Result<String, GraalIoError>)
        requires
            gu_readable(old(self)@, 1),
        ensures
            match read_gu_spec(old(self)@, 1) {
                Ok(len) => {
                    let after = advanced(old(self)@, 1);
                    if after.1 + len <= after.0.len() {
                        &&& r matches Ok(s)
                        &&& s@ == latin1_chars(remaining(after).take(len as int))
                        &&& final(self)@ == advanced(after, len as nat)
                    } else {
                        &&& r == Err::<String, GraalIoError>(
                            GraalIoError::Io(IoErrorKind::UnexpectedEof),
                        )
                        &&& final(self)@ == exhausted(old(self)@)
                    }
                },
                Err(e) => r == Err::<String, GraalIoError>(e) && final(self)@ == exhausted(old(self)@),
            },
    {
        proof {
            use_type_invariant(&*self);
        }
        let start = self.pos;
        let length = self.read_gu8()?;
        proof {
            let b = old(self)@.0.subrange(start as int, start + 1);
            assert(b.drop_last() =~= Seq::<u8>::empty());
            assert(decode_spec(b.drop_last()) == 0);
            assert(decode_spec(b) == b.last() - 32);
            assert(length <= 223);
        }
        match self.take_bytes(length as usize) {
            Some(bytes) => {
                let s = latin1_to_string(bytes.as_slice());
                proof {
                    assert(bytes@ =~= remaining(advanced(old(self)@, 1)).take(length as int));
                }
                Ok(s)
            },
            None => Err(GraalIoError::Io(IoErrorKind::UnexpectedEof)),
        }
    }

    /// Reads an unsigned byte.
    pub fn read_u8(&mut self) -> (r: Result<u8, GraalIoError>)
        ensures
            old(self)@.1 + 1 <= old(self)@.0.len() ==> r == Ok::<u8, GraalIoError>(
                old(self)@.0[old(self)@.1 as int],
            ) && final(self)@ == advanced(old(self)@, 1),
            old(self)@.1 + 1 > old(self)@.0.len() ==> r == Err::<u8, GraalIoError>(
                GraalIoError::Io(IoErrorKind::UnexpectedEof),
            ) && final(self)@ == exhausted(old(self)@),
    {
        match self.take_bytes(1) {
            Some(b) => Ok(b[0]),
            None => Err(GraalIoError::Io(IoErrorKind::UnexpectedEof)),
        }
    }

    /// Reads a big-endian unsigned 16-bit integer.
    pub fn read_u16(&mut self) -> (r: Result<u16, GraalIoError>)
        ensures
            ({
                let d = old(self)@.0;
                let p = old(self)@.1 as int;
                if p + 2 <= d.len() {
                    r == Ok::<u16, GraalIoError>(be_u16(d[p], d[p + 1])) && final(self)@
                        == advanced(old(self)@, 2)
                } else {
                    r == Err::<u16, GraalIoError>(GraalIoError::Io(IoErrorKind::UnexpectedEof))
                        && final(self)@ == exhausted(old(self)@)
                }
            }),
    {
        match self.take_bytes(2) {
            Some(b) => Ok((b[0] as u16) * 256 + b[1] as u16),
            None => Err(GraalIoError::Io(IoErrorKind::UnexpectedEof)),
        }
    }

    /// Reads a big-endian unsigned 32-bit integer.
    pub fn read_u32(&mut self) -> (r: Result<u32, GraalIoError>)
        ensures
            ({
                let d = old(self)@.0;
                let p = old(self)@.1 as int;
                if p + 4 <= d.len() {
                    r == Ok::<u32, GraalIoError>(be_u32(d[p], d[p + 1], d[p + 2], d[p + 3]))
                        && final(self)@ == advanced(old(self)@, 4)
                } else {
                    r == Err::<u32, GraalIoError>(GraalIoError::Io(IoErrorKind::UnexpectedEof))
                        && final(self)@ == exhausted(old(self)@)
                }
            }),
    {
        match self.take_bytes(4) {
            Some(b) => Ok((b[0] as u32) * 0x1000000 + (b[1] as u32) * 0x10000 + (b[2] as u32)
                * 0x100 + b[3] as u32),
            None => Err(GraalIoError::Io(IoErrorKind::UnexpectedEof)),
        }
    }

    /// Reads a one-byte Graal-encoded unsigned integer.
    pub fn read_gu8(&mut self) -> (r: Result<u64, GraalIoError>)
        requires
            gu_readable(old(self)@, 1),
        ensures
            r == read_gu_spec(old(self)@, 1),
            r is Ok ==> final(self)@ == advanced(old(self)@, 1),
            r is Err ==> final(self)@ == exhausted(old(self)@),
    {
        self.read_gu(1)
    }

    /// Reads a two-byte Graal-encoded unsigned integer.
    pub fn read_gu16(&mut self) -> (r: Result<u64, GraalIoError>)
        requires
            gu_readable(old(self)@, 2),
        ensures
            r == read_gu_spec(old(self)@, 2),
            r is Ok ==> final(self)@ == advanced(old(self)@, 2),
            r is Err ==> final(self)@ == exhausted(old(self)@),
    {
        self.read_gu(2)
    }

    /// Reads a three-byte Graal-encoded unsigned integer.
    pub fn read_gu24(&mut self) -> (r: Result<u64, GraalIoError>)
        requires
            gu_readable(old(self)@, 3),
        ensures
            r == read_gu_spec(old(self)@, 3),
            r is Ok ==> final(self)@ == advanced(old(self)@, 3),
            r is Err ==> final(self)@ == exhausted(old(self)@),
    {
        self.read_gu(3)
    }

    /// Reads a four-byte Graal-encoded unsigned integer.
    pub fn read_gu32(&mut self) -> (r: Result<u64, GraalIoError>)
        requires
            gu_readable(old(self)@, 4),
        ensures
            r == read_gu_spec(old(self)@, 4),
            r is Ok ==> final(self)@ == advanced(old(self)@, 4),
            r is Err ==> final(self)@ == exhausted(old(self)@),
    {
        self.read_gu(4)
    }

    /// Reads a five-byte Graal-encoded unsigned integer.
    pub fn read_gu40(&mut self) -> (r: Result<u64, GraalIoError>)
        requires
            gu_readable(old(self)@, 5),
        ensures
            r == read_gu_spec(old(self)@, 5),
            r is Ok ==> final(self)@ == advanced(old(self)@, 5),
            r is Err ==> final(self)@ == exhausted(old(self)@),
    {
        self.read_gu(5)
    }

    /// Reads `n` bytes and decodes them as a Graal-encoded unsigned integer.
    pub fn read_gu(&mut self, n: usize) -> (r: Result<u64, GraalIoError>)
        requires
            n <= 9,
            gu_readable(old(self)@, n as nat),
        ensures
            r == read_gu_spec(old(self)@, n as nat),
            r is Ok ==> final(self)@ == advanced(old(self)@, n as nat),
            r is Err ==> final(self)@ == exhausted(old(self)@),
    {
        match self.take_bytes(n) {
            Some(b) => {
                proof {
                    lemma_decode_fits(b@);
                }
                Ok(Self::decode_bits(b.as_slice()))
            },
            None => Err(GraalIoError::Io(IoErrorKind::UnexpectedEof)),
        }
    }
}

/// Scanning a sequence up to its first zero byte finds `first_zero`.
proof fn lemma_first_zero_scan(s: Seq<u8>, k: nat)
    requires
        k <= s.len(),
        forall|j: int| 0 <= j < k ==> s[j] != 0,
        k < s.len() ==> s[k as int] == 0,
    ensures
        k < s.len() ==> first_zero(s) == Some(k),
        k == s.len() ==> first_zero(s) is None,
    decreases k,
{
    if k > 0 {
        lemma_first_zero_scan(s.drop_first(), (k - 1) as nat);
    }
}

/// The first zero byte lies within the sequence.
pub proof fn lemma_first_zero_bound(s: Seq<u8>)
    ensures
        first_zero(s) matches Some(k) ==> k < s.len() && s[k as int] == 0,
    decreases s.len(),
{
    if s.len() > 0 && s[0] != 0 {
        lemma_first_zero_bound(s.drop_first());
    }
}

/// A writer that writes Graal-encoded data to a growing sequence of bytes.
pub struct GraalWriter {
    inner: Vec<u8>,
}

impl View for GraalWriter {
    type V = Seq<u8>;

    closed spec fn view(&self) -> Seq<u8> {
        self.inner@
    }
}

/// The result of writing a Graal-encoded integer of `n` bytes whose maximum is `max`.
pub open spec fn write_gu_spec(v: u64, max: u64) -> Result<(), GraalIoError> {
    if v > max {
        Err(GraalIoError::ValueExceedsMaximum(v, max))
    } else {
        Ok(())
    }
}

impl GraalWriter {
    /// Creates a writer that appends to the given bytes.
    pub fn new(inner: Vec<u8>) -> (w: Self)
        ensures
            w@ == inner@,
    {
        GraalWriter { inner }
    }

    /// The bytes written so far, after those the writer started with.
    pub fn into_inner(self) -> (v: Vec<u8>)
        ensures
            v@ == self@,
    {
        self.inner
    }

    /// Encodes `value` in `byte_count` Graal-encoded bytes into `buffer`, replacing its contents.
    pub fn encode_bits(value: u64, buffer: &mut Vec<u8>, byte_count: usize)
        requires
            byte_count <= 10,
        ensures
            final(buffer)@ == encode_spec(value as nat, byte_count as nat),
    {
        *buffer = encode_digits(value, byte_count);
    }

    /// Writes the given bytes.
    pub fn write(&mut self, vec: &[u8]) -> (r: Result<(), GraalIoError>)
        ensures
            r is Ok,
            final(self)@ == old(self)@ + vec@,
    {
        let mut i: usize = 0;
        while i < vec.len()
            invariant
                i <= vec@.len(),
                self@ =~= old(self)@ + vec@.take(i as int),
            decreases vec@.len() - i,
        {
            self.inner.push(vec[i]);
            i = i + 1;
        }
        assert(vec@.take(i as int) =~= vec@);
        Ok(())
    }

    /// Writes the UTF-8 bytes of a string, followed by a null terminator.
    pub fn write_string(&mut self, s: &str) -> (r: Result<(), GraalIoError>)
        ensures
            r is Ok,
            final(self)@ == old(self)@ + s.spec_bytes() + seq![0u8],
    {
        self.write(s.as_bytes())?;
        let zero: [u8; 1] = [0];
        self.write(&zero)?;
        assert(zero@ =~= seq![0u8]);
        Ok(())
    }

    /// Writes a string prefixed by its length in bytes as a one-byte Graal-encoded integer.
    pub fn write_gstring(&mut self, s: &str) -> (r: Result<(), GraalIoError>)
        ensures
            r == write_gu_spec(s.len() as u64, GUINT8_MAX),
            r is Ok ==> final(self)@ == old(self)@ + encode_spec(s.len() as nat, 1)
                + s.spec_bytes(),
            r is Err ==> final(self)@ == old(self)@,
    {
        let length = s.len();
        match self.write_gu8(length as u64) {
            Ok(()) => {},
            Err(e) => return Err(e),
        }
        let _ = self.write(s.as_bytes());
        Ok(())
    }

    /// Writes an unsigned byte.
    pub fn write_u8(&mut self, c: u8) -> (r: Result<(), GraalIoError>)
        ensures
            r is Ok,
            final(self)@ == old(self)@.push(c),
    {
        let b: [u8; 1] = [c];
        let r = self.write(&b);
        assert(b@ =~= seq![c]);
        r
    }

    /// Writes a big-endian unsigned 16-bit integer.
    pub fn write_u16(&mut self, s: u16) -> (r: Result<(), GraalIoError>)
        ensures
            r is Ok,
            final(self)@ == old(self)@ + be_bytes_u16(s),
    {
        let b: [u8; 2] = [(s / 256) as u8, (s % 256) as u8];
        let r = self.write(&b);
        assert(b@ =~= be_bytes_u16(s));
        r
    }

    /// Writes a big-endian unsigned 32-bit integer.
    pub fn write_u32(&mut self, i: u32) -> (r: Result<(), GraalIoError>)
        ensures
            r is Ok,
            final(self)@ == old(self)@ + be_bytes_u32(i),
    {
        let b: [u8; 4] = [
            (i / 0x1000000) as u8,
            ((i / 0x10000) % 256) as u8,
            ((i / 0x100) % 256) as u8,
            (i % 256) as u8,
        ];
        let r = self.write(&b);
        assert(b@ =~= be_bytes_u32(i));
        r
    }

    /// Writes a Graal-encoded integer of `n` bytes, if `v` is at most `max`.
    fn write_gu(&mut self, v: u64, max: u64, n: usize) -> (r: Result<(), GraalIoError>)
        requires
            n <= 10,
        ensures
            r == write_gu_spec(v, max),
            r is Ok ==> final(self)@ == old(self)@ + encode_spec(v as nat, n as nat),
            r is Err ==> final(self)@ == old(self)@,
    {
        if v > max {
            return Err(GraalIoError::ValueExceedsMaximum(v, max));
        }
        let mut buffer: Vec<u8> = Vec::new();
        Self::encode_bits(v, &mut buffer, n);
        let _ = self.write(buffer.as_slice());
        Ok(())
    }

    /// Writes a one-byte Graal-encoded integer: the value plus 32.
    pub fn write_gu8(&mut self, v: u64) -> (r: Result<(), GraalIoError>)
        ensures
            r == write_gu_spec(v, GUINT8_MAX),
            r is Ok ==> final(self)@ == old(self)@ + encode_spec(v as nat, 1),
            r is Ok ==> final(self)@ == old(self)@.push((v + 32) as u8),
            r is Err ==> final(self)@ == old(self)@,
    {
        let r = self.write_gu(v, GUINT8_MAX, 1);
        proof {
            if v <= GUINT8_MAX {
                law_gu8_roundtrip(v);
                assert(old(self)@ + seq![(v + 32) as u8] =~= old(self)@.push((v + 32) as u8));
            }
        }
        r
    }

    /// Writes a two-byte Graal-encoded integer.
    pub fn write_gu16(&mut self, v: u64) -> (r: Result<(), GraalIoError>)
        ensures
            r == write_gu_spec(v, GUINT16_MAX),
            r is Ok ==> final(self)@ == old(self)@ + encode_spec(v as nat, 2),
            r is Err ==> final(self)@ == old(self)@,
    {
        self.write_gu(v, GUINT16_MAX, 2)
    }

    /// Writes a three-byte Graal-encoded integer.
    pub fn write_gu24(&mut self, v: u64) -> (r: Result<(), GraalIoError>)
        ensures
            r == write_gu_spec(v, GUINT24_MAX),
            r is Ok ==> final(self)@ == old(self)@ + encode_spec(v as nat, 3),
            r is Err ==> final(self)@ == old(self)@,
    {
        self.write_gu(v, GUINT24_MAX, 3)
    }

    /// Writes a four-byte Graal-encoded integer.
    pub fn write_gu32(&mut self, v: u64) -> (r: Result<(), GraalIoError>)
        ensures
            r == write_gu_spec(v, GUINT32_MAX),
            r is Ok ==> final(self)@ == old(self)@ + encode_spec(v as nat, 4),
            r is Err ==> final(self)@ == old(self)@,
    {
        self.write_gu(v, GUINT32_MAX, 4)
    }

    /// Writes a five-byte Graal-encoded integer.
    pub fn write_gu40(&mut self, v: u64) -> (r: Result<(), GraalIoError>)
        ensures
            r == write_gu_spec(v, GUINT40_MAX),
            r is Ok ==> final(self)@ == old(self)@ + encode_spec(v as nat, 5),
            r is Err ==> final(self)@ == old(self)@,
    {
        self.write_gu(v, GUINT40_MAX, 5)
    }
}

/// `128` to the power `k`.
fn pow128_exec(k: usize) -> (r: u64)
    requires
        k <= 9,
    ensures
        r == pow128(k as nat),
{
    let mut r: u64 = 1;
    let mut i: usize = 0;
    while i < k
        invariant
            i <= k,
            k <= 9,
            r == pow128(i as nat),
        decreases k - i,
    {
        proof {
            lemma_pow128_mono((i + 1) as nat, 9);
            lemma_pow128_9();
        }
        r = r * 128;
        i = i + 1;
    }
    r
}

/// The `n` Graal-encoded digits of `v` (see `encode_spec`).
fn encode_digits(v: u64, n: usize) -> (r: Vec<u8>)
    requires
        n <= 10,
    ensures
        r@ == encode_spec(v as nat, n as nat),
    decreases n,
{
    if n == 0 {
        Vec::new()
    } else {
        let b = pow128_exec(n - 1);
        proof {
            lemma_pow128_pos((n - 1) as nat);
            vstd::arithmetic::div_mod::lemma_fundamental_div_mod(v as int, b as int);
            vstd::arithmetic::div_mod::lemma_mod_bound(v as int, b as int);
        }
        let q = v / b;
        let t = if q > 223 { 223 } else { q };
        assert(t * b <= q * b) by (nonlinear_arith)
            requires
                t <= q,
                b > 0,
        ;
        assert(q * b <= v) by (nonlinear_arith)
            requires
                v == b * q + v % b,
                v % b >= 0,
        ;
        let rest_v = v - t * b;
        let mut r: Vec<u8> = Vec::new();
        r.push((t + 32) as u8);
        let mut rest = encode_digits(rest_v, n - 1);
        r.append(&mut rest);
        proof {
            assert(r@ =~= seq![(t + 32) as u8] + encode_spec(rest_v as nat, (n - 1) as nat));
        }
        r
    }
}

/// Reading back a Graal-encoded integer: a reader over the `n` bytes that the writer produced
/// for `v` reads `v` again, for every `v` up to the largest value of `n` bytes.
pub proof fn law_write_then_read_gu(v: u64, n: nat)
    requires
        n <= 9,
        v <= gmax(n),
    ensures
        gu_readable((encode_spec(v as nat, n), 0nat), n),
        read_gu_spec((encode_spec(v as nat, n), 0nat), n) == Ok::<u64, GraalIoError>(v),
{
    lemma_decode_encode(v as nat, n);
    let e = encode_spec(v as nat, n);
    assert(e.subrange(0, n as int) =~= e);
}

/// The largest value of one Graal byte is `GUINT8_MAX`, and of two, three and four bytes the
/// matching maximum.
pub proof fn law_gu_maxima()
    ensures
        gmax(1) == GUINT8_MAX,
        gmax(2) == GUINT16_MAX,
        gmax(3) == GUINT24_MAX,
        gmax(4) == GUINT32_MAX,
{
    reveal_with_fuel(gmax, 5);
    reveal_with_fuel(pow128, 4);
}

/// A one-byte Graal integer is the value plus 32, and it reads back as the value.
pub proof fn law_gu8_roundtrip(v: u64)
    requires
        v <= GUINT8_MAX,
    ensures
        encode_spec(v as nat, 1) == seq![(v + 32) as u8],
        read_gu_spec((encode_spec(v as nat, 1), 0nat), 1) == Ok::<u64, GraalIoError>(v),
{
    reveal_with_fuel(gmax, 2);
    reveal_with_fuel(encode_spec, 2);
    assert(pow128(0) == 1);
    assert(v as nat / 1 == v);
    assert(top_digit(v as nat, 1) == v);
    assert(encode_spec(v as nat, 1) =~= seq![(v + 32) as u8]);
    law_write_then_read_gu(v, 1);
}

/// Writing back what was read: bytes that are all encoded digits are exactly the encoding of
/// the value they decode to.
pub proof fn law_read_then_write_gu(s: Seq<u8>)
    requires
        all_encoded_digits(s),
    ensures
        encode_spec(decode_spec(s) as nat, s.len()) == s,
{
    lemma_encode_decode(s);
}

/// Reading back big-endian integers: the bytes written for a 16-bit or a 32-bit value
/// read as the same value.
pub proof fn law_write_then_read_be(a: u16, b: u32)
    ensures
        be_u16(be_bytes_u16(a)[0], be_bytes_u16(a)[1]) == a,
        be_u32(be_bytes_u32(b)[0], be_bytes_u32(b)[1], be_bytes_u32(b)[2], be_bytes_u32(b)[3])
            == b,
{
}

/// Reading back a string: the bytes written for an ASCII string without a zero character,
/// followed by the terminator, read as the same string.
pub proof fn law_write_then_read_string(s: &str)
    requires
        vstd::string::is_ascii(s),
        forall|i: int| 0 <= i < s@.len() ==> s@[i] != '\0',
    ensures
        first_zero(s.spec_bytes() + seq![0u8]) == Some(s.spec_bytes().len()),
        latin1_chars((s.spec_bytes() + seq![0u8]).take(s.spec_bytes().len() as int)) == s@,
{
    vstd::string::is_ascii_spec_bytes(s);
    let b = s.spec_bytes();
    let t = b + seq![0u8];
    assert forall|j: int| 0 <= j < b.len() implies t[j] != 0 by {
        assert(t[j] == s@[j] as u8);
    }
    lemma_first_zero_scan(t, b.len());
    assert(t.take(b.len() as int) =~= b);
    assert(latin1_chars(b) =~= s@);
}

} // verus!
