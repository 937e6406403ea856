//! Hashing and value-source utilities shared by the workload engine.

use vstd::prelude::*;
use vstd::string::StringExecFns;
use vstd::utf8::is_ascii_chars;

verus! {

/// Offset basis of the 64-bit FNV-1 hash.
pub const FNV_OFFSET_BASIS_64: u64 = 0xCBF29CE484222325;

/// Prime of the 64-bit FNV-1 hash.
pub const FNV_PRIME_64: u64 = 1099511628211;

/// The little-endian bytes of a 64-bit value.
pub open spec fn u64_le_bytes(v: u64) -> Seq<u8> {
    Seq::new(8, |i: int| (v >> (8 * i)) as u8)
}

/// The 64-bit FNV-1 hash of a byte sequence: starting from the offset
/// basis, each byte multiplies the hash by the FNV prime (mod 2^64) and
/// is then folded in with exclusive or.
pub open spec fn fnv1_64(bytes: Seq<u8>) -> u64
    decreases bytes.len(),
{
    if bytes.len() == 0 {
        FNV_OFFSET_BASIS_64
    } else {
        vstd::wrapping::u64_specs::wrapping_mul(fnv1_64(bytes.drop_last()), FNV_PRIME_64) ^ (
        bytes.last() as u64)
    }
}

/// The 64-bit FNV-1 hash of the eight little-endian bytes of `val`.
pub fn fnvhash64(val: u64) -> (r: u64)
    ensures
        r == fnv1_64(u64_le_bytes(val)),
{
    let mut hash = FNV_OFFSET_BASIS_64;
    let mut v = val;
    let mut i: usize = 0;
    proof {
        assert(val >> 0u64 == val) by (bit_vector);
    }
    while i < 8
        invariant
            0 <= i <= 8,
            v == val >> (8 * i as u64),
            hash == fnv1_64(u64_le_bytes(val).take(i as int)),
        decreases 8 - i,
    {
        let byte = v as u8;
        v = v >> 8;
        hash = hash.wrapping_mul(FNV_PRIME_64) ^ (byte as u64);
        proof {
            let s = u64_le_bytes(val);
            assert(s.take(i + 1).drop_last() =~= s.take(i as int));
            assert(s.take(i + 1).last() == s[i as int]);
            let sh: u64 = (8 * i) as u64;
            assert(sh <= 56 ==> ((val >> sh) >> 8) == (val >> (sh + 8))) by (bit_vector);
        }
        i = i + 1;
    }
    proof {
        assert(u64_le_bytes(val).take(8) =~= u64_le_bytes(val));
    }
    hash
}

/// The character for a single decimal digit.
pub open spec fn digit_char(d: int) -> char {
    if d == 0 {
        '0'
    } else if d == 1 {
        '1'
    } else if d == 2 {
        '2'
    } else if d == 3 {
        '3'
    } else if d == 4 {
        '4'
    } else if d == 5 {
        '5'
    } else if d == 6 {
        '6'
    } else if d == 7 {
        '7'
    } else if d == 8 {
        '8'
    } else {
        '9'
    }
}

/// The numeric value of a single decimal digit character.
pub open spec fn char_digit(c: char) -> int {
    if c == '0' {
        0
    } else if c == '1' {
        1
    } else if c == '2' {
        2
    } else if c == '3' {
        3
    } else if c == '4' {
        4
    } else if c == '5' {
        5
    } else if c == '6' {
        6
    } else if c == '7' {
        7
    } else if c == '8' {
        8
    } else {
        9
    }
}

/// The decimal representation of `n`, most significant digit first.
pub open spec fn dec_chars(n: nat) -> Seq<char>
    decreases n,
{
    if n < 10 {
        seq![digit_char(n as int)]
    } else {
        dec_chars(n / 10) + seq![digit_char((n % 10) as int)]
    }
}

/// A run of `k` zero characters.
pub open spec fn zero_run(k: nat) -> Seq<char> {
    Seq::new(k, |i: int| '0')
}

/// The decimal representation of `n`, left-padded with zeros to at
/// least `width` characters.
pub open spec fn padded_dec_chars(n: nat, width: nat) -> Seq<char> {
    if dec_chars(n).len() >= width {
        dec_chars(n)
    } else {
        zero_run((width - dec_chars(n).len()) as nat) + dec_chars(n)
    }
}

/// The numeric value of a sequence of decimal digit characters.
pub open spec fn dec_value(s: Seq<char>) -> int
    decreases s.len(),
{
    if s.len() == 0 {
        0
    } else {
        dec_value(s.drop_last()) * 10 + char_digit(s.last())
    }
}

/// The decimal representation never has fewer than one character, and
/// every character of it is an ASCII digit.
pub proof fn lemma_dec_chars_basic(n: nat)
    ensures
        dec_chars(n).len() >= 1,
        is_ascii_chars(dec_chars(n)),
    decreases n,
{
    if n >= 10 {
        lemma_dec_chars_basic(n / 10);
    }
}

/// Decoding the decimal representation of `n` yields `n` again.
pub proof fn lemma_dec_chars_value(n: nat)
    ensures
        dec_value(dec_chars(n)) == n,
    decreases n,
{
    if n < 10 {
        assert(dec_chars(n).drop_last() =~= Seq::<char>::empty());
        assert(dec_value(Seq::<char>::empty()) == 0);
        assert(dec_chars(n).last() == digit_char(n as int));
        assert(char_digit(digit_char(n as int)) == n);
    } else {
        lemma_dec_chars_value(n / 10);
        assert(dec_chars(n).drop_last() =~= dec_chars(n / 10));
        assert(dec_chars(n).last() == digit_char((n % 10) as int));
        assert(char_digit(digit_char((n % 10) as int)) == n % 10);
        vstd::arithmetic::div_mod::lemma_fundamental_div_mod(n as int, 10);
    }
}

/// Leading zero characters do not change the decoded value.
pub proof fn lemma_dec_value_zero_prefix(k: nat, s: Seq<char>)
    ensures
        dec_value(zero_run(k) + s) == dec_value(s),
    decreases s.len(), k,
{
    if s.len() == 0 {
        if k == 0 {
            assert(zero_run(0) + s =~= Seq::<char>::empty());
        } else {
            assert((zero_run(k) + s).drop_last() =~= zero_run((k - 1) as nat) + s);
            lemma_dec_value_zero_prefix((k - 1) as nat, s);
            assert((zero_run(k) + s).last() == '0');
        }
    } else {
        assert((zero_run(k) + s).drop_last() =~= zero_run(k) + s.drop_last());
        lemma_dec_value_zero_prefix(k, s.drop_last());
        assert((zero_run(k) + s).last() == s.last());
    }
}

/// Decoding the zero-padded decimal representation of `n` yields `n`
/// again, whatever the padding width.
pub proof fn lemma_padded_dec_value(n: nat, width: nat)
    ensures
        dec_value(padded_dec_chars(n, width)) == n,
{
    lemma_dec_chars_value(n);
    if dec_chars(n).len() < width {
        lemma_dec_value_zero_prefix((width - dec_chars(n).len()) as nat, dec_chars(n));
    }
}

/// The zero-padded decimal representation is ASCII and at least as wide
/// as asked.
pub proof fn lemma_padded_dec_basic(n: nat, width: nat)
    ensures
        padded_dec_chars(n, width).len() >= width,
        padded_dec_chars(n, width).len() >= 1,
        is_ascii_chars(padded_dec_chars(n, width)),
{
    lemma_dec_chars_basic(n);
}

/// One-character string slice for the decimal digit `d`.
fn digit_str(d: u64) -> (r: &'static str)
    requires
        d < 10,
    ensures
        r@ =~= seq![digit_char(d as int)],
{
    proof {
        reveal_strlit("0");
        reveal_strlit("1");
        reveal_strlit("2");
        reveal_strlit("3");
        reveal_strlit("4");
        reveal_strlit("5");
        reveal_strlit("6");
        reveal_strlit("7");
        reveal_strlit("8");
        reveal_strlit("9");
    }
    match d {
        0 => "0",
        1 => "1",
        2 => "2",
        3 => "3",
        4 => "4",
        5 => "5",
        6 => "6",
        7 => "7",
        8 => "8",
        _ => "9",
    }
}

/// The characters of the digit values in `ds`, read back to front.
pub open spec fn rev_digit_chars(ds: Seq<u64>) -> Seq<char> {
    Seq::new(ds.len(), |i: int| digit_char(ds[ds.len() - 1 - i] as int))
}

/// Renders `n` in decimal, left-padded with zeros to at least `width`
/// characters.
pub fn format_u64_padded(n: u64, width: usize) -> (s: String)
    ensures
        s@ == padded_dec_chars(n as nat, width as nat),
        is_ascii_chars(s@),
{
    let mut digs: Vec<u64> = Vec::new();
    let mut m = n;
    if n == 0 {
        digs.push(0);
    }
    while m > 0
        invariant
            forall|j: int| 0 <= j < digs@.len() ==> digs@[j] < 10,
            dec_chars(n as nat) =~= (if m > 0 {
                dec_chars(m as nat) + rev_digit_chars(digs@)
            } else {
                rev_digit_chars(digs@)
            }),
            m == 0 ==> digs@.len() >= 1,
        decreases m,
    {
        let ghost pre = digs@;
        let ghost mpre = m as nat;
        digs.push(m % 10);
        m = m / 10;
        proof {
            assert(rev_digit_chars(pre.push(mpre as u64 % 10)) =~= seq![
                digit_char((mpre % 10) as int),
            ] + rev_digit_chars(pre));
            if m > 0 {
                assert(dec_chars(mpre) + rev_digit_chars(pre) =~= dec_chars(mpre / 10)
                    + rev_digit_chars(pre.push(mpre as u64 % 10)));
            } else {
                assert(dec_chars(mpre) =~= seq![digit_char((mpre % 10) as int)]);
                assert(dec_chars(mpre) + rev_digit_chars(pre) =~= rev_digit_chars(
                    pre.push(mpre as u64 % 10),
                ));
            }
        }
    }
    let dlen = digs.len();
    let ghost pad: nat = if (width as int) > (dlen as int) {
        (width - dlen) as nat
    } else {
        0
    };
    let mut s = String::new();
    let mut p = dlen;
    while p < width
        invariant
            p >= dlen,
            p <= width || dlen >= width,
            dlen >= width ==> p == dlen,
            s@ =~= zero_run((p - dlen) as nat),
        decreases width - p,
    {
        proof {
            reveal_strlit("0");
            assert("0"@ =~= seq!['0']);
            assert(zero_run((p - dlen) as nat) + seq!['0'] =~= zero_run((p + 1 - dlen) as nat));
        }
        s.append("0");
        p = p + 1;
    }
    proof {
        assert(p >= width);
        if dlen < width {
            assert(p <= width);
            assert(p == width);
        }
        assert((p - dlen) as nat == pad);
        assert(s@ =~= zero_run(pad));
    }
    let mut i = dlen;
    while i > 0
        invariant
            i <= dlen,
            dlen == digs@.len(),
            forall|j: int| 0 <= j < digs@.len() ==> digs@[j] < 10,
            dec_chars(n as nat) =~= rev_digit_chars(digs@),
            s@ =~= zero_run(pad) + rev_digit_chars(digs@).take(dlen - i),
        decreases i,
    {
        i = i - 1;
        let d = digs[i];
        let piece = digit_str(d);
        proof {
            assert(rev_digit_chars(digs@).take(dlen - i) =~= rev_digit_chars(digs@).take(
                dlen - (i + 1),
            ) + seq![digit_char(digs@[i as int] as int)]);
        }
        s.append(piece);
    }
    proof {
        assert(rev_digit_chars(digs@).take(dlen as int) =~= rev_digit_chars(digs@));
        lemma_dec_chars_basic(n as nat);
        if pad == 0 {
            assert(zero_run(0) + rev_digit_chars(digs@) =~= rev_digit_chars(digs@));
        }
        assert(s@ =~= padded_dec_chars(n as nat, width as nat));
    }
    s
}

/// True when `b` is the ASCII code of a decimal digit or an upper- or
/// lower-case letter.
pub open spec fn is_alphanumeric_byte(b: u8) -> bool {
    (48 <= b <= 57) || (65 <= b <= 90) || (97 <= b <= 122)
}

/// Compares two byte vectors for equality of contents.
pub fn bytes_eq(a: &Vec<u8>, b: &Vec<u8>) -> (r: bool)
    ensures
        r == (a@ == b@),
{
    if a.len() != b.len() {
        proof {
            assert(a@.len() != b@.len());
        }
        return false;
    }
    let n = a.len();
    let mut i: usize = 0;
    while i < n
        invariant
            n == a@.len() && n == b@.len(),
            0 <= i <= n,
            forall|j: int| 0 <= j < i ==> a@[j] == b@[j],
        decreases n - i,
    {
        if a[i] != b[i] {
            return false;
        }
        i = i + 1;
    }
    proof {
        assert(a@ =~= b@);
    }
    true
}

/// Lazily materialized random byte source: it produces a fixed number
/// of alphanumeric bytes, drawn only when read.
#[derive(Debug, Clone)]
pub struct RandomBytes {
    /// Number of bytes still to be produced.
    pub remaining: usize,
}

impl RandomBytes {
    /// Create a random byte source that will produce `size` bytes in
    /// total.
    pub fn new(size: usize) -> (r: RandomBytes)
        ensures
            r.remaining == size,
    {
        RandomBytes { remaining: size }
    }

    /// Produce up to `buf_len` random alphanumeric bytes, counting them
    /// off the remaining budget.
    pub fn read(&mut self, buf_len: usize) -> (v: Vec<u8>)
        ensures
            v@.len() == vstd::math::min(buf_len as int, old(self).remaining as int),
            final(self).remaining == old(self).remaining - v@.len(),
            forall|i: int| 0 <= i < v@.len() ==> is_alphanumeric_byte(v@[i]),
    {
        let len = if buf_len < self.remaining {
            buf_len
        } else {
            self.remaining
        };
        self.remaining = self.remaining - len;
        crate::rng::rand_alphanumeric_bytes(len)
    }
}

/// Record value type: either deterministic content used for data
/// integrity checks, or a lazily generated random byte stream.
#[derive(Debug, Clone)]
pub enum Value {
    /// Deterministic content with a read position.
    Deterministic {
        /// The full content.
        data: Vec<u8>,
        /// How many bytes of it have been read already.
        pos: usize,
    },
    /// A random value with minimal overhead.
    Random(RandomBytes),
}

impl Value {
    /// The read position of a deterministic value never passes its end.
    pub open spec fn wf(&self) -> bool {
        match self {
            Value::Deterministic { data, pos } => pos <= data@.len(),
            Value::Random(_) => true,
        }
    }

    /// Wrap a string as a deterministic value positioned at its start.
    pub fn from_string(value: String) -> (r: Value)
        ensures
            r matches Value::Deterministic { data, pos } && data@ == vstd::utf8::encode_utf8(
                value@,
            ) && pos == 0,
            r.wf(),
    {
        let data = value.as_str().as_bytes_vec();
        Value::Deterministic { data, pos: 0 }
    }

    /// Wrap a random byte source as a value.
    pub fn from_random(value: RandomBytes) -> (r: Value)
        ensures
            r == Value::Random(value),
            r.wf(),
    {
        Value::Random(value)
    }

    /// How many bytes a read to the end would currently produce.
    pub fn remaining_len(&self) -> (n: usize)
        requires
            self.wf(),
        ensures
            *self matches Value::Deterministic { data, pos } ==> n == data@.len() - pos,
            *self matches Value::Random(rb) ==> n == rb.remaining,
    {
        match self {
            Value::Deterministic { data, pos } => data.len() - *pos,
            Value::Random(rb) => rb.remaining,
        }
    }

    /// A copy of what a read to the end would yield, leaving the value
    /// untouched: the unread tail of a deterministic value (empty when
    /// the position lies past the end), or a fresh draw of the
    /// remaining budget of a random one.
    pub fn peek_remaining(&self) -> (v: Vec<u8>)
        ensures
            *self matches Value::Deterministic { data, pos } ==> v@ == (if pos <= data@.len() {
                data@.skip(pos as int)
            } else {
                Seq::<u8>::empty()
            }),
            *self matches Value::Random(rb) ==> v@.len() == rb.remaining,
    {
        match self {
            Value::Deterministic { data, pos } => {
                let end = data.len();
                let mut out: Vec<u8> = Vec::new();
                let mut j = if *pos < end {
                    *pos
                } else {
                    end
                };
                let ghost start = j;
                while j < end
                    invariant
                        start <= j <= end,
                        end == data@.len(),
                        out@ =~= data@.subrange(start as int, j as int),
                    decreases end - j,
                {
                    out.push(data[j]);
                    proof {
                        assert(out@ =~= data@.subrange(start as int, j + 1));
                    }
                    j = j + 1;
                }
                proof {
                    if *pos <= data@.len() {
                        assert(data@.subrange(start as int, end as int) =~= data@.skip(
                            *pos as int,
                        ));
                    } else {
                        assert(data@.subrange(start as int, end as int) =~= Seq::<u8>::empty());
                    }
                }
                out
            },
            Value::Random(rb) => crate::rng::rand_alphanumeric_bytes(rb.remaining),
        }
    }

    /// Read up to `buf_len` bytes: the next bytes of a deterministic
    /// value, or freshly drawn alphanumeric bytes of a random one.
    pub fn read(&mut self, buf_len: usize) -> (v: Vec<u8>)
        requires
            old(self).wf(),
        ensures
            final(self).wf(),
            *old(self) matches Value::Deterministic { data, pos } ==> {
                &&& v@ == data@.subrange(
                    pos as int,
                    vstd::math::min(pos + buf_len, data@.len() as int),
                )
                &&& *final(self) matches Value::Deterministic { data: d2, pos: p2 } && d2
                    == data && p2 == vstd::math::min(pos + buf_len, data@.len() as int)
            },
            *old(self) matches Value::Random(rb) ==> {
                &&& v@.len() == vstd::math::min(buf_len as int, rb.remaining as int)
                &&& *final(self) matches Value::Random(r2) && r2.remaining == rb.remaining
                    - v@.len()
                &&& forall|i: int| 0 <= i < v@.len() ==> is_alphanumeric_byte(v@[i])
            },
    {
        let mut taken = Value::Random(RandomBytes { remaining: 0 });
        core::mem::swap(&mut taken, self);
        match taken {
            Value::Deterministic { data, pos } => {
                let avail = data.len() - pos;
                let len = if buf_len < avail {
                    buf_len
                } else {
                    avail
                };
                let end = pos + len;
                let mut out: Vec<u8> = Vec::new();
                let mut j = pos;
                while j < end
                    invariant
                        pos <= j <= end,
                        end <= data@.len(),
                        out@ =~= data@.subrange(pos as int, j as int),
                    decreases end - j,
                {
                    out.push(data[j]);
                    proof {
                        assert(out@ =~= data@.subrange(pos as int, j + 1));
                    }
                    j = j + 1;
                }
                *self = Value::Deterministic { data, pos: end };
                out
            },
            Value::Random(mut rb) => {
                let out = rb.read(buf_len);
                *self = Value::Random(rb);
                out
            },
        }
    }

    /// Read everything that is left: the rest of a deterministic value,
    /// or the whole remaining random budget.
    pub fn read_to_end(&mut self) -> (v: Vec<u8>)
        requires
            old(self).wf(),
        ensures
            final(self).wf(),
            *old(self) matches Value::Deterministic { data, pos } ==> {
                &&& v@ == data@.skip(pos as int)
                &&& *final(self) matches Value::Deterministic { data: d2, pos: p2 } && d2
                    == data && p2 == data@.len()
            },
            *old(self) matches Value::Random(rb) ==> {
                &&& v@.len() == rb.remaining
                &&& *final(self) matches Value::Random(r2) && r2.remaining == 0
                &&& forall|i: int| 0 <= i < v@.len() ==> is_alphanumeric_byte(v@[i])
            },
    {
        let n = self.remaining_len();
        let v = self.read(n);
        proof {
            match *old(self) {
                Value::Deterministic { data, pos } => {
                    assert(data@.subrange(pos as int, data@.len() as int) =~= data@.skip(
                        pos as int,
                    ));
                },
                Value::Random(_) => {},
            }
        }
        v
    }
}

/// The hash-chain step value of a string: the 64-bit FNV-1 hash of its
/// UTF-8 bytes.
pub open spec fn chain_hash(s: Seq<char>) -> u64 {
    fnv1_64(vstd::utf8::encode_utf8(s))
}

/// The 64-bit FNV-1 hash of a byte vector.
pub fn fnvhash64_bytes(data: &Vec<u8>) -> (r: u64)
    ensures
        r == fnv1_64(data@),
{
    let n = data.len();
    let mut hash = FNV_OFFSET_BASIS_64;
    let mut i: usize = 0;
    while i < n
        invariant
            n == data@.len(),
            0 <= i <= n,
            hash == fnv1_64(data@.take(i as int)),
        decreases n - i,
    {
        hash = hash.wrapping_mul(FNV_PRIME_64) ^ (data[i] as u64);
        proof {
            assert(data@.take(i + 1).drop_last() =~= data@.take(i as int));
            assert(data@.take(i + 1).last() == data@[i as int]);
        }
        i = i + 1;
    }
    proof {
        assert(data@.take(n as int) =~= data@);
    }
    hash
}

} // verus!
