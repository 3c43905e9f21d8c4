use vstd::prelude::*;
use vstd::utf8::{decode_utf8, encode_utf8, valid_utf8};

verus! {

/// Minimal little-endian encoding of `n`: low byte first, stopping once
/// the remaining value is zero (so zero encodes to nothing).
pub open spec fn shrunk(n: nat) -> Seq<u8>
    decreases n,
{
    if n == 0 {
        Seq::empty()
    } else {
        seq![(n % 256) as u8] + shrunk(n / 256)
    }
}

/// `n` zero bytes.
pub open spec fn zeros(n: nat) -> Seq<u8> {
    Seq::new(n, |i: int| 0u8)
}

/// `b` with zero bytes prepended until it is `size` long; never truncated.
pub open spec fn left_padded(b: Seq<u8>, size: nat) -> Seq<u8> {
    if b.len() < size {
        zeros((size - b.len()) as nat) + b
    } else {
        b
    }
}

/// `b` with zero bytes appended until it is `size` long; never truncated.
pub open spec fn right_padded(b: Seq<u8>, size: nat) -> Seq<u8> {
    if b.len() < size {
        b + zeros((size - b.len()) as nat)
    } else {
        b
    }
}

/// The first four bytes of `b` read as a big-endian unsigned integer.
pub open spec fn big_endian4(b: Seq<u8>) -> nat
    recommends
        b.len() >= 4,
{
    (b[0] as nat) * 0x1000000 + (b[1] as nat) * 0x10000 + (b[2] as nat) * 0x100 + (b[3] as nat)
}

/// The unsigned integer a byte buffer stands for when it is used as a size:
/// left-padded to four bytes, then its first four bytes read big-endian.
pub open spec fn as_size(b: Seq<u8>) -> nat {
    big_endian4(left_padded(b, 4))
}

/// A growable sequence of bytes: the value every compilation stage produces.
#[derive(Debug)]
pub struct ByteBuffer {
    inner: Vec<u8>,
}

impl View for ByteBuffer {
    type V = Seq<u8>;

    closed spec fn view(&self) -> Seq<u8> {
        self.inner@
    }
}

/// Relies on `String::from_utf8`: it succeeds exactly on valid UTF-8 and then
/// holds the decoded characters.
#[verifier::external_body]
pub(crate) fn string_from_utf8(bytes: Vec<u8>) -> (r: Result<String, std::string::FromUtf8Error>)
    ensures
        r is Ok <==> valid_utf8(bytes@),
        r is Ok ==> r->Ok_0@ == decode_utf8(bytes@),
{
    String::from_utf8(bytes)
}

#[verifier::external_type_specification]
#[verifier::external_body]
pub struct ExFromUtf8Error(std::string::FromUtf8Error);

impl ByteBuffer {
    pub fn new() -> (r: ByteBuffer)
        ensures
            r@ == Seq::<u8>::empty(),
    {
        ByteBuffer { inner: Vec::new() }
    }

    pub fn from_vec(bytes: Vec<u8>) -> (r: ByteBuffer)
        ensures
            r@ == bytes@,
    {
        ByteBuffer { inner: bytes }
    }

    pub fn push_byte(&mut self, byte: u8)
        ensures
            final(self)@ == old(self)@.push(byte),
    {
        self.inner.push(byte);
    }

    fn push_slice(&mut self, bytes: &[u8])
        ensures
            final(self)@ == old(self)@ + bytes@,
    {
        let ghost start = self.inner@;
        let mut i: usize = 0;
        while i < bytes.len()
            invariant
                i <= bytes@.len(),
                self.inner@ == start + bytes@.subrange(0, i as int),
            decreases bytes@.len() - i,
        {
            self.inner.push(bytes[i]);
            i = i + 1;
            assert(self.inner@ =~= start + bytes@.subrange(0, i as int));
        }
        assert(bytes@.subrange(0, i as int) =~= bytes@);
    }

    /// Appends the UTF-8 encoding of `string`.
    pub fn push_string(&mut self, string: String)
        ensures
            final(self)@ == old(self)@ + encode_utf8(string@),
    {
        self.push_slice(string.as_str().as_bytes());
    }

    /// Appends the minimal little-endian encoding of `num`: nothing for zero,
    /// one byte below 256, two bytes (low first) below 65536.
    pub fn push_u32_shrunk(&mut self, num: u32)
        ensures
            final(self)@ == old(self)@ + shrunk(num as nat),
            num == 0 ==> final(self)@ == old(self)@,
            0 < num < 256 ==> final(self)@ == old(self)@.push(num as u8),
            256 <= num < 65536 ==> final(self)@ == old(self)@.push((num % 256) as u8).push(
                (num / 256) as u8,
            ),
    {
        let bytes = Self::_to_shrunk_bytes(num);
        self.push_slice(bytes.as_slice());
        proof {
            reveal_with_fuel(shrunk, 3);
            if 256 <= num < 65536 {
                assert((num as nat / 256) / 256 == 0);
                assert(shrunk(num as nat) =~= seq![(num % 256) as u8, (num / 256) as u8]);
            }
            if 0 < num < 256 {
                assert(shrunk(num as nat) =~= seq![num as u8]);
            }
        }
        assert(num == 0 ==> final(self)@ =~= old(self)@);
        assert(0 < num < 256 ==> final(self)@ =~= old(self)@.push(num as u8));
        assert(256 <= num < 65536 ==> final(self)@ =~= old(self)@.push((num % 256) as u8).push(
            (num / 256) as u8,
        ));
    }

    /// Appends the bytes of `other`.
    pub fn push_byte_buffer(&mut self, other: &ByteBuffer)
        ensures
            final(self)@ == old(self)@ + other@,
    {
        self.push_slice(other.inner.as_slice());
    }

    /// Prepends zero bytes until the buffer is `size` long; a longer buffer is
    /// left as it is.
    pub fn pad_left(&mut self, size: usize)
        ensures
            final(self)@ == left_padded(old(self)@, size as nat),
    {
        if self.inner.len() < size {
            let padding: usize = size - self.inner.len();
            let mut padding_vec: Vec<u8> = Vec::new();
            let mut i: usize = 0;
            while i < padding
                invariant
                    i <= padding,
                    padding_vec@ == zeros(i as nat),
                decreases padding - i,
            {
                padding_vec.push(0);
                i = i + 1;
                assert(padding_vec@ =~= zeros(i as nat));
            }
            padding_vec.append(&mut self.inner);
            self.inner = padding_vec;
        }
    }

    /// Appends zero bytes until the buffer is `size` long; a longer buffer is
    /// left as it is.
    pub fn pad_right(&mut self, size: usize)
        ensures
            final(self)@ == right_padded(old(self)@, size as nat),
    {
        if self.inner.len() < size {
            let ghost start = self.inner@;
            let padding: usize = size - self.inner.len();
            let mut i: usize = 0;
            while i < padding
                invariant
                    i <= padding,
                    padding == size - start.len(),
                    self.inner@ == start + zeros(i as nat),
                decreases padding - i,
            {
                self.inner.push(0);
                i = i + 1;
                assert(self.inner@ =~= start + zeros(i as nat));
            }
        }
    }

    /// Returns the length of the byte buffer.
    pub fn len(&self) -> (r: usize)
        ensures
            r == self@.len(),
    {
        self.inner.len()
    }

    /// Reads the buffer as a size: left-padded to four bytes, its first four
    /// bytes taken as a big-endian integer.
    pub fn as_usize_unsafe(&self) -> (r: usize)
        ensures
            r as nat == as_size(self@),
    {
        let mut padded = ByteBuffer { inner: self.to_vec() };
        padded.pad_left(4);
        let b0: u32 = padded.inner[0] as u32;
        let b1: u32 = padded.inner[1] as u32;
        let b2: u32 = padded.inner[2] as u32;
        let b3: u32 = padded.inner[3] as u32;
        assert(b0 * 0x1000000 + b1 * 0x10000 + b2 * 0x100 + b3 <= u32::MAX) by (nonlinear_arith)
            requires
                b0 < 256,
                b1 < 256,
                b2 < 256,
                b3 < 256,
        ;
        let value: u32 = b0 * 0x1000000 + b1 * 0x10000 + b2 * 0x100 + b3;
        value as usize
    }

    /// A copy of the bytes.
    pub fn to_vec(&self) -> (r: Vec<u8>)
        ensures
            r@ == self@,
    {
        let mut r: Vec<u8> = Vec::new();
        let mut i: usize = 0;
        while i < self.inner.len()
            invariant
                i <= self.inner@.len(),
                r@ == self.inner@.subrange(0, i as int),
            decreases self.inner@.len() - i,
        {
            r.push(self.inner[i]);
            i = i + 1;
            assert(r@ =~= self.inner@.subrange(0, i as int));
        }
        assert(r@ =~= self.inner@);
        r
    }

    /// The bytes decoded as UTF-8 text.
    pub fn to_string(&self) -> (r: Result<String, std::string::FromUtf8Error>)
        ensures
            r is Ok <==> valid_utf8(self@),
            r is Ok ==> r->Ok_0@ == decode_utf8(self@),
    {
        string_from_utf8(self.to_vec())
    }

    fn _to_shrunk_bytes(value: u32) -> (r: Vec<u8>)
        ensures
            r@ == shrunk(value as nat),
    {
        let mut bytes: Vec<u8> = Vec::new();
        let mut value: u32 = value;
        let ghost original = value as nat;
        while value > 0
            invariant
                bytes@ + shrunk(value as nat) == shrunk(original),
            decreases value,
        {
            assert(shrunk(value as nat) == seq![(value as nat % 256) as u8] + shrunk(
                value as nat / 256,
            ));
            assert((value & 0xFF) == value % 256) by (bit_vector);
            assert((value >> 8) == value / 256) by (bit_vector);
            bytes.push((value & 0xFF) as u8);
            value = value >> 8;
            assert(bytes@ + shrunk(value as nat) =~= shrunk(original));
        }
        assert(bytes@ + shrunk(0) =~= bytes@);
        bytes
    }
}

impl Default for ByteBuffer {
    fn default() -> (r: ByteBuffer)
        ensures
            r@ == Seq::<u8>::empty(),
    {
        ByteBuffer::new()
    }
}

impl Clone for ByteBuffer {
    fn clone(&self) -> (r: ByteBuffer)
        ensures
            r@ == self@,
    {
        ByteBuffer { inner: self.to_vec() }
    }
}

impl From<Vec<u8>> for ByteBuffer {
    fn from(value: Vec<u8>) -> (r: ByteBuffer)
        ensures
            r@ == value@,
    {
        ByteBuffer { inner: value }
    }
}

impl vstd::std_specs::convert::FromSpecImpl<Vec<u8>> for ByteBuffer {
    open spec fn obeys_from_spec() -> bool {
        true
    }

    closed spec fn from_spec(v: Vec<u8>) -> ByteBuffer {
        ByteBuffer { inner: v }
    }
}

/// Padding to a size the buffer already reaches changes nothing: padding a
/// second time, to the same or a smaller size, gives the first result again.
pub proof fn pad_idempotent(b: Seq<u8>, size: nat, again: nat)
    requires
        again <= size,
    ensures
        left_padded(left_padded(b, size), again) == left_padded(b, size),
        right_padded(right_padded(b, size), again) == right_padded(b, size),
        b.len() >= size ==> left_padded(b, size) == b && right_padded(b, size) == b,
{
}

} // verus!
