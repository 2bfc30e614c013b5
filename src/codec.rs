//! Wire codec: primitive values to and from a big-endian, length-prefixed
//! byte layout.
//!
//! Every encoder appends to a buffer. Every decoder reads from a buffer at a
//! cursor and returns the value together with the cursor just past it; the
//! caller guarantees that the buffer holds enough bytes.
use vstd::prelude::*;
use vstd::utf8::*;

verus! {

broadcast use {encode_utf8_valid_utf8, encode_utf8_decode_utf8};

/// Big-endian bytes of a 32-bit unsigned integer.
pub open spec fn u32_bytes(n: u32) -> Seq<u8> {
    seq![(n >> 24u32) as u8, (n >> 16u32) as u8, (n >> 8u32) as u8, n as u8]
}

/// The 32-bit unsigned integer whose big-endian bytes are `b[0..4]`.
pub open spec fn be_u32(b: Seq<u8>) -> u32 {
    (((b[0] as u32) << 24u32) | ((b[1] as u32) << 16u32) | ((b[2] as u32) << 8u32) | (b[3] as u32))
}

/// The one-byte length prefix of a sequence of `len` items: the length modulo 256.
pub open spec fn len_byte(len: nat) -> u8 {
    (len % 256) as u8
}

/// Encoding of a string: a length byte, then its UTF-8 bytes.
pub open spec fn string_bytes(s: Seq<char>) -> Seq<u8> {
    seq![len_byte(encode_utf8(s).len())] + encode_utf8(s)
}

/// Concatenated big-endian encodings of each element.
pub open spec fn u32s_bytes(s: Seq<u32>) -> Seq<u8>
    decreases s.len(),
{
    if s.len() == 0 {
        Seq::empty()
    } else {
        u32s_bytes(s.drop_last()) + u32_bytes(s.last())
    }
}

/// Encoding of an array of `u32`: a count byte, then each element.
pub open spec fn u32_array_bytes(s: Seq<u32>) -> Seq<u8> {
    seq![len_byte(s.len())] + u32s_bytes(s)
}

/// What `from_utf8_lossy` yields on bytes that are not valid UTF-8.
pub uninterp spec fn lossy_utf8(b: Seq<u8>) -> Seq<char>;

/// The text that a byte sequence decodes to, with invalid sequences replaced.
pub open spec fn utf8_text(b: Seq<u8>) -> Seq<char> {
    if valid_utf8(b) {
        decode_utf8(b)
    } else {
        lossy_utf8(b)
    }
}

/// The `n` elements encoded at `start` of `b`, four bytes each.
pub open spec fn be_u32s(b: Seq<u8>, start: int, n: nat) -> Seq<u32> {
    Seq::new(n, |k: int| be_u32(b.subrange(start + 4 * k, start + 4 * k + 4)))
}

/// Relies on `String::from_utf8_lossy`: valid UTF-8 decodes to its characters;
/// anything else decodes to a fixed function of the bytes.
#[verifier::external_body]
fn text_from_utf8_lossy(b: &[u8]) -> (r: String)
    ensures
        valid_utf8(b@) ==> r@ == decode_utf8(b@),
        !valid_utf8(b@) ==> r@ == lossy_utf8(b@),
{
    String::from_utf8_lossy(b).into_owned()
}

/// Appends the length byte of `string` and its UTF-8 bytes. A string of more
/// than 255 bytes gets its length modulo 256 as prefix.
pub fn marshal_string(string: &str, buf: &mut Vec<u8>)
    ensures
        final(buf)@ == old(buf)@ + string_bytes(string@),
{
    let bytes = string.as_bytes();
    let n: usize = bytes.len();
    buf.push((n % 256) as u8);
    let ghost start = buf@;
    let mut k: usize = 0;
    while k < n
        invariant
            k <= n,
            n == bytes@.len(),
            bytes@ == encode_utf8(string@),
            start == old(buf)@.push(len_byte(n as nat)),
            buf@ == start + bytes@.take(k as int),
        decreases n - k,
    {
        buf.push(bytes[k]);
        assert(bytes@.take(k + 1) == bytes@.take(k as int).push(bytes@[k as int]));
        k += 1;
    }
    assert(bytes@.take(n as int) == bytes@);
    assert(final(buf)@ =~= old(buf)@ + string_bytes(string@));
}

/// Appends `number` as one byte.
pub fn marshal_u8(number: u8, buf: &mut Vec<u8>)
    ensures
        final(buf)@ == old(buf)@.push(number),
{
    buf.push(number);
}

/// Appends the four big-endian bytes of `number`.
pub fn marshal_u32(number: u32, buf: &mut Vec<u8>)
    ensures
        final(buf)@ == old(buf)@ + u32_bytes(number),
{
    buf.push((number >> 24u32) as u8);
    buf.push((number >> 16u32) as u8);
    buf.push((number >> 8u32) as u8);
    buf.push(number as u8);
    assert(final(buf)@ =~= old(buf)@ + u32_bytes(number));
}

/// Appends the count byte of `numbers` and each element in order. An array
/// of more than 255 elements gets its count modulo 256 as prefix.
pub fn marshal_u32_array(numbers: &[u32], buf: &mut Vec<u8>)
    ensures
        final(buf)@ == old(buf)@ + u32_array_bytes(numbers@),
{
    let n: usize = numbers.len();
    buf.push((n % 256) as u8);
    let ghost start = buf@;
    let mut k: usize = 0;
    while k < n
        invariant
            k <= n,
            n == numbers@.len(),
            start == old(buf)@.push(len_byte(n as nat)),
            buf@ == start + u32s_bytes(numbers@.take(k as int)),
        decreases n - k,
    {
        marshal_u32(numbers[k], buf);
        assert(numbers@.take(k + 1).drop_last() == numbers@.take(k as int));
        k += 1;
    }
    assert(numbers@.take(n as int) == numbers@);
    assert(final(buf)@ =~= old(buf)@ + u32_array_bytes(numbers@));
}

/// Reads a length byte at `i` and that many bytes after it as text.
pub fn unmarshal_string(buf: &[u8], i: usize) -> (r: (String, usize))
    requires
        i < buf@.len(),
        i + 1 + buf@[i as int] <= buf@.len(),
    ensures
        r.0@ == utf8_text(buf@.subrange(i + 1, i + 1 + buf@[i as int])),
        r.1 == i + 1 + buf@[i as int],
{
    let string_length = buf[i] as usize;
    let start = i + 1;
    let end = start + string_length;
    let s = text_from_utf8_lossy(&buf[start..end]);
    (s, end)
}

/// Reads the byte at `i`.
pub fn unmarshal_u8(buf: &[u8], i: usize) -> (r: (u8, usize))
    requires
        i < buf@.len(),
    ensures
        r.0 == buf@[i as int],
        r.1 == i + 1,
{
    (buf[i], i + 1)
}

/// Reads the big-endian `u32` at `i`.
pub fn unmarshal_u32(buf: &[u8], i: usize) -> (r: (u32, usize))
    requires
        i + 4 <= buf@.len(),
    ensures
        r.0 == be_u32(buf@.subrange(i as int, i + 4)),
        r.1 == i + 4,
{
    let v = ((buf[i] as u32) << 24u32) | ((buf[i + 1] as u32) << 16u32) | ((buf[i + 2] as u32)
        << 8u32) | (buf[i + 3] as u32);
    (v, i + 4)
}

/// Reads a count byte at `i` and that many big-endian `u32` after it.
pub fn unmarshal_u32_array(buf: &[u8], i: usize) -> (r: (Vec<u32>, usize))
    requires
        i < buf@.len(),
        i + 1 + 4 * buf@[i as int] <= buf@.len(),
    ensures
        r.0@ == be_u32s(buf@, i + 1, buf@[i as int] as nat),
        r.1 == i + 1 + 4 * buf@[i as int],
{
    let count = buf[i] as usize;
    let mut out: Vec<u32> = Vec::with_capacity(count);
    let mut j: usize = i + 1;
    let mut k: usize = 0;
    while k < count
        invariant
            i < buf@.len(),
            count == buf@[i as int],
            i + 1 + 4 * count <= buf@.len(),
            k <= count,
            j == i + 1 + 4 * k,
            out@ == be_u32s(buf@, i + 1, k as nat),
        decreases count - k,
    {
        let (v, next) = unmarshal_u32(buf, j);
        out.push(v);
        assert(out@ =~= be_u32s(buf@, i + 1, (k + 1) as nat));
        j = next;
        k += 1;
    }
    (out, j)
}


/// Decoding the big-endian bytes of `n` gives `n`.
pub proof fn lemma_u32_round_trip(n: u32)
    ensures
        be_u32(u32_bytes(n)) == n,
{
    let b = u32_bytes(n);
    assert(b[0] == (n >> 24u32) as u8 && b[1] == (n >> 16u32) as u8 && b[2] == (n >> 8u32) as u8
        && b[3] == n as u8);
    assert(((((n >> 24u32) as u8) as u32) << 24u32) | ((((n >> 16u32) as u8) as u32) << 16u32)
        | ((((n >> 8u32) as u8) as u32) << 8u32) | ((n as u8) as u32) == n) by (bit_vector);
}

/// Each element of `s` occupies its own four bytes of `u32s_bytes(s)`.
pub proof fn lemma_u32s_bytes_layout(s: Seq<u32>)
    ensures
        u32s_bytes(s).len() == 4 * s.len(),
        forall|k: int|
            0 <= k < s.len() ==> #[trigger] u32s_bytes(s).subrange(4 * k, 4 * k + 4) == u32_bytes(
                s[k],
            ),
    decreases s.len(),
{
    if s.len() > 0 {
        let init = s.drop_last();
        lemma_u32s_bytes_layout(init);
        let b = u32s_bytes(s);
        assert forall|k: int| 0 <= k < s.len() implies #[trigger] b.subrange(4 * k, 4 * k + 4)
            == u32_bytes(s[k]) by {
            if k < init.len() {
                assert(b.subrange(4 * k, 4 * k + 4) =~= u32s_bytes(init).subrange(
                    4 * k,
                    4 * k + 4,
                ));
            } else {
                assert(b.subrange(4 * k, 4 * k + 4) =~= u32_bytes(s.last()));
            }
        }
    }
}

/// Decoding a `u32` at the end of `pre`, in any buffer that goes on after
/// its encoding, gives it back.
pub proof fn lemma_u32_in_buffer(pre: Seq<u8>, n: u32, post: Seq<u8>)
    ensures
        (pre + u32_bytes(n) + post).subrange(pre.len() as int, pre.len() + 4int) == u32_bytes(n),
        be_u32((pre + u32_bytes(n) + post).subrange(pre.len() as int, pre.len() + 4int)) == n,
{
    let b = pre + u32_bytes(n) + post;
    assert(b.subrange(pre.len() as int, pre.len() + 4int) =~= u32_bytes(n));
    lemma_u32_round_trip(n);
}

/// Decoding a string at the end of `pre`, in any buffer that goes on after
/// its encoding, gives it back when it has at most 255 bytes.
pub proof fn lemma_string_in_buffer(pre: Seq<u8>, s: Seq<char>, post: Seq<u8>)
    requires
        encode_utf8(s).len() <= 255,
    ensures
        ({
            let b = pre + string_bytes(s) + post;
            let i = pre.len() as int;
            &&& b[i] as int == encode_utf8(s).len()
            &&& string_bytes(s).len() == 1 + encode_utf8(s).len()
            &&& utf8_text(b.subrange(i + 1, i + 1 + b[i])) == s
        }),
{
    let b = pre + string_bytes(s) + post;
    let i = pre.len() as int;
    let e = encode_utf8(s);
    assert(b[i] == string_bytes(s)[0]);
    assert(b.subrange(i + 1, i + 1 + b[i]) =~= e);
}

/// Decoding an array of `u32` at the end of `pre`, in any buffer that goes on
/// after its encoding, gives it back when it has at most 255 elements.
pub proof fn lemma_u32_array_in_buffer(pre: Seq<u8>, v: Seq<u32>, post: Seq<u8>)
    requires
        v.len() <= 255,
    ensures
        ({
            let b = pre + u32_array_bytes(v) + post;
            let i = pre.len() as int;
            &&& b[i] as int == v.len()
            &&& u32_array_bytes(v).len() == 1 + 4 * v.len()
            &&& be_u32s(b, i + 1, b[i] as nat) == v
        }),
{
    let b = pre + u32_array_bytes(v) + post;
    let i = pre.len() as int;
    lemma_u32s_bytes_layout(v);
    assert(b[i] == u32_array_bytes(v)[0]);
    assert forall|k: int| 0 <= k < v.len() implies #[trigger] be_u32s(b, i + 1, v.len())[k]
        == v[k] by {
        assert(b.subrange(i + 1 + 4 * k, i + 1 + 4 * k + 4) =~= u32s_bytes(v).subrange(
            4 * k,
            4 * k + 4,
        ));
        lemma_u32_round_trip(v[k]);
    }
    assert(be_u32s(b, i + 1, b[i] as nat) =~= v);
}

} // verus!
