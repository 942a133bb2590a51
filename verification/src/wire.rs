//! Little-endian integers and byte runs, the vocabulary of every wire format of the crate.
use vstd::prelude::*;
use vstd::utf8;

verus! {

/// One past the largest `u32`.
pub const U32_SPAN: u64 = 0x1_0000_0000;

/// The two little-endian bytes of `x`.
#[verifier::opaque]
pub open spec fn le16(x: u16) -> Seq<u8> {
    seq![(x % 256) as u8, (x / 256) as u8]
}

/// The four little-endian bytes of `x`.
#[verifier::opaque]
pub open spec fn le32(x: u32) -> Seq<u8> {
    seq![
        (x % 256) as u8,
        (x / 256 % 256) as u8,
        (x / 65536 % 256) as u8,
        (x / 16777216) as u8,
    ]
}

/// The eight little-endian bytes of `x`.
#[verifier::opaque]
pub open spec fn le64(x: u64) -> Seq<u8> {
    le32((x % 0x1_0000_0000) as u32) + le32((x / 0x1_0000_0000) as u32)
}

/// The value of the two little-endian bytes of `b` at `at`.
#[verifier::opaque]
pub open spec fn at16(b: Seq<u8>, at: int) -> u16 {
    (b[at] + 256 * b[at + 1]) as u16
}

/// The value of the four little-endian bytes of `b` at `at`.
#[verifier::opaque]
pub open spec fn at32(b: Seq<u8>, at: int) -> u32 {
    (b[at] + 256 * b[at + 1] + 65536 * b[at + 2] + 16777216 * b[at + 3]) as u32
}

/// The value of the eight little-endian bytes of `b` at `at`.
#[verifier::opaque]
pub open spec fn at64(b: Seq<u8>, at: int) -> u64 {
    (at32(b, at) + 0x1_0000_0000 * at32(b, at + 4)) as u64
}

/// A 16-bit field takes two bytes.
pub broadcast proof fn lemma_le16_len(x: u16)
    ensures
        #[trigger] le16(x).len() == 2,
{
    reveal(le16);
}

/// A 32-bit field takes four bytes.
pub broadcast proof fn lemma_le32_len(x: u32)
    ensures
        #[trigger] le32(x).len() == 4,
{
    reveal(le32);
}

/// A 64-bit field takes eight bytes.
pub broadcast proof fn lemma_le64_len(x: u64)
    ensures
        #[trigger] le64(x).len() == 8,
{
    reveal(le64);
    reveal(le32);
}

pub broadcast group field_widths {
    lemma_le16_len,
    lemma_le32_len,
    lemma_le64_len,
}

/// A length as the 32-bit field that records it: the low 32 bits.
pub open spec fn len32(n: nat) -> u32 {
    (n % 0x1_0000_0000) as u32
}

/// `n` zero bytes.
pub open spec fn zeros(n: nat) -> Seq<u8> {
    Seq::new(n, |i: int| 0u8)
}

/// A byte run behind its 32-bit length.
pub open spec fn blob(data: Seq<u8>) -> Seq<u8> {
    le32(len32(data.len())) + data
}

/// The UTF-8 encoding of `text`.
#[verifier::opaque]
pub open spec fn text_bytes(text: Seq<char>) -> Seq<u8> {
    utf8::encode_utf8(text)
}

/// Whether `bytes` are well-formed UTF-8.
#[verifier::opaque]
pub open spec fn is_text(bytes: Seq<u8>) -> bool {
    utf8::valid_utf8(bytes)
}

/// The text that `bytes` encode in UTF-8.
#[verifier::opaque]
pub open spec fn text_of(bytes: Seq<u8>) -> Seq<char> {
    utf8::decode_utf8(bytes)
}

/// Encoded text is well formed and decodes to the text.
pub proof fn lemma_text(text: Seq<char>)
    ensures
        is_text(text_bytes(text)),
        text_of(text_bytes(text)) == text,
{
    reveal(text_bytes);
    reveal(is_text);
    reveal(text_of);
    utf8::encode_utf8_valid_utf8(text);
    utf8::encode_utf8_decode_utf8(text);
}

/// What stands in `b` at `at` is `part`.
#[verifier::opaque]
pub open spec fn stands_at(b: Seq<u8>, at: int, part: Seq<u8>) -> bool {
    &&& 0 <= at
    &&& at + part.len() <= b.len()
    &&& b.subrange(at, at + part.len()) == part
}

/// Appending in two steps is appending once.
pub proof fn lemma_append(base: Seq<u8>, x: Seq<u8>, y: Seq<u8>)
    ensures
        (base + x) + y == base + (x + y),
{
    assert((base + x) + y =~= base + (x + y));
}

/// A byte run stands at its own start.
pub proof fn lemma_whole(b: Seq<u8>)
    ensures
        stands_at(b, 0, b),
{
    reveal(stands_at);
    assert(b.subrange(0, b.len() as int) =~= b);
}

/// What stands in `b`, byte by byte.
pub proof fn lemma_bytes(b: Seq<u8>, at: int, part: Seq<u8>)
    requires
        stands_at(b, at, part),
    ensures
        0 <= at,
        at + part.len() <= b.len(),
        b.subrange(at, at + part.len()) == part,
        forall|i: int| 0 <= i < part.len() ==> b[at + i] == #[trigger] part[i],
{
    reveal(stands_at);
    assert forall|i: int| 0 <= i < part.len() implies b[at + i] == #[trigger] part[i] by {
        assert(b.subrange(at, at + part.len())[i] == b[at + i]);
    }
}

/// A run that stands in `b` stands there part by part.
pub proof fn lemma_split(b: Seq<u8>, at: int, x: Seq<u8>, y: Seq<u8>)
    ensures
        stands_at(b, at, x + y) <==> stands_at(b, at, x) && stands_at(b, at + x.len(), y),
{
    reveal(stands_at);
    let n = x.len() as int;
    let m = y.len() as int;
    if stands_at(b, at, x + y) {
        let s = b.subrange(at, at + n + m);
        assert(s == x + y);
        assert(b.subrange(at, at + n) =~= s.subrange(0, n));
        assert(s.subrange(0, n) =~= x);
        assert(b.subrange(at + n, at + n + m) =~= s.subrange(n, n + m));
        assert(s.subrange(n, n + m) =~= y);
    }
    if stands_at(b, at, x) && stands_at(b, at + x.len(), y) {
        assert(b.subrange(at, at + n + m) =~= b.subrange(at, at + n) + b.subrange(
            at + n,
            at + n + m,
        ));
    }
}

/// A field that lies in a prefix reads the same in the whole.
pub proof fn lemma_prefix(b: Seq<u8>, c: Seq<u8>, at: int)
    requires
        b.is_prefix_of(c),
        0 <= at,
    ensures
        at + 2 <= b.len() ==> at16(b, at) == at16(c, at),
        at + 4 <= b.len() ==> at32(b, at) == at32(c, at),
        at + 8 <= b.len() ==> at64(b, at) == at64(c, at),
{
    reveal(at16);
    reveal(at32);
    reveal(at64);
    assert forall|i: int| 0 <= i < b.len() implies b[i] == c[i] by {
        assert(c.subrange(0, b.len() as int)[i] == c[i]);
    }
}

/// A byte run that lies in a prefix is the same in the whole.
pub proof fn lemma_prefix_run(b: Seq<u8>, c: Seq<u8>, from: int, to: int)
    requires
        b.is_prefix_of(c),
        0 <= from <= to <= b.len(),
    ensures
        b.subrange(from, to) == c.subrange(from, to),
        forall|i: int| from <= i < to ==> b[i] == c[i],
{
    assert forall|i: int| 0 <= i < b.len() implies b[i] == c[i] by {
        assert(c.subrange(0, b.len() as int)[i] == c[i]);
    }
    assert(b.subrange(from, to) =~= c.subrange(from, to));
}

/// Two bytes written little-endian read back as the value.
pub proof fn lemma_le16(b: Seq<u8>, at: int, x: u16)
    requires
        stands_at(b, at, le16(x)),
    ensures
        at16(b, at) == x,
        0 <= at,
        at + 2 <= b.len(),
{
    reveal(stands_at);
    reveal(le16);
    reveal(at16);
    let s = b.subrange(at, at + 2);
    assert(s[0] == b[at] && s[1] == b[at + 1]);
    assert(s =~= le16(x));
}

/// Four bytes written little-endian read back as the value.
pub proof fn lemma_le32(b: Seq<u8>, at: int, x: u32)
    requires
        stands_at(b, at, le32(x)),
    ensures
        at32(b, at) == x,
        0 <= at,
        at + 4 <= b.len(),
{
    reveal(stands_at);
    reveal(le32);
    reveal(at32);
    let s = b.subrange(at, at + 4);
    assert(s[0] == b[at] && s[1] == b[at + 1] && s[2] == b[at + 2] && s[3] == b[at + 3]);
    assert(s =~= le32(x));
    assert(x / 256 / 256 == x / 65536);
    assert(x / 65536 / 256 == x / 16777216);
}

/// Eight bytes written little-endian read back as the value.
pub proof fn lemma_le64(b: Seq<u8>, at: int, x: u64)
    requires
        stands_at(b, at, le64(x)),
    ensures
        at64(b, at) == x,
        0 <= at,
        at + 8 <= b.len(),
{
    reveal(stands_at);
    reveal(le64);
    reveal(at64);
    broadcast use field_widths;
    let lo = (x % 0x1_0000_0000) as u32;
    let hi = (x / 0x1_0000_0000) as u32;
    let s = b.subrange(at, at + 8);
    assert(s.subrange(0, 4) =~= le32(lo));
    assert(s.subrange(4, 8) =~= le32(hi));
    assert(b.subrange(at, at + 4) =~= s.subrange(0, 4));
    assert(b.subrange(at + 4, at + 8) =~= s.subrange(4, 8));
    lemma_le32(b, at, lo);
    lemma_le32(b, at + 4, hi);
}

/// The low 32 bits of a length.
pub fn length_field(n: usize) -> (r: u32)
    ensures
        r == len32(n as nat),
{
    (n as u64 % U32_SPAN) as u32
}

/// Appends `data`.
pub fn put_bytes(out: &mut Vec<u8>, data: &[u8])
    ensures
        final(out)@ == old(out)@ + data@,
{
    out.extend_from_slice(data);
}

/// Appends the two bytes of `x`.
pub fn put_u16(out: &mut Vec<u8>, x: u16)
    ensures
        final(out)@ == old(out)@ + le16(x),
{
    proof {
        reveal(le16);
    }
    out.push((x % 256) as u8);
    out.push((x / 256) as u8);
}

/// Appends the four bytes of `x`.
pub fn put_u32(out: &mut Vec<u8>, x: u32)
    ensures
        final(out)@ == old(out)@ + le32(x),
{
    proof {
        reveal(le32);
    }
    out.push((x % 256) as u8);
    out.push((x / 256 % 256) as u8);
    out.push((x / 65536 % 256) as u8);
    out.push((x / 16777216) as u8);
}

/// Appends the eight bytes of `x`.
pub fn put_u64(out: &mut Vec<u8>, x: u64)
    ensures
        final(out)@ == old(out)@ + le64(x),
{
    proof {
        reveal(le64);
    }
    put_u32(out, (x % U32_SPAN) as u32);
    put_u32(out, (x / U32_SPAN) as u32);
    assert(final(out)@ =~= old(out)@ + le64(x));
}

/// The value of the two bytes at `at`.
pub fn get_u16(b: &[u8], at: usize) -> (r: u16)
    requires
        at + 2 <= b@.len(),
    ensures
        r == at16(b@, at as int),
{
    proof {
        reveal(at16);
    }
    b[at] as u16 + 256 * (b[at + 1] as u16)
}

/// The value of the four bytes at `at`.
pub fn get_u32(b: &[u8], at: usize) -> (r: u32)
    requires
        at + 4 <= b@.len(),
    ensures
        r == at32(b@, at as int),
{
    proof {
        reveal(at32);
    }
    b[at] as u32 + 256 * (b[at + 1] as u32) + 65536 * (b[at + 2] as u32) + 16777216 * (b[at
        + 3] as u32)
}

/// The value of the eight bytes at `at`.
pub fn get_u64(b: &[u8], at: usize) -> (r: u64)
    requires
        at + 8 <= b@.len(),
    ensures
        r == at64(b@, at as int),
{
    proof {
        reveal(at64);
    }
    assert(at + 8 <= b.len());
    get_u32(b, at) as u64 + U32_SPAN * (get_u32(b, at + 4) as u64)
}

/// The `n` bytes at `at`, copied.
pub fn get_bytes(b: &[u8], at: usize, n: usize) -> (r: Vec<u8>)
    requires
        at + n <= b@.len(),
    ensures
        r@ == b@.subrange(at as int, at + n),
{
    assert(at + n <= b.len());
    vstd::slice::slice_to_vec(vstd::slice::slice_subrange(b, at, at + n))
}

/// The UTF-8 encoding of `text`.
pub fn utf8_bytes(text: &str) -> (r: &[u8])
    ensures
        r@ == text_bytes(text@),
{
    proof {
        reveal(text_bytes);
    }
    text.as_bytes()
}

/// What `std::str::from_utf8` says of bytes that are not UTF-8.
pub uninterp spec fn utf8_complaint(bytes: Seq<u8>) -> Seq<char>;

/// The text that `bytes` encode in UTF-8, copied, or what is wrong with them.
///
/// Calls `std::str::from_utf8`: it accepts exactly the well-formed UTF-8 sequences and hands back
/// the characters that they encode. Of others it says what is wrong, always the same of the same
/// bytes.
#[verifier::external_body]
pub(crate) fn utf8_text(bytes: &[u8]) -> (r: Result<String, String>)
    ensures
        r is Ok <==> is_text(bytes@),
        r matches Ok(s) ==> s@ == text_of(bytes@),
        r matches Err(why) ==> why@ == utf8_complaint(bytes@),
{
    std::str::from_utf8(bytes).map(|s| s.to_string()).map_err(|e| e.to_string())
}

/// Fields are little-endian: the byte at place `i` counts 256 to the power of `i`. With this the
/// bytes that are written for a number are the only ones.
pub proof fn law_fields_are_little_endian(x: u16, y: u32, z: u64)
    ensures
        le16(x).len() == 2,
        le16(x)[0] + 256 * le16(x)[1] == x,
        le32(y).len() == 4,
        le32(y)[0] + 256 * le32(y)[1] + 65536 * le32(y)[2] + 16777216 * le32(y)[3] == y,
        le64(z).len() == 8,
        le64(z)[0] + 256 * le64(z)[1] + 65536 * le64(z)[2] + 16777216 * le64(z)[3] + 0x1_0000_0000 * (
        le64(z)[4] + 256 * le64(z)[5] + 65536 * le64(z)[6] + 16777216 * le64(z)[7]) == z,
{
    reveal(le16);
    reveal(at32);
    reveal(at64);
    broadcast use field_widths;
    lemma_whole(le32(y));
    lemma_le32(le32(y), 0, y);
    lemma_whole(le64(z));
    lemma_le64(le64(z), 0, z);
}

/// Reading a field goes by the bytes at its place alone, lowest first.
pub proof fn law_reading_is_little_endian(b: Seq<u8>, at: int)
    requires
        0 <= at,
    ensures
        at + 2 <= b.len() ==> at16(b, at) == b[at] + 256 * b[at + 1],
        at + 4 <= b.len() ==> at32(b, at) == b[at] + 256 * b[at + 1] + 65536 * b[at + 2] + 16777216
            * b[at + 3],
        at + 8 <= b.len() ==> at64(b, at) == b[at] + 256 * b[at + 1] + 65536 * b[at + 2] + 16777216
            * b[at + 3] + 0x1_0000_0000 * (b[at + 4] + 256 * b[at + 5] + 65536 * b[at + 6]
            + 16777216 * b[at + 7]),
{
    reveal(at16);
    reveal(at32);
    reveal(at64);
}

/// A length-prefixed run is four bytes that give the low 32 bits of the length, lowest byte first,
/// and then the run itself.
pub proof fn law_blob_is_length_and_bytes(data: Seq<u8>)
    ensures
        blob(data).len() == 4 + data.len(),
        blob(data)[0] + 256 * blob(data)[1] + 65536 * blob(data)[2] + 16777216 * blob(data)[3]
            == data.len() % 0x1_0000_0000,
        blob(data).skip(4) == data,
{
    broadcast use field_widths;
    law_fields_are_little_endian(0, len32(data.len()), 0);
    assert(blob(data).skip(4) =~= data);
}

/// Padding is zero throughout.
pub proof fn law_zeros_are_zero(n: nat, i: int)
    requires
        0 <= i < n,
    ensures
        zeros(n).len() == n,
        zeros(n)[i] == 0,
{
}

/// Text is written as UTF-8 and read as UTF-8.
pub proof fn law_text_is_utf8(text: Seq<char>, bytes: Seq<u8>)
    ensures
        text_bytes(text) == utf8::encode_utf8(text),
        is_text(bytes) == utf8::valid_utf8(bytes),
        text_of(bytes) == utf8::decode_utf8(bytes),
{
    reveal(text_bytes);
    reveal(is_text);
    reveal(text_of);
}

/// A length is recorded as it is where it fits 32 bits, and as its low 32 bits where it does not.
pub proof fn law_lengths_are_recorded(n: nat, k: nat)
    ensures
        n <= u32::MAX ==> len32(n) == n,
        len32(n + 0x1_0000_0000 * k) == len32(n),
{
    vstd::arithmetic::div_mod::lemma_mod_multiples_vanish(k as int, n as int, 0x1_0000_0000);
}

} // verus!
