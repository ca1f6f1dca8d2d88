//! The primitive decoders: each reads one field from the front of a byte
//! buffer and hands back what is left behind it.

use vstd::prelude::*;
use vstd::utf8::{decode_utf8, valid_utf8};

use crate::binary32::Binary32;
use crate::error::{fail, failed, DecodeError, ErrorKind};

verus! {

/// The first byte of the marker in front of a length-prefixed text token.
pub const TEXT_MARKER_0: u8 = 0x60;

/// The second byte of the marker in front of a length-prefixed text token.
pub const TEXT_MARKER_1: u8 = 0x0A;

/// What decoding one field yields: the bytes behind the field and its value,
/// or the failure.
pub type Parsed<T> = Result<(Seq<u8>, T), DecodeError>;

/// Where a decode that runs field by field stands: at the bytes still to be
/// read, or at the failure that ended it.
pub type Cursor = Result<Seq<u8>, DecodeError>;

/// Turns the outcome of one field into the next cursor and the field's
/// value; a failed field leaves `default` as its value.
pub open spec fn settle<T>(result: Parsed<T>, default: T) -> (Cursor, T) {
    match result {
        Ok((rest, value)) => (Ok(rest), value),
        Err(e) => (Err(e), default),
    }
}

/// An executable outcome matches a specified one: the same failure, or the
/// same value in front of the same remaining bytes.
pub open spec fn parsed<T>(r: Result<(&[u8], T), DecodeError>, expected: Parsed<T>) -> bool {
    match r {
        Ok((rest, value)) => expected == Ok::<(Seq<u8>, T), DecodeError>((rest@, value)),
        Err(e) => expected == Err::<(Seq<u8>, T), DecodeError>(e),
    }
}

/// As `parsed`, for a value that is compared by its view.
pub open spec fn parsed_view<T: View>(
    r: Result<(&[u8], T), DecodeError>,
    expected: Parsed<T::V>,
) -> bool {
    match r {
        Ok((rest, value)) => expected == Ok::<(Seq<u8>, T::V), DecodeError>((rest@, value@)),
        Err(e) => expected == Err::<(Seq<u8>, T::V), DecodeError>(e),
    }
}

/// The little-endian number in the first two bytes of `s`.
pub open spec fn le16(s: Seq<u8>) -> u16 {
    (s[0] + 0x100 * s[1]) as u16
}

/// The little-endian number in the first four bytes of `s`.
pub open spec fn le32(s: Seq<u8>) -> u32 {
    (s[0] + 0x100 * s[1] + 0x1_0000 * s[2] + 0x100_0000 * s[3]) as u32
}

/// The two's-complement reading of 32 bits.
pub open spec fn signed32(x: u32) -> i32 {
    if x < 0x8000_0000 {
        x as i32
    } else {
        (x - 0x1_0000_0000) as i32
    }
}

/// One byte.
pub open spec fn spec_byte(s: Seq<u8>) -> Parsed<u8> {
    if s.len() < 1 {
        Err(failed(ErrorKind::Truncated, s))
    } else {
        Ok((s.skip(1), s[0]))
    }
}

/// A little-endian unsigned 16-bit number.
pub open spec fn spec_le_u16(s: Seq<u8>) -> Parsed<u16> {
    if s.len() < 2 {
        Err(failed(ErrorKind::Truncated, s))
    } else {
        Ok((s.skip(2), le16(s)))
    }
}

/// A little-endian unsigned 32-bit number.
pub open spec fn spec_le_u32(s: Seq<u8>) -> Parsed<u32> {
    if s.len() < 4 {
        Err(failed(ErrorKind::Truncated, s))
    } else {
        Ok((s.skip(4), le32(s)))
    }
}

/// A little-endian signed 32-bit number.
pub open spec fn spec_le_i32(s: Seq<u8>) -> Parsed<i32> {
    if s.len() < 4 {
        Err(failed(ErrorKind::Truncated, s))
    } else {
        Ok((s.skip(4), signed32(le32(s))))
    }
}

/// A little-endian single-precision number.
pub open spec fn spec_le_binary32(s: Seq<u8>) -> Parsed<Binary32> {
    if s.len() < 4 {
        Err(failed(ErrorKind::Truncated, s))
    } else {
        Ok((s.skip(4), Binary32 { bits: le32(s) }))
    }
}

/// The next `n` bytes as they are.
pub open spec fn spec_take(s: Seq<u8>, n: nat) -> Parsed<Seq<u8>> {
    if s.len() < n {
        Err(failed(ErrorKind::Truncated, s))
    } else {
        Ok((s.skip(n as int), s.take(n as int)))
    }
}

/// A literal that has to stand at the front of `s`.
pub open spec fn spec_tag(s: Seq<u8>, literal: Seq<u8>) -> Parsed<()> {
    if s.len() < literal.len() {
        Err(failed(ErrorKind::Truncated, s))
    } else if s.take(literal.len() as int) != literal {
        Err(failed(ErrorKind::BadMarker, s))
    } else {
        Ok((s.skip(literal.len() as int), ()))
    }
}

/// A boolean: one byte that is 0 or 1 and nothing else.
pub open spec fn spec_flag(s: Seq<u8>) -> Parsed<bool> {
    if s.len() < 1 {
        Err(failed(ErrorKind::Truncated, s))
    } else if s[0] == 0 {
        Ok((s.skip(1), false))
    } else if s[0] == 1 {
        Ok((s.skip(1), true))
    } else {
        Err(failed(ErrorKind::InvalidFlagValue(s[0]), s))
    }
}

/// The length of the longest prefix of `s` that holds no zero byte.
pub open spec fn zero_free_prefix(s: Seq<u8>) -> nat
    decreases s.len(),
{
    if s.len() == 0 || s[0] == 0 {
        0
    } else {
        1 + zero_free_prefix(s.skip(1))
    }
}

/// A text token that ends at the next zero byte; the zero byte is consumed
/// and is no part of the text.
pub open spec fn spec_cstring(s: Seq<u8>) -> Parsed<Seq<char>> {
    let n = zero_free_prefix(s) as int;
    if n >= s.len() {
        Err(failed(ErrorKind::Truncated, s))
    } else if !valid_utf8(s.take(n)) {
        Err(failed(ErrorKind::InvalidEncoding, s))
    } else {
        Ok((s.skip(n + 1), decode_utf8(s.take(n))))
    }
}

/// A text token behind its two-byte marker and a little-endian 16-bit count
/// of the bytes that encode it.
pub open spec fn spec_de_string(s: Seq<u8>) -> Parsed<Seq<char>> {
    if s.len() < 2 {
        Err(failed(ErrorKind::Truncated, s))
    } else if s[0] != TEXT_MARKER_0 || s[1] != TEXT_MARKER_1 {
        Err(failed(ErrorKind::BadMarker, s))
    } else if s.len() < 4 {
        Err(failed(ErrorKind::Truncated, s.skip(2)))
    } else {
        let n = le16(s.skip(2)) as int;
        if s.len() < 4 + n {
            Err(failed(ErrorKind::Truncated, s.skip(4)))
        } else if !valid_utf8(s.subrange(4, 4 + n)) {
            Err(failed(ErrorKind::InvalidEncoding, s.skip(4)))
        } else {
            Ok((s.skip(4 + n), decode_utf8(s.subrange(4, 4 + n))))
        }
    }
}

/// A field that is present only where `present` holds: absent, it consumes
/// nothing.
pub open spec fn spec_cond<T>(present: bool, s: Seq<u8>, result: Parsed<T>) -> Parsed<Option<T>> {
    if present {
        match result {
            Ok((rest, value)) => Ok((rest, Some(value))),
            Err(e) => Err(e),
        }
    } else {
        Ok((s, None))
    }
}

/// The bytes that a cursor still has to read; none once the decode has failed.
pub open spec fn left(c: Cursor) -> Seq<u8> {
    match c {
        Ok(s) => s,
        Err(_) => Seq::empty(),
    }
}

/// One step of a decode that runs field by field: a decode that has failed
/// stays as it is, and one that has not goes where the field's outcome leads.
pub open spec fn step<T>(c: Cursor, result: Parsed<T>, default: T) -> (Cursor, T) {
    match c {
        Ok(_) => settle(result, default),
        Err(e) => (Err(e), default),
    }
}

/// What a decode that ran field by field comes to.
pub open spec fn finish<T>(c: Cursor, value: T) -> Parsed<T> {
    match c {
        Ok(rest) => Ok((rest, value)),
        Err(e) => Err(e),
    }
}

/// What a step comes to, as the outcome of one decode.
pub open spec fn outcome<T>(stepped: (Cursor, T)) -> Parsed<T> {
    finish(stepped.0, stepped.1)
}

/// Steps over one byte.
pub open spec fn read_byte(c: Cursor) -> (Cursor, u8) {
    step(c, spec_byte(left(c)), 0u8)
}

/// Steps over an unsigned 32-bit number.
pub open spec fn read_u32(c: Cursor) -> (Cursor, u32) {
    step(c, spec_le_u32(left(c)), 0u32)
}

/// Steps over a signed 32-bit number.
pub open spec fn read_i32(c: Cursor) -> (Cursor, i32) {
    step(c, spec_le_i32(left(c)), 0i32)
}

/// Steps over a single-precision number.
pub open spec fn read_binary32(c: Cursor) -> (Cursor, Binary32) {
    step(c, spec_le_binary32(left(c)), Binary32 { bits: 0 })
}

/// Steps over a boolean.
pub open spec fn read_flag(c: Cursor) -> (Cursor, bool) {
    step(c, spec_flag(left(c)), false)
}

/// Steps over `n` bytes and keeps them.
pub open spec fn read_blob(c: Cursor, n: nat) -> (Cursor, Seq<u8>) {
    step(c, spec_take(left(c), n), Seq::empty())
}

/// Steps over a marked text token.
pub open spec fn read_text(c: Cursor) -> (Cursor, Seq<char>) {
    step(c, spec_de_string(left(c)), Seq::empty())
}

/// Steps over an unsigned 32-bit number that is there only if `present`.
pub open spec fn read_u32_if(c: Cursor, present: bool) -> (Cursor, Option<u32>) {
    step(c, spec_cond(present, left(c), spec_le_u32(left(c))), None)
}

/// Steps over a boolean that is there only if `present`.
pub open spec fn read_flag_if(c: Cursor, present: bool) -> (Cursor, Option<bool>) {
    step(c, spec_cond(present, left(c), spec_flag(left(c))), None)
}

/// Steps over `n` kept bytes that are there only if `present`.
pub open spec fn read_blob_if(c: Cursor, n: nat, present: bool) -> (Cursor, Option<Seq<u8>>) {
    step(c, spec_cond(present, left(c), spec_take(left(c), n)), None)
}

/// Checks that `bytes` are the UTF-8 encoding of a text and hands them back
/// as that text. This is `core::str::from_utf8`, which succeeds exactly on
/// well-formed UTF-8 and then returns the same bytes as a string slice; the
/// contract says so with vstd's definition of well-formed UTF-8 and of the
/// characters it encodes.
#[verifier::external_body]
fn utf8_text(bytes: &[u8]) -> (text: Option<&str>)
    ensures
        text is Some <==> valid_utf8(bytes@),
        text matches Some(t) ==> t@ == decode_utf8(bytes@),
{
    core::str::from_utf8(bytes).ok()
}

/// Reads one byte.
pub fn byte(input: &[u8]) -> (r: Result<(&[u8], u8), DecodeError>)
    ensures
        parsed(r, spec_byte(input@)),
{
    if input.len() < 1 {
        return Err(fail(ErrorKind::Truncated, input));
    }
    let (head, rest) = input.split_at(1);
    Ok((rest, head[0]))
}

/// Reads a little-endian unsigned 16-bit number.
pub fn le_u16(input: &[u8]) -> (r: Result<(&[u8], u16), DecodeError>)
    ensures
        parsed(r, spec_le_u16(input@)),
{
    if input.len() < 2 {
        return Err(fail(ErrorKind::Truncated, input));
    }
    let (head, rest) = input.split_at(2);
    let value: u16 = (head[0] as u16) + 0x100 * (head[1] as u16);
    Ok((rest, value))
}

/// Reads a little-endian unsigned 32-bit number.
pub fn le_u32(input: &[u8]) -> (r: Result<(&[u8], u32), DecodeError>)
    ensures
        parsed(r, spec_le_u32(input@)),
{
    if input.len() < 4 {
        return Err(fail(ErrorKind::Truncated, input));
    }
    let (head, rest) = input.split_at(4);
    let value: u32 = (head[0] as u32) + 0x100 * (head[1] as u32) + 0x1_0000 * (head[2] as u32)
        + 0x100_0000 * (head[3] as u32);
    Ok((rest, value))
}

/// Reads a little-endian signed 32-bit number.
pub fn le_i32(input: &[u8]) -> (r: Result<(&[u8], i32), DecodeError>)
    ensures
        parsed(r, spec_le_i32(input@)),
{
    let (rest, raw) = le_u32(input)?;
    let value: i32 = if raw < 0x8000_0000 {
        raw as i32
    } else {
        ((raw - 0x8000_0000) as i32) + i32::MIN
    };
    Ok((rest, value))
}

/// Reads a little-endian single-precision number.
pub fn le_binary32(input: &[u8]) -> (r: Result<(&[u8], Binary32), DecodeError>)
    ensures
        parsed(r, spec_le_binary32(input@)),
{
    let (rest, bits) = le_u32(input)?;
    Ok((rest, Binary32::from_bits(bits)))
}

/// Reads the next `n` bytes as they are.
pub fn take(input: &[u8], n: usize) -> (r: Result<(&[u8], &[u8]), DecodeError>)
    ensures
        parsed_view(r, spec_take(input@, n as nat)),
{
    if input.len() < n {
        return Err(fail(ErrorKind::Truncated, input));
    }
    let (head, rest) = input.split_at(n);
    Ok((rest, head))
}

/// Requires `literal` at the front of the input and steps over it.
pub fn tag<'a>(input: &'a [u8], literal: &[u8]) -> (r: Result<(&'a [u8], ()), DecodeError>)
    ensures
        parsed(r, spec_tag(input@, literal@)),
{
    let n = literal.len();
    if input.len() < n {
        return Err(fail(ErrorKind::Truncated, input));
    }
    let (head, rest) = input.split_at(n);
    let mut i: usize = 0;
    while i < n
        invariant
            i <= n,
            n == literal@.len(),
            n <= input@.len(),
            head@ == input@.take(n as int),
            forall|j: int| 0 <= j < i ==> head@[j] == literal@[j],
        decreases n - i,
    {
        if head[i] != literal[i] {
            assert(input@.take(n as int)[i as int] != literal@[i as int]);
            return Err(fail(ErrorKind::BadMarker, input));
        }
        i += 1;
    }
    assert(head@ =~= literal@);
    Ok((rest, ()))
}

/// Reads a boolean. Only the bytes 0 and 1 are booleans: any other value is
/// reported, never read as `true`.
pub fn flag(input: &[u8]) -> (r: Result<(&[u8], bool), DecodeError>)
    ensures
        parsed(r, spec_flag(input@)),
{
    let (rest, value) = byte(input)?;
    if value == 0 {
        Ok((rest, false))
    } else if value == 1 {
        Ok((rest, true))
    } else {
        Err(fail(ErrorKind::InvalidFlagValue(value), input))
    }
}

/// A prefix without a zero byte that ends at a zero byte, or at the end of
/// the buffer, is the longest such prefix.
pub proof fn lemma_zero_free_prefix(s: Seq<u8>, n: int)
    requires
        0 <= n <= s.len(),
        forall|j: int| 0 <= j < n ==> s[j] != 0,
        n < s.len() ==> s[n] == 0,
    ensures
        zero_free_prefix(s) == n,
    decreases n,
{
    if n > 0 {
        lemma_zero_free_prefix(s.skip(1), n - 1);
    }
}

/// Reads a text token that ends at the next zero byte.
pub fn cstring(input: &[u8]) -> (r: Result<(&[u8], &str), DecodeError>)
    ensures
        parsed_view(r, spec_cstring(input@)),
{
    let mut n: usize = 0;
    while n < input.len() && input[n] != 0
        invariant
            n <= input@.len(),
            forall|j: int| 0 <= j < n ==> input@[j] != 0,
        decreases input@.len() - n,
    {
        n += 1;
    }
    proof {
        lemma_zero_free_prefix(input@, n as int);
    }
    if n >= input.len() {
        return Err(fail(ErrorKind::Truncated, input));
    }
    let (head, tail) = input.split_at(n);
    let (_, rest) = tail.split_at(1);
    assert(rest@ =~= input@.skip(n + 1));
    assert(head@ =~= input@.take(n as int));
    match utf8_text(head) {
        Some(text) => Ok((rest, text)),
        None => Err(fail(ErrorKind::InvalidEncoding, input)),
    }
}

/// Reads a text token behind its marker and its 16-bit length.
pub fn de_string(input: &[u8]) -> (r: Result<(&[u8], &str), DecodeError>)
    ensures
        parsed_view(r, spec_de_string(input@)),
{
    if input.len() < 2 {
        return Err(fail(ErrorKind::Truncated, input));
    }
    if input[0] != TEXT_MARKER_0 || input[1] != TEXT_MARKER_1 {
        return Err(fail(ErrorKind::BadMarker, input));
    }
    let (_, behind_marker) = input.split_at(2);
    assert(behind_marker@ =~= input@.skip(2));
    let (behind_length, length) = le_u16(behind_marker)?;
    let (rest, encoded) = take(behind_length, length as usize)?;
    assert(rest@ =~= input@.skip(4 + length));
    assert(encoded@ =~= input@.subrange(4, 4 + length));
    match utf8_text(encoded) {
        Some(text) => Ok((rest, text)),
        None => Err(fail(ErrorKind::InvalidEncoding, behind_length)),
    }
}

/// Reads eight bytes as a block.
pub fn blob8(input: &[u8]) -> (r: Result<(&[u8], [u8; 8]), DecodeError>)
    ensures
        parsed_view(r, spec_take(input@, 8)),
{
    let (rest, b) = take(input, 8)?;
    let block: [u8; 8] = [b[0], b[1], b[2], b[3], b[4], b[5], b[6], b[7]];
    assert(block@ =~= b@);
    Ok((rest, block))
}

/// Reads an unsigned 32-bit number where `present` holds, and nothing where
/// it does not.
pub fn cond_le_u32(input: &[u8], present: bool) -> (r: Result<(&[u8], Option<u32>), DecodeError>)
    ensures
        parsed(r, spec_cond(present, input@, spec_le_u32(input@))),
{
    if present {
        let (rest, value) = le_u32(input)?;
        Ok((rest, Some(value)))
    } else {
        Ok((input, None))
    }
}

/// Reads a boolean where `present` holds, and nothing where it does not.
pub fn cond_flag(input: &[u8], present: bool) -> (r: Result<(&[u8], Option<bool>), DecodeError>)
    ensures
        parsed(r, spec_cond(present, input@, spec_flag(input@))),
{
    if present {
        let (rest, value) = flag(input)?;
        Ok((rest, Some(value)))
    } else {
        Ok((input, None))
    }
}

/// Reads a block of eight bytes where `present` holds, and nothing where it
/// does not.
pub fn cond_blob8(input: &[u8], present: bool) -> (r: Result<(&[u8], Option<[u8; 8]>), DecodeError>)
    ensures
        match r {
            Ok((rest, Some(block))) => spec_cond(present, input@, spec_take(input@, 8)) == Ok::<
                (Seq<u8>, Option<Seq<u8>>),
                DecodeError,
            >((rest@, Some(block@))),
            Ok((rest, None)) => spec_cond(present, input@, spec_take(input@, 8)) == Ok::<
                (Seq<u8>, Option<Seq<u8>>),
                DecodeError,
            >((rest@, None)),
            Err(e) => spec_cond(present, input@, spec_take(input@, 8)) == Err::<
                (Seq<u8>, Option<Seq<u8>>),
                DecodeError,
            >(e),
        },
{
    if present {
        let (rest, block) = blob8(input)?;
        Ok((rest, Some(block)))
    } else {
        Ok((input, None))
    }
}

} // verus!
