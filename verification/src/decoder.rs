//! Incremental, stateful byte-to-text decoder for console output.
//!
//! The external tool's output arrives in arbitrary read chunks, so a
//! multi-byte UTF-8 sequence may be split across two reads. The decoder
//! buffers any trailing bytes that form an incomplete (but still possibly
//! valid) encoding and prefixes them to the next chunk; invalid bytes are
//! replaced by U+FFFD rather than reported as errors; a final flush turns
//! any buffered tail into U+FFFD instead of discarding it.

use vstd::prelude::*;
use vstd::utf8::*;

verus! {

broadcast use vstd::seq::group_seq_axioms;

/// The Unicode replacement character emitted for undecodable input.
pub open spec fn replacement() -> char {
    '\u{fffd}'
}

/// True when `b` can begin a valid 2-byte encoding.
pub open spec fn is_lead2(b: u8) -> bool {
    0xc2 <= b <= 0xdf
}

/// True when `b` can begin a valid 3-byte encoding.
pub open spec fn is_lead3(b: u8) -> bool {
    0xe0 <= b <= 0xef
}

/// True when `b` can begin a valid 4-byte encoding.
pub open spec fn is_lead4(b: u8) -> bool {
    0xf0 <= b <= 0xf4
}

/// True when `b1` is a valid second byte after the 3-byte lead `b0`
/// (ruling out overlong encodings and surrogates).
pub open spec fn valid_second_width_3(b0: u8, b1: u8) -> bool {
    if b0 == 0xe0 {
        0xa0 <= b1 <= 0xbf
    } else if b0 == 0xed {
        0x80 <= b1 <= 0x9f
    } else {
        is_continuation_byte(b1)
    }
}

/// True when `b1` is a valid second byte after the 4-byte lead `b0`
/// (ruling out overlong encodings and codepoints beyond U+10FFFF).
pub open spec fn valid_second_width_4(b0: u8, b1: u8) -> bool {
    if b0 == 0xf0 {
        0x90 <= b1 <= 0xbf
    } else if b0 == 0xf4 {
        0x80 <= b1 <= 0x8f
    } else {
        is_continuation_byte(b1)
    }
}

/// Length of the complete, valid scalar encoding at the front of `s`,
/// or 0 when the front is not a complete valid encoding.
pub open spec fn first_ok_len(s: Seq<u8>) -> int {
    if s.len() >= 1 && is_leading_byte_width_1(s[0]) {
        1
    } else if s.len() >= 2 && is_lead2(s[0]) && is_continuation_byte(s[1]) {
        2
    } else if s.len() >= 3 && is_lead3(s[0]) && valid_second_width_3(s[0], s[1])
        && is_continuation_byte(s[2]) {
        3
    } else if s.len() >= 4 && is_lead4(s[0]) && valid_second_width_4(s[0], s[1])
        && is_continuation_byte(s[2]) && is_continuation_byte(s[3]) {
        4
    } else {
        0
    }
}

/// The character encoded at the front of `s`, assuming a complete valid
/// encoding starts there.
pub open spec fn first_char(s: Seq<u8>) -> char
    recommends
        first_ok_len(s) > 0,
{
    decode_first_codepoint(s) as char
}

/// True when all of `s` is a proper prefix of some valid scalar encoding:
/// more bytes could still complete it into a valid character.
pub open spec fn is_incomplete_prefix(s: Seq<u8>) -> bool {
    ||| (s.len() == 1 && (is_lead2(s[0]) || is_lead3(s[0]) || is_lead4(s[0])))
    ||| (s.len() == 2 && is_lead3(s[0]) && valid_second_width_3(s[0], s[1]))
    ||| (s.len() == 2 && is_lead4(s[0]) && valid_second_width_4(s[0], s[1]))
    ||| (s.len() == 3 && is_lead4(s[0]) && valid_second_width_4(s[0], s[1])
        && is_continuation_byte(s[2]))
}

/// How many bytes an undecodable front of `s` consumes: the maximal
/// well-formed proper prefix of a scalar encoding, and at least one byte.
pub open spec fn error_len(s: Seq<u8>) -> int
    recommends
        s.len() > 0,
        first_ok_len(s) == 0,
        !is_incomplete_prefix(s),
{
    if s.len() >= 2 && is_lead3(s[0]) && valid_second_width_3(s[0], s[1]) {
        2
    } else if s.len() >= 3 && is_lead4(s[0]) && valid_second_width_4(s[0], s[1])
        && is_continuation_byte(s[2]) {
        3
    } else if s.len() >= 2 && is_lead4(s[0]) && valid_second_width_4(s[0], s[1]) {
        2
    } else {
        1
    }
}

/// Lossy decoding of a whole byte sequence: valid encodings become their
/// characters, undecodable bytes become U+FFFD, and a trailing incomplete
/// encoding becomes a single U+FFFD. This is the text an end-of-stream
/// decode produces.
pub open spec fn lossy_decode(s: Seq<u8>) -> Seq<char>
    decreases s.len(),
{
    if s.len() == 0 {
        seq![]
    } else if is_incomplete_prefix(s) {
        seq![replacement()]
    } else if first_ok_len(s) > 0 {
        seq![first_char(s)] + lossy_decode(s.skip(first_ok_len(s)))
    } else {
        seq![replacement()] + lossy_decode(s.skip(error_len(s)))
    }
}

/// The text one `decode` call emits for the bytes `s` (buffered tail plus
/// new chunk): like `lossy_decode`, but a trailing incomplete encoding is
/// held back instead of being replaced.
pub open spec fn stream_emit(s: Seq<u8>) -> Seq<char>
    decreases s.len(),
{
    if s.len() == 0 {
        seq![]
    } else if is_incomplete_prefix(s) {
        seq![]
    } else if first_ok_len(s) > 0 {
        seq![first_char(s)] + stream_emit(s.skip(first_ok_len(s)))
    } else {
        seq![replacement()] + stream_emit(s.skip(error_len(s)))
    }
}

/// The bytes one `decode` call holds back for the next call: the trailing
/// incomplete encoding of `s`, or empty.
pub open spec fn stream_tail(s: Seq<u8>) -> Seq<u8>
    decreases s.len(),
{
    if s.len() == 0 {
        seq![]
    } else if is_incomplete_prefix(s) {
        s
    } else if first_ok_len(s) > 0 {
        stream_tail(s.skip(first_ok_len(s)))
    } else {
        stream_tail(s.skip(error_len(s)))
    }
}

/// Emitting what a `decode` call emits and then lossily decoding its
/// held-back tail gives exactly the lossy decoding of the whole input.
pub proof fn lemma_emit_then_tail(s: Seq<u8>)
    ensures
        lossy_decode(s) == stream_emit(s) + lossy_decode(stream_tail(s)),
    decreases s.len(),
{
    if s.len() == 0 {
        assert(lossy_decode(s) =~= stream_emit(s) + lossy_decode(stream_tail(s)));
    } else if is_incomplete_prefix(s) {
        assert(lossy_decode(s) =~= stream_emit(s) + lossy_decode(stream_tail(s)));
    } else if first_ok_len(s) > 0 {
        lemma_emit_then_tail(s.skip(first_ok_len(s)));
        assert(lossy_decode(s) =~= stream_emit(s) + lossy_decode(stream_tail(s)));
    } else {
        lemma_emit_then_tail(s.skip(error_len(s)));
        assert(lossy_decode(s) =~= stream_emit(s) + lossy_decode(stream_tail(s)));
    }
}

/// A complete step recognized by `first_ok_len` is exactly a well-formed
/// scalar encoding in the sense of `vstd::utf8`.
proof fn lemma_first_ok_is_valid_scalar(s: Seq<u8>)
    requires
        first_ok_len(s) > 0,
    ensures
        valid_first_scalar(s),
        length_of_first_scalar(s) == first_ok_len(s),
        first_char(s) == decode_first_scalar(s) as char,
{
    let b0 = s[0];
    if first_ok_len(s) == 1 {
    } else if first_ok_len(s) == 2 {
        let b1 = s[1];
        assert(0x80 <= ((b0 & 0x1f) as u32) << 6 | ((b1 & 0x3f) as u32) <= 0x7ff)
            by (bit_vector)
            requires
                0xc2 <= b0 <= 0xdf,
                0x80 <= b1 <= 0xbf,
        ;
    } else if first_ok_len(s) == 3 {
        let b1 = s[1];
        let b2 = s[2];
        let cp = ((b0 & 0x0f) as u32) << 12 | ((b1 & 0x3f) as u32) << 6 | ((b2 & 0x3f) as u32);
        assert(0x800 <= cp <= 0xffff && !(0xd800 <= cp <= 0xdfff)) by (bit_vector)
            requires
                cp == ((b0 & 0x0f) as u32) << 12 | ((b1 & 0x3f) as u32) << 6 | ((b2
                    & 0x3f) as u32),
                0xe0 <= b0 <= 0xef,
                b0 == 0xe0 ==> 0xa0 <= b1 <= 0xbf,
                b0 == 0xed ==> 0x80 <= b1 <= 0x9f,
                b0 != 0xe0 && b0 != 0xed ==> 0x80 <= b1 <= 0xbf,
                0x80 <= b2 <= 0xbf,
        ;
    } else {
        let b1 = s[1];
        let b2 = s[2];
        let b3 = s[3];
        let cp = ((b0 & 0x07) as u32) << 18 | ((b1 & 0x3f) as u32) << 12 | ((b2
            & 0x3f) as u32) << 6 | ((b3 & 0x3f) as u32);
        assert(0x10000 <= cp <= 0x10ffff) by (bit_vector)
            requires
                cp == ((b0 & 0x07) as u32) << 18 | ((b1 & 0x3f) as u32) << 12 | ((b2
                    & 0x3f) as u32) << 6 | ((b3 & 0x3f) as u32),
                0xf0 <= b0 <= 0xf4,
                b0 == 0xf0 ==> 0x90 <= b1 <= 0xbf,
                b0 == 0xf4 ==> 0x80 <= b1 <= 0x8f,
                b0 != 0xf0 && b0 != 0xf4 ==> 0x80 <= b1 <= 0xbf,
                0x80 <= b2 <= 0xbf,
                0x80 <= b3 <= 0xbf,
        ;
    }
}

/// Conversely, a well-formed scalar encoding at the front of `s` is a
/// complete step of the same length, and not an incomplete prefix.
proof fn lemma_valid_scalar_is_first_ok(s: Seq<u8>)
    requires
        valid_first_scalar(s),
    ensures
        first_ok_len(s) == length_of_first_scalar(s),
        first_ok_len(s) > 0,
        !is_incomplete_prefix(s),
{
    let b0 = s[0];
    if is_leading_byte_width_1(b0) {
    } else if is_leading_byte_width_2(b0) {
        let b1 = s[1];
        let cp = ((b0 & 0x1f) as u32) << 6 | ((b1 & 0x3f) as u32);
        assert(0xc2 <= b0) by (bit_vector)
            requires
                cp == ((b0 & 0x1f) as u32) << 6 | ((b1 & 0x3f) as u32),
                0xc0 <= b0 <= 0xdf,
                0x80 <= b1 <= 0xbf,
                0x80 <= cp,
        ;
    } else if is_leading_byte_width_3(b0) {
        let b1 = s[1];
        let cp = ((b0 & 0x0f) as u32) << 12 | ((b1 & 0x3f) as u32) << 6 | ((s[2]
            & 0x3f) as u32);
        let b2 = s[2];
        assert((b0 == 0xe0 ==> 0xa0 <= b1 <= 0xbf) && (b0 == 0xed ==> 0x80 <= b1 <= 0x9f))
            by (bit_vector)
            requires
                cp == ((b0 & 0x0f) as u32) << 12 | ((b1 & 0x3f) as u32) << 6 | ((b2
                    & 0x3f) as u32),
                0xe0 <= b0 <= 0xef,
                0x80 <= b1 <= 0xbf,
                0x80 <= b2 <= 0xbf,
                0x800 <= cp,
                !(0xd800 <= cp <= 0xdfff),
        ;
    } else {
        let b1 = s[1];
        let b2 = s[2];
        let b3 = s[3];
        let cp = ((b0 & 0x07) as u32) << 18 | ((b1 & 0x3f) as u32) << 12 | ((b2
            & 0x3f) as u32) << 6 | ((b3 & 0x3f) as u32);
        assert(b0 <= 0xf4 && (b0 == 0xf0 ==> 0x90 <= b1) && (b0 == 0xf4 ==> b1 <= 0x8f))
            by (bit_vector)
            requires
                cp == ((b0 & 0x07) as u32) << 18 | ((b1 & 0x3f) as u32) << 12 | ((b2
                    & 0x3f) as u32) << 6 | ((b3 & 0x3f) as u32),
                0xf0 <= b0 <= 0xf7,
                0x80 <= b1 <= 0xbf,
                0x80 <= b2 <= 0xbf,
                0x80 <= b3 <= 0xbf,
                0x10000 <= cp <= 0x10ffff,
        ;
    }
}

/// The first scalar encoding of `a` keeps its meaning when more bytes are
/// appended after `a`.
proof fn lemma_first_scalar_extension(a: Seq<u8>, b: Seq<u8>)
    requires
        valid_first_scalar(a),
    ensures
        valid_first_scalar(a + b),
        length_of_first_scalar(a + b) == length_of_first_scalar(a),
        decode_first_scalar(a + b) == decode_first_scalar(a),
        pop_first_scalar(a + b) == pop_first_scalar(a) + b,
{
    let u = a + b;
    assert(forall|i: int| 0 <= i < a.len() ==> u[i] == a[i]);
    assert(pop_first_scalar(u) =~= pop_first_scalar(a) + b);
}

/// Concatenating two valid UTF-8 sequences is valid UTF-8 and decodes to
/// the concatenation of the two decodings.
pub proof fn lemma_decode_concat(a: Seq<u8>, b: Seq<u8>)
    requires
        valid_utf8(a),
        valid_utf8(b),
    ensures
        valid_utf8(a + b),
        decode_utf8(a + b) == decode_utf8(a) + decode_utf8(b),
    decreases a.len(),
{
    if a.len() == 0 {
        assert(a + b =~= b);
        assert(decode_utf8(a + b) =~= decode_utf8(a) + decode_utf8(b));
    } else {
        lemma_first_scalar_extension(a, b);
        lemma_decode_concat(pop_first_scalar(a), b);
        assert(decode_utf8(a + b) =~= decode_utf8(a) + decode_utf8(b));
    }
}

/// On valid UTF-8 input, lossy decoding agrees with `vstd`'s `decode_utf8`,
/// and nothing is held back or replaced.
pub proof fn lemma_lossy_decode_valid(s: Seq<u8>)
    requires
        valid_utf8(s),
    ensures
        lossy_decode(s) == decode_utf8(s),
    decreases s.len(),
{
    if s.len() == 0 {
    } else {
        lemma_valid_scalar_is_first_ok(s);
        assert(s.skip(first_ok_len(s)) =~= pop_first_scalar(s));
        lemma_lossy_decode_valid(pop_first_scalar(s));
    }
}

/// A step that is not a trailing incomplete encoding is decided by bytes
/// that are already present, so appending more input does not change it.
proof fn lemma_step_extension(s: Seq<u8>, t: Seq<u8>)
    requires
        s.len() > 0,
        !is_incomplete_prefix(s),
    ensures
        !is_incomplete_prefix(s + t),
        first_ok_len(s + t) == first_ok_len(s),
        first_ok_len(s) > 0 ==> first_char(s + t) == first_char(s),
        first_ok_len(s) == 0 ==> error_len(s + t) == error_len(s),
{
    let u = s + t;
    assert(u.len() == s.len() + t.len());
    assert(forall|i: int| 0 <= i < s.len() ==> u[i] == s[i]);
}

/// Feeding the decoder `a` and then `b` emits the same text, and leaves the
/// same held-back tail, as feeding it `a + b` at once.
pub proof fn lemma_stream_concat(a: Seq<u8>, b: Seq<u8>)
    ensures
        stream_emit(a + b) == stream_emit(a) + stream_emit(stream_tail(a) + b),
        stream_tail(a + b) == stream_tail(stream_tail(a) + b),
    decreases a.len(),
{
    if a.len() == 0 {
        assert(stream_tail(a) =~= Seq::<u8>::empty());
        assert(a + b =~= b);
        assert(stream_tail(a) + b =~= b);
        assert(stream_emit(a + b) =~= stream_emit(a) + stream_emit(stream_tail(a) + b));
    } else if is_incomplete_prefix(a) {
        assert(stream_tail(a) == a);
        assert(stream_emit(a + b) =~= stream_emit(a) + stream_emit(stream_tail(a) + b));
    } else {
        lemma_step_extension(a, b);
        let n = if first_ok_len(a) > 0 {
            first_ok_len(a)
        } else {
            error_len(a)
        };
        assert(1 <= n <= a.len());
        assert((a + b).skip(n) =~= a.skip(n) + b);
        lemma_stream_concat(a.skip(n), b);
        assert(stream_emit(a + b) =~= stream_emit(a) + stream_emit(stream_tail(a) + b));
    }
}

/// Law: decoding a byte stream in two chunks, split at any point, then
/// flushing, yields the same text as decoding it in one chunk and flushing.
/// The left side is what two `decode` calls and a `flush` emit in total;
/// the right side is what one `decode` call and a `flush` emit.
pub proof fn lemma_two_chunk_decode(b1: Seq<u8>, b2: Seq<u8>)
    ensures
        stream_emit(b1) + stream_emit(stream_tail(b1) + b2) + lossy_decode(
            stream_tail(stream_tail(b1) + b2),
        ) == lossy_decode(b1 + b2),
{
    lemma_stream_concat(b1, b2);
    lemma_emit_then_tail(b1 + b2);
}

/// The text emitted by feeding the decoder each chunk in order, starting
/// with `pending` buffered.
pub open spec fn emitted_over_chunks(chunks: Seq<Seq<u8>>, pending: Seq<u8>) -> Seq<char>
    decreases chunks.len(),
{
    if chunks.len() == 0 {
        seq![]
    } else {
        stream_emit(pending + chunks[0]) + emitted_over_chunks(
            chunks.drop_first(),
            stream_tail(pending + chunks[0]),
        )
    }
}

/// The bytes still buffered after feeding the decoder each chunk in order,
/// starting with `pending` buffered.
pub open spec fn tail_over_chunks(chunks: Seq<Seq<u8>>, pending: Seq<u8>) -> Seq<u8>
    decreases chunks.len(),
{
    if chunks.len() == 0 {
        pending
    } else {
        tail_over_chunks(chunks.drop_first(), stream_tail(pending + chunks[0]))
    }
}

/// Law: the decoder's output does not depend on the chunking at all.
/// Feeding any sequence of chunks and then flushing emits, in total,
/// exactly the lossy decoding of the chunks' concatenation.
pub proof fn lemma_chunking_independent(chunks: Seq<Seq<u8>>, pending: Seq<u8>)
    ensures
        emitted_over_chunks(chunks, pending) + lossy_decode(tail_over_chunks(chunks, pending))
            == lossy_decode(pending + chunks.flatten()),
    decreases chunks.len(),
{
    if chunks.len() == 0 {
        assert(chunks.flatten() =~= Seq::<u8>::empty());
        assert(pending + chunks.flatten() =~= pending);
        assert(emitted_over_chunks(chunks, pending) + lossy_decode(
            tail_over_chunks(chunks, pending),
        ) =~= lossy_decode(pending));
    } else {
        let d = pending + chunks[0];
        let rest = chunks.drop_first();
        lemma_chunking_independent(rest, stream_tail(d));
        lemma_stream_concat(d, rest.flatten());
        lemma_emit_then_tail(d + rest.flatten());
        lemma_emit_then_tail(stream_tail(d) + rest.flatten());
        assert(pending + chunks.flatten() =~= d + rest.flatten());
        assert(emitted_over_chunks(chunks, pending) + lossy_decode(
            tail_over_chunks(chunks, pending),
        ) =~= stream_emit(d) + (emitted_over_chunks(rest, stream_tail(d)) + lossy_decode(
            tail_over_chunks(rest, stream_tail(d)),
        )));
    }
}

/// Law: a valid UTF-8 byte sequence fed to the decoder in two arbitrary,
/// not necessarily character-aligned chunks yields the same text as
/// decoding it in one piece, namely the sequence's own decoding.
pub proof fn lemma_two_chunk_decode_valid(b: Seq<u8>, i: int)
    requires
        valid_utf8(b),
        0 <= i <= b.len(),
    ensures
        stream_emit(b.take(i)) + stream_emit(stream_tail(b.take(i)) + b.skip(i)) + lossy_decode(
            stream_tail(stream_tail(b.take(i)) + b.skip(i)),
        ) == decode_utf8(b),
{
    lemma_two_chunk_decode(b.take(i), b.skip(i));
    assert(b.take(i) + b.skip(i) =~= b);
    lemma_lossy_decode_valid(b);
}

/// The UTF-8 encoding of the replacement character.
pub open spec fn replacement_bytes() -> Seq<u8> {
    seq![0xefu8, 0xbfu8, 0xbdu8]
}

/// Relies on `String::from_utf8`: for bytes that are valid UTF-8 it returns
/// `Ok` with the string those bytes encode; the `requires` rules the `Err`
/// case out.
#[verifier::external_body]
fn string_from_valid_utf8(bytes: Vec<u8>) -> (r: String)
    requires
        valid_utf8(bytes@),
    ensures
        r@ == decode_utf8(bytes@),
{
    match String::from_utf8(bytes) {
        Ok(s) => s,
        Err(_) => String::new(),
    }
}

/// Appending one complete scalar encoding to sanitized output bytes keeps
/// them valid and appends exactly one character to their decoding.
proof fn lemma_append_scalar(obytes: Seq<u8>, enc: Seq<u8>)
    requires
        valid_utf8(obytes),
        first_ok_len(enc) == enc.len(),
        enc.len() > 0,
    ensures
        valid_utf8(obytes + enc),
        decode_utf8(obytes + enc) == decode_utf8(obytes) + seq![first_char(enc)],
{
    lemma_first_ok_is_valid_scalar(enc);
    assert(pop_first_scalar(enc) =~= Seq::<u8>::empty());
    assert(valid_utf8(Seq::<u8>::empty()));
    assert(valid_utf8(enc));
    assert(decode_utf8(Seq::<u8>::empty()) =~= Seq::<char>::empty());
    assert(decode_utf8(enc) =~= seq![first_char(enc)]);
    lemma_decode_concat(obytes, enc);
}

/// A complete step at the front of `rem` advances `stream_emit` and
/// `stream_tail` by one decoded character, and extends the sanitized
/// output bytes by that character's encoding.
proof fn lemma_ok_step(obytes: Seq<u8>, rem: Seq<u8>, w: int)
    requires
        valid_utf8(obytes),
        first_ok_len(rem) == w,
        w > 0,
    ensures
        w <= rem.len(),
        !is_incomplete_prefix(rem),
        valid_utf8(obytes + rem.take(w)),
        decode_utf8(obytes + rem.take(w)) == decode_utf8(obytes) + seq![first_char(rem)],
        stream_emit(rem) == seq![first_char(rem)] + stream_emit(rem.skip(w)),
        stream_tail(rem) == stream_tail(rem.skip(w)),
{
    let enc = rem.take(w);
    assert(first_ok_len(enc) == w);
    assert(first_char(enc) == first_char(rem));
    lemma_append_scalar(obytes, enc);
}

/// The replacement character's encoding is itself one complete step.
proof fn lemma_replacement_ok()
    ensures
        first_ok_len(replacement_bytes()) == 3,
        first_char(replacement_bytes()) == replacement(),
{
    let rb = replacement_bytes();
    assert(((0xefu8 & 0x0f) as u32) << 12 | ((0xbfu8 & 0x3f) as u32) << 6 | ((0xbdu8
        & 0x3f) as u32) == 0xfffdu32) by (bit_vector);
}

/// An undecodable step at the front of `rem` advances `stream_emit` and
/// `stream_tail` past the malformed bytes and appends the replacement
/// character's encoding to the sanitized output bytes.
proof fn lemma_err_step(obytes: Seq<u8>, rem: Seq<u8>)
    requires
        valid_utf8(obytes),
        rem.len() > 0,
        first_ok_len(rem) == 0,
        !is_incomplete_prefix(rem),
    ensures
        1 <= error_len(rem) <= rem.len(),
        valid_utf8(obytes + replacement_bytes()),
        decode_utf8(obytes + replacement_bytes()) == decode_utf8(obytes) + seq![replacement()],
        stream_emit(rem) == seq![replacement()] + stream_emit(rem.skip(error_len(rem))),
        stream_tail(rem) == stream_tail(rem.skip(error_len(rem))),
{
    lemma_replacement_ok();
    lemma_append_scalar(obytes, replacement_bytes());
}

/// True when `b` has the continuation-byte form `10xxxxxx`.
fn check_cont(b: u8) -> (r: bool)
    ensures
        r == is_continuation_byte(b),
{
    0x80 <= b && b <= 0xbf
}

/// Checks the constrained second byte of a 3-byte encoding.
fn check_second3(b0: u8, b1: u8) -> (r: bool)
    ensures
        r == valid_second_width_3(b0, b1),
{
    if b0 == 0xe0 {
        0xa0 <= b1 && b1 <= 0xbf
    } else if b0 == 0xed {
        0x80 <= b1 && b1 <= 0x9f
    } else {
        0x80 <= b1 && b1 <= 0xbf
    }
}

/// Checks the constrained second byte of a 4-byte encoding.
fn check_second4(b0: u8, b1: u8) -> (r: bool)
    ensures
        r == valid_second_width_4(b0, b1),
{
    if b0 == 0xf0 {
        0x90 <= b1 && b1 <= 0xbf
    } else if b0 == 0xf4 {
        0x80 <= b1 && b1 <= 0x8f
    } else {
        0x80 <= b1 && b1 <= 0xbf
    }
}

/// Appends the replacement character's UTF-8 encoding.
fn push_replacement(out: &mut Vec<u8>)
    ensures
        final(out)@ == old(out)@ + replacement_bytes(),
{
    out.push(0xef);
    out.push(0xbf);
    out.push(0xbd);
    assert(final(out)@ =~= old(out)@ + replacement_bytes());
}

/// Incremental decoder for one console output channel. Bytes that end a
/// chunk in the middle of a possibly valid multi-byte encoding are buffered
/// and prefixed to the next chunk; each streaming invocation uses one
/// decoder per output channel so that buffered state never crosses channels.
pub struct WslOutputDecoder {
    pending: Vec<u8>,
}

impl WslOutputDecoder {
    /// The bytes currently buffered, waiting for the rest of an encoding.
    pub closed spec fn pending_view(self) -> Seq<u8> {
        self.pending@
    }

    /// The buffer only ever holds an incomplete (still completable)
    /// encoding, or nothing.
    pub open spec fn wf(self) -> bool {
        self.pending_view().len() == 0 || is_incomplete_prefix(self.pending_view())
    }

    /// A fresh decoder with nothing buffered.
    pub fn new() -> (d: Self)
        ensures
            d.wf(),
            d.pending_view().len() == 0,
    {
        WslOutputDecoder { pending: Vec::new() }
    }

    /// Decode the next chunk of the stream. Emits the text of every
    /// complete or malformed encoding in the buffered tail plus this chunk,
    /// and buffers a trailing incomplete encoding for the next call.
    pub fn decode(&mut self, input: &[u8]) -> (out: String)
        requires
            old(self).wf(),
        ensures
            final(self).wf(),
            out@ == stream_emit(old(self).pending_view() + input@),
            final(self).pending_view() == stream_tail(old(self).pending_view() + input@),
    {
        let ghost whole: Seq<u8> = self.pending@ + input@;
        let pend_len = self.pending.len();
        let mut data: Vec<u8> = Vec::new();
        let mut k: usize = 0;
        while k < pend_len
            invariant
                k <= pend_len,
                pend_len == self.pending@.len(),
                self == old(self),
                data@ == self.pending@.take(k as int),
            decreases pend_len - k,
        {
            data.push(self.pending[k]);
            k = k + 1;
        }
        assert(data@ =~= self.pending@);
        let in_len = input.len();
        let mut k2: usize = 0;
        while k2 < in_len
            invariant
                k2 <= in_len,
                in_len == input@.len(),
                self == old(self),
                data@ == self.pending@ + input@.take(k2 as int),
            decreases in_len - k2,
        {
            data.push(input[k2]);
            k2 = k2 + 1;
        }
        assert(data@ =~= whole);

        let n = data.len();
        let mut i: usize = 0;
        let mut out_bytes: Vec<u8> = Vec::new();
        let mut hit_tail = false;
        proof {
            assert(data@.skip(0) =~= data@);
            assert(out_bytes@ =~= Seq::<u8>::empty());
            assert(decode_utf8(out_bytes@) + stream_emit(data@) =~= stream_emit(data@));
        }
        while i < n && !hit_tail
            invariant
                i <= n,
                n == data@.len(),
                valid_utf8(out_bytes@),
                decode_utf8(out_bytes@) + stream_emit(data@.skip(i as int)) == stream_emit(
                    data@,
                ),
                stream_tail(data@.skip(i as int)) == stream_tail(data@),
                hit_tail ==> is_incomplete_prefix(data@.skip(i as int)),
            decreases n - i + (if hit_tail { 0int } else { 1int }),
        {
            let ghost rem = data@.skip(i as int);
            let ghost ob = out_bytes@;
            let b0 = data[i];
            let left = n - i;
            if b0 < 0x80 {
                proof {
                    lemma_ok_step(out_bytes@, rem, 1);
                    assert(rem.take(1) =~= seq![b0]);
                    assert(rem.skip(1) =~= data@.skip(i as int + 1));
                }
                out_bytes.push(b0);
                assert(out_bytes@ =~= ob + rem.take(1));
                i = i + 1;
            } else if 0xc2 <= b0 && b0 <= 0xdf {
                if left >= 2 {
                    let b1 = data[i + 1];
                    if check_cont(b1) {
                        proof {
                            lemma_ok_step(out_bytes@, rem, 2);
                            assert(rem.take(2) =~= seq![b0, b1]);
                            assert(rem.skip(2) =~= data@.skip(i as int + 2));
                        }
                        out_bytes.push(b0);
                        out_bytes.push(b1);
                        assert(out_bytes@ =~= ob + rem.take(2));
                        i = i + 2;
                    } else {
                        proof {
                            lemma_err_step(out_bytes@, rem);
                            assert(rem.skip(1) =~= data@.skip(i as int + 1));
                        }
                        push_replacement(&mut out_bytes);
                        i = i + 1;
                    }
                } else {
                    hit_tail = true;
                }
            } else if 0xe0 <= b0 && b0 <= 0xef {
                if left >= 2 {
                    let b1 = data[i + 1];
                    if check_second3(b0, b1) {
                        if left >= 3 {
                            let b2 = data[i + 2];
                            if check_cont(b2) {
                                proof {
                                    lemma_ok_step(out_bytes@, rem, 3);
                                    assert(rem.take(3) =~= seq![b0, b1, b2]);
                                    assert(rem.skip(3) =~= data@.skip(i as int + 3));
                                }
                                out_bytes.push(b0);
                                out_bytes.push(b1);
                                out_bytes.push(b2);
                                assert(out_bytes@ =~= ob + rem.take(3));
                                i = i + 3;
                            } else {
                                proof {
                                    lemma_err_step(out_bytes@, rem);
                                    assert(rem.skip(2) =~= data@.skip(i as int + 2));
                                }
                                push_replacement(&mut out_bytes);
                                i = i + 2;
                            }
                        } else {
                            hit_tail = true;
                        }
                    } else {
                        proof {
                            lemma_err_step(out_bytes@, rem);
                            assert(rem.skip(1) =~= data@.skip(i as int + 1));
                        }
                        push_replacement(&mut out_bytes);
                        i = i + 1;
                    }
                } else {
                    hit_tail = true;
                }
            } else if 0xf0 <= b0 && b0 <= 0xf4 {
                if left >= 2 {
                    let b1 = data[i + 1];
                    if check_second4(b0, b1) {
                        if left >= 3 {
                            let b2 = data[i + 2];
                            if check_cont(b2) {
                                if left >= 4 {
                                    let b3 = data[i + 3];
                                    if check_cont(b3) {
                                        proof {
                                            lemma_ok_step(out_bytes@, rem, 4);
                                            assert(rem.take(4) =~= seq![b0, b1, b2, b3]);
                                            assert(rem.skip(4) =~= data@.skip(i as int + 4));
                                        }
                                        out_bytes.push(b0);
                                        out_bytes.push(b1);
                                        out_bytes.push(b2);
                                        out_bytes.push(b3);
                                        assert(out_bytes@ =~= ob + rem.take(4));
                                        i = i + 4;
                                    } else {
                                        proof {
                                            lemma_err_step(out_bytes@, rem);
                                            assert(rem.skip(3) =~= data@.skip(i as int + 3));
                                        }
                                        push_replacement(&mut out_bytes);
                                        i = i + 3;
                                    }
                                } else {
                                    hit_tail = true;
                                }
                            } else {
                                proof {
                                    lemma_err_step(out_bytes@, rem);
                                    assert(rem.skip(2) =~= data@.skip(i as int + 2));
                                }
                                push_replacement(&mut out_bytes);
                                i = i + 2;
                            }
                        } else {
                            hit_tail = true;
                        }
                    } else {
                        proof {
                            lemma_err_step(out_bytes@, rem);
                            assert(rem.skip(1) =~= data@.skip(i as int + 1));
                        }
                        push_replacement(&mut out_bytes);
                        i = i + 1;
                    }
                } else {
                    hit_tail = true;
                }
            } else {
                proof {
                    lemma_err_step(out_bytes@, rem);
                    assert(rem.skip(1) =~= data@.skip(i as int + 1));
                }
                push_replacement(&mut out_bytes);
                i = i + 1;
            }
        }
        proof {
            if !hit_tail {
                assert(data@.skip(i as int) =~= Seq::<u8>::empty());
            }
        }
        let mut tail: Vec<u8> = Vec::new();
        let mut j: usize = i;
        while j < n
            invariant
                i <= j <= n,
                n == data@.len(),
                tail@ == data@.subrange(i as int, j as int),
            decreases n - j,
        {
            tail.push(data[j]);
            j = j + 1;
        }
        assert(tail@ =~= data@.skip(i as int));
        self.pending = tail;
        string_from_valid_utf8(out_bytes)
    }

    /// End of stream: lossily decode whatever is still buffered rather than
    /// discarding it, and clear the buffer.
    pub fn flush(&mut self) -> (out: String)
        requires
            old(self).wf(),
        ensures
            final(self).wf(),
            final(self).pending_view().len() == 0,
            out@ == lossy_decode(old(self).pending_view()),
    {
        let mut out_bytes: Vec<u8> = Vec::new();
        if self.pending.len() > 0 {
            proof {
                lemma_replacement_ok();
                lemma_append_scalar(Seq::<u8>::empty(), replacement_bytes());
                assert(Seq::<u8>::empty() + replacement_bytes() =~= replacement_bytes());
            }
            push_replacement(&mut out_bytes);
            assert(out_bytes@ =~= replacement_bytes());
        }
        self.pending = Vec::new();
        string_from_valid_utf8(out_bytes)
    }
}

/// One-shot lossy decode of a whole buffer, as used for the single-shot
/// executor's captured output channels.
pub fn decode_output(bytes: &[u8]) -> (out: String)
    ensures
        out@ == lossy_decode(bytes@),
{
    let mut d = WslOutputDecoder::new();
    let mut head = d.decode(bytes);
    let tail = d.flush();
    proof {
        assert(Seq::<u8>::empty() + bytes@ =~= bytes@);
        lemma_emit_then_tail(bytes@);
    }
    head.append(tail.as_str());
    head
}

} // verus!
