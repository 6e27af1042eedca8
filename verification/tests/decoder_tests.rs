use wsl_core::decoder::{decode_output, WslOutputDecoder};
use wsl_core::stream::{stream_spawn_failure, StreamSession};

fn decode_in_two_chunks(bytes: &[u8], split: usize) -> String {
    let mut d = WslOutputDecoder::new();
    let mut out = d.decode(&bytes[..split]);
    out.push_str(&d.decode(&bytes[split..]));
    out.push_str(&d.flush());
    out
}

#[test]
fn two_chunk_decode_matches_one_chunk_at_every_split() {
    let text = "héllo → wörld 🚀 ok";
    let bytes = text.as_bytes();
    for split in 0..=bytes.len() {
        assert_eq!(decode_in_two_chunks(bytes, split), text);
    }
}

#[test]
fn chunking_does_not_change_the_text_even_for_malformed_bytes() {
    // Valid and malformed material mixed: ASCII, a split euro sign, a stray
    // continuation byte, an overlong lead, and a truncated 4-byte lead.
    let bytes: &[u8] = &[
        b'o', b'k', 0xe2, 0x82, 0xac, 0x80, 0xc0, 0xf0, 0x9f, 0x9a, 0x80, 0xf0, 0x9f,
    ];
    let whole = decode_output(bytes);
    for split in 0..=bytes.len() {
        assert_eq!(decode_in_two_chunks(bytes, split), whole, "split at {split}");
    }
    // Byte-by-byte chunking agrees too.
    let mut d = WslOutputDecoder::new();
    let mut out = String::new();
    for b in bytes {
        out.push_str(&d.decode(&[*b]));
    }
    out.push_str(&d.flush());
    assert_eq!(out, whole);
}

#[test]
fn split_inside_a_three_byte_character() {
    let mut d = WslOutputDecoder::new();
    let first = d.decode(&[0xe2]);
    assert_eq!(first, "");
    let second = d.decode(&[0x82, 0xac]);
    assert_eq!(second, "\u{20ac}");
    assert_eq!(d.flush(), "");
}

#[test]
fn flush_replaces_a_buffered_incomplete_tail() {
    let mut d = WslOutputDecoder::new();
    let first = d.decode(b"ab\xe2");
    assert_eq!(first, "ab");
    assert_eq!(d.flush(), "\u{fffd}");
}

#[test]
fn invalid_bytes_become_replacement_characters() {
    assert_eq!(decode_output(&[0xff, b'a']), "\u{fffd}a");
    assert_eq!(decode_output(&[b'a', 0x80, b'b']), "a\u{fffd}b");
}

#[test]
fn overlong_encoding_is_rejected() {
    // 0xC0 0xAF would be an overlong encoding of '/'.
    assert_eq!(decode_output(&[0xc0, 0xaf]), "\u{fffd}\u{fffd}");
}

#[test]
fn surrogate_encoding_is_rejected() {
    assert_eq!(decode_output(&[0xed, 0xa0, 0x80]), "\u{fffd}\u{fffd}\u{fffd}");
}

#[test]
fn one_shot_decode_matches_std_lossy_on_valid_text() {
    let text = "plain ascii and ümläuts";
    assert_eq!(decode_output(text.as_bytes()), text);
}

#[test]
fn truncated_prefix_then_invalid_continuation() {
    // E2 82 F0 82: the E2 82 pair loses its third byte, then F0 82 is an
    // invalid second byte for F0, then a stray continuation byte.
    assert_eq!(
        decode_output(&[0xe2, 0x82, 0xf0, 0x82]),
        "\u{fffd}\u{fffd}\u{fffd}"
    );
}

#[test]
fn stream_session_keeps_channel_decoders_independent() {
    let mut s = StreamSession::new();
    // Start of a euro sign on the primary channel...
    let f1 = s.on_stdout_chunk(&[0xe2]);
    assert_eq!(f1, "");
    // ...is not completed by continuation bytes on the secondary channel.
    let f2 = s.on_stderr_chunk(&[0x82, 0xac]);
    assert_eq!(f2, "\u{fffd}\u{fffd}");
    // The primary channel's own continuation still completes it.
    let f3 = s.on_stdout_chunk(&[0x82, 0xac]);
    assert_eq!(f3, "\u{20ac}");
    let f4 = s.on_stdout_end();
    assert_eq!(f4, "");
    let f5 = s.on_stderr_end();
    assert_eq!(f5, "");
    let r = s.finish(true, "exit status: 0");
    assert!(r.success);
    assert_eq!(r.output, "\u{fffd}\u{fffd}\u{20ac}");
    assert_eq!(r.error, None);
}

#[test]
fn stream_session_failure_preserves_accumulated_text() {
    let mut s = StreamSession::new();
    let f1 = s.on_stdout_chunk(b"some progress");
    assert_eq!(f1, "some progress");
    s.on_exit();
    assert!(!s.keep_polling());
    let r = s.finish(false, "exit status: 1");
    assert!(!r.success);
    assert_eq!(r.output, "some progress");
    assert_eq!(r.error.as_deref(), Some("Process exited with error: exit status: 1"));
}

#[test]
fn stream_spawn_failure_and_wait_error_surface_as_results() {
    let r = stream_spawn_failure("program not found");
    assert!(!r.success);
    assert_eq!(r.output, "");
    assert_eq!(r.error.as_deref(), Some("Failed to spawn wsl: program not found"));

    let mut s = StreamSession::new();
    let _ = s.on_stdout_chunk(b"partial");
    let w = s.finish_wait_error("wait interrupted");
    assert!(!w.success);
    assert_eq!(w.output, "partial");
    assert_eq!(w.error.as_deref(), Some("wait interrupted"));
}
