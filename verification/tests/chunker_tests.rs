use speech_protocol::chunker::Utf8Chunker;

fn collect_chunks(data: &[u8], limit: usize) -> Vec<Vec<u8>> {
    let mut ch = Utf8Chunker::new(data, limit);
    let mut out = Vec::new();
    while let Some(c) = ch.next() {
        out.push(c);
    }
    out
}

#[test]
fn concatenation_reproduces_input_ascii() {
    let data = b"hello world, this is a longer ascii input".to_vec();
    for limit in [1usize, 2, 3, 5, 7, 100] {
        let chunks = collect_chunks(&data, limit);
        let joined: Vec<u8> = chunks.iter().flatten().copied().collect();
        assert_eq!(joined, data);
        assert!(chunks.iter().all(|c| !c.is_empty() && c.len() <= limit));
    }
}

#[test]
fn concatenation_reproduces_input_multibyte() {
    // two-, three- and four-byte code points mixed with ASCII
    let text = "a\u{e9}b\u{4e16}c\u{1d11e}d\u{e9}\u{4e16}\u{1d11e}";
    let data = text.as_bytes().to_vec();
    for limit in [1usize, 2, 3, 4, 5, 6, 9, 4096] {
        let chunks = collect_chunks(&data, limit);
        let joined: Vec<u8> = chunks.iter().flatten().copied().collect();
        assert_eq!(joined, data);
        assert!(chunks.iter().all(|c| c.len() <= limit));
    }
}

#[test]
fn chunks_are_valid_utf8_when_limit_at_least_four() {
    let text = "caf\u{e9} \u{4e16}\u{754c} \u{1d11e}\u{1d11e} plain tail";
    let data = text.as_bytes().to_vec();
    for limit in [4usize, 5, 6, 7, 10, 100] {
        let chunks = collect_chunks(&data, limit);
        let mut rebuilt = String::new();
        for c in &chunks {
            let piece = std::str::from_utf8(c).expect("each chunk must be valid UTF-8");
            rebuilt.push_str(piece);
        }
        assert_eq!(rebuilt, text);
    }
}

#[test]
fn small_limit_fallback_still_terminates_and_reconstructs() {
    // a four-byte code point at the cursor with a limit below four: the
    // degenerate fallback splits the code point but loses nothing
    let data = "\u{1d11e}\u{1d11e}".as_bytes().to_vec();
    for limit in [1usize, 2, 3] {
        let chunks = collect_chunks(&data, limit);
        let joined: Vec<u8> = chunks.iter().flatten().copied().collect();
        assert_eq!(joined, data);
        assert!(chunks.iter().all(|c| !c.is_empty() && c.len() <= limit));
    }
}

#[test]
fn empty_input_yields_zero_chunks() {
    let data: Vec<u8> = Vec::new();
    let mut ch = Utf8Chunker::new(&data, 4096);
    assert!(ch.next().is_none());
    assert!(ch.next().is_none());
}

#[test]
fn input_within_limit_is_one_chunk() {
    let data = b"short".to_vec();
    let chunks = collect_chunks(&data, 4096);
    assert_eq!(chunks.len(), 1);
    assert_eq!(chunks[0], data);
}

#[test]
fn boundary_backoff_does_not_split_two_byte_char() {
    // "aé" is three bytes; a limit of two must emit "a" then "é"
    let data = "a\u{e9}".as_bytes().to_vec();
    let chunks = collect_chunks(&data, 2);
    assert_eq!(chunks.len(), 2);
    assert_eq!(chunks[0], b"a".to_vec());
    assert_eq!(chunks[1], "\u{e9}".as_bytes().to_vec());
}
