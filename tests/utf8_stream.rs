use pty_session::utf8::Utf8Reassembler;

fn decode_in_reads(reads: &[&[u8]]) -> Vec<String> {
    let mut decoder = Utf8Reassembler::new();
    let mut chunks = Vec::new();
    for read in reads {
        chunks.extend(decoder.push(read));
    }
    chunks.extend(decoder.finish());
    chunks
}

#[test]
fn hello_is_one_chunk() {
    let chunks = decode_in_reads(&[b"hello"]);
    assert_eq!(chunks, vec!["hello".to_string()]);
}

#[test]
fn empty_stream_gives_no_chunk() {
    let chunks = decode_in_reads(&[]);
    assert!(chunks.is_empty());
}

#[test]
fn split_character_is_held_back() {
    let mut decoder = Utf8Reassembler::new();
    let first = decoder.push(&[b'a', 0xC3]);
    assert_eq!(first, vec!["a".to_string()]);
    let second = decoder.push(&[0xA9, b'b']);
    assert_eq!(second, vec!["\u{e9}b".to_string()]);
    assert!(decoder.finish().is_empty());
}

#[test]
fn four_byte_character_across_three_reads() {
    let bytes = "\u{1F600}".as_bytes();
    let chunks = decode_in_reads(&[&bytes[..1], &bytes[1..3], &bytes[3..]]);
    assert_eq!(chunks, vec!["\u{1F600}".to_string()]);
}

#[test]
fn invalid_byte_becomes_replacement() {
    let chunks = decode_in_reads(&[&[b'x', 0xFF, b'y']]);
    assert_eq!(chunks, vec!["x".to_string(), "\u{FFFD}".to_string(), "y".to_string()]);
}

#[test]
fn truncated_tail_is_flushed_as_one_replacement() {
    let mut decoder = Utf8Reassembler::new();
    assert_eq!(decoder.push(&[b'o', b'k', 0xE2, 0x82]), vec!["ok".to_string()]);
    assert_eq!(decoder.finish(), vec!["\u{FFFD}".to_string()]);
}

#[test]
fn surrogate_and_overlong_sequences_are_replaced() {
    let input = [0xED, 0xA0, 0x80, 0xC0, 0xAF];
    let chunks = decode_in_reads(&[&input]);
    assert_eq!(chunks.concat(), String::from_utf8_lossy(&input).into_owned());
    assert_eq!(chunks.concat(), "\u{FFFD}".repeat(5));
}

#[test]
fn every_cut_gives_the_lossy_rendering() {
    let samples: Vec<Vec<u8>> = vec![
        "h\u{e9}llo \u{4e16}\u{754c} \u{1F600}!".as_bytes().to_vec(),
        vec![0x61, 0xF0, 0x9F, 0x98, 0x62, 0xE0, 0x80, 0xFF, 0xC3],
        vec![0xF4, 0x90, 0x80, 0x80, 0xE1, 0x80, 0x41, 0xF1],
        vec![0xC2, 0x80, 0xEF, 0xBF, 0xBD, 0xED, 0x9F, 0xBF],
    ];
    for sample in &samples {
        let expected = String::from_utf8_lossy(sample).into_owned();
        for a in 0..=sample.len() {
            for b in a..=sample.len() {
                let chunks = decode_in_reads(&[&sample[..a], &sample[a..b], &sample[b..]]);
                assert_eq!(chunks.concat(), expected);
                for chunk in &chunks {
                    assert!(!chunk.is_empty());
                }
            }
        }
    }
}

#[test]
fn one_byte_reads_give_the_same_text() {
    let text = "\u{3b1}\u{3b2}\u{3b3} abc \u{1F680}";
    let bytes = text.as_bytes();
    let reads: Vec<&[u8]> = bytes.chunks(1).collect();
    assert_eq!(decode_in_reads(&reads).concat(), text);
}
