use rayhunter::hdlc::{checksum, decode_stream, encode, FramingError};

fn frames(msgs: &[&[u8]]) -> Vec<u8> {
    msgs.iter().flat_map(|m| encode(m)).collect()
}

#[test]
fn checksum_of_the_standard_check_string() {
    let data = b"123456789";
    assert_eq!(checksum(data, data.len()), 0x906e);
}

#[test]
fn checksum_of_nothing_is_zero() {
    assert_eq!(checksum(&[], 0), 0x0000);
    assert_eq!(checksum(b"123456789", 0), 0x0000);
}

#[test]
fn checksum_covers_only_the_given_prefix() {
    assert_eq!(checksum(b"123456789abc", 9), 0x906e);
}

#[test]
fn encode_appends_checksum_low_byte_first_and_terminator() {
    assert_eq!(encode(b"123456789"), b"123456789\x6e\x90\x7e".to_vec());
    assert_eq!(encode(&[]), vec![0x00, 0x00, 0x7e]);
}

#[test]
fn encode_escapes_reserved_bytes() {
    let frame = encode(&[0x7e, 0x01, 0x7d]);
    assert_eq!(&frame[..5], &[0x7d, 0x5e, 0x01, 0x7d, 0x5d]);
    assert_eq!(*frame.last().unwrap(), 0x7e);
    assert_eq!(frame.iter().filter(|b| **b == 0x7e).count(), 1);
}

#[test]
fn encode_escapes_checksum_bytes_too() {
    // Every byte of this message is escaped, and so is the low byte of its
    // checksum: the frame is longer than twice the message and three bytes.
    let msg = [0x7d, 0x7e, 0x7d, 0x7e, 0x7e];
    let frame = encode(&msg);
    assert_eq!(
        frame,
        vec![0x7d, 0x5d, 0x7d, 0x5e, 0x7d, 0x5d, 0x7d, 0x5e, 0x7d, 0x5e, 0x7d, 0x5d, 0xdd, 0x7e]
    );
    assert_eq!(frame.len(), 2 * msg.len() + 4);
    assert_eq!(decode_stream(&frame), vec![Ok(msg.to_vec())]);
}

#[test]
fn encode_stays_within_its_bounds() {
    for len in 0..40usize {
        for fill in [0x00u8, 0x41, 0x7d, 0x7e] {
            let msg = vec![fill; len];
            let frame = encode(&msg);
            assert!(frame.len() >= len + 3);
            assert!(frame.len() <= 2 * len + 5);
        }
    }
}

#[test]
fn round_trip_of_many_messages() {
    let mut seed: u32 = 0x1234_5678;
    for len in 0..200usize {
        let mut msg = Vec::with_capacity(len);
        for _ in 0..len {
            seed = seed.wrapping_mul(1664525).wrapping_add(1013904223);
            // Bias towards the reserved bytes.
            let b = match (seed >> 24) % 4 {
                0 => 0x7e,
                1 => 0x7d,
                _ => (seed >> 16) as u8,
            };
            msg.push(b);
        }
        assert_eq!(decode_stream(&encode(&msg)), vec![Ok(msg)]);
    }
}

#[test]
fn round_trip_of_every_single_byte() {
    for b in 0..=255u8 {
        assert_eq!(decode_stream(&encode(&[b])), vec![Ok(vec![b])]);
    }
}

#[test]
fn empty_stream_gives_nothing() {
    assert_eq!(decode_stream(&[]), vec![]);
}

#[test]
fn consecutive_terminators_give_nothing() {
    assert_eq!(decode_stream(&[0x7e]), vec![]);
    assert_eq!(decode_stream(&[0x7e, 0x7e, 0x7e, 0x7e]), vec![]);
    let mut stream = vec![0x7e, 0x7e];
    stream.extend(encode(b"ab"));
    stream.extend([0x7e, 0x7e, 0x7e]);
    stream.extend(encode(b"cd"));
    stream.push(0x7e);
    assert_eq!(decode_stream(&stream), vec![Ok(b"ab".to_vec()), Ok(b"cd".to_vec())]);
}

#[test]
fn unterminated_tail_is_reported() {
    assert_eq!(decode_stream(&[0x41]), vec![Err(FramingError::Unterminated)]);
    let mut stream = encode(b"ab");
    stream.extend([0x01, 0x02, 0x03]);
    assert_eq!(
        decode_stream(&stream),
        vec![Ok(b"ab".to_vec()), Err(FramingError::Unterminated)]
    );
    // A whole frame without its terminator is cut short too.
    let mut frame = encode(b"ab");
    frame.pop();
    assert_eq!(decode_stream(&frame), vec![Err(FramingError::Unterminated)]);
}

#[test]
fn bad_escape_is_reported() {
    // Escape followed by a byte it cannot escape.
    assert_eq!(decode_stream(&[0x41, 0x7d, 0x00, 0x42, 0x7e]), vec![Err(FramingError::BadEscape)]);
    // Escape followed by the terminator.
    assert_eq!(decode_stream(&[0x41, 0x7d, 0x7e]), vec![Err(FramingError::BadEscape)]);
    // Lone escape at the end of the stream.
    assert_eq!(decode_stream(&[0x41, 0x7d]), vec![Err(FramingError::BadEscape)]);
    assert_eq!(decode_stream(&[0x7d]), vec![Err(FramingError::BadEscape)]);
    // Bad escape in a tail that the end of the stream cuts short.
    assert_eq!(decode_stream(&[0x7d, 0x00, 0x41]), vec![Err(FramingError::BadEscape)]);
}

#[test]
fn bad_crc_is_reported() {
    let mut frame = encode(b"hello");
    frame[1] ^= 0x01;
    assert_eq!(decode_stream(&frame), vec![Err(FramingError::BadCrc)]);
    // Too short to hold a checksum.
    assert_eq!(decode_stream(&[0x41, 0x7e]), vec![Err(FramingError::BadCrc)]);
    // Two bytes that are not the checksum of nothing.
    assert_eq!(decode_stream(&[0x41, 0x42, 0x7e]), vec![Err(FramingError::BadCrc)]);
    // Two bytes that are the checksum of nothing: the empty message.
    assert_eq!(decode_stream(&[0x00, 0x00, 0x7e]), vec![Ok(vec![])]);
}

#[test]
fn decoder_goes_on_after_each_error() {
    let mut stream = Vec::new();
    stream.extend([0x41, 0x7d, 0x00, 0x7e]); // bad escape
    stream.extend(encode(b"one"));
    stream.extend([0x01, 0x02, 0x03, 0x7e]); // bad checksum
    stream.extend(encode(b"two"));
    stream.extend([0x09]); // cut short
    assert_eq!(
        decode_stream(&stream),
        vec![
            Err(FramingError::BadEscape),
            Ok(b"one".to_vec()),
            Err(FramingError::BadCrc),
            Ok(b"two".to_vec()),
            Err(FramingError::Unterminated),
        ]
    );
}

#[test]
fn frames_after_terminated_noise_all_arrive() {
    let noise = [0x13, 0x37, 0x7d, 0x99, 0x7e, 0x55, 0x7e];
    let msgs: [&[u8]; 3] = [b"first", b"", b"\x7e\x7d\x7e"];
    let mut stream = noise.to_vec();
    stream.extend(frames(&msgs));
    let mut expected = decode_stream(&noise);
    expected.extend(msgs.iter().map(|m| Ok(m.to_vec())));
    assert_eq!(decode_stream(&stream), expected);
}

#[test]
fn unterminated_noise_spoils_the_first_frame_only() {
    let noise = [0x41];
    let msgs: [&[u8]; 3] = [b"", b"second", b"third"];
    let mut stream = noise.to_vec();
    stream.extend(frames(&msgs));
    assert_eq!(
        decode_stream(&stream),
        vec![Err(FramingError::BadCrc), Ok(b"second".to_vec()), Ok(b"third".to_vec())]
    );
}

#[test]
fn zeroed_middle_costs_the_frames_it_touches_only() {
    let msgs: Vec<Vec<u8>> = (0..20u8).map(|i| vec![i; 10]).collect();
    let mut stream = Vec::new();
    let mut bounds = Vec::new();
    for m in &msgs {
        let start = stream.len();
        stream.extend(encode(m));
        bounds.push((start, stream.len()));
    }
    let mid = stream.len() / 2;
    for b in &mut stream[mid - 16..mid + 16] {
        *b = 0;
    }
    let results = decode_stream(&stream);
    let untouched: Vec<Vec<u8>> = msgs
        .iter()
        .zip(bounds.iter())
        .filter(|(_, (s, e))| *e <= mid - 16 || *s >= mid + 16)
        .map(|(m, _)| m.clone())
        .collect();
    let delivered: Vec<Vec<u8>> = results.iter().filter_map(|r| r.clone().ok()).collect();
    assert_eq!(delivered, untouched);
    assert_eq!(results.iter().filter(|r| r.is_err()).count(), 1);
}

#[test]
fn framer_gives_the_same_however_the_stream_is_cut() {
    let mut stream = vec![0x33, 0x7d, 0x01, 0x7e];
    for m in [&b"alpha"[..], b"", b"\x7e\x7d", b"omega"] {
        stream.extend(encode(m));
        stream.push(0x7e);
    }
    stream.extend([0x01, 0x02]);
    let whole = decode_stream(&stream);
    for size in 1..=stream.len() {
        let mut framer = rayhunter::hdlc::Framer::new();
        let mut results = Vec::new();
        for piece in stream.chunks(size) {
            results.extend(framer.feed(piece));
        }
        if let Some(e) = framer.finish() {
            results.push(Err(e));
        }
        assert_eq!(results, whole, "pieces of {}", size);
    }
}

#[test]
fn framer_holds_back_an_incomplete_frame() {
    let frame = encode(b"payload");
    let mut framer = rayhunter::hdlc::Framer::new();
    assert_eq!(framer.finish(), None);
    assert_eq!(framer.feed(&frame[..4]), vec![]);
    assert_eq!(framer.finish(), Some(FramingError::Unterminated));
    assert_eq!(framer.feed(&frame[4..]), vec![Ok(b"payload".to_vec())]);
    assert_eq!(framer.finish(), None);
    assert_eq!(framer.feed(&[0x7d]), vec![]);
    assert_eq!(framer.finish(), Some(FramingError::BadEscape));
    assert_eq!(framer.feed(&[]), vec![]);
    assert_eq!(framer.feed(&[0x7e]), vec![Err(FramingError::BadEscape)]);
}

#[test]
fn torn_tail_costs_one_error() {
    let mut stream = Vec::new();
    stream.extend(encode(b"one"));
    stream.extend(encode(b"two"));
    let last = encode(b"\x7e three");
    for kept in 1..last.len() {
        let mut torn = stream.clone();
        torn.extend(&last[..kept]);
        let results = decode_stream(&torn);
        assert_eq!(results.len(), 3);
        assert_eq!(results[0], Ok(b"one".to_vec()));
        assert_eq!(results[1], Ok(b"two".to_vec()));
        assert!(matches!(results[2], Err(FramingError::Unterminated) | Err(FramingError::BadEscape)));
    }
}

#[test]
fn log_reader_stops_at_the_known_size() {
    let first = encode(b"first");
    let mut log = first.clone();
    log.extend(encode(b"second"));
    assert_eq!(rayhunter::qmdl::read_log(&log, None), vec![Ok(b"first".to_vec()), Ok(b"second".to_vec())]);
    assert_eq!(rayhunter::qmdl::read_log(&log, Some(first.len())), vec![Ok(b"first".to_vec())]);
    assert_eq!(rayhunter::qmdl::read_log(&log, Some(0)), vec![]);
    assert_eq!(
        rayhunter::qmdl::read_log(&log, Some(first.len() + 2)),
        vec![Ok(b"first".to_vec()), Err(FramingError::Unterminated)]
    );
    // A known size beyond the end reads what is there.
    assert_eq!(rayhunter::qmdl::read_log(&log, Some(log.len() + 100)).len(), 2);
    assert_eq!(rayhunter::qmdl::read_log(&log, Some(usize::MAX)).len(), 2);
}
