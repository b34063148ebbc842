//! Framing of the diagnostic byte stream.
//!
//! A message travels as its bytes followed by a 16-bit checksum, with the
//! two reserved byte values escaped, and ends with one terminator byte. A
//! stream is a run of such frames. Because the terminator never occurs inside
//! a frame, a decoder that has lost its place finds it again at the next
//! terminator.

use vstd::prelude::*;

verus! {

/// The byte that ends every frame.
pub const TERMINATOR: u8 = 0x7e;

/// The byte that introduces an escaped byte.
pub const ESCAPE: u8 = 0x7d;

/// The byte that follows `ESCAPE` in place of a terminator.
pub const ESCAPED_TERMINATOR: u8 = 0x5e;

/// The byte that follows `ESCAPE` in place of an escape byte.
pub const ESCAPED_ESCAPE: u8 = 0x5d;

/// Why a stretch of the stream gave no message.
#[derive(Clone, Copy, Debug, PartialEq, Eq, Structural)]
pub enum FramingError {
    /// The stream ended inside a frame.
    Unterminated,
    /// An escape byte was followed by a byte that it cannot escape, or by
    /// nothing.
    BadEscape,
    /// The checksum is missing or does not match the message.
    BadCrc,
}

/// One shift of the checksum register: the CRC-16/X-25 polynomial, reflected.
pub open spec fn crc_shift(register: u16) -> u16 {
    if register & 1 == 1 {
        (register >> 1) ^ 0x8408
    } else {
        register >> 1
    }
}

/// The checksum register after one more byte.
pub open spec fn crc_update(register: u16, byte: u8) -> u16 {
    crc_shift(
        crc_shift(
            crc_shift(
                crc_shift(crc_shift(crc_shift(crc_shift(crc_shift(register ^ (byte as u16)))))),
            ),
        ),
    )
}

/// The checksum register after `data`, starting from all ones.
pub open spec fn crc_register(data: Seq<u8>) -> u16
    decreases data.len(),
{
    if data.len() == 0 {
        0xffff
    } else {
        crc_update(crc_register(data.drop_last()), data.last())
    }
}

/// The CRC-16/X-25 checksum of `data`.
pub open spec fn crc16(data: Seq<u8>) -> u16 {
    crc_register(data) ^ 0xffff
}

/// The checksum of `data` as it travels: low byte first.
pub open spec fn crc_bytes(data: Seq<u8>) -> Seq<u8> {
    seq![(crc16(data) & 0xff) as u8, (crc16(data) >> 8) as u8]
}

/// How one byte travels inside a frame.
pub open spec fn escape_byte(b: u8) -> Seq<u8> {
    if b == TERMINATOR {
        seq![ESCAPE, ESCAPED_TERMINATOR]
    } else if b == ESCAPE {
        seq![ESCAPE, ESCAPED_ESCAPE]
    } else {
        seq![b]
    }
}

/// How a run of bytes travels inside a frame.
pub open spec fn escape(data: Seq<u8>) -> Seq<u8>
    decreases data.len(),
{
    if data.len() == 0 {
        Seq::empty()
    } else {
        escape_byte(data[0]) + escape(data.skip(1))
    }
}

/// The bytes that a stretch of a frame stands for, or `None` where an escape
/// byte is followed by a byte that it cannot escape, or by nothing.
pub open spec fn unescape(raw: Seq<u8>) -> Option<Seq<u8>>
    decreases raw.len(),
{
    if raw.len() == 0 {
        Some(Seq::empty())
    } else if raw[0] == ESCAPE {
        if raw.len() >= 2 && (raw[1] == ESCAPED_TERMINATOR || raw[1] == ESCAPED_ESCAPE) {
            match unescape(raw.skip(2)) {
                Some(rest) => Some(
                    seq![
                        if raw[1] == ESCAPED_TERMINATOR {
                            TERMINATOR
                        } else {
                            ESCAPE
                        },
                    ] + rest,
                ),
                None => None,
            }
        } else {
            None
        }
    } else {
        match unescape(raw.skip(1)) {
            Some(rest) => Some(seq![raw[0]] + rest),
            None => None,
        }
    }
}

/// A message as it travels: the message and its checksum, escaped, and the
/// terminator.
pub open spec fn encoded(msg: Seq<u8>) -> Seq<u8> {
    escape(msg + crc_bytes(msg)) + seq![TERMINATOR]
}

/// What a stretch of the stream between two terminators gives: the message,
/// if the stretch unescapes to a message followed by its checksum.
pub open spec fn decode_frame(raw: Seq<u8>) -> Result<Seq<u8>, FramingError> {
    match unescape(raw) {
        None => Err(FramingError::BadEscape),
        Some(data) => if data.len() >= 2 && data.skip(data.len() - 2) == crc_bytes(
            data.take(data.len() - 2),
        ) {
            Ok(data.take(data.len() - 2))
        } else {
            Err(FramingError::BadCrc)
        },
    }
}

/// The place of the first terminator in `stream`, or the length of `stream`
/// if it holds none.
pub open spec fn first_terminator(stream: Seq<u8>) -> int
    decreases stream.len(),
{
    if stream.len() == 0 || stream[0] == TERMINATOR {
        0
    } else {
        1 + first_terminator(stream.skip(1))
    }
}

/// What a stream gives, in order: one result for each non-empty stretch that
/// a terminator ends, and one error for a non-empty stretch that the end of
/// the stream cuts short. A terminator with nothing before it gives nothing.
pub open spec fn decode(stream: Seq<u8>) -> Seq<Result<Seq<u8>, FramingError>>
    decreases stream.len(),
{
    let end = first_terminator(stream);
    if stream.len() == 0 {
        Seq::empty()
    } else if end < 0 || end >= stream.len() {
        seq![
            Err(
                if unescape(stream) is None {
                    FramingError::BadEscape
                } else {
                    FramingError::Unterminated
                },
            ),
        ]
    } else if end == 0 {
        decode(stream.skip(1))
    } else {
        seq![decode_frame(stream.take(end))] + decode(stream.skip(end + 1))
    }
}

/// The first terminator lies within the stream, and nothing before it is
/// a terminator.
pub proof fn lemma_first_terminator(stream: Seq<u8>)
    ensures
        0 <= first_terminator(stream) <= stream.len(),
        first_terminator(stream) < stream.len() ==> stream[first_terminator(stream)] == TERMINATOR,
        forall|i: int| 0 <= i < first_terminator(stream) ==> stream[i] != TERMINATOR,
    decreases stream.len(),
{
    if stream.len() > 0 && stream[0] != TERMINATOR {
        lemma_first_terminator(stream.skip(1));
        assert forall|i: int| 0 <= i < first_terminator(stream) implies stream[i] != TERMINATOR by {
            if i > 0 {
                assert(stream[i] == stream.skip(1)[i - 1]);
            }
        }
    }
}

/// Escaping goes byte by byte: a run escapes to its parts' escapes, joined.
pub proof fn lemma_escape_concat(a: Seq<u8>, b: Seq<u8>)
    ensures
        escape(a + b) == escape(a) + escape(b),
    decreases a.len(),
{
    if a.len() == 0 {
        assert(a + b == b);
    } else {
        lemma_escape_concat(a.skip(1), b);
        assert((a + b).skip(1) == a.skip(1) + b);
        assert((a + b)[0] == a[0]);
    }
}

/// An escaped run holds no terminator, and is between one and two times as
/// long as the run.
pub proof fn lemma_escape_is_clean(data: Seq<u8>)
    ensures
        forall|i: int| 0 <= i < escape(data).len() ==> escape(data)[i] != TERMINATOR,
        data.len() <= escape(data).len() <= 2 * data.len(),
    decreases data.len(),
{
    if data.len() > 0 {
        lemma_escape_is_clean(data.skip(1));
    }
}

/// Unescaping undoes escaping.
pub proof fn lemma_unescape_escape(data: Seq<u8>)
    ensures
        unescape(escape(data)) == Some(data),
    decreases data.len(),
{
    if data.len() > 0 {
        let rest = escape(data.skip(1));
        lemma_unescape_escape(data.skip(1));
        let head = escape_byte(data[0]);
        assert(escape(data) == head + rest);
        if data[0] == TERMINATOR || data[0] == ESCAPE {
            assert((head + rest).skip(2) == rest);
        } else {
            assert((head + rest).skip(1) == rest);
        }
        assert(seq![data[0]] + data.skip(1) == data);
    }
}

/// In a stream that starts with a stretch free of terminators, followed by
/// a terminator, the first terminator is that one.
pub proof fn lemma_first_terminator_after_clean(clean: Seq<u8>, rest: Seq<u8>)
    requires
        forall|i: int| 0 <= i < clean.len() ==> clean[i] != TERMINATOR,
    ensures
        first_terminator(clean + seq![TERMINATOR] + rest) == clean.len(),
    decreases clean.len(),
{
    let stream = clean + seq![TERMINATOR] + rest;
    if clean.len() > 0 {
        assert(stream[0] == clean[0]);
        assert(stream.skip(1) == clean.skip(1) + seq![TERMINATOR] + rest);
        lemma_first_terminator_after_clean(clean.skip(1), rest);
    } else {
        assert(stream[0] == TERMINATOR);
    }
}

/// The stretch that an encoded message occupies decodes to the message.
pub proof fn lemma_decode_frame_of_encoded(msg: Seq<u8>)
    ensures
        decode_frame(escape(msg + crc_bytes(msg))) == Ok::<Seq<u8>, FramingError>(msg),
{
    let data = msg + crc_bytes(msg);
    lemma_unescape_escape(data);
    assert(data.take(data.len() - 2) == msg);
    assert(data.skip(data.len() - 2) == crc_bytes(msg));
}

/// The end of a frame is a safe place to cut a stream: what comes before a
/// cut that follows a terminator, or that is at the very start, is decoded
/// without regard to what comes after, and the other way round.
pub proof fn lemma_decode_concat(before: Seq<u8>, after: Seq<u8>)
    requires
        before.len() == 0 || before.last() == TERMINATOR,
    ensures
        decode(before + after) == decode(before) + decode(after),
    decreases before.len(),
{
    if before.len() == 0 {
        assert(before + after == after);
    } else {
        let whole = before + after;
        let end = first_terminator(before);
        lemma_first_terminator(before);
        assert(end < before.len()) by {
            if end >= before.len() {
                assert(before[before.len() - 1] != TERMINATOR);
            }
        }
        let clean = before.take(end);
        let tail = before.skip(end + 1);
        assert(before == clean + seq![TERMINATOR] + tail);
        assert(whole == clean + seq![TERMINATOR] + (tail + after));
        lemma_first_terminator_after_clean(clean, tail + after);
        assert(whole.take(end) == clean);
        assert(whole.skip(end + 1) == tail + after);
        assert(tail.len() == 0 || tail.last() == TERMINATOR) by {
            if tail.len() > 0 {
                assert(tail.last() == before.last());
            }
        }
        lemma_decode_concat(tail, after);
    }
}

/// Framing round trip: decoding the encoding of any message gives that
/// message, once, and nothing else.
pub proof fn lemma_round_trip(msg: Seq<u8>)
    ensures
        decode(encoded(msg)) == seq![Ok::<Seq<u8>, FramingError>(msg)],
{
    let body = escape(msg + crc_bytes(msg));
    let stream = encoded(msg);
    lemma_escape_is_clean(msg + crc_bytes(msg));
    assert(stream == body + seq![TERMINATOR] + Seq::<u8>::empty());
    lemma_first_terminator_after_clean(body, Seq::empty());
    lemma_decode_frame_of_encoded(msg);
    let end = first_terminator(stream);
    assert(end == body.len());
    assert(stream.take(end) == body);
    assert(stream.skip(end + 1) == Seq::<u8>::empty());
    assert(body.len() >= 2);
    assert(decode(Seq::<u8>::empty()) == Seq::<Result<Seq<u8>, FramingError>>::empty());
    assert(decode(stream) == seq![decode_frame(stream.take(end))] + decode(stream.skip(end + 1)));
}

/// The frames of a sequence of messages, one after the other.
pub open spec fn encoded_all(msgs: Seq<Seq<u8>>) -> Seq<u8>
    decreases msgs.len(),
{
    if msgs.len() == 0 {
        Seq::empty()
    } else {
        encoded_all(msgs.drop_last()) + encoded(msgs.last())
    }
}

/// The results of a stream that delivers each of `msgs`, in order.
pub open spec fn delivered(msgs: Seq<Seq<u8>>) -> Seq<Result<Seq<u8>, FramingError>> {
    Seq::new(msgs.len(), |i: int| Ok::<Seq<u8>, FramingError>(msgs[i]))
}

/// A run of frames is empty or ends with a terminator.
pub proof fn lemma_encoded_all_is_terminated(msgs: Seq<Seq<u8>>)
    ensures
        encoded_all(msgs).len() == 0 || encoded_all(msgs).last() == TERMINATOR,
{
    if msgs.len() > 0 {
        assert(encoded_all(msgs).last() == encoded(msgs.last()).last());
    }
}

/// Resynchronisation after a terminator: behind any stream that is empty or
/// ends with a terminator, a run of frames delivers each of its messages, in
/// order, after whatever the stream before gave.
pub proof fn lemma_frames_after_terminated_noise(noise: Seq<u8>, msgs: Seq<Seq<u8>>)
    requires
        noise.len() == 0 || noise.last() == TERMINATOR,
    ensures
        decode(noise + encoded_all(msgs)) == decode(noise) + delivered(msgs),
    decreases msgs.len(),
{
    if msgs.len() == 0 {
        assert(noise + encoded_all(msgs) == noise);
        assert(decode(noise) + delivered(msgs) == decode(noise));
    } else {
        let earlier = msgs.drop_last();
        lemma_frames_after_terminated_noise(noise, earlier);
        let before = noise + encoded_all(earlier);
        lemma_encoded_all_is_terminated(earlier);
        assert(before.len() == 0 || before.last() == TERMINATOR) by {
            if encoded_all(earlier).len() > 0 {
                assert(before.last() == encoded_all(earlier).last());
            } else {
                assert(before == noise);
            }
        }
        lemma_decode_concat(before, encoded(msgs.last()));
        lemma_round_trip(msgs.last());
        assert(noise + encoded_all(msgs) == before + encoded(msgs.last()));
        assert(delivered(msgs) == delivered(earlier) + seq![
            Ok::<Seq<u8>, FramingError>(msgs.last()),
        ]);
    }
}

/// Resynchronisation after arbitrary noise: whatever bytes come before a
/// run of frames, every frame after the first delivers its message, in
/// order. The noise can spoil the first frame only, and only if it does not
/// end with a terminator.
pub proof fn lemma_frames_after_noise(noise: Seq<u8>, first: Seq<u8>, others: Seq<Seq<u8>>)
    ensures
        decode(noise + encoded(first) + encoded_all(others)) == decode(noise + encoded(first))
            + delivered(others),
{
    let before = noise + encoded(first);
    assert(before.last() == TERMINATOR);
    lemma_frames_after_terminated_noise(before, others);
}

/// The result for one stretch of a stream, as a mathematical value.
pub open spec fn result_view(r: Result<Vec<u8>, FramingError>) -> Result<Seq<u8>, FramingError> {
    match r {
        Ok(msg) => Ok(msg@),
        Err(e) => Err(e),
    }
}

/// The results for a stream, as mathematical values.
pub open spec fn results_view(results: Seq<Result<Vec<u8>, FramingError>>) -> Seq<
    Result<Seq<u8>, FramingError>,
> {
    Seq::new(results.len(), |i: int| result_view(results[i]))
}

/// One shift of the checksum register.
fn shift(register: u16) -> (next: u16)
    ensures
        next == crc_shift(register),
{
    if register & 1 == 1 {
        (register >> 1) ^ 0x8408
    } else {
        register >> 1
    }
}

/// The CRC-16/X-25 checksum of `data[..end]`.
pub fn checksum(data: &[u8], end: usize) -> (crc: u16)
    requires
        end <= data@.len(),
    ensures
        crc == crc16(data@.take(end as int)),
{
    let mut register: u16 = 0xffff;
    let mut i: usize = 0;
    while i < end
        invariant
            i <= end <= data@.len(),
            register == crc_register(data@.take(i as int)),
        decreases end - i,
    {
        let mixed: u16 = register ^ (data[i] as u16);
        register = shift(shift(shift(shift(shift(shift(shift(shift(mixed))))))));
        proof {
            assert(data@.take(i + 1).drop_last() == data@.take(i as int));
            assert(data@.take(i + 1).last() == data@[i as int]);
        }
        i = i + 1;
    }
    register ^ 0xffff
}

/// The two bytes of a checksum as they travel: low byte first.
fn split_checksum(crc: u16) -> (bytes: (u8, u8))
    ensures
        bytes.0 == (crc & 0xff) as u8,
        bytes.1 == (crc >> 8) as u8,
{
    assert(crc & 0xff <= 0xff) by (bit_vector);
    assert(crc >> 8 <= 0xff) by (bit_vector);
    ((crc & 0xff) as u8, (crc >> 8) as u8)
}

/// Appends one byte to a frame, escaped where it must be.
fn push_escaped(out: &mut Vec<u8>, b: u8)
    ensures
        final(out)@ == old(out)@ + escape_byte(b),
{
    if b == TERMINATOR {
        out.push(ESCAPE);
        out.push(ESCAPED_TERMINATOR);
    } else if b == ESCAPE {
        out.push(ESCAPE);
        out.push(ESCAPED_ESCAPE);
    } else {
        out.push(b);
    }
    assert(out@ == old(out)@ + escape_byte(b));
}

/// Encodes a message as one frame: the message and its checksum, escaped,
/// and the terminator. The frame is at most twice as long as the message and
/// five bytes.
pub fn encode(msg: &[u8]) -> (frame: Vec<u8>)
    ensures
        frame@ == encoded(msg@),
        msg@.len() + 3 <= frame@.len() <= 2 * msg@.len() + 5,
{
    let mut frame: Vec<u8> = Vec::new();
    let mut i: usize = 0;
    while i < msg.len()
        invariant
            i <= msg@.len(),
            frame@ == escape(msg@.take(i as int)),
        decreases msg@.len() - i,
    {
        push_escaped(&mut frame, msg[i]);
        proof {
            let done = msg@.take(i as int);
            lemma_escape_concat(done, seq![msg@[i as int]]);
            assert(msg@.take(i + 1) == done + seq![msg@[i as int]]);
            assert(escape(seq![msg@[i as int]]) == escape_byte(msg@[i as int])) by {
                assert(seq![msg@[i as int]].skip(1) == Seq::<u8>::empty());
                assert(escape(Seq::<u8>::empty()) == Seq::<u8>::empty());
            }
        }
        i = i + 1;
    }
    assert(msg@.take(msg@.len() as int) == msg@);
    let crc = checksum(msg, msg.len());
    let (low, high) = split_checksum(crc);
    push_escaped(&mut frame, low);
    push_escaped(&mut frame, high);
    frame.push(TERMINATOR);
    proof {
        let check = crc_bytes(msg@);
        assert(check == seq![low, high]);
        assert(escape(check) == escape_byte(low) + escape_byte(high)) by {
            assert(check.skip(1) == seq![high]);
            assert(seq![high].skip(1) == Seq::<u8>::empty());
            assert(escape(seq![high]) == escape_byte(high) + escape(Seq::<u8>::empty()));
            assert(escape(Seq::<u8>::empty()) == Seq::<u8>::empty());
        }
        lemma_escape_concat(msg@, check);
        lemma_escape_is_clean(msg@ + check);
        assert(frame@ == encoded(msg@));
    }
    frame
}

/// Decodes the stretch `stream[start..end]`, which holds no terminator.
fn decode_stretch(stream: &[u8], start: usize, end: usize) -> (r: Result<Vec<u8>, FramingError>)
    requires
        start <= end <= stream@.len(),
    ensures
        result_view(r) == decode_frame(stream@.subrange(start as int, end as int)),
{
    let ghost raw = stream@.subrange(start as int, end as int);
    match unescape_stretch(stream, start, end) {
        None => Err(FramingError::BadEscape),
        Some(data) => {
            let n = data.len();
            if n < 2 {
                return Err(FramingError::BadCrc);
            }
            let crc = checksum(data.as_slice(), n - 2);
            let (low, high) = split_checksum(crc);
            assert(data@.skip(n - 2) == seq![data@[n - 2], data@[n - 1]]);
            if data[n - 2] == low && data[n - 1] == high {
                let mut msg = data;
                msg.truncate(n - 2);
                Ok(msg)
            } else {
                assert(data@.skip(n - 2)[0] == data@[n - 2]);
                assert(data@.skip(n - 2)[1] == data@[n - 1]);
                Err(FramingError::BadCrc)
            }
        },
    }
}

/// Prepends `head` to what `rest` gives, if it gives anything.
pub open spec fn prepend(head: Seq<u8>, rest: Option<Seq<u8>>) -> Option<Seq<u8>> {
    match rest {
        Some(bytes) => Some(head + bytes),
        None => None,
    }
}

/// Unescapes the stretch `stream[start..end]`.
fn unescape_stretch(stream: &[u8], start: usize, end: usize) -> (data: Option<Vec<u8>>)
    requires
        start <= end <= stream@.len(),
    ensures
        match data {
            Some(bytes) => unescape(stream@.subrange(start as int, end as int)) == Some(bytes@),
            None => unescape(stream@.subrange(start as int, end as int)) is None,
        },
{
    let ghost raw = stream@.subrange(start as int, end as int);
    let mut out: Vec<u8> = Vec::new();
    let mut i: usize = start;
    assert(raw.skip(0) == raw);
    assert(prepend(out@, unescape(raw)) == unescape(raw)) by {
        if unescape(raw) is Some {
            assert(out@ + unescape(raw)->0 == unescape(raw)->0);
        }
    }
    while i < end
        invariant
            start <= i <= end <= stream@.len(),
            raw == stream@.subrange(start as int, end as int),
            unescape(raw) == prepend(out@, unescape(raw.skip(i - start))),
        decreases end - i,
    {
        let ghost here = raw.skip(i - start);
        let ghost so_far = out@;
        assert(here[0] == stream@[i as int]);
        let b = stream[i];
        if b == ESCAPE {
            if i + 1 < end {
                assert(here[1] == stream@[i + 1]);
                let next = stream[i + 1];
                if next == ESCAPED_TERMINATOR {
                    out.push(TERMINATOR);
                } else if next == ESCAPED_ESCAPE {
                    out.push(ESCAPE);
                } else {
                    return None;
                }
                proof {
                    assert(here.skip(2) == raw.skip(i + 2 - start));
                    let rest = unescape(here.skip(2));
                    if rest is Some {
                        assert(so_far + (seq![out@.last()] + rest->0) == out@ + rest->0);
                    }
                }
                i = i + 2;
            } else {
                return None;
            }
        } else {
            out.push(b);
            proof {
                assert(here.skip(1) == raw.skip(i + 1 - start));
                let rest = unescape(here.skip(1));
                if rest is Some {
                    assert(so_far + (seq![b] + rest->0) == out@ + rest->0);
                }
            }
            i = i + 1;
        }
    }
    assert(raw.skip(end - start) == Seq::<u8>::empty());
    assert(out@ + Seq::<u8>::empty() == out@);
    Some(out)
}

/// Decodes a stream: one result for each non-empty stretch that a
/// terminator ends, and one error for a non-empty stretch that the end of
/// the stream cuts short. After an error the decoder goes on behind the next
/// terminator.
pub fn decode_stream(stream: &[u8]) -> (results: Vec<Result<Vec<u8>, FramingError>>)
    ensures
        results_view(results@) == decode(stream@),
{
    let mut results: Vec<Result<Vec<u8>, FramingError>> = Vec::new();
    let mut start: usize = 0;
    assert(stream@.skip(0) == stream@);
    assert(results_view(results@) + decode(stream@) == decode(stream@));
    while start < stream.len()
        invariant
            start <= stream@.len(),
            decode(stream@) == results_view(results@) + decode(stream@.skip(start as int)),
        decreases stream@.len() - start,
    {
        let ghost rest = stream@.skip(start as int);
        let ghost before = results_view(results@);
        let mut end: usize = start;
        while end < stream.len() && stream[end] != TERMINATOR
            invariant
                start <= end <= stream@.len(),
                forall|i: int| start <= i < end ==> stream@[i] != TERMINATOR,
            decreases stream@.len() - end,
        {
            end = end + 1;
        }
        let ghost clean = stream@.subrange(start as int, end as int);
        proof {
            lemma_first_terminator(rest);
            if end < stream@.len() {
                let tail = stream@.skip(end + 1);
                assert(rest == clean + seq![TERMINATOR] + tail);
                lemma_first_terminator_after_clean(clean, tail);
                assert(rest.take(end - start) == clean);
                assert(rest.skip(end - start + 1) == tail);
            } else {
                assert(rest == clean);
                let found = first_terminator(rest);
                if found < rest.len() {
                    assert(rest[found] == stream@[start + found]);
                }
            }
        }
        if end == stream.len() {
            let cut = match unescape_stretch(stream, start, end) {
                None => FramingError::BadEscape,
                Some(_) => FramingError::Unterminated,
            };
            results.push(Err(cut));
            proof {
                assert(decode(rest) == seq![Err::<Seq<u8>, FramingError>(cut)]);
                assert(results_view(results@) == before + seq![Err::<Seq<u8>, FramingError>(cut)]);
                assert(stream@.skip(end as int) == Seq::<u8>::empty());
                assert(decode(Seq::<u8>::empty()) == Seq::<Result<Seq<u8>, FramingError>>::empty());
            }
            start = end;
        } else {
            if end > start {
                let r = decode_stretch(stream, start, end);
                results.push(r);
                proof {
                    assert(results_view(results@) == before + seq![result_view(r)]);
                }
            }
            start = end + 1;
        }
    }
    assert(stream@.skip(start as int) == Seq::<u8>::empty());
    assert(decode(Seq::<u8>::empty()) == Seq::<Result<Seq<u8>, FramingError>>::empty());
    results
}

/// A stretch without terminator has its first terminator at its end.
pub proof fn lemma_no_terminator(s: Seq<u8>)
    requires
        forall|i: int| 0 <= i < s.len() ==> s[i] != TERMINATOR,
    ensures
        first_terminator(s) == s.len(),
{
    lemma_first_terminator(s);
}

/// Crash safety: a stream of whole frames followed by the torn start of one
/// more delivers every whole frame, and reports the torn one as a single
/// error at the end: cut short, or a bad escape if the cut fell behind an
/// escape byte.
pub proof fn lemma_torn_tail(msgs: Seq<Seq<u8>>, last: Seq<u8>, kept: int)
    requires
        0 < kept < encoded(last).len(),
    ensures
        decode(encoded_all(msgs) + encoded(last).take(kept)) == delivered(msgs) + seq![
            Err::<Seq<u8>, FramingError>(
                if unescape(encoded(last).take(kept)) is None {
                    FramingError::BadEscape
                } else {
                    FramingError::Unterminated
                },
            ),
        ],
{
    let torn = encoded(last).take(kept);
    let body = escape(last + crc_bytes(last));
    lemma_escape_is_clean(last + crc_bytes(last));
    assert forall|i: int| 0 <= i < torn.len() implies torn[i] != TERMINATOR by {
        assert(torn[i] == body[i]);
    }
    lemma_no_terminator(torn);
    lemma_encoded_all_is_terminated(msgs);
    lemma_decode_concat(encoded_all(msgs), torn);
    lemma_frames_after_terminated_noise(Seq::empty(), msgs);
    assert(Seq::<u8>::empty() + encoded_all(msgs) == encoded_all(msgs));
    assert(decode(Seq::<u8>::empty()) + delivered(msgs) == delivered(msgs));
}

/// The place just behind the last terminator of `s`, or 0 if it holds none.
pub open spec fn complete_len(s: Seq<u8>) -> int
    decreases s.len(),
{
    if s.len() == 0 {
        0
    } else if s.last() == TERMINATOR {
        s.len() as int
    } else {
        complete_len(s.drop_last())
    }
}

/// The place behind the last terminator lies within the stream, a
/// terminator stands right before it unless it is the start, and none
/// stands behind it.
pub proof fn lemma_complete_len(s: Seq<u8>)
    ensures
        0 <= complete_len(s) <= s.len(),
        complete_len(s) > 0 ==> s[complete_len(s) - 1] == TERMINATOR,
        forall|i: int| complete_len(s) <= i < s.len() ==> s[i] != TERMINATOR,
    decreases s.len(),
{
    if s.len() > 0 && s.last() != TERMINATOR {
        lemma_complete_len(s.drop_last());
        assert forall|i: int| complete_len(s) <= i < s.len() implies s[i] != TERMINATOR by {
            if i < s.len() - 1 {
                assert(s[i] == s.drop_last()[i]);
            }
        }
        if complete_len(s) > 0 {
            assert(s[complete_len(s) - 1] == s.drop_last()[complete_len(s) - 1]);
        }
    }
}

/// Takes a stream as it arrives, in pieces of any size, and hands out the
/// results of the frames that each piece completes.
pub struct Framer {
    pending: Vec<u8>,
}

impl Framer {
    /// The bytes that arrived behind the last terminator: the start of a
    /// frame that is not yet complete.
    pub closed spec fn pending(&self) -> Seq<u8> {
        self.pending@
    }

    /// The pending bytes hold no terminator.
    pub closed spec fn wf(&self) -> bool {
        forall|i: int| 0 <= i < self.pending@.len() ==> self.pending@[i] != TERMINATOR
    }

    /// A framer at the start of a stream.
    pub fn new() -> (f: Self)
        ensures
            f.wf(),
            f.pending() == Seq::<u8>::empty(),
    {
        Framer { pending: Vec::new() }
    }

    /// Takes the next piece of the stream and hands out the results of the
    /// frames that it completes; what follows the last terminator waits for
    /// the next piece.
    pub fn feed(&mut self, piece: &[u8]) -> (results: Vec<Result<Vec<u8>, FramingError>>)
        requires
            old(self).wf(),
        ensures
            final(self).wf(),
            results_view(results@) == decode(
                (old(self).pending() + piece@).take(complete_len(old(self).pending() + piece@)),
            ),
            final(self).pending() == (old(self).pending() + piece@).skip(
                complete_len(old(self).pending() + piece@),
            ),
    {
        let ghost all = self.pending@ + piece@;
        let mut i: usize = 0;
        while i < piece.len()
            invariant
                i <= piece@.len(),
                self.pending@ == old(self).pending@ + piece@.take(i as int),
            decreases piece@.len() - i,
        {
            self.pending.push(piece[i]);
            assert(piece@.take(i + 1) == piece@.take(i as int).push(piece@[i as int]));
            i = i + 1;
        }
        assert(piece@.take(piece@.len() as int) == piece@);
        let n = self.pending.len();
        let mut cut: usize = n;
        proof {
            assert(all.take(n as int) == all);
        }
        while cut > 0 && self.pending[cut - 1] != TERMINATOR
            invariant
                cut <= n,
                n == all.len(),
                self.pending@ == all,
                complete_len(all) == complete_len(all.take(cut as int)),
            decreases cut,
        {
            assert(all.take(cut as int).drop_last() == all.take(cut - 1));
            cut = cut - 1;
        }
        proof {
            lemma_complete_len(all);
            if cut > 0 {
                assert(all.take(cut as int).last() == all[cut - 1]);
            }
            assert(complete_len(all) == cut);
        }
        let results = decode_stream(vstd::slice::slice_subrange(self.pending.as_slice(), 0, cut));
        let mut rest: Vec<u8> = Vec::new();
        let mut j: usize = cut;
        while j < n
            invariant
                cut <= j <= n,
                n == all.len(),
                self.pending@ == all,
                rest@ == all.subrange(cut as int, j as int),
            decreases n - j,
        {
            rest.push(self.pending[j]);
            j = j + 1;
        }
        assert(all.subrange(cut as int, n as int) == all.skip(cut as int));
        assert(all.subrange(0, cut as int) == all.take(cut as int));
        self.pending = rest;
        results
    }

    /// Says what the end of the stream makes of the pending bytes: nothing
    /// if there are none, else the error for a frame cut short.
    pub fn finish(&self) -> (cut_short: Option<FramingError>)
        requires
            self.wf(),
        ensures
            match cut_short {
                None => decode(self.pending()) == Seq::<Result<Seq<u8>, FramingError>>::empty(),
                Some(e) => decode(self.pending()) == seq![Err::<Seq<u8>, FramingError>(e)],
            },
    {
        proof {
            lemma_no_terminator(self.pending@);
            assert(self.pending@.subrange(0, self.pending@.len() as int) == self.pending@);
        }
        if self.pending.len() == 0 {
            None
        } else {
            match unescape_stretch(self.pending.as_slice(), 0, self.pending.len()) {
                None => Some(FramingError::BadEscape),
                Some(_) => Some(FramingError::Unterminated),
            }
        }
    }
}

/// What a framer that holds `pending` hands out, piece by piece, for the
/// given pieces of a stream.
pub open spec fn fed_results(pending: Seq<u8>, pieces: Seq<Seq<u8>>) -> Seq<
    Result<Seq<u8>, FramingError>,
>
    decreases pieces.len(),
{
    if pieces.len() == 0 {
        Seq::empty()
    } else {
        let all = pending + pieces[0];
        decode(all.take(complete_len(all))) + fed_results(
            all.skip(complete_len(all)),
            pieces.skip(1),
        )
    }
}

/// What a framer that holds `pending` holds after the given pieces.
pub open spec fn fed_pending(pending: Seq<u8>, pieces: Seq<Seq<u8>>) -> Seq<u8>
    decreases pieces.len(),
{
    if pieces.len() == 0 {
        pending
    } else {
        let all = pending + pieces[0];
        fed_pending(all.skip(complete_len(all)), pieces.skip(1))
    }
}

/// The pieces of a stream, joined.
pub open spec fn joined(pieces: Seq<Seq<u8>>) -> Seq<u8>
    decreases pieces.len(),
{
    if pieces.len() == 0 {
        Seq::empty()
    } else {
        pieces[0] + joined(pieces.skip(1))
    }
}

/// How a stream is cut into pieces does not matter: what a framer hands out
/// for the pieces, followed by what the end of the stream makes of the
/// bytes still pending, is what the stream as a whole decodes to.
pub proof fn lemma_pieces_do_not_matter(pending: Seq<u8>, pieces: Seq<Seq<u8>>)
    ensures
        fed_results(pending, pieces) + decode(fed_pending(pending, pieces)) == decode(
            pending + joined(pieces),
        ),
    decreases pieces.len(),
{
    if pieces.len() == 0 {
        assert(pending + joined(pieces) == pending);
        assert(fed_results(pending, pieces) + decode(pending) == decode(pending));
    } else {
        let all = pending + pieces[0];
        let cut = complete_len(all);
        lemma_complete_len(all);
        let complete = all.take(cut);
        let rest = all.skip(cut);
        let later = joined(pieces.skip(1));
        lemma_pieces_do_not_matter(rest, pieces.skip(1));
        assert(complete.len() == 0 || complete.last() == TERMINATOR) by {
            if cut > 0 {
                assert(complete.last() == all[cut - 1]);
            }
        }
        lemma_decode_concat(complete, rest + later);
        assert(pending + joined(pieces) == complete + (rest + later)) by {
            assert(all == complete + rest);
            assert(pending + (pieces[0] + later) == (pending + pieces[0]) + later);
        }
        assert(fed_results(pending, pieces) + decode(fed_pending(pending, pieces)) == decode(
            complete,
        ) + (fed_results(rest, pieces.skip(1)) + decode(fed_pending(rest, pieces.skip(1)))));
    }
}

} // verus!
