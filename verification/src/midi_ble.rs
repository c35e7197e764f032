//! The MIDI side of the wireless link: splitting a packed message into note
//! events, and framing the responses that are handed back to the peer.

use rand::Rng;
use vstd::prelude::*;
use vstd::string::StringSliceAdditionalSpecFns;
use crate::remote_command::{MIDI_NOTE_OFF_BYTE, MIDI_NOTE_ON_BYTE};

verus! {

/// A byte closes the group before it iff its high bit is set. Status bytes
/// and the interleaved timestamp bytes of the wire encoding both do.
pub open spec fn is_status(byte: u8) -> bool {
    byte >= 0x80
}

/// The events of one closed group: the data bytes taken two at a time, each
/// pair under the status that opened the group. Only note-on and note-off
/// groups yield events, and a trailing odd byte is dropped.
pub open spec fn group_events(status: u8, data: Seq<u8>) -> Seq<(u8, u8, u8)> {
    if status == MIDI_NOTE_ON_BYTE || status == MIDI_NOTE_OFF_BYTE {
        Seq::new(data.len() / 2, |k: int| (status, data[2 * k], data[2 * k + 1]))
    } else {
        Seq::empty()
    }
}

/// The events found by scanning `bytes` from index `at` on, when the group
/// in progress was opened by `status` and has collected `data` so far.
/// A group that is still open when the bytes run out yields nothing.
pub open spec fn scan_events(bytes: Seq<u8>, at: int, status: u8, data: Seq<u8>) -> Seq<
    (u8, u8, u8),
>
    decreases bytes.len() - at,
{
    if at < 0 || at >= bytes.len() {
        Seq::empty()
    } else if is_status(bytes[at]) {
        group_events(status, data) + scan_events(bytes, at + 1, bytes[at], Seq::empty())
    } else {
        scan_events(bytes, at + 1, status, data.push(bytes[at]))
    }
}

/// The note events of a packed MIDI message. The message is scanned with its
/// first byte repeated at the end, so that the last group is closed whenever
/// the message begins with a status byte.
pub open spec fn decoded_events(message: Seq<u8>) -> Seq<(u8, u8, u8)> {
    if message.len() == 0 {
        Seq::empty()
    } else {
        scan_events(message.push(message[0]), 0, 0, Seq::empty())
    }
}

/// Whether an event is a note-on or a note-off whose note and velocity are
/// data bytes.
pub open spec fn is_note_event(event: (u8, u8, u8)) -> bool {
    &&& event.0 == MIDI_NOTE_ON_BYTE || event.0 == MIDI_NOTE_OFF_BYTE
    &&& !is_status(event.1)
    &&& !is_status(event.2)
}

/// Whether no byte of `data` is a status byte.
pub open spec fn is_data(data: Seq<u8>) -> bool {
    forall|k: int| 0 <= k < data.len() ==> !is_status(#[trigger] data[k])
}

proof fn lemma_scan_yields_notes(bytes: Seq<u8>, at: int, status: u8, data: Seq<u8>)
    requires
        0 <= at,
        is_data(data),
    ensures
        forall|i: int|
            0 <= i < scan_events(bytes, at, status, data).len() ==> is_note_event(
                #[trigger] scan_events(bytes, at, status, data)[i],
            ),
    decreases bytes.len() - at,
{
    if at < bytes.len() {
        if is_status(bytes[at]) {
            lemma_scan_yields_notes(bytes, at + 1, bytes[at], Seq::empty());
            let group = group_events(status, data);
            let rest = scan_events(bytes, at + 1, bytes[at], Seq::empty());
            assert forall|i: int| 0 <= i < (group + rest).len() implies is_note_event(
                #[trigger] (group + rest)[i],
            ) by {
                if i < group.len() {
                    assert(group[i] == (status, data[2 * i], data[2 * i + 1]));
                } else {
                    assert((group + rest)[i] == rest[i - group.len()]);
                }
            }
        } else {
            let longer = data.push(bytes[at]);
            assert(is_data(longer));
            lemma_scan_yields_notes(bytes, at + 1, status, longer);
            assert(scan_events(bytes, at, status, data) == scan_events(
                bytes,
                at + 1,
                status,
                longer,
            ));
        }
    }
}

/// Every decoded event is a note-on or a note-off, and its note and
/// velocity are data bytes.
pub proof fn lemma_decoded_events_are_notes(message: Seq<u8>)
    ensures
        forall|i: int|
            0 <= i < decoded_events(message).len() ==> is_note_event(
                #[trigger] decoded_events(message)[i],
            ),
{
    if message.len() > 0 {
        lemma_scan_yields_notes(message.push(message[0]), 0, 0, Seq::empty());
    }
}

proof fn lemma_scan_one_group(bytes: Seq<u8>, at: int, status: u8, data: Seq<u8>)
    requires
        1 <= at < bytes.len(),
        is_status(bytes.last()),
        is_data(bytes.subrange(1, bytes.len() - 1)),
        data == bytes.subrange(1, at),
    ensures
        scan_events(bytes, at, status, data) == group_events(
            status,
            bytes.subrange(1, bytes.len() - 1),
        ),
    decreases bytes.len() - at,
{
    let body = bytes.subrange(1, bytes.len() - 1);
    if at == bytes.len() - 1 {
        // the closing byte ends the group, and nothing follows it
        assert(scan_events(bytes, at + 1, bytes[at], Seq::empty()) == Seq::<(u8, u8, u8)>::empty());
    } else {
        assert(bytes[at] == body[at - 1]);
        assert(data.push(bytes[at]) == bytes.subrange(1, at + 1));
        lemma_scan_one_group(bytes, at + 1, status, data.push(bytes[at]));
    }
}

/// A message made of one status byte and the data bytes under it decodes
/// to the events of that one group: the data taken two at a time.
pub proof fn lemma_decode_one_group(status: u8, data: Seq<u8>)
    requires
        is_status(status),
        is_data(data),
    ensures
        decoded_events(seq![status] + data) == group_events(status, data),
{
    let message = seq![status] + data;
    let bytes = message.push(message[0]);
    assert(bytes.subrange(1, 1) == Seq::<u8>::empty());
    lemma_scan_one_group(bytes, 1, status, Seq::empty());
}

/// Bytes that come before the place where the scan starts do not matter.
proof fn lemma_scan_ignores_prefix(
    prefix: Seq<u8>,
    bytes: Seq<u8>,
    at: int,
    status: u8,
    data: Seq<u8>,
)
    requires
        0 <= at,
    ensures
        scan_events(prefix + bytes, prefix.len() + at, status, data) == scan_events(
            bytes,
            at,
            status,
            data,
        ),
    decreases bytes.len() - at,
{
    if at < bytes.len() {
        if is_status(bytes[at]) {
            lemma_scan_ignores_prefix(prefix, bytes, at + 1, bytes[at], Seq::empty());
        } else {
            lemma_scan_ignores_prefix(prefix, bytes, at + 1, status, data.push(bytes[at]));
        }
    }
}

/// Which status byte ends the bytes does not matter: it closes the last
/// group and opens none that could yield an event.
proof fn lemma_scan_any_closing_byte(
    bytes: Seq<u8>,
    closing: u8,
    other: u8,
    at: int,
    status: u8,
    data: Seq<u8>,
)
    requires
        0 <= at,
        is_status(closing),
        is_status(other),
    ensures
        scan_events(bytes.push(closing), at, status, data) == scan_events(
            bytes.push(other),
            at,
            status,
            data,
        ),
    decreases bytes.len() - at,
{
    let a = bytes.push(closing);
    let b = bytes.push(other);
    if at < bytes.len() {
        if is_status(bytes[at]) {
            lemma_scan_any_closing_byte(bytes, closing, other, at + 1, bytes[at], Seq::empty());
        } else {
            lemma_scan_any_closing_byte(
                bytes,
                closing,
                other,
                at + 1,
                status,
                data.push(bytes[at]),
            );
        }
    } else if at == bytes.len() {
        assert(scan_events(a, at + 1, closing, Seq::empty()) == Seq::<(u8, u8, u8)>::empty());
        assert(scan_events(b, at + 1, other, Seq::empty()) == Seq::<(u8, u8, u8)>::empty());
    }
}

/// A scan that runs into a status byte yields what it yields up to that
/// byte, followed by what the scan yields from behind that byte on.
proof fn lemma_scan_splits_at_status(
    first: Seq<u8>,
    second: Seq<u8>,
    at: int,
    status: u8,
    data: Seq<u8>,
)
    requires
        0 <= at <= first.len(),
        second.len() > 0,
        is_status(second[0]),
    ensures
        scan_events(first + second, at, status, data) == scan_events(
            first.push(second[0]),
            at,
            status,
            data,
        ) + scan_events(first + second, first.len() as int + 1, second[0], Seq::empty()),
    decreases first.len() - at,
{
    let closed = first.push(second[0]);
    if at == first.len() {
        assert(scan_events(closed, at + 1, second[0], Seq::empty()) == Seq::<
            (u8, u8, u8),
        >::empty());
    } else if is_status(first[at]) {
        lemma_scan_splits_at_status(first, second, at + 1, first[at], Seq::empty());
    } else {
        lemma_scan_splits_at_status(first, second, at + 1, status, data.push(first[at]));
    }
}

/// Decoding two messages one after the other gives the same events as
/// decoding them joined into one, when each begins with a status byte.
pub proof fn lemma_decode_joined(first: Seq<u8>, second: Seq<u8>)
    requires
        first.len() > 0,
        second.len() > 0,
        is_status(first[0]),
        is_status(second[0]),
    ensures
        decoded_events(first + second) == decoded_events(first) + decoded_events(second),
{
    let tail = second.push(first[0]);
    assert((first + second).push(first[0]) == first + tail);
    // up to the first byte of the second message
    lemma_scan_splits_at_status(first, tail, 0, 0, Seq::empty());
    lemma_scan_any_closing_byte(first, second[0], first[0], 0, 0, Seq::empty());
    // from behind that byte on
    lemma_scan_ignores_prefix(first, tail, 1, second[0], Seq::empty());
    lemma_scan_any_closing_byte(second, first[0], second[0], 1, second[0], Seq::empty());
}

/// Appends the events of one closed group to `events`.
fn flush_group(events: &mut Vec<(u8, u8, u8)>, status: u8, data: &Vec<u8>)
    ensures
        final(events)@ == old(events)@ + group_events(status, data@),
{
    if status == MIDI_NOTE_ON_BYTE || status == MIDI_NOTE_OFF_BYTE {
        let pairs: usize = data.len() / 2;
        let mut k: usize = 0;
        while k < pairs
            invariant
                pairs == data@.len() / 2,
                data@.len() <= usize::MAX,
                k <= pairs,
                status == MIDI_NOTE_ON_BYTE || status == MIDI_NOTE_OFF_BYTE,
                events@ == old(events)@ + group_events(status, data@).take(k as int),
            decreases pairs - k,
        {
            let note: u8 = data[2 * k];
            let velocity: u8 = data[2 * k + 1];
            events.push((status, note, velocity));
            k += 1;
        }
    }
}

/// Splits a packed MIDI message into its `(status, note, velocity)` events,
/// in the order in which they occur in the message.
pub fn decode_midi(message_data: &Vec<u8>) -> (events: Vec<(u8, u8, u8)>)
    ensures
        events@ == decoded_events(message_data@),
{
    let mut events: Vec<(u8, u8, u8)> = Vec::new();
    let n: usize = message_data.len();
    if n == 0 {
        return events;
    }
    let ghost bytes = message_data@.push(message_data@[0]);
    let mut last_status: u8 = 0x00;
    let mut midi_data: Vec<u8> = Vec::new();
    let mut i: usize = 0;
    while i < n
        invariant
            n == message_data@.len(),
            n > 0,
            i <= n,
            bytes == message_data@.push(message_data@[0]),
            decoded_events(message_data@) == events@ + scan_events(
                bytes,
                i as int,
                last_status,
                midi_data@,
            ),
        decreases n - i,
    {
        let byte: u8 = message_data[i];
        if MidiBle::is_status_byte(byte) {
            flush_group(&mut events, last_status, &midi_data);
            midi_data = Vec::new();
            last_status = byte;
        } else {
            midi_data.push(byte);
        }
        i += 1;
    }
    let first: u8 = message_data[0];
    if MidiBle::is_status_byte(first) {
        flush_group(&mut events, last_status, &midi_data);
    }
    assert(scan_events(bytes, n as int + 1, first, Seq::empty()) == Seq::<(u8, u8, u8)>::empty());
    assert(scan_events(bytes, n as int + 1, last_status, midi_data@.push(first)) == Seq::<
        (u8, u8, u8),
    >::empty());
    events
}

/// Whether `value` is `data` behind two stamp bytes, each of them neither
/// `0x00` nor `0xff`.
pub open spec fn is_framed(value: Seq<u8>, data: Seq<u8>) -> bool {
    &&& value.len() == data.len() + 2
    &&& 1 <= value[0] < 255
    &&& 1 <= value[1] < 255
    &&& value.skip(2) == data
}

/// The thread-local random number generator of the `rand` crate. Nothing is
/// known of its state.
#[verifier::external_type_specification]
#[verifier::external_body]
pub struct ExThreadRng(rand::rngs::ThreadRng);

/// `rand::thread_rng` hands out the generator of the calling thread, seeded
/// by the system. Nothing is claimed of it.
pub assume_specification[ rand::thread_rng ]() -> rand::rngs::ThreadRng;

/// Calls `Rng::gen_range` of the `rand` crate for the half-open range from
/// `low` to `high`, which must not be empty. The generator is seeded by the
/// system, so nothing is claimed of the value but that it lies in the range.
#[verifier::external_body]
fn random_in_range(generator: &mut rand::rngs::ThreadRng, low: u8, high: u8) -> (b: u8)
    requires
        low < high,
    ensures
        low <= b < high,
{
    generator.gen_range(low..high)
}

/// Puts the two stamp bytes in front of `data`.
pub fn frame_response(stamp: (u8, u8), data: &[u8]) -> (value: Vec<u8>)
    ensures
        value@ == seq![stamp.0, stamp.1] + data@,
{
    let mut value: Vec<u8> = Vec::new();
    value.push(stamp.0);
    value.push(stamp.1);
    let mut i: usize = 0;
    while i < data.len()
        invariant
            i <= data.len(),
            value@ == seq![stamp.0, stamp.1] + data@.take(i as int),
        decreases data.len() - i,
    {
        value.push(data[i]);
        i += 1;
    }
    value
}

/// The link's outbound side: the value that the peer reads back.
pub struct MidiBle {
    /// The value of the MIDI characteristic
    read_value: Vec<u8>,
}

impl View for MidiBle {
    type V = Seq<u8>;

    closed spec fn view(&self) -> Seq<u8> {
        self.read_value@
    }
}

impl MidiBle {
    /// A link whose value is four zero bytes.
    pub fn new() -> (r: MidiBle)
        ensures
            r@ == seq![0u8, 0u8, 0u8, 0u8],
    {
        let mut read_value: Vec<u8> = Vec::new();
        read_value.push(0x00);
        read_value.push(0x00);
        read_value.push(0x00);
        read_value.push(0x00);
        MidiBle { read_value }
    }

    /// Replaces the value by `data` behind two fresh stamp bytes. The stamp
    /// is drawn at random, so that the peer can tell a new value from the
    /// one before.
    pub fn send(&mut self, data: &str)
        ensures
            is_framed(final(self)@, data.spec_bytes()),
    {
        let mut rng = rand::thread_rng();
        let first: u8 = random_in_range(&mut rng, 1, 255);
        let second: u8 = random_in_range(&mut rng, 1, 255);
        self.read_value = frame_response((first, second), data.as_bytes());
        assert(self.read_value@.skip(2) =~= data.spec_bytes());
    }

    /// The value that the peer reads back.
    pub fn value(&self) -> (r: &Vec<u8>)
        ensures
            r@ == self@,
    {
        &self.read_value
    }

    /// Whether `byte` is a status byte rather than a data byte.
    pub fn is_status_byte(byte: u8) -> (r: bool)
        ensures
            r == is_status(byte),
    {
        assert((byte & 0b1000_0000 != 0) == (byte >= 0x80)) by (bit_vector);
        byte & 0b1000_0000 != 0
    }
}

} // verus!
