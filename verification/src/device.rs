//! The MIDI side of the device: ports, framing of messages, and transfers.

use crate::proto::{
    SampleData, SampleDataDumpRequest, SampleHeaderDumpRequest, SearchDeviceRequest, CLOCK, EOX,
    EST,
};
use crate::text::{
    ascii_lower, contains_text, law_occurs, lower_names, lowered, occurs, texts,
};
use vstd::prelude::*;
use vstd::string::*;
use vstd::utf8::is_ascii_chars;

verus! {

/// The most bytes that are sent at once.
pub const CHUNK_SIZE: usize = 256;

/// The pause after a chunk that does not end the message, in milliseconds.
pub const CHUNK_DELAY_MS: u64 = 10;

/// The pause before the input is looked at again, in milliseconds.
pub const RECEIVE_POLL_MS: u64 = 10;

/// How long the reply to a device search may take, in milliseconds.
pub const SEARCH_TIMEOUT_MS: u64 = 2000;

/// How long a sample header may take, in milliseconds.
pub const HEADER_TIMEOUT_MS: u64 = 5000;

/// How long the first part of a sample's data may take, in milliseconds.
pub const DATA_TIMEOUT_MS: u64 = 120000;

/// How long the device is silent after the last part, in milliseconds.
pub const SILENCE_TIMEOUT_MS: u64 = 2000;

/// The MIDI channel of the device search.
pub const SEARCH_CHANNEL: u8 = 0;

/// The echo of the device search.
pub const SEARCH_ECHO: u8 = 42;

/// The index of the first `b` in `s`; the length of `s` if there is none.
pub open spec fn position(s: Seq<u8>, b: u8) -> nat
    decreases s.len(),
{
    if s.len() == 0 || s[0] == b {
        0
    } else {
        1 + position(s.drop_first(), b)
    }
}

/// Bytes without the MIDI clock.
pub open spec fn without_clock(s: Seq<u8>) -> Seq<u8> {
    s.filter(|b: u8| b != CLOCK)
}

/// Bytes without MIDI real-time messages.
pub open spec fn without_real_time(s: Seq<u8>) -> Seq<u8> {
    s.filter(|b: u8| b < CLOCK || b == EOX)
}

/// Where the first complete SysEx message in `s` starts and where it ends: one
/// past the first end mark that follows the first start mark.
pub open spec fn message_bounds(s: Seq<u8>) -> Option<(int, int)> {
    let start = position(s, EST);
    let length = position(s.skip(start as int), EOX);
    if start + length < s.len() {
        Some((start as int, (start + length + 1) as int))
    } else {
        None
    }
}

/// A name, in lower case, of a port of the device.
pub open spec fn is_volca_port(name: Seq<char>) -> bool {
    occurs("volca sample"@, name)
}

/// The index of the first port of the device, by the names in lower case.
pub open spec fn first_port(names: Seq<Seq<char>>) -> Option<nat>
    decreases names.len(),
{
    if names.len() == 0 {
        None
    } else {
        match first_port(names.drop_last()) {
            Some(i) => Some(i),
            None => if is_volca_port(names.last()) {
                Some((names.len() - 1) as nat)
            } else {
                None
            },
        }
    }
}

/// Why no connection could be made.
#[derive(Clone, Copy, Debug, PartialEq, Eq, Structural)]
pub enum PortError {
    /// No output port belongs to the device.
    NoOutput,
    /// No input port belongs to the device.
    NoInput,
}

impl PortError {
    /// What is said of the error.
    pub open spec fn text(self) -> Seq<char> {
        match self {
            PortError::NoOutput => "Volca Sample 2 not found. Make sure it's connected via USB."@,
            PortError::NoInput => "Volca Sample 2 input port not found"@,
        }
    }

    /// Says what went wrong.
    pub fn message(&self) -> (r: String)
        ensures
            r@ == self.text(),
    {
        match self {
            PortError::NoOutput => {
                "Volca Sample 2 not found. Make sure it's connected via USB.".to_owned()
            },
            PortError::NoInput => "Volca Sample 2 input port not found".to_owned(),
        }
    }
}

/// Why no message was received.
#[derive(Debug)]
pub enum ReceiveError {
    /// No complete message came in time.
    Timeout,
    /// The message is not one of the expected kind; the reason in words.
    Parse(String),
}

impl ReceiveError {
    /// What is said of the error.
    pub open spec fn text(self) -> Seq<char> {
        match self {
            ReceiveError::Timeout => "Receive timeout"@,
            ReceiveError::Parse(reason) => "Failed to parse message: "@ + reason@,
        }
    }

    /// Says what went wrong.
    pub fn message(&self) -> (r: String)
        ensures
            r@ == self.text(),
    {
        match self {
            ReceiveError::Timeout => "Receive timeout".to_owned(),
            ReceiveError::Parse(reason) => "Failed to parse message: ".to_owned().concat(
                reason.as_str(),
            ),
        }
    }
}

/// Names of ASCII characters alone have their letters from `A` to `Z` turned into
/// those from `a` to `z`.
pub open spec fn ascii_names_lowered(names: Seq<String>) -> bool {
    forall|i: int|
        0 <= i < names.len() && is_ascii_chars((#[trigger] names[i])@) ==> lowered(texts(names))[i]
            == names[i]@.map_values(|c: char| ascii_lower(c))
}

/// Finds the first port of the device, by the names in lower case.
pub fn find_port(names: &Vec<String>) -> (r: Option<usize>)
    ensures
        match first_port(texts(names@)) {
            Some(i) => r matches Some(found) && found == i < names@.len(),
            None => r is None,
        },
{
    let mut i: usize = 0;
    while i < names.len()
        invariant
            i <= names@.len(),
            first_port(texts(names@).take(i as int)) is None,
        decreases names@.len() - i,
    {
        proof {
            let next = texts(names@).take(i + 1);
            assert(next.drop_last() =~= texts(names@).take(i as int));
            assert(next.last() == names@[i as int]@);
        }
        if contains_text(names[i].as_str(), "volca sample") {
            proof {
                lemma_first_port_stays(texts(names@), i + 1);
            }
            return Some(i);
        }
        i = i + 1;
    }
    assert(texts(names@).take(i as int) =~= texts(names@));
    None
}

/// Ports that come later do not change which port is the first.
proof fn lemma_first_port_stays(names: Seq<Seq<char>>, n: int)
    requires
        0 <= n <= names.len(),
        first_port(names.take(n)) is Some,
    ensures
        first_port(names) == first_port(names.take(n)),
    decreases names.len(),
{
    if n == names.len() {
        assert(names.take(n) =~= names);
    } else {
        assert(names.drop_last().take(n) =~= names.take(n));
        lemma_first_port_stays(names.drop_last(), n);
    }
}

/// Find the ports of the device among the names of the input and the output
/// ports: the first input and the first output whose name, in lower case, has
/// that of the device in it.
pub fn find_volca_ports(in_names: &Vec<String>, out_names: &Vec<String>) -> (r: Result<
    (usize, usize),
    PortError,
>)
    ensures
        match (first_port(lowered(texts(in_names@))), first_port(lowered(texts(out_names@)))) {
            (_, None) => r matches Err(e) && e == PortError::NoOutput,
            (None, Some(_)) => r matches Err(e) && e == PortError::NoInput,
            (Some(i), Some(o)) => r matches Ok(ports) && ports.0 == i < in_names@.len() && ports.1
                == o < out_names@.len(),
        },
        ascii_names_lowered(in_names@),
        ascii_names_lowered(out_names@),
{
    let in_lower: Vec<String> = lower_names(in_names);
    let out_lower: Vec<String> = lower_names(out_names);
    proof {
        assert forall|i: int| 0 <= i < in_names@.len() implies lowered(texts(in_names@))[i]
            == #[trigger] in_lower@[i]@ by {
            assert(texts(in_lower@)[i] == in_lower@[i]@);
        }
        assert forall|i: int| 0 <= i < out_names@.len() implies lowered(texts(out_names@))[i]
            == #[trigger] out_lower@[i]@ by {
            assert(texts(out_lower@)[i] == out_lower@[i]@);
        }
    }
    match find_port(&out_lower) {
        None => Err(PortError::NoOutput),
        Some(output) => match find_port(&in_lower) {
            None => Err(PortError::NoInput),
            Some(input) => Ok((input, output)),
        },
    }
}

/// A part of a message that is sent at once.
#[derive(Debug)]
pub struct Transmission {
    pub bytes: Vec<u8>,
    /// A pause of [`CHUNK_DELAY_MS`] follows.
    pub pause: bool,
}

/// The number of parts that a message is sent in.
pub open spec fn chunk_count(len: nat) -> nat {
    if len <= CHUNK_SIZE {
        1
    } else {
        (len + CHUNK_SIZE as nat - 1) as nat / CHUNK_SIZE as nat
    }
}

/// Part `k` of a message.
pub open spec fn chunk(message: Seq<u8>, k: int) -> Seq<u8> {
    let start = k * CHUNK_SIZE;
    let end = if start + CHUNK_SIZE < message.len() {
        start + CHUNK_SIZE
    } else {
        message.len() as int
    };
    message.subrange(start, end)
}

/// Whether a pause follows part `k` of a message: a message that fits in one
/// part has none, and neither has a part that ends with the end mark.
pub open spec fn chunk_pause(message: Seq<u8>, k: int) -> bool {
    message.len() > CHUNK_SIZE && chunk(message, k).last() != EOX
}

/// What became of a wait for a message.
#[derive(Debug)]
pub enum ReceiveStep {
    /// A complete message.
    Message(Vec<u8>),
    /// The time is up.
    TimedOut,
    /// Look again after [`RECEIVE_POLL_MS`].
    Wait,
}

/// A connection whose device has not answered the search yet: what has come in.
#[derive(Debug)]
pub struct DeviceSearch {
    /// Bytes received and not yet taken out as messages.
    pub input_buffer: Vec<u8>,
}

/// A connected device: what has come in from it, and what is known about it.
#[derive(Debug)]
pub struct MidiDevice {
    /// Bytes received and not yet taken out as messages.
    pub input_buffer: Vec<u8>,
    /// The MIDI channel that messages are sent on.
    pub channel: u8,
    pub firmware_version: String,
}

/// What is said when one of the parts of a message could not be sent.
pub fn send_failure(parts: usize, e: &str) -> (r: String)
    ensures
        r@ == (if parts > 1 {
            "Failed to send MIDI chunk: "@
        } else {
            "Failed to send MIDI: "@
        }) + e@,
{
    if parts > 1 {
        "Failed to send MIDI chunk: ".to_owned().concat(e)
    } else {
        "Failed to send MIDI: ".to_owned().concat(e)
    }
}

fn copy_range(bytes: &[u8], start: usize, end: usize) -> (r: Vec<u8>)
    requires
        start <= end <= bytes@.len(),
    ensures
        r@ == bytes@.subrange(start as int, end as int),
{
    let mut out: Vec<u8> = Vec::new();
    let mut i: usize = start;
    while i < end
        invariant
            start <= i <= end <= bytes@.len(),
            out@ == bytes@.subrange(start as int, i as int),
        decreases end - i,
    {
        out.push(bytes[i]);
        i = i + 1;
        assert(out@ =~= bytes@.subrange(start as int, i as int));
    }
    out
}

fn find_byte(bytes: &Vec<u8>, from: usize, b: u8) -> (r: usize)
    requires
        from <= bytes@.len(),
    ensures
        r == from + position(bytes@.skip(from as int), b),
        from <= r <= bytes@.len(),
{
    let mut i: usize = from;
    while i < bytes.len() && bytes[i] != b
        invariant
            from <= i <= bytes@.len(),
            position(bytes@.skip(from as int), b) == i - from + position(
                bytes@.skip(i as int),
                b,
            ),
        decreases bytes@.len() - i,
    {
        assert(bytes@.skip(i as int).drop_first() =~= bytes@.skip(i + 1));
        i = i + 1;
    }
    i
}

/// The parts that a message is sent in, and the pauses after them.
pub open spec fn is_split(message: Seq<u8>, parts: Seq<Transmission>) -> bool {
    &&& parts.len() == chunk_count(message.len())
    &&& forall|k: int|
        0 <= k < parts.len() ==> (#[trigger] parts[k]).bytes@ == chunk(message, k) && parts[k].pause
            == chunk_pause(message, k)
}

/// What is received, and what is left of what has come in. The first complete
/// message is taken out, together with everything before it. If there is none,
/// what has come in is kept and the time spent so far decides.
pub open spec fn is_received(
    before: Seq<u8>,
    elapsed_ns: u128,
    timeout_ns: u128,
    after: Seq<u8>,
    r: ReceiveStep,
) -> bool {
    match message_bounds(before) {
        Some((start, end)) => {
            &&& r matches ReceiveStep::Message(message)
            &&& message@ == without_real_time(before.subrange(start, end))
            &&& after == before.skip(end)
        },
        None => {
            &&& r == (if elapsed_ns > timeout_ns {
                ReceiveStep::TimedOut
            } else {
                ReceiveStep::Wait
            })
            &&& after == before
        },
    }
}

fn take_in(buffer: &mut Vec<u8>, message: &[u8])
    ensures
        final(buffer)@ == old(buffer)@ + without_clock(message@),
{
    let mut i: usize = 0;
    proof {
        reveal(Seq::filter);
        assert(without_clock(message@.take(0)) =~= Seq::<u8>::empty());
    }
    while i < message.len()
        invariant
            i <= message@.len(),
            buffer@ == old(buffer)@ + without_clock(message@.take(i as int)),
        decreases message@.len() - i,
    {
        let b: u8 = message[i];
        proof {
            reveal(Seq::filter);
            assert(message@.take(i + 1).drop_last() =~= message@.take(i as int));
        }
        if b != CLOCK {
            buffer.push(b);
        }
        i = i + 1;
        assert(buffer@ =~= old(buffer)@ + without_clock(message@.take(i as int)));
    }
    assert(message@.take(i as int) =~= message@);
}

fn split_message(encoded: &[u8]) -> (r: Vec<Transmission>)
    ensures
        is_split(encoded@, r@),
{
    let mut out: Vec<Transmission> = Vec::new();
    let len: usize = encoded.len();
    if len <= CHUNK_SIZE {
        let bytes: Vec<u8> = copy_range(encoded, 0, len);
        assert(chunk(encoded@, 0) =~= encoded@.subrange(0, len as int));
        out.push(Transmission { bytes, pause: false });
        return out;
    }
    let mut start: usize = 0;
    while start < len
        invariant
            len == encoded@.len(),
            len > CHUNK_SIZE,
            start <= len,
            start < len ==> start == out@.len() * CHUNK_SIZE,
            start == len ==> out@.len() == chunk_count(len as nat),
            forall|k: int|
                0 <= k < out@.len() ==> (#[trigger] out@[k]).bytes@ == chunk(encoded@, k)
                    && out@[k].pause == chunk_pause(encoded@, k),
        decreases len - start,
    {
        let end: usize = if len - start > CHUNK_SIZE {
            start + CHUNK_SIZE
        } else {
            len
        };
        let bytes: Vec<u8> = copy_range(encoded, start, end);
        let pause: bool = bytes[bytes.len() - 1] != EOX;
        assert(bytes@ =~= chunk(encoded@, out@.len() as int));
        out.push(Transmission { bytes, pause });
        start = end;
    }
    out
}

fn take_message(buffer: &mut Vec<u8>, elapsed_ns: u128, timeout_ns: u128) -> (r: ReceiveStep)
    ensures
        is_received(old(buffer)@, elapsed_ns, timeout_ns, final(buffer)@, r),
{
    let ghost before = buffer@;
    let start: usize = find_byte(buffer, 0, EST);
    assert(before.skip(0) =~= before);
    let end: usize = find_byte(buffer, start, EOX);
    if end < buffer.len() {
        let mut message: Vec<u8> = Vec::new();
        let mut i: usize = start;
        proof {
            reveal(Seq::filter);
            assert(without_real_time(before.subrange(start as int, start as int)) =~= Seq::<
                u8,
            >::empty());
        }
        let stop: usize = end + 1;
        while i < stop
            invariant
                start <= i <= stop <= before.len(),
                before == buffer@,
                message@ == without_real_time(before.subrange(start as int, i as int)),
            decreases stop - i,
        {
            let b: u8 = buffer[i];
            proof {
                reveal(Seq::filter);
                assert(before.subrange(start as int, i + 1).drop_last() =~= before.subrange(
                    start as int,
                    i as int,
                ));
            }
            if b < CLOCK || b == EOX {
                message.push(b);
            }
            i = i + 1;
        }
        let rest: Vec<u8> = copy_range(buffer.as_slice(), stop, buffer.len());
        assert(rest@ =~= before.skip(stop as int));
        *buffer = rest;
        return ReceiveStep::Message(message);
    }
    if elapsed_ns > timeout_ns {
        ReceiveStep::TimedOut
    } else {
        ReceiveStep::Wait
    }
}

impl DeviceSearch {
    /// The request by which the device is verified. It is sent on
    /// [`SEARCH_CHANNEL`], and the reply may take [`SEARCH_TIMEOUT_MS`].
    pub fn verify_device(&self) -> (r: SearchDeviceRequest)
        ensures
            r.echo == SEARCH_ECHO,
    {
        SearchDeviceRequest { echo: SEARCH_ECHO }
    }

    /// Takes in bytes as they arrive, without the MIDI clock.
    pub fn bytes_arrived(&mut self, message: &[u8])
        ensures
            final(self).input_buffer@ == old(self).input_buffer@ + without_clock(message@),
    {
        take_in(&mut self.input_buffer, message);
    }

    /// Send the request, given its encoding.
    pub fn send_message(&self, encoded: &[u8]) -> (r: Vec<Transmission>)
        ensures
            is_split(encoded@, r@),
    {
        split_message(encoded)
    }

    /// Receive the reply.
    pub fn receive_message(&mut self, elapsed_ns: u128, timeout_ns: u128) -> (r: ReceiveStep)
        ensures
            is_received(
                old(self).input_buffer@,
                elapsed_ns,
                timeout_ns,
                final(self).input_buffer@,
                r,
            ),
    {
        take_message(&mut self.input_buffer, elapsed_ns, timeout_ns)
    }

    /// The search has ended. There is a device if and only if it replied; the
    /// reply gives its channel and its firmware version.
    pub fn search_finished(self, reply: Result<(u8, String), ReceiveError>) -> (r: Result<
        MidiDevice,
        ReceiveError,
    >)
        ensures
            match reply {
                Ok((device_id, version)) => {
                    &&& r matches Ok(device)
                    &&& device.input_buffer == self.input_buffer
                    &&& device.channel == device_id
                    &&& device.firmware_version == version
                },
                Err(e) => r == Err::<MidiDevice, ReceiveError>(e),
            },
    {
        match reply {
            Ok((device_id, version)) => Ok(
                MidiDevice {
                    input_buffer: self.input_buffer,
                    channel: device_id,
                    firmware_version: version,
                },
            ),
            Err(e) => Err(e),
        }
    }
}

impl MidiDevice {
    /// Connect to the device, given the names of all ports: the input port and
    /// the output port to open, and the search that the device has to answer
    /// before it counts as connected.
    pub fn connect(in_names: &Vec<String>, out_names: &Vec<String>) -> (r: Result<
        (usize, usize, DeviceSearch),
        PortError,
    >)
        ensures
            match (first_port(lowered(texts(in_names@))), first_port(lowered(texts(out_names@)))) {
                (_, None) => r matches Err(e) && e == PortError::NoOutput,
                (None, Some(_)) => r matches Err(e) && e == PortError::NoInput,
                (Some(i), Some(o)) => {
                    &&& r matches Ok(c)
                    &&& c.0 == i < in_names@.len()
                    &&& c.1 == o < out_names@.len()
                    &&& c.2.input_buffer@ == Seq::<u8>::empty()
                },
            },
            ascii_names_lowered(in_names@),
            ascii_names_lowered(out_names@),
    {
        match find_volca_ports(in_names, out_names) {
            Err(e) => Err(e),
            Ok((input, output)) => Ok((input, output, DeviceSearch { input_buffer: Vec::new() })),
        }
    }

    /// Takes in bytes as they arrive, without the MIDI clock.
    pub fn bytes_arrived(&mut self, message: &[u8])
        ensures
            final(self).input_buffer@ == old(self).input_buffer@ + without_clock(message@),
            final(self).channel == old(self).channel,
            final(self).firmware_version == old(self).firmware_version,
    {
        take_in(&mut self.input_buffer, message);
    }

    /// Send a message to the device, given its encoding: in one part if it
    /// fits, else in parts of [`CHUNK_SIZE`] with pauses between them.
    pub fn send_message(&self, encoded: &[u8]) -> (r: Vec<Transmission>)
        ensures
            is_split(encoded@, r@),
    {
        split_message(encoded)
    }

    /// Receive a message from the device: takes the first complete message out
    /// of what has come in, if there is one.
    pub fn receive_message(&mut self, elapsed_ns: u128, timeout_ns: u128) -> (r: ReceiveStep)
        ensures
            is_received(
                old(self).input_buffer@,
                elapsed_ns,
                timeout_ns,
                final(self).input_buffer@,
                r,
            ),
            final(self).channel == old(self).channel,
            final(self).firmware_version == old(self).firmware_version,
    {
        take_message(&mut self.input_buffer, elapsed_ns, timeout_ns)
    }

    /// Fetch sample header information from a specific slot: the request to
    /// send. The reply may take [`HEADER_TIMEOUT_MS`].
    pub fn get_sample_info(&self, slot: u8) -> (r: SampleHeaderDumpRequest)
        ensures
            r.sample_no == slot,
    {
        SampleHeaderDumpRequest { sample_no: slot }
    }

    /// Fetch sample audio data from a specific slot: forgets what has come in
    /// so far, and begins the transfer.
    pub fn get_sample_data(&mut self, slot: u8) -> (r: SampleTransfer)
        ensures
            r.request.sample_no == slot,
            r.received is None,
            final(self).input_buffer@ == Seq::<u8>::empty(),
            final(self).channel == old(self).channel,
            final(self).firmware_version == old(self).firmware_version,
    {
        self.input_buffer.clear();
        SampleTransfer { request: SampleDataDumpRequest { sample_no: slot }, received: None }
    }
}

/// A transfer of audio data, which comes in one or more messages.
#[derive(Debug)]
pub struct SampleTransfer {
    pub request: SampleDataDumpRequest,
    /// What has been received so far.
    pub received: Option<SampleData>,
}

/// How a transfer goes on.
#[derive(Debug)]
pub enum TransferStep {
    /// Receive another message.
    Receive(SampleTransfer),
    /// The transfer is complete.
    Complete(SampleData),
    /// Not even the first message came.
    Failed(ReceiveError),
}

/// The number of the sample and its data so far.
pub open spec fn received_data(received: Option<SampleData>) -> Option<(u8, Seq<i16>)> {
    match received {
        Some(d) => Some((d.sample_no, d.data@)),
        None => None,
    }
}

/// What has been received after one more message: the data of all messages in
/// order, under the number that the first one bears.
pub open spec fn after_message(
    received: Option<(u8, Seq<i16>)>,
    message: (u8, Seq<i16>),
) -> (u8, Seq<i16>) {
    match received {
        Some(d) => (d.0, d.1 + message.1),
        None => message,
    }
}

impl SampleTransfer {
    /// How long the next message may take, in milliseconds.
    pub fn timeout_ms(&self) -> (r: u64)
        ensures
            r == (if self.received is None {
                DATA_TIMEOUT_MS
            } else {
                SILENCE_TIMEOUT_MS
            }),
    {
        match &self.received {
            None => DATA_TIMEOUT_MS,
            Some(_) => SILENCE_TIMEOUT_MS,
        }
    }

    /// Takes in the next message, or the lack of one. Large samples come in
    /// multiple messages, so they are accumulated until the device is silent.
    pub fn advance(self, reply: Result<SampleData, ReceiveError>) -> (r: TransferStep)
        ensures
            match (reply, self.received) {
                (Ok(m), _) => {
                    &&& r matches TransferStep::Receive(next)
                    &&& next.request == self.request
                    &&& received_data(next.received) == Some(
                        after_message(received_data(self.received), (m.sample_no, m.data@)),
                    )
                },
                (Err(_), Some(d)) => r == TransferStep::Complete(d),
                (Err(e), None) => r == TransferStep::Failed(e),
            },
    {
        match (reply, self.received) {
            (Ok(message), None) => TransferStep::Receive(
                SampleTransfer { request: self.request, received: Some(message) },
            ),
            (Ok(message), Some(so_far)) => {
                let sample_no: u8 = so_far.sample_no;
                let mut data: Vec<i16> = so_far.data;
                let mut more: Vec<i16> = message.data;
                data.append(&mut more);
                TransferStep::Receive(
                    SampleTransfer {
                        request: self.request,
                        received: Some(SampleData { sample_no, data }),
                    },
                )
            },
            (Err(_), Some(so_far)) => TransferStep::Complete(so_far),
            (Err(e), None) => TransferStep::Failed(e),
        }
    }
}

/// The first port of the device is one of its ports, and none before it is; if
/// there is no first one there is none.
pub proof fn law_first_port(names: Seq<Seq<char>>)
    ensures
        match first_port(names) {
            Some(i) => i < names.len() && is_volca_port(names[i as int]) && forall|k: int|
                0 <= k < i ==> !is_volca_port(#[trigger] names[k]),
            None => forall|k: int| 0 <= k < names.len() ==> !is_volca_port(#[trigger] names[k]),
        },
    decreases names.len(),
{
    if names.len() > 0 {
        let front = names.drop_last();
        law_first_port(front);
        assert forall|k: int| 0 <= k < front.len() implies names[k] == #[trigger] front[k] by {}
        if first_port(front) is None {
            assert forall|k: int| 0 <= k < front.len() implies !is_volca_port(
                #[trigger] names[k],
            ) by {
                assert(!is_volca_port(front[k]));
            }
        } else {
            let i = first_port(front)->0;
            assert forall|k: int| 0 <= k < i implies !is_volca_port(#[trigger] names[k]) by {
                assert(!is_volca_port(front[k]));
            }
        }
    }
}

/// Where a byte is found after bytes that differ from it.
proof fn lemma_position(before: Seq<u8>, b: u8, after: Seq<u8>)
    requires
        forall|k: int| 0 <= k < before.len() ==> #[trigger] before[k] != b,
    ensures
        position(before + seq![b] + after, b) == before.len(),
    decreases before.len(),
{
    let s = before + seq![b] + after;
    if before.len() > 0 {
        assert(s[0] == before[0]);
        assert(s.drop_first() =~= before.drop_first() + seq![b] + after);
        assert forall|k: int|
            0 <= k < before.drop_first().len() implies #[trigger] before.drop_first()[k] != b by {
            assert(before.drop_first()[k] == before[k + 1]);
        }
        lemma_position(before.drop_first(), b, after);
    } else {
        assert(s[0] == b);
    }
}

/// A message is found behind any bytes that do not start one, loses the
/// real-time messages that came in the midst of it and nothing else, and what
/// follows it is kept.
pub proof fn law_framing(noise: Seq<u8>, payload: Seq<u8>, rest: Seq<u8>)
    requires
        !noise.contains(EST),
        !payload.contains(EOX),
    ensures
        ({
            let s = noise + (seq![EST] + payload + seq![EOX]) + rest;
            let start = noise.len() as int;
            let end = start + payload.len() + 2;
            &&& message_bounds(s) == Some((start, end))
            &&& without_real_time(s.subrange(start, end)) == seq![EST] + without_real_time(payload)
                + seq![EOX]
            &&& s.skip(end) == rest
        }),
{
    let s = noise + (seq![EST] + payload + seq![EOX]) + rest;
    let tail = payload + seq![EOX] + rest;
    assert(s =~= noise + seq![EST] + tail);
    lemma_position(noise, EST, tail);
    let opened = seq![EST] + payload;
    assert(s.skip(noise.len() as int) =~= opened + seq![EOX] + rest);
    assert forall|k: int| 0 <= k < opened.len() implies #[trigger] opened[k] != EOX by {
        if k > 0 {
            assert(opened[k] == payload[k - 1]);
        }
    }
    lemma_position(opened, EOX, rest);
    let end = noise.len() as int + payload.len() + 2;
    let message = s.subrange(noise.len() as int, end);
    assert(message =~= seq![EST] + payload + seq![EOX]);
    reveal(Seq::filter);
    let keep = |b: u8| b < CLOCK || b == EOX;
    Seq::filter_distributes_over_add(seq![EST] + payload, seq![EOX], keep);
    Seq::filter_distributes_over_add(seq![EST], payload, keep);
    assert(seq![EST].drop_last() =~= Seq::<u8>::empty());
    assert(seq![EOX].drop_last() =~= Seq::<u8>::empty());
    assert(seq![EST].filter(keep) =~= seq![EST]);
    assert(seq![EOX].filter(keep) =~= seq![EOX]);
    assert(s.skip(end) =~= rest);
}

/// It does not matter how the bytes that arrive are divided up.
pub proof fn law_arrival_in_parts(a: Seq<u8>, b: Seq<u8>)
    ensures
        without_clock(a + b) == without_clock(a) + without_clock(b),
{
    Seq::filter_distributes_over_add(a, b, |b: u8| b != CLOCK);
}

/// Bytes without the MIDI clock among them arrive as they are.
pub proof fn law_arrival_without_clock(s: Seq<u8>)
    requires
        !s.contains(CLOCK),
    ensures
        without_clock(s) == s,
    decreases s.len(),
{
    reveal(Seq::filter);
    if s.len() > 0 {
        assert(s.contains(s.last()));
        assert forall|b: u8| s.drop_last().contains(b) implies s.contains(b) by {
            let k = choose|k: int| 0 <= k < s.drop_last().len() && s.drop_last()[k] == b;
            assert(s[k] == b);
        }
        law_arrival_without_clock(s.drop_last());
        assert(s.drop_last().push(s.last()) =~= s);
    }
}

/// The parts that a message is sent in.
pub open spec fn chunks(message: Seq<u8>) -> Seq<Seq<u8>> {
    Seq::new(chunk_count(message.len()), |k: int| chunk(message, k))
}

/// Wherever sending stops, what was sent is the beginning of the message: the
/// first `n` parts are its first `n` times [`CHUNK_SIZE`] bytes, or all of it if
/// it has no more.
pub proof fn law_parts_sent_so_far(message: Seq<u8>, n: nat)
    requires
        n <= chunk_count(message.len()),
    ensures
        chunks(message).take(n as int).flatten() == (if n * CHUNK_SIZE <= message.len() {
            message.take((n * CHUNK_SIZE) as int)
        } else {
            message
        }),
    decreases n,
{
    let parts = chunks(message).take(n as int);
    if n == 0 {
        assert(parts =~= Seq::<Seq<u8>>::empty());
        assert(parts.flatten() =~= message.take(0));
    } else {
        let m = (n - 1) as nat;
        law_parts_sent_so_far(message, m);
        let front = chunks(message).take(m as int);
        assert(parts =~= front.push(chunk(message, m as int)));
        front.lemma_flatten_push(chunk(message, m as int));
        assert(front.push(chunk(message, m as int)).flatten() == front.flatten() + chunk(
            message,
            m as int,
        ));
        assert(m * CHUNK_SIZE <= message.len());
        if n * CHUNK_SIZE <= message.len() {
            assert(front.flatten() + chunk(message, m as int) =~= message.take(
                (n * CHUNK_SIZE) as int,
            ));
        } else {
            assert(front.flatten() + chunk(message, m as int) =~= message);
        }
    }
}

/// Nothing is lost or changed by sending in parts: the parts in order are the
/// message, and none is longer than may be sent at once.
pub proof fn law_parts_are_the_message(message: Seq<u8>)
    ensures
        chunks(message).flatten() == message,
        forall|k: int|
            0 <= k < chunks(message).len() ==> (#[trigger] chunks(message)[k]).len() <= CHUNK_SIZE,
{
    let n = chunk_count(message.len());
    law_parts_sent_so_far(message, n);
    assert(chunks(message).take(n as int) =~= chunks(message));
    assert(message.take(message.len() as int) =~= message);
}

/// No pause follows the last part of a message that ends with the end mark.
pub proof fn law_no_pause_at_the_end(message: Seq<u8>)
    requires
        message.len() > 0,
        message.last() == EOX,
    ensures
        !chunk_pause(message, chunk_count(message.len()) - 1),
{
}

/// What has come in after parts have arrived one after the other.
pub open spec fn arrived(parts: Seq<Seq<u8>>) -> Seq<u8>
    decreases parts.len(),
{
    if parts.len() == 0 {
        Seq::empty()
    } else {
        arrived(parts.drop_last()) + without_clock(parts.last())
    }
}

proof fn lemma_arrived(parts: Seq<Seq<u8>>)
    ensures
        arrived(parts) == without_clock(parts.flatten()),
    decreases parts.len(),
{
    if parts.len() == 0 {
        reveal(Seq::filter);
        assert(parts.flatten() =~= Seq::<u8>::empty());
        assert(without_clock(parts.flatten()) =~= Seq::<u8>::empty());
    } else {
        let front = parts.drop_last();
        lemma_arrived(front);
        assert(front.push(parts.last()) =~= parts);
        front.lemma_flatten_push(parts.last());
        law_arrival_in_parts(front.flatten(), parts.last());
    }
}

/// A message sent in parts is received whole: its parts, arriving one after the
/// other, make up exactly one message, the one that was sent.
pub proof fn law_sent_is_received(payload: Seq<u8>)
    requires
        forall|k: int| 0 <= k < payload.len() ==> #[trigger] payload[k] < 0x80,
    ensures
        ({
            let message = seq![EST] + payload + seq![EOX];
            let buffer = arrived(chunks(message));
            &&& buffer == message
            &&& message_bounds(buffer) == Some((0int, message.len() as int))
            &&& without_real_time(buffer.subrange(0, message.len() as int)) == message
            &&& buffer.skip(message.len() as int) == Seq::<u8>::empty()
        }),
{
    let message = seq![EST] + payload + seq![EOX];
    assert(arrived(chunks(message)) == message) by {
        law_parts_are_the_message(message);
        lemma_arrived(chunks(message));
        assert forall|k: int| 0 <= k < message.len() implies message[k] != CLOCK by {
            if 0 < k < message.len() - 1 {
                assert(message[k] == payload[k - 1]);
            }
        }
        law_arrival_without_clock(message);
    }
    lemma_keeps_data(payload);
    lemma_frame_alone(payload);
}

proof fn lemma_frame_alone(payload: Seq<u8>)
    requires
        !payload.contains(EOX),
        without_real_time(payload) == payload,
    ensures
        ({
            let message = seq![EST] + payload + seq![EOX];
            &&& message_bounds(message) == Some((0int, message.len() as int))
            &&& without_real_time(message.subrange(0, message.len() as int)) == message
            &&& message.skip(message.len() as int) == Seq::<u8>::empty()
        }),
{
    let message = seq![EST] + payload + seq![EOX];
    let none = Seq::<u8>::empty();
    law_framing(none, payload, none);
    assert(none + message + none =~= message);
    assert(message.len() == payload.len() + 2);
}

proof fn lemma_keeps_data(payload: Seq<u8>)
    requires
        forall|k: int| 0 <= k < payload.len() ==> #[trigger] payload[k] < 0x80,
    ensures
        without_real_time(payload) == payload,
    decreases payload.len(),
{
    reveal(Seq::filter);
    if payload.len() > 0 {
        assert(payload.last() == payload[payload.len() - 1]);
        assert forall|k: int|
            0 <= k < payload.drop_last().len() implies #[trigger] payload.drop_last()[k] < 0x80 by {
            assert(payload.drop_last()[k] == payload[k]);
        }
        lemma_keeps_data(payload.drop_last());
        assert(payload.drop_last().push(payload.last()) =~= payload);
    }
}

/// What has been received after some messages.
pub open spec fn after_messages(messages: Seq<(u8, Seq<i16>)>) -> Option<(u8, Seq<i16>)>
    decreases messages.len(),
{
    if messages.len() == 0 {
        None
    } else {
        Some(after_message(after_messages(messages.drop_last()), messages.last()))
    }
}

/// A transfer gathers the data of all its messages in order, under the number
/// of the first.
pub proof fn law_transfer_gathers_all(messages: Seq<(u8, Seq<i16>)>)
    requires
        messages.len() > 0,
    ensures
        after_messages(messages) == Some(
            (messages[0].0, messages.map_values(|m: (u8, Seq<i16>)| m.1).flatten()),
        ),
    decreases messages.len(),
{
    let data = messages.map_values(|m: (u8, Seq<i16>)| m.1);
    let front = messages.drop_last();
    let front_data = front.map_values(|m: (u8, Seq<i16>)| m.1);
    assert(data =~= front_data.push(messages.last().1));
    front_data.lemma_flatten_push(messages.last().1);
    if front.len() == 0 {
        assert(front_data.flatten() =~= Seq::<i16>::empty());
        assert(after_messages(front) is None);
        assert(front_data.flatten() + messages.last().1 =~= messages.last().1);
    } else {
        law_transfer_gathers_all(front);
    }
}

/// The position of a byte is that of the first one of its kind.
pub proof fn law_position(s: Seq<u8>, b: u8)
    ensures
        position(s, b) <= s.len(),
        position(s, b) < s.len() ==> s[position(s, b) as int] == b,
        forall|k: int| 0 <= k < position(s, b) ==> #[trigger] s[k] != b,
    decreases s.len(),
{
    if s.len() > 0 && s[0] != b {
        let rest = s.drop_first();
        law_position(rest, b);
        assert forall|k: int| 0 <= k < position(s, b) implies #[trigger] s[k] != b by {
            if k > 0 {
                assert(rest[k - 1] == s[k]);
            }
        }
    }
}

/// A message is found exactly if a start mark is followed by an end mark. It goes
/// from the first start mark to the first end mark after it.
pub proof fn law_message_goes_from_mark_to_mark(s: Seq<u8>)
    ensures
        match message_bounds(s) {
            Some((start, end)) => {
                &&& 0 <= start
                &&& start + 2 <= end <= s.len()
                &&& s[start] == 0xF0
                &&& s[end - 1] == 0xF7
                &&& forall|k: int| 0 <= k < start ==> #[trigger] s[k] != 0xF0
                &&& forall|k: int| start <= k < end - 1 ==> #[trigger] s[k] != 0xF7
            },
            None => forall|i: int, j: int|
                0 <= i < j < s.len() ==> !(#[trigger] s[i] == 0xF0 && #[trigger] s[j] == 0xF7),
        },
{
    law_position(s, EST);
    let start = position(s, EST) as int;
    let tail = s.skip(start);
    law_position(tail, EOX);
    let length = position(tail, EOX) as int;
    assert forall|k: int| start <= k < start + length implies #[trigger] s[k] != 0xF7 by {
        assert(tail[k - start] == s[k]);
    }
    if start + length < s.len() {
        assert(s[start + length] == tail[length]);
    } else {
        assert forall|i: int, j: int| 0 <= i < j < s.len() implies !(#[trigger] s[i] == 0xF0
            && #[trigger] s[j] == 0xF7) by {
            if s[i] == 0xF0 {
                assert(start <= i);
                assert(start <= j < start + length);
            }
        }
    }
}

/// Of the bytes that arrive exactly the MIDI clock is left out; of those in a
/// message exactly the real-time messages are. All others stay, in order.
pub proof fn law_only_the_clock_is_left_out(s: Seq<u8>, b: u8)
    ensures
        without_clock(Seq::empty()) == Seq::<u8>::empty(),
        b == 0xF8 ==> without_clock(s.push(b)) == without_clock(s),
        b != 0xF8 ==> without_clock(s.push(b)) == without_clock(s).push(b),
        without_real_time(Seq::empty()) == Seq::<u8>::empty(),
        b >= 0xF8 ==> without_real_time(s.push(b)) == without_real_time(s),
        b < 0xF8 ==> without_real_time(s.push(b)) == without_real_time(s).push(b),
{
    reveal(Seq::filter);
    assert(s.push(b).drop_last() =~= s);
}

/// What is received: if a start mark is followed by an end mark in what has come
/// in, the bytes from the first start mark to the first end mark after it, and
/// what follows them is what is left. Else nothing is taken, and time is up
/// exactly if more of it was spent than allowed.
pub proof fn law_received_is_the_first_message(
    before: Seq<u8>,
    elapsed_ns: u128,
    timeout_ns: u128,
    after: Seq<u8>,
    r: ReceiveStep,
    start: int,
    end: int,
)
    requires
        is_received(before, elapsed_ns, timeout_ns, after, r),
    ensures
        0 <= start < end - 1 < before.len() && before[start] == 0xF0 && before[end - 1] == 0xF7 && (
        forall|k: int| 0 <= k < start ==> #[trigger] before[k] != 0xF0) && (forall|k: int|
            start <= k < end - 1 ==> #[trigger] before[k] != 0xF7) ==> {
            &&& r matches ReceiveStep::Message(message)
            &&& message@ == without_real_time(before.subrange(start, end))
            &&& after == before.skip(end)
        },
        (forall|i: int, j: int|
            0 <= i < j < before.len() ==> !(#[trigger] before[i] == 0xF0 && #[trigger] before[j]
                == 0xF7)) ==> {
            &&& after == before
            &&& r is TimedOut <==> elapsed_ns > timeout_ns
            &&& r is Wait <==> elapsed_ns <= timeout_ns
        },
{
    law_message_goes_from_mark_to_mark(before);
    if let Some((a, b)) = message_bounds(before) {
        assert(before[a] == 0xF0 && before[b - 1] == 0xF7);
        if 0 <= start < end - 1 < before.len() && before[start] == 0xF0 && before[end - 1] == 0xF7
            && (forall|k: int| 0 <= k < start ==> #[trigger] before[k] != 0xF0) && (forall|k: int|
            start <= k < end - 1 ==> #[trigger] before[k] != 0xF7) {
            assert(a == start);
            assert(b == end);
        }
    }
}

/// However a message is sent, its parts in order are the message. It is sent at
/// once exactly if it has no more than 256 bytes; else in parts of 256 bytes, but
/// for the last, with a pause after each that does not end with the end mark.
pub proof fn law_parts_of_a_message(message: Seq<u8>, parts: Seq<Transmission>, k: int)
    requires
        is_split(message, parts),
        0 <= k < parts.len(),
    ensures
        parts.map_values(|t: Transmission| t.bytes@).flatten() == message,
        parts.len() == 1 <==> message.len() <= 256,
        parts[k].bytes@.len() <= 256,
        k < parts.len() - 1 ==> parts[k].bytes@.len() == 256,
        parts[k].pause <==> message.len() > 256 && parts[k].bytes@.last() != 0xF7,
        message.len() > 0 ==> parts[k].bytes@.len() > 0,
{
    law_parts_are_the_message(message);
    assert(parts.map_values(|t: Transmission| t.bytes@) =~= chunks(message));
    assert(parts[k].bytes@ == chunk(message, k));
}

/// A port is the device's exactly if its name, in lower case, has "volca sample"
/// in it.
pub proof fn law_name_of_port(before: Seq<char>, after: Seq<char>, name: Seq<char>)
    ensures
        is_volca_port(before + "volca sample"@ + after),
        is_volca_port(name) ==> exists|a: Seq<char>, b: Seq<char>|
            name == #[trigger] (a + "volca sample"@ + b),
{
    law_occurs("volca sample"@, before, after, name);
}

/// Messages of a transfer add up: the number is that of the first, and the data
/// of each follows that of those before it.
pub proof fn law_message_is_appended(
    received: Option<(u8, Seq<i16>)>,
    message: (u8, Seq<i16>),
    data: SampleData,
)
    ensures
        received is None ==> after_message(received, message) == message,
        received matches Some(d) ==> after_message(received, message).0 == d.0 && after_message(
            received,
            message,
        ).1 == d.1 + message.1,
        received_data(Some(data)) == Some((data.sample_no, data.data@)),
        received_data(None) is None,
{
}

/// How long things may take: two seconds for the search, five for a header, two
/// minutes for the first data, and two seconds of silence after the last. While
/// the device is waited for, it is looked at many times before time is up.
pub proof fn law_times()
    ensures
        SEARCH_TIMEOUT_MS == 2 * 1000,
        HEADER_TIMEOUT_MS == 5 * 1000,
        DATA_TIMEOUT_MS == 2 * 60 * 1000,
        SILENCE_TIMEOUT_MS == 2 * 1000,
        100 * RECEIVE_POLL_MS <= SEARCH_TIMEOUT_MS,
        100 * RECEIVE_POLL_MS <= SILENCE_TIMEOUT_MS,
{
}

} // verus!
