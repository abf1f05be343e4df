use volca_manager::device::{
    find_port, find_volca_ports, send_failure, DeviceSearch, MidiDevice, PortError, ReceiveError, ReceiveStep, SampleTransfer,
    TransferStep, CHUNK_SIZE, DATA_TIMEOUT_MS, SILENCE_TIMEOUT_MS,
};
use volca_manager::proto::SampleData;
use volca_manager::text::{contains_text, decimal_text, join_lines, lower_names, signed_text};

fn names(list: &[&str]) -> Vec<String> {
    list.iter().map(|s| s.to_string()).collect()
}

fn device() -> MidiDevice {
    MidiDevice { input_buffer: vec![], channel: 0, firmware_version: "unknown".to_string() }
}

fn message(step: ReceiveStep) -> Vec<u8> {
    match step {
        ReceiveStep::Message(bytes) => bytes,
        other => panic!("{:?}", other),
    }
}

#[test]
fn ports_are_found_whatever_the_case() {
    let inputs = names(&["Keyboard", "VOLCA SAMPLE 2", "volca sample"]);
    let outputs = names(&["my Volca Sample MIDI 1"]);
    assert_eq!(find_volca_ports(&inputs, &outputs), Ok((1, 0)));
    let (input, output, search) = MidiDevice::connect(&inputs, &outputs).unwrap();
    assert_eq!((input, output), (1, 0));
    assert!(search.input_buffer.is_empty());
    assert_eq!(MidiDevice::connect(&inputs, &names(&[])).unwrap_err(), PortError::NoOutput);
    assert_eq!(MidiDevice::connect(&names(&[]), &outputs).unwrap_err(), PortError::NoInput);
}

#[test]
fn missing_ports() {
    let none = names(&["Volca Beats", "volcasample"]);
    let some = names(&["volca sample"]);
    assert_eq!(find_volca_ports(&some, &none), Err(PortError::NoOutput));
    assert_eq!(find_volca_ports(&none, &some), Err(PortError::NoInput));
    assert_eq!(find_volca_ports(&none, &none), Err(PortError::NoOutput));
    assert_eq!(
        PortError::NoOutput.message(),
        "Volca Sample 2 not found. Make sure it's connected via USB."
    );
    assert_eq!(PortError::NoInput.message(), "Volca Sample 2 input port not found");
}

#[test]
fn first_port_of_several() {
    assert_eq!(find_port(&names(&["a", "x volca sample y", "volca sample"])), Some(1));
    assert_eq!(find_port(&names(&["Volca Sample"])), None);
    assert_eq!(find_port(&names(&[])), None);
}

#[test]
fn lower_case() {
    assert_eq!(lower_names(&names(&["ABC-xyz 2", "\u{c4}\u{d6}"])), names(&["abc-xyz 2", "\u{e4}\u{f6}"]));
}

#[test]
fn search_in_text() {
    assert!(contains_text("abcabd", "abd"));
    assert!(contains_text("abc", ""));
    assert!(contains_text("", ""));
    assert!(!contains_text("ab", "abc"));
    assert!(!contains_text("xyz", "a"));
}

#[test]
fn numbers_in_text() {
    assert_eq!(decimal_text(0), "0");
    assert_eq!(decimal_text(200), "200");
    assert_eq!(decimal_text(u64::MAX), u64::MAX.to_string());
    for i in [0, 7, -7, 199, i32::MAX, i32::MIN] {
        assert_eq!(signed_text(i), i.to_string());
    }
}

#[test]
fn lines_are_joined() {
    assert_eq!(join_lines(&names(&[])), "");
    assert_eq!(join_lines(&names(&["a"])), "a");
    assert_eq!(join_lines(&names(&["", "b", "c"])), "\nb\nc");
}

fn search() -> DeviceSearch {
    DeviceSearch { input_buffer: vec![] }
}

#[test]
fn a_device_that_replies_is_connected() {
    let mut s = search();
    assert_eq!(s.verify_device().echo, 42);
    assert_eq!(s.send_message(&[0xF0, 1, 0xF7])[0].bytes, vec![0xF0, 1, 0xF7]);
    assert!(matches!(s.receive_message(1, 2), ReceiveStep::Wait));
    s.bytes_arrived(&[0xF8, 0xF0, 7, 0xF7, 9]);
    assert_eq!(message(s.receive_message(1, 2)), vec![0xF0, 7, 0xF7]);
    let d = s.search_finished(Ok((5, "1.03".to_string()))).unwrap();
    assert_eq!((d.channel, d.firmware_version.as_str()), (5, "1.03"));
    assert_eq!(d.input_buffer, vec![9]);
}

#[test]
fn a_device_that_does_not_reply_is_not_connected() {
    let e = search().search_finished(Err(ReceiveError::Timeout)).unwrap_err();
    assert_eq!(e.message(), "Receive timeout");
    let e = search().search_finished(Err(ReceiveError::Parse("x".to_string()))).unwrap_err();
    assert_eq!(e.message(), "Failed to parse message: x");
}

#[test]
fn clock_is_left_out() {
    let mut d = device();
    d.bytes_arrived(&[0xF8, 1, 0xF8, 2]);
    d.bytes_arrived(&[0xF8]);
    d.bytes_arrived(&[3]);
    assert_eq!(d.input_buffer, vec![1, 2, 3]);
}

#[test]
fn messages_are_framed() {
    let mut d = device();
    d.bytes_arrived(&[9, 0xF7, 0xF0, 1, 0xFE, 2, 0xF7, 0xF0, 3]);
    assert_eq!(message(d.receive_message(0, 10)), vec![0xF0, 1, 2, 0xF7]);
    assert_eq!(d.input_buffer, vec![0xF0, 3]);
    assert!(matches!(d.receive_message(10, 10), ReceiveStep::Wait));
    assert!(matches!(d.receive_message(11, 10), ReceiveStep::TimedOut));
    assert_eq!(d.input_buffer, vec![0xF0, 3]);
    d.bytes_arrived(&[0xF7]);
    assert_eq!(message(d.receive_message(11, 10)), vec![0xF0, 3, 0xF7]);
    assert!(d.input_buffer.is_empty());
}

#[test]
fn short_messages_are_sent_at_once() {
    let d = device();
    for len in [0, 1, CHUNK_SIZE] {
        let sent = d.send_message(&vec![1; len]);
        assert_eq!(sent.len(), 1);
        assert_eq!(sent[0].bytes, vec![1; len]);
        assert!(!sent[0].pause);
    }
}

#[test]
fn long_messages_are_sent_in_parts() {
    let d = device();
    let mut encoded: Vec<u8> = (0..600).map(|i| (i % 128) as u8).collect();
    encoded[255] = 0xF7;
    let sent = d.send_message(&encoded);
    assert_eq!(sent.iter().map(|t| t.bytes.len()).collect::<Vec<_>>(), vec![256, 256, 88]);
    assert_eq!(sent.iter().map(|t| t.pause).collect::<Vec<_>>(), vec![false, true, true]);
    assert_eq!(sent.iter().flat_map(|t| t.bytes.clone()).collect::<Vec<_>>(), encoded);
    encoded[599] = 0xF7;
    assert!(!d.send_message(&encoded)[2].pause);
}

#[test]
fn a_failed_send() {
    assert_eq!(send_failure(1, "gone"), "Failed to send MIDI: gone");
    assert_eq!(send_failure(2, "gone"), "Failed to send MIDI chunk: gone");
}

#[test]
fn parts_are_sent_from_the_beginning() {
    let encoded: Vec<u8> = (0..700).map(|i| (i % 128) as u8).collect();
    let mut so_far: Vec<u8> = vec![];
    for (n, part) in device().send_message(&encoded).into_iter().enumerate() {
        so_far.extend(part.bytes);
        assert_eq!(so_far, encoded[..encoded.len().min((n + 1) * CHUNK_SIZE)]);
    }
}

#[test]
fn what_is_sent_is_received() {
    for len in [0, 10, 254, 255, 1000] {
        let mut encoded = vec![0xF0];
        encoded.extend((0..len).map(|i| (i % 128) as u8));
        encoded.push(0xF7);
        let mut other = device();
        for part in device().send_message(&encoded) {
            other.bytes_arrived(&part.bytes);
        }
        assert_eq!(message(other.receive_message(0, 0)), encoded);
        assert!(other.input_buffer.is_empty());
    }
}

#[test]
fn transfers_gather_all_messages() {
    let mut d = device();
    d.bytes_arrived(&[1, 2, 3]);
    let transfer = d.get_sample_data(7);
    assert!(d.input_buffer.is_empty());
    assert_eq!(transfer.request.sample_no, 7);
    assert_eq!(transfer.timeout_ms(), DATA_TIMEOUT_MS);
    let step = transfer.advance(Ok(SampleData { sample_no: 7, data: vec![1, 2] }));
    let TransferStep::Receive(transfer) = step else { panic!() };
    assert_eq!(transfer.timeout_ms(), SILENCE_TIMEOUT_MS);
    let step = transfer.advance(Ok(SampleData { sample_no: 9, data: vec![3] }));
    let TransferStep::Receive(transfer) = step else { panic!() };
    let step = transfer.advance(Err(ReceiveError::Parse("x".to_string())));
    let TransferStep::Complete(data) = step else { panic!() };
    assert_eq!((data.sample_no, data.data), (7, vec![1, 2, 3]));
}

#[test]
fn transfers_fail_without_a_first_message() {
    let transfer: SampleTransfer = device().get_sample_data(7);
    let step = transfer.advance(Err(ReceiveError::Timeout));
    let TransferStep::Failed(e) = step else { panic!() };
    assert_eq!(e.message(), "Receive timeout");
    let e = ReceiveError::Parse("bad".to_string());
    assert_eq!(e.message(), "Failed to parse message: bad");
}

#[test]
fn header_request() {
    assert_eq!(device().get_sample_info(199).sample_no, 199);
}
