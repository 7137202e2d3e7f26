use bl::commands::{
    BootInfo, ClockSet, Command, Crc32, EfuseReadMac, FlashErase, FlashReadJedecId, GetBootInfo,
    GetChipId, LogRead, Reset,
};
use bl::error::Error;
use bl::transport::{u16_field, u32_field, written_in_full, Exchange, Progress, Transport};

/// A link that answers from a prepared byte stream and records what is
/// asked of it.
struct Script {
    incoming: Vec<u8>,
    written: Vec<u8>,
    reads: Vec<usize>,
    fail_write: bool,
}

impl Script {
    fn new(incoming: &[u8]) -> Script {
        Script { incoming: incoming.to_vec(), written: vec![], reads: vec![], fail_write: false }
    }
}

impl Transport for Script {
    fn read_bytes(&mut self, n: usize) -> Result<Vec<u8>, Error> {
        self.reads.push(n);
        if n > self.incoming.len() {
            return Err(Error::Io("timed out".to_string()));
        }
        let rest = self.incoming.split_off(n);
        let head = std::mem::replace(&mut self.incoming, rest);
        Ok(head)
    }

    fn write_bytes(&mut self, buf: &[u8]) -> Result<(), Error> {
        if self.fail_write {
            return Err(Error::Custom("write_bytes: n != buf.len()".to_string()));
        }
        self.written.extend_from_slice(buf);
        Ok(())
    }
}

/// A link whose reads hand back fewer bytes than were asked for.
struct Stingy {
    chunks: Vec<Vec<u8>>,
}

impl Transport for Stingy {
    fn read_bytes(&mut self, _n: usize) -> Result<Vec<u8>, Error> {
        Ok(self.chunks.remove(0))
    }

    fn write_bytes(&mut self, _buf: &[u8]) -> Result<(), Error> {
        Ok(())
    }
}

#[test]
fn exchange_begins_by_waiting_for_the_ack() {
    assert_eq!(Exchange::begin(None), Exchange::AwaitAck { expects_payload: true });
    assert_eq!(Exchange::begin(Some(0)), Exchange::AwaitAck { expects_payload: false });
    assert_eq!(Exchange::begin(Some(32)), Exchange::AwaitAck { expects_payload: true });
    assert_eq!(Exchange::begin(None).wants(), 2);
}

#[test]
fn exchange_walks_through_length_and_payload() {
    let state = Exchange::begin(None);
    let state = match state.receive(b"OK".to_vec()) {
        Progress::Pending(next) => next,
        other => panic!("{:?}", other),
    };
    assert_eq!(state, Exchange::AwaitLength);
    assert_eq!(state.wants(), 2);
    let state = match state.receive(vec![0x03, 0x01]) {
        Progress::Pending(next) => next,
        other => panic!("{:?}", other),
    };
    assert_eq!(state, Exchange::AwaitPayload { len: 0x0103 });
    assert_eq!(state.wants(), 0x0103);
    let payload = vec![0x5a; 0x0103];
    assert_eq!(state.receive(payload.clone()), Progress::Complete(payload));
}

#[test]
fn exchange_with_a_length_of_zero_is_over() {
    assert_eq!(Exchange::AwaitLength.receive(vec![0, 0]), Progress::Complete(vec![]));
}

#[test]
fn exchange_fl_then_code_is_a_device_error_for_every_hint() {
    for hint in [None, Some(0), Some(1), Some(32)] {
        let state = Exchange::begin(hint);
        assert_eq!(state.receive(b"FL".to_vec()), Progress::Pending(Exchange::AckError));
        assert_eq!(Exchange::AckError.wants(), 2);
        assert_eq!(
            Exchange::AckError.receive(vec![0x34, 0x12]),
            Progress::Failed(Error::DeviceError(0x1234))
        );
    }
}

#[test]
fn exchange_bare_ok_is_over_when_nothing_is_expected() {
    assert_eq!(Exchange::begin(Some(0)).receive(b"OK".to_vec()), Progress::Complete(vec![]));
}

#[test]
fn exchange_refuses_an_unknown_ack() {
    for hint in [None, Some(0)] {
        for ack in [b"ok", b"KO", b"OL", b"FK", b"\0\0"] {
            assert_eq!(
                Exchange::begin(hint).receive(ack.to_vec()),
                Progress::Failed(Error::ProtocolViolation(ack.to_vec()))
            );
        }
    }
}

#[test]
fn exchange_refuses_a_reply_of_the_wrong_size() {
    assert_eq!(
        Exchange::begin(None).receive(b"O".to_vec()),
        Progress::Failed(Error::ProtocolViolation(b"O".to_vec()))
    );
    assert_eq!(
        Exchange::begin(None).receive(b"OK!".to_vec()),
        Progress::Failed(Error::ProtocolViolation(b"OK!".to_vec()))
    );
    assert_eq!(
        Exchange::AckError.receive(vec![0x34]),
        Progress::Failed(Error::ProtocolViolation(vec![0x34]))
    );
    assert_eq!(
        Exchange::AwaitLength.receive(vec![]),
        Progress::Failed(Error::ProtocolViolation(vec![]))
    );
    assert_eq!(
        Exchange::AwaitPayload { len: 3 }.receive(vec![1, 2]),
        Progress::Failed(Error::ProtocolViolation(vec![1, 2]))
    );
    assert_eq!(
        Exchange::AwaitPayload { len: 3 }.receive(vec![1, 2, 3, 4]),
        Progress::Failed(Error::ProtocolViolation(vec![1, 2, 3, 4]))
    );
}

#[test]
fn fields_of_the_wrong_size_are_refused() {
    assert_eq!(u16_field(vec![0x34, 0x12]), Ok(0x1234));
    assert_eq!(u16_field(vec![0x34]), Err(Error::ProtocolViolation(vec![0x34])));
    assert_eq!(u16_field(vec![1, 2, 3]), Err(Error::ProtocolViolation(vec![1, 2, 3])));
    assert_eq!(u32_field(vec![0x78, 0x56, 0x34, 0x12]), Ok(0x1234_5678));
    assert_eq!(u32_field(vec![]), Err(Error::ProtocolViolation(vec![])));
}

#[test]
fn send_command_writes_the_frame_and_decodes_the_payload() {
    let mut link = Script::new(b"OK\x03\x00\xef\x40\x15");
    let id = link.send_command(FlashReadJedecId).unwrap();
    assert_eq!(id, vec![0xef, 0x40, 0x15]);
    assert_eq!(link.written, vec![0x36, 0, 0, 0]);
    assert_eq!(link.reads, vec![2, 2, 3]);
    assert!(link.incoming.is_empty());
}

#[test]
fn send_command_with_payload_in_the_frame() {
    let mut link = Script::new(b"OK");
    let cmd = FlashErase { start: 0x2000, end: 0x8d3f };
    let frame = cmd.to_raw();
    assert_eq!(link.send_command(cmd), Ok(()));
    assert_eq!(link.written, frame);
    assert_eq!(link.reads, vec![2]);
}

#[test]
fn send_command_decodes_text() {
    let mut link = Script::new(b"OK\x05\x00BL616");
    assert_eq!(link.send_command(GetChipId), Ok("BL616".to_string()));
    let mut bad = Script::new(b"OK\x02\x00\xff\xfe");
    assert_eq!(bad.send_command(LogRead), Err(Error::TextDecodeError));
}

#[test]
fn send_command_decodes_boot_info() {
    let mut stream = b"OK\x14\x00".to_vec();
    let payload: Vec<u8> = (0..20u8).collect();
    stream.extend_from_slice(&payload);
    let mut link = Script::new(&stream);
    assert_eq!(
        link.send_command(GetBootInfo),
        Ok(BootInfo {
            boot_rom_version: [0, 1, 2, 3],
            sign: 4,
            encrypt: 5,
            chip_id: vec![17, 16, 15, 14, 13, 12],
        })
    );
}

#[test]
fn send_command_checks_the_crc_trailer() {
    let mac = [0xb4, 0x0e, 0xcf, 0x35, 0xaf, 0xfb];
    let sum = crc::Crc::<u32>::new(&crc::CRC_32_ISO_HDLC).checksum(&mac);
    let mut stream = b"OK\x0a\x00".to_vec();
    stream.extend_from_slice(&mac);
    stream.extend_from_slice(&sum.to_le_bytes());
    let mut link = Script::new(&stream);
    assert_eq!(link.send_command(EfuseReadMac), Ok(Crc32 { data: mac.to_vec() }));

    let last = stream.len() - 1;
    stream[last] ^= 0x01;
    let mut link = Script::new(&stream);
    assert_eq!(link.send_command(EfuseReadMac), Err(Error::ChecksumMismatch));
}

#[test]
fn send_command_with_a_length_of_zero_decodes_nothing() {
    let mut link = Script::new(b"OK\x00\x00tail");
    assert_eq!(link.send_command(FlashReadJedecId), Ok(vec![]));
    assert_eq!(link.reads, vec![2, 2]);
    assert_eq!(link.incoming, b"tail".to_vec());

    let mut link = Script::new(b"OK\x00\x00");
    assert_eq!(link.send_command(EfuseReadMac), Err(Error::ChecksumMismatch));
    let mut link = Script::new(b"OK\x00\x00");
    assert_eq!(link.send_command(GetBootInfo), Err(Error::ProtocolViolation(vec![])));
}

#[test]
fn send_command_fl_is_a_device_error_for_every_response_shape() {
    let stream = b"FL\x34\x12";
    assert_eq!(Script::new(stream).send_command(Reset), Err(Error::DeviceError(0x1234)));
    assert_eq!(Script::new(stream).send_command(ClockSet::default()), Err(Error::DeviceError(0x1234)));
    assert_eq!(Script::new(stream).send_command(FlashReadJedecId), Err(Error::DeviceError(0x1234)));
    assert_eq!(Script::new(stream).send_command(GetChipId), Err(Error::DeviceError(0x1234)));
    assert_eq!(Script::new(stream).send_command(GetBootInfo), Err(Error::DeviceError(0x1234)));
    assert_eq!(Script::new(stream).send_command(EfuseReadMac), Err(Error::DeviceError(0x1234)));
    let mut link = Script::new(stream);
    assert_eq!(link.send_command(Reset), Err(Error::DeviceError(0x1234)));
    assert_eq!(link.reads, vec![2, 2]);
}

#[test]
fn send_command_with_unit_response_reads_the_ack_only() {
    // what follows is the acknowledgement of the next command
    let mut link = Script::new(b"OKOK\x01\x00\x2a");
    assert_eq!(link.send_command(Reset), Ok(()));
    assert_eq!(link.reads, vec![2]);
    assert_eq!(link.incoming, b"OK\x01\x00\x2a".to_vec());
    assert_eq!(link.send_command(FlashReadJedecId), Ok(vec![0x2a]));
    assert_eq!(link.reads, vec![2, 2, 2, 1]);
    assert!(link.incoming.is_empty());
}

#[test]
fn send_command_refuses_an_unknown_ack() {
    let mut link = Script::new(b"NO\x00\x00");
    assert_eq!(link.send_command(Reset), Err(Error::ProtocolViolation(b"NO".to_vec())));
    assert_eq!(link.reads, vec![2]);
    let mut link = Script::new(b"NO\x00\x00");
    assert_eq!(
        link.send_command(FlashReadJedecId),
        Err(Error::ProtocolViolation(b"NO".to_vec()))
    );
}

#[test]
fn send_command_hands_on_the_errors_of_the_link() {
    let mut link = Script::new(b"OK");
    link.fail_write = true;
    assert_eq!(
        link.send_command(Reset),
        Err(Error::Custom("write_bytes: n != buf.len()".to_string()))
    );
    assert!(link.reads.is_empty());

    let mut link = Script::new(b"O");
    assert_eq!(link.send_command(Reset), Err(Error::Io("timed out".to_string())));

    let mut link = Script::new(b"OK\x05\x00abc");
    assert_eq!(link.send_command(GetChipId), Err(Error::Io("timed out".to_string())));
    assert_eq!(link.reads, vec![2, 2, 5]);
    assert_eq!(link.written, vec![0x05, 0, 0, 0]);
}

#[test]
fn send_command_refuses_short_reads() {
    let mut link = Stingy { chunks: vec![b"O".to_vec()] };
    assert_eq!(link.send_command(Reset), Err(Error::ProtocolViolation(b"O".to_vec())));
    let mut link = Stingy { chunks: vec![b"OK".to_vec(), vec![0x04]] };
    assert_eq!(
        link.send_command(FlashReadJedecId),
        Err(Error::ProtocolViolation(vec![0x04]))
    );
    let mut link = Stingy { chunks: vec![b"OK".to_vec(), vec![0x04, 0x00], vec![1, 2, 3]] };
    assert_eq!(
        link.send_command(FlashReadJedecId),
        Err(Error::ProtocolViolation(vec![1, 2, 3]))
    );
    let mut link = Stingy { chunks: vec![b"FL".to_vec(), vec![]] };
    assert_eq!(link.send_command(Reset), Err(Error::ProtocolViolation(vec![])));
}

#[test]
fn call_raw_no_resp_stops_after_the_ack() {
    let mut link = Script::new(b"OK\x02\x00\x01\x02");
    assert_eq!(link.call_raw_no_resp(&[0x21, 0, 0, 0]), Ok(()));
    assert_eq!(link.written, vec![0x21, 0, 0, 0]);
    assert_eq!(link.reads, vec![2]);
    assert_eq!(link.incoming, vec![0x02, 0x00, 0x01, 0x02]);

    let mut link = Script::new(b"FL\x01\x02");
    assert_eq!(link.call_raw_no_resp(&[0x21, 0, 0, 0]), Err(Error::DeviceError(0x0201)));
    let mut link = Script::new(b"??");
    assert_eq!(
        link.call_raw_no_resp(&[0x21, 0, 0, 0]),
        Err(Error::ProtocolViolation(b"??".to_vec()))
    );
}

#[test]
fn call_raw_cmd_reads_a_length_prefixed_payload() {
    let mut link = Script::new(b"OK\x02\x00\x01\x02rest");
    assert_eq!(link.call_raw_cmd(&[0x36, 0, 0, 0]), Ok(vec![0x01, 0x02]));
    assert_eq!(link.written, vec![0x36, 0, 0, 0]);
    assert_eq!(link.reads, vec![2, 2, 2]);
    assert_eq!(link.incoming, b"rest".to_vec());

    let mut link = Script::new(b"OK\x00\x00");
    assert_eq!(link.call_raw_cmd(&[0x36, 0, 0, 0]), Ok(vec![]));

    let mut link = Script::new(b"FL\xff\xff");
    assert_eq!(link.call_raw_cmd(&[0x36, 0, 0, 0]), Err(Error::DeviceError(0xffff)));
}

#[test]
fn read_u16_and_read_u32_are_little_endian() {
    let mut link = Script::new(&[0x34, 0x12, 0x78, 0x56, 0x34, 0x12, 0x01]);
    assert_eq!(link.read_u16(), Ok(0x1234));
    assert_eq!(link.read_u32(), Ok(0x1234_5678));
    assert_eq!(link.read_u16(), Err(Error::Io("timed out".to_string())));
    assert_eq!(link.reads, vec![2, 4, 2]);

    let mut link = Stingy { chunks: vec![vec![1], vec![1, 2, 3]] };
    assert_eq!(link.read_u16(), Err(Error::ProtocolViolation(vec![1])));
    assert_eq!(link.read_u32(), Err(Error::ProtocolViolation(vec![1, 2, 3])));
}

#[test]
fn exchange_takes_the_hint_as_given() {
    let mut link = Script::new(b"OK\x01\x00\x07");
    assert_eq!(link.exchange(&[0x10, 0, 0, 0], Some(0)), Ok(vec![]));
    assert_eq!(link.reads, vec![2]);
    let mut link = Script::new(b"OK\x01\x00\x07");
    assert_eq!(link.exchange(&[0x10, 0, 0, 0], Some(1)), Ok(vec![0x07]));
    assert_eq!(link.reads, vec![2, 2, 1]);
}

#[test]
fn a_write_of_too_few_bytes_is_a_failure_of_the_link() {
    assert_eq!(written_in_full(12, 12), Ok(()));
    assert_eq!(written_in_full(0, 0), Ok(()));
    assert_eq!(
        written_in_full(11, 12),
        Err(Error::Io("write_bytes: n != buf.len()".to_string()))
    );
    assert_eq!(
        written_in_full(13, 12),
        Err(Error::Io("write_bytes: n != buf.len()".to_string()))
    );
}
