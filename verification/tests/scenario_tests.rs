use jdwp_proxy::frame::FrameMode;
use jdwp_proxy::frame::Packet;
use jdwp_proxy::frame::read_frame;
use jdwp_proxy::frame::write_frame;
use jdwp_proxy::mux::IncomingCmd;
use jdwp_proxy::mux::UpstreamReader;
use jdwp_proxy::mux::UpstreamWriter;

fn echo_reply(frame: &Packet) -> Packet {
    // A fake JVM that answers each command with a reply of the same size:
    // same id, flags 0x80, error code 0, then the data it was sent.
    let mut payload = vec![0x80, 0, 0];
    payload.extend_from_slice(&frame.payload[3..]);
    Packet { length: frame.length, id: frame.id, payload }
}

#[test]
fn single_client_single_request() {
    let mut writer = UpstreamWriter::new();
    let mut reader = UpstreamReader::new();

    // The client submits length 11, id 7: an 11-byte frame whose remainder
    // is the 3 bytes of flags, command set and command.
    let incoming = IncomingCmd {
        packet: Packet { length: 11, id: 7, payload: vec![0, 1, 1] },
        reply_sink: 0,
    };
    let (record, frame) = writer.forward_cmd(incoming);
    assert_eq!(record.proxy_id, 0);
    assert_eq!(frame.id, 0);
    assert_eq!(frame.length, 11);

    let jvm_reply = Packet { length: 11, id: frame.id, payload: vec![0x80, 0, 0] };
    let (sink, delivered) = reader.process_reply(vec![record], jvm_reply).unwrap();
    assert_eq!(sink, 0);
    assert_eq!(delivered.length, 11);
    assert_eq!(delivered.id, 7);
    assert_eq!(delivered.payload, vec![0x80, 0, 0]);
}

#[test]
fn two_clients_interleaved() {
    let mut writer = UpstreamWriter::new();
    let mut reader = UpstreamReader::new();
    let sink_a = 1;
    let sink_b = 2;

    let (rec_a, frame_a) = writer.forward_cmd(IncomingCmd {
        packet: Packet { length: 11, id: 1, payload: vec![0, 1, 1] },
        reply_sink: sink_a,
    });
    let (rec_b, frame_b) = writer.forward_cmd(IncomingCmd {
        packet: Packet { length: 11, id: 1, payload: vec![0, 1, 2] },
        reply_sink: sink_b,
    });
    assert_eq!(frame_a.id, 0);
    assert_eq!(frame_b.id, 1);

    // The fake JVM answers proxy id 1 first, then proxy id 0.
    let (first_sink, first) = reader
        .process_reply(vec![rec_a, rec_b], Packet { length: 11, id: 1, payload: vec![0x80, 0, 0] })
        .unwrap();
    assert_eq!(first_sink, sink_b);
    assert_eq!(first.id, 1);
    let (second_sink, second) = reader
        .process_reply(Vec::new(), Packet { length: 11, id: 0, payload: vec![0x80, 0, 0] })
        .unwrap();
    assert_eq!(second_sink, sink_a);
    assert_eq!(second.id, 1);
}

#[test]
fn ordering_single_client() {
    let mut writer = UpstreamWriter::new();
    let mut reader = UpstreamReader::new();
    let mut records = Vec::new();
    let mut jvm_seen = Vec::new();

    for id in [10u32, 11, 12] {
        let (rec, frame) = writer.forward_cmd(IncomingCmd {
            packet: Packet { length: 11, id, payload: vec![0, 1, 1] },
            reply_sink: 0,
        });
        jvm_seen.push(frame.id);
        records.push(rec);
    }
    // The JVM observes the requests at proxy ids 0, 1, 2 in order.
    assert_eq!(jvm_seen, vec![0, 1, 2]);

    // Replies return out of order; each is delivered under its original id.
    let (_, r2) = reader
        .process_reply(records.clone(), Packet { length: 11, id: 2, payload: vec![0x80, 0, 0] })
        .unwrap();
    assert_eq!(r2.id, 12);
    let (_, r0) = reader
        .process_reply(Vec::new(), Packet { length: 11, id: 0, payload: vec![0x80, 0, 0] })
        .unwrap();
    assert_eq!(r0.id, 10);
    let (_, r1) = reader
        .process_reply(Vec::new(), Packet { length: 11, id: 1, payload: vec![0x80, 0, 0] })
        .unwrap();
    assert_eq!(r1.id, 11);
}

#[test]
fn large_payload_through_engine() {
    let mebibyte = 1 << 20;
    let mut data = vec![0u8; mebibyte];
    for (i, b) in data.iter_mut().enumerate() {
        *b = (i % 13) as u8;
    }
    let mut payload = vec![0, 1, 1];
    payload.extend_from_slice(&data);
    let length = (8 + payload.len()) as u32;

    let mut writer = UpstreamWriter::new();
    let mut reader = UpstreamReader::new();
    let (record, frame) = writer.forward_cmd(IncomingCmd {
        packet: Packet { length, id: 77, payload },
        reply_sink: 0,
    });
    assert_eq!(frame.length, length);

    // Over the wire and back through the framer, unchanged.
    let wire = write_frame(&frame, FrameMode::Command);
    let (at_jvm, _) = read_frame(&wire, FrameMode::Command).unwrap();
    assert_eq!(at_jvm.payload.len(), 3 + mebibyte);

    let reply = echo_reply(&at_jvm);
    let (_, delivered) = reader.process_reply(vec![record], reply).unwrap();
    assert_eq!(delivered.id, 77);
    assert_eq!(delivered.length, length);
    assert_eq!(&delivered.payload[3..], &data[..]);
}
