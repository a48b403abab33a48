use jdwp_proxy::errors::ProxyError;
use jdwp_proxy::jdwp::IdSizesReply;
use jdwp_proxy::jdwp::JdwpConnection;
use jdwp_proxy::jdwp::deserialize_string;
use jdwp_proxy::jdwp::deserialize_u16;
use jdwp_proxy::jdwp::deserialize_u32;
use jdwp_proxy::jdwp::deserialize_u8;
use jdwp_proxy::jdwp::parse_id_sizes_reply;
use jdwp_proxy::jdwp::parse_reply;
use jdwp_proxy::jdwp::parse_version_reply;
use jdwp_proxy::jdwp::serialize_string;
use jdwp_proxy::jdwp::serialize_u16;
use jdwp_proxy::jdwp::serialize_u32;
use jdwp_proxy::jdwp::serialize_u8;
use jdwp_proxy::plugin::FilterError;
use jdwp_proxy::plugin::Len;
use jdwp_proxy::plugin::PluginValue;

fn sizes() -> IdSizesReply {
    IdSizesReply {
        field_id_size: 8,
        method_id_size: 8,
        object_id_size: 8,
        reference_type_id_size: 8,
        frame_id_size: 4,
    }
}

#[test]
fn connection_starts_at_id_zero() {
    let c = JdwpConnection::new(sizes());
    assert_eq!(c.next_id, 0);
    assert_eq!(c.field_id_size, 8);
    assert_eq!(c.frame_id_size, 4);
}

#[test]
fn encode_command_exact_bytes() {
    let mut c = JdwpConnection::new(sizes());
    let bytes = c.encode_command(1, 7, &Vec::new());
    assert_eq!(bytes, vec![0, 0, 0, 11, 0, 0, 0, 0, 0, 1, 7]);
    assert_eq!(c.next_id, 1);
    let with_data = c.encode_command(1, 10, &vec![0xab, 0xcd]);
    assert_eq!(with_data, vec![0, 0, 0, 13, 0, 0, 0, 1, 0, 1, 10, 0xab, 0xcd]);
    assert_eq!(c.next_id, 2);
}

#[test]
fn parse_reply_exact_fields() {
    let bytes = vec![0, 0, 0, 14, 0, 0, 0, 5, 0x80, 0x01, 0x02, 9, 8, 7];
    let (rep, n) = parse_reply(&bytes).unwrap();
    assert_eq!(rep.id, 5);
    assert_eq!(rep.flags, 0x80);
    assert_eq!(rep.error_code, 0x0102);
    assert_eq!(rep.data, vec![9, 8, 7]);
    assert_eq!(n, 14);
}

#[test]
fn parse_reply_short() {
    let bytes = vec![0, 0, 0, 14, 0, 0, 0, 5, 0x80];
    assert!(matches!(parse_reply(&bytes), Err(ProxyError::ShortRead)));
}

#[test]
fn primitive_round_trips() {
    let mut out = Vec::new();
    serialize_u8(0x7f, &mut out);
    serialize_u16(0xbeef, &mut out);
    serialize_u32(0x01020304, &mut out);
    assert_eq!(out, vec![0x7f, 0xbe, 0xef, 0x01, 0x02, 0x03, 0x04]);

    let (v8, n8) = deserialize_u8(&out, 0).unwrap();
    assert_eq!((v8, n8), (0x7f, 1));
    let (v16, n16) = deserialize_u16(&out, 1).unwrap();
    assert_eq!((v16, n16), (0xbeef, 2));
    let (v32, n32) = deserialize_u32(&out, 3).unwrap();
    assert_eq!((v32, n32), (0x01020304, 4));
}

#[test]
fn primitive_short_reads() {
    let buf = vec![1, 2, 3];
    assert!(matches!(deserialize_u8(&buf, 3), Err(ProxyError::ShortRead)));
    assert!(matches!(deserialize_u16(&buf, 2), Err(ProxyError::ShortRead)));
    assert!(matches!(deserialize_u32(&buf, 0), Err(ProxyError::ShortRead)));
}

#[test]
fn string_round_trip() {
    let mut out = Vec::new();
    serialize_string(&b"hello".to_vec(), &mut out);
    assert_eq!(out, vec![0, 0, 0, 5, b'h', b'e', b'l', b'l', b'o']);
    let (back, n) = deserialize_string(&out, 0).unwrap();
    assert_eq!(back, b"hello".to_vec());
    assert_eq!(n, 9);
}

#[test]
fn string_short_reads() {
    let buf = vec![0, 0, 0, 9, b'x'];
    assert!(matches!(deserialize_string(&buf, 0), Err(ProxyError::ShortRead)));
    let buf2 = vec![0, 0];
    assert!(matches!(deserialize_string(&buf2, 0), Err(ProxyError::ShortRead)));
}

#[test]
fn id_sizes_reply_parsed() {
    let mut data = Vec::new();
    for v in [8u32, 8, 8, 8, 4] {
        serialize_u32(v, &mut data);
    }
    let sizes = parse_id_sizes_reply(&data).unwrap();
    assert_eq!(sizes.field_id_size, 8);
    assert_eq!(sizes.frame_id_size, 4);
    let short = vec![0u8; 19];
    assert!(matches!(parse_id_sizes_reply(&short), Err(ProxyError::ShortRead)));
}

#[test]
fn version_reply_parsed() {
    let mut data = Vec::new();
    serialize_string(&b"Java Debug Wire Protocol".to_vec(), &mut data);
    serialize_u32(1, &mut data);
    serialize_u32(8, &mut data);
    serialize_string(&b"17.0.1".to_vec(), &mut data);
    serialize_string(&b"OpenJDK 64-Bit Server VM".to_vec(), &mut data);
    let v = parse_version_reply(&data).unwrap();
    assert_eq!(v.description, b"Java Debug Wire Protocol".to_vec());
    assert_eq!(v.jdwp_major, 1);
    assert_eq!(v.jdwp_minor, 8);
    assert_eq!(v.vm_version, b"17.0.1".to_vec());
    assert_eq!(v.vm_name, b"OpenJDK 64-Bit Server VM".to_vec());

    let truncated = data[..data.len() - 3].to_vec();
    assert!(matches!(parse_version_reply(&truncated), Err(ProxyError::ShortRead)));
}

#[test]
fn len_filter_counts_text_bytes() {
    let mut f = Len::new();
    let r = f.len(&PluginValue::Text(b"hello".to_vec()));
    assert_eq!(r, Ok(5));
    let empty = f.len(&PluginValue::Text(Vec::new()));
    assert_eq!(empty, Ok(0));
}

#[test]
fn len_filter_rejects_non_text() {
    let mut f = Len::new();
    let r = f.len(&PluginValue::Other);
    assert_eq!(r, Err(FilterError::NotText));
}
