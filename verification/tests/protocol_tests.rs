use std::str::FromStr;

use feiq_v2::error::ProtocolError;
use feiq_v2::protocol::codec::IPMsgPacket;
use feiq_v2::protocol::message::{getfiledata_extra, GetFileDataRequest};
use feiq_v2::protocol::{
    get_clipboard_downloads, parse_file_attachments, parse_getfiledata_extra,
    parse_incoming_message, serialize_file_attachment, serialize_file_attachments,
    IPMSG_FILEATTACHOPT, IPMSG_SENDCHECKOPT, IPMSG_SENDMSG,
};
use feiq_v2::protocol::transcoder::{GbkTranscoder, TextTranscoder, Utf8Transcoder};
use feiq_v2::types::{FileAttachment, Progress, TransferStatus};

fn packet(cmd: u32, extra: &str) -> IPMsgPacket {
    IPMsgPacket {
        version: "1".to_string(),
        packet_no: 12345,
        username: "bob".to_string(),
        hostname: "bob-pc".to_string(),
        cmd,
        extra: extra.to_string(),
    }
}

fn attachment(id: u32, name: &str, size: u64, mtime: u64, file_type: u32) -> FileAttachment {
    FileAttachment {
        id,
        name: name.to_string(),
        size,
        mtime,
        file_type,
        progress: Progress { done: 0, of: 1 },
        status: TransferStatus::Pending,
    }
}

#[test]
fn test_ipmsg_packet_serialize_parse() {
    let pkt = IPMsgPacket {
        version: "1".to_string(),
        packet_no: 12345,
        username: "bob".to_string(),
        hostname: "bob-pc".to_string(),
        cmd: 32,
        extra: "hello".to_string(),
    };

    let s = pkt.serialize_to_string();
    let parsed = IPMsgPacket::from_str(&s).unwrap();

    assert_eq!(parsed.version, "1");
    assert_eq!(parsed.packet_no, 12345);
    assert_eq!(parsed.username, "bob");
    assert_eq!(parsed.hostname, "bob-pc");
    assert_eq!(parsed.cmd, 32);
    assert_eq!(parsed.extra, "hello");
}

#[test]
fn test_ipmsg_packet_malformed() {
    let malformed_short = "1:12345:bob:bob-pc";
    let parsed_short = IPMsgPacket::from_str(malformed_short);
    assert!(matches!(parsed_short, Err(ProtocolError::TooFewFields(_))));

    let malformed_non_numeric_no = "1:invalid_no:bob:bob-pc:32:hello";
    let parsed_non_numeric_no = IPMsgPacket::from_str(malformed_non_numeric_no);
    assert!(matches!(parsed_non_numeric_no, Err(ProtocolError::InvalidPacketNo(_))));

    let malformed_non_numeric_cmd = "1:12345:bob:bob-pc:invalid_cmd:hello";
    let parsed_non_numeric_cmd = IPMsgPacket::from_str(malformed_non_numeric_cmd);
    assert!(matches!(parsed_non_numeric_cmd, Err(ProtocolError::InvalidCommand(_))));
}

#[test]
fn test_file_attachment_serialize_parse() {
    let att1 = attachment(0, "test:file.txt", 1024, 1600000000, 1);
    let att2 = attachment(1, "hello.png", 2048576, 1600000001, 1);

    let list = vec![att1, att2];
    let serialized = serialize_file_attachments(&list);
    let parsed = parse_file_attachments(&serialized);

    assert_eq!(parsed.len(), 2);
    assert_eq!(parsed[0].id, 0);
    assert_eq!(parsed[0].name, "test:file.txt");
    assert_eq!(parsed[0].size, 1024);
    assert_eq!(parsed[0].mtime, 1600000000);
    assert_eq!(parsed[0].file_type, 1);

    assert_eq!(parsed[1].id, 1);
    assert_eq!(parsed[1].name, "hello.png");
    assert_eq!(parsed[1].size, 2048576);
    assert_eq!(parsed[1].mtime, 1600000001);
    assert_eq!(parsed[1].file_type, 1);
}

#[test]
fn test_packet_cmd_helpers() {
    let pkt = packet(0x00200120, "");

    assert_eq!(pkt.command_base(), 0x20);
    assert!(pkt.is_file_attach());
    assert!(pkt.is_send_check());
}

#[test]
fn packet_text_exact() {
    let pkt = packet(0x20, "hi:there");
    assert_eq!(pkt.serialize_to_string(), "1:12345:bob:bob-pc:32:hi:there\0");
}

#[test]
fn packet_parse_keeps_colons_in_extra_and_drops_trailing_nuls() {
    let parsed = IPMsgPacket::from_str("1:7:alice:host:33:a:b:c\0\0").unwrap();
    assert_eq!(parsed.packet_no, 7);
    assert_eq!(parsed.cmd, 33);
    assert_eq!(parsed.extra, "a:b:c");
}

#[test]
fn packet_parse_five_fields_has_empty_extra() {
    let parsed = IPMsgPacket::from_str("1:7:alice:host:33").unwrap();
    assert_eq!(parsed.extra, "");
    assert!(matches!(IPMsgPacket::from_str("1:99999999999:a:b:1"), Err(ProtocolError::InvalidPacketNo(_))));
    assert!(matches!(IPMsgPacket::from_str(""), Err(ProtocolError::TooFewFields(1))));
}

#[test]
fn packet_wire_roundtrip_ascii() {
    let pkt = packet(IPMSG_SENDMSG | IPMSG_SENDCHECKOPT, "hello world");
    let bytes = pkt.serialize();
    assert_eq!(bytes, pkt.serialize_to_string().into_bytes());
    let back = IPMsgPacket::parse(&bytes).unwrap();
    assert_eq!(back, pkt);
}

#[test]
fn packet_wire_roundtrip_gbk() {
    let pkt = packet(IPMSG_SENDMSG, "你好");
    let bytes = pkt.serialize();
    assert_ne!(bytes, pkt.serialize_to_string().into_bytes());
    let back = IPMsgPacket::parse(&bytes).unwrap();
    assert_eq!(back.extra, "你好");
    assert!(IPMsgPacket::parse(b"1:x").is_none());
}

#[test]
fn transcoders() {
    let gbk = GbkTranscoder;
    let encoded = gbk.encode("中文").unwrap();
    assert_eq!(encoded, vec![0xD6, 0xD0, 0xCE, 0xC4]);
    assert_eq!(gbk.decode(&encoded).unwrap(), "中文");
    let utf8 = Utf8Transcoder;
    assert_eq!(utf8.encode("中").unwrap(), "中".as_bytes().to_vec());
    assert_eq!(utf8.decode("ok".as_bytes()).unwrap(), "ok");
    let err = utf8.decode(&[0xFF, 0xFE]).unwrap_err();
    assert!(err.message().starts_with("UTF-8 decode error: "));
}

#[test]
fn attachment_text_exact() {
    let att = attachment(1, "a:b", 255, 16, 2);
    assert_eq!(serialize_file_attachment(&att), "1:a::b:ff:10:2:\x07");
}

#[test]
fn attachment_parse_skips_bad_pieces_and_reads_bad_hex_as_zero() {
    let parsed = parse_file_attachments("nocolons\x070:x:zz:1:1:\x07");
    assert_eq!(parsed.len(), 1);
    assert_eq!(parsed[0].name, "x");
    assert_eq!(parsed[0].size, 0);
    assert_eq!(parsed[0].status, TransferStatus::Pending);
}

#[test]
fn getfiledata_roundtrip_and_errors() {
    let extra = getfiledata_extra(0x1234, 0xab);
    assert_eq!(extra, "1234:ab:0");
    assert_eq!(
        parse_getfiledata_extra(&extra),
        Some(GetFileDataRequest { packet_no: 0x1234, file_id: 0xab, offset: 0 })
    );
    assert_eq!(
        parse_getfiledata_extra("ff:1:10:extra"),
        Some(GetFileDataRequest { packet_no: 255, file_id: 1, offset: 16 })
    );
    assert_eq!(parse_getfiledata_extra("ff:1"), None);
    assert_eq!(parse_getfiledata_extra("zz:1:0"), None);
    assert_eq!(parse_getfiledata_extra("1:100000000:0"), None);
}

#[test]
fn incoming_message_plain_and_styled() {
    let (text, atts) = parse_incoming_message(&packet(IPMSG_SENDMSG, "hello{font:red}"));
    assert_eq!(text, "hello");
    assert!(atts.is_empty());
    let (text, _) = parse_incoming_message(&packet(IPMSG_SENDMSG, "Malicious\0control\x1Fchars"));
    assert_eq!(text, "Malicious");
}

#[test]
fn incoming_message_with_files() {
    let meta = serialize_file_attachments(&[
        attachment(0, "../a.txt", 512, 1, 1),
        attachment(1, "b.png", 2 * 1024 * 1024, 2, 0x20 | 1),
    ]);
    let extra = format!("see files\0{}", meta);
    let (text, atts) = parse_incoming_message(&packet(IPMSG_SENDMSG | IPMSG_FILEATTACHOPT, &extra));
    assert_eq!(atts.len(), 2);
    assert_eq!(atts[0].name, "..a.txt");
    assert_eq!(
        text,
        "see files\nShared a file: ..a.txt (0.5 KB)\nShared a file: b.png (2.0 MB)"
    );
    let clips = get_clipboard_downloads(&atts);
    assert_eq!(clips.len(), 1);
    assert_eq!(clips[0].name, "b.png");

    let (text, atts) = parse_incoming_message(&packet(IPMSG_SENDMSG, &extra));
    assert_eq!(text, "see files");
    assert_eq!(atts.len(), 2);
}
