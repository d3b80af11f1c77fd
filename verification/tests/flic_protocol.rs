use bytes::BytesMut;
use flic_async_rs::flic::client::subscribe_command;
use flic_async_rs::flic::commands::{packet, Command, FlicCodec};
use flic_async_rs::flic::enums::{ClickType, LatencyMode};
use flic_async_rs::flic::events::{decode_bytes, read_frame, whole_packets_len, Event, EventResult};
use flic_async_rs::flic::wire::{bd_addr_bytes, hex_digit, push_le16, push_le32, read_le32};

fn all_commands() -> Vec<Command> {
    let addr = || "00:11:22:33:44:55".to_string();
    vec![
        Command::GetInfo,
        Command::CreateScanner { scan_id: 1 },
        Command::RemoveScanner { scan_id: 1 },
        Command::CreateConnectionChannel {
            conn_id: 1,
            bd_addr: addr(),
            latency_mode: LatencyMode::NormalLatency,
            auto_disconnect_time: 0,
        },
        Command::RemoveConnectionChannel { conn_id: 1 },
        Command::ForceDisconnect { bd_addr: addr() },
        Command::ChangeModeParameters {
            conn_id: 1,
            latency_mode: LatencyMode::LowLatency,
            auto_disconnect_time: 0,
        },
        Command::Ping { ping_id: 1 },
        Command::GetButtonInfo { bd_addr: addr() },
        Command::CreateScanWizard { scan_wizard_id: 1 },
        Command::CancelScanWizard { scan_wizard_id: 1 },
        Command::DeleteButton { bd_addr: addr() },
        Command::CreateBatteryStatusListener { listener_id: 1, bd_addr: addr() },
        Command::RemoveBatteryStatusListener { listener_id: 1 },
    ]
}

#[test]
fn opcodes_number_the_commands_in_order() {
    let codes: Vec<u8> = all_commands().iter().map(|c| c.opcode()).collect();
    assert_eq!(codes, (0u8..14).collect::<Vec<u8>>());
}

#[test]
fn every_packet_announces_its_length_and_opcode() {
    for c in all_commands() {
        let p = packet(&c);
        assert_eq!(p[0] as usize + 256 * p[1] as usize, p.len() - 2);
        assert_eq!(p[2], c.opcode());
    }
}

#[test]
fn get_info_packet() {
    assert_eq!(packet(&Command::GetInfo), vec![1, 0, 0]);
}

#[test]
fn ping_packet_is_little_endian() {
    assert_eq!(
        packet(&Command::Ping { ping_id: 0x0102_0304 }),
        vec![5, 0, 7, 4, 3, 2, 1]
    );
}

#[test]
fn create_connection_channel_packet() {
    let c = Command::CreateConnectionChannel {
        conn_id: 2,
        bd_addr: "80:e4:da:71:2b:0A".to_string(),
        latency_mode: LatencyMode::HighLatency,
        auto_disconnect_time: 11111,
    };
    assert_eq!(
        packet(&c),
        vec![14, 0, 3, 2, 0, 0, 0, 0x0a, 0x2b, 0x71, 0xda, 0xe4, 0x80, 2, 0x67, 0x2b]
    );
}

#[test]
fn negative_auto_disconnect_time_is_twos_complement() {
    let c = Command::ChangeModeParameters {
        conn_id: 0,
        latency_mode: LatencyMode::NormalLatency,
        auto_disconnect_time: -1,
    };
    assert_eq!(packet(&c), vec![8, 0, 6, 0, 0, 0, 0, 0, 0xff, 0xff]);
}

#[test]
fn any_address_text_has_a_packet() {
    // "BUTTON": 'B' and 'U' give 0xb0, everything after is not a digit or missing
    assert_eq!(
        packet(&Command::DeleteButton { bd_addr: "BUTTON".to_string() }),
        vec![7, 0, 11, 0, 0, 0, 0, 0, 0xb0]
    );
    assert_eq!(
        packet(&Command::GetButtonInfo { bd_addr: "00-11-22-33-44-5".to_string() }),
        vec![7, 0, 8, 0x50, 0x44, 0x33, 0x22, 0x11, 0x00]
    );
    assert_eq!(
        packet(&Command::ForceDisconnect { bd_addr: String::new() }),
        vec![7, 0, 5, 0, 0, 0, 0, 0, 0]
    );
}

#[test]
fn encode_appends_the_packet() {
    let mut codec = FlicCodec {};
    let mut dst = BytesMut::from(&[9u8, 9][..]);
    codec.encode(Command::RemoveScanner { scan_id: 258 }, &mut dst);
    assert_eq!(&dst[..], &[9u8, 9, 5, 0, 2, 2, 1, 0, 0][..]);
}

#[test]
fn encode_writes_the_example_button_address() {
    let mut codec = FlicCodec {};
    let mut dst = BytesMut::from(&[1u8][..]);
    codec.encode(Command::GetButtonInfo { bd_addr: "BUTTON".to_string() }, &mut dst);
    assert_eq!(&dst[..], &[1u8, 7, 0, 8, 0, 0, 0, 0, 0, 0xb0][..]);
}

#[test]
fn subscribe_command_opens_channel_two() {
    let c = subscribe_command("00:11:22:33:44:55");
    match c {
        Command::CreateConnectionChannel { conn_id, bd_addr, latency_mode, auto_disconnect_time } => {
            assert_eq!(conn_id, 2);
            assert_eq!(bd_addr, "00:11:22:33:44:55");
            assert_eq!(latency_mode, LatencyMode::NormalLatency);
            assert_eq!(auto_disconnect_time, 11111);
        }
        _ => panic!("expected a connection channel"),
    }
}

#[test]
fn address_bytes_are_reversed() {
    assert_eq!(bd_addr_bytes("01:23:45:67:89:AB"), vec![0xab, 0x89, 0x67, 0x45, 0x23, 0x01]);
    assert_eq!(bd_addr_bytes("ff:FF:00:00:00:10"), vec![0x10, 0, 0, 0, 0xff, 0xff]);
    assert_eq!(bd_addr_bytes("0g:1"), vec![0, 0, 0, 0, 0x10, 0]);
    assert_eq!(bd_addr_bytes(""), vec![0; 6]);
}

#[test]
fn hex_digits() {
    assert_eq!(hex_digit('0'), Some(0));
    assert_eq!(hex_digit('9'), Some(9));
    assert_eq!(hex_digit('a'), Some(10));
    assert_eq!(hex_digit('F'), Some(15));
    assert_eq!(hex_digit('g'), None);
    assert_eq!(hex_digit(':'), None);
}

#[test]
fn little_endian_helpers() {
    let mut v = vec![7u8];
    push_le16(&mut v, 0x1234);
    push_le32(&mut v, 0xdead_beef);
    assert_eq!(v, vec![7, 0x34, 0x12, 0xef, 0xbe, 0xad, 0xde]);
    assert_eq!(read_le32(&v, 3), 0xdead_beef);
}

#[test]
fn latency_and_click_codes() {
    assert_eq!(LatencyMode::NormalLatency.code(), 0);
    assert_eq!(LatencyMode::LowLatency.code(), 1);
    assert_eq!(LatencyMode::HighLatency.code(), 2);
    assert_eq!(ClickType::from_code(0), Some(ClickType::ButtonDown));
    assert_eq!(ClickType::from_code(3), Some(ClickType::ButtonSingleClick));
    assert_eq!(ClickType::from_code(4), Some(ClickType::ButtonDoubleClick));
    assert_eq!(ClickType::from_code(5), Some(ClickType::ButtonHold));
    assert_eq!(ClickType::from_code(6), None);
}

fn button_report(conn_id: u8, click: u8, queued: u8, diff: [u8; 4]) -> Vec<u8> {
    let mut v = vec![11, 0, 7, conn_id, 0, 0, 0, click, queued];
    v.extend_from_slice(&diff);
    v
}

#[test]
fn decode_reads_a_button_report() {
    let bytes = button_report(1, 4, 1, [2, 0, 0, 0]);
    assert_eq!(
        decode_bytes(&bytes),
        Some(EventResult::Event(Event::ButtonSingleOrDoubleClickOrHold {
            conn_id: 1,
            click_type: ClickType::ButtonDoubleClick,
            was_queued: true,
            time_diff: 2,
        }))
    );
}

#[test]
fn decode_reads_a_negative_time_difference() {
    let bytes = button_report(3, 5, 0, [0xff, 0xff, 0xff, 0xff]);
    assert_eq!(
        decode_bytes(&bytes),
        Some(EventResult::Event(Event::ButtonSingleOrDoubleClickOrHold {
            conn_id: 3,
            click_type: ClickType::ButtonHold,
            was_queued: false,
            time_diff: -1,
        }))
    );
}

#[test]
fn decode_keeps_the_last_report_and_skips_other_packets() {
    let mut bytes = button_report(1, 3, 0, [0, 0, 0, 0]);
    bytes.extend(button_report(2, 4, 0, [1, 0, 0, 0]));
    bytes.extend([3u8, 0, 13, 1, 2]); // another kind of packet
    bytes.extend([5u8, 0, 7]); // an incomplete packet
    assert_eq!(
        decode_bytes(&bytes),
        Some(EventResult::Event(Event::ButtonSingleOrDoubleClickOrHold {
            conn_id: 2,
            click_type: ClickType::ButtonDoubleClick,
            was_queued: false,
            time_diff: 1,
        }))
    );
}

#[test]
fn decode_finds_nothing_without_a_report() {
    assert_eq!(decode_bytes(&vec![]), None);
    assert_eq!(decode_bytes(&vec![0]), None);
    assert_eq!(decode_bytes(&vec![1, 0, 13]), None);
    assert_eq!(decode_bytes(&vec![0, 0, 0, 0]), None);
    // an unknown click type makes the report a no-op
    assert_eq!(decode_bytes(&button_report(1, 9, 0, [0, 0, 0, 0])), None);
    // a truncated report is not read
    let mut short = button_report(1, 3, 0, [0, 0, 0, 0]);
    short.pop();
    assert_eq!(decode_bytes(&short), None);
}

#[test]
fn read_frame_reads_a_body() {
    let bytes = button_report(1, 3, 0, [0, 0, 0, 0]);
    assert_eq!(
        read_frame(&bytes, 2, 11),
        Event::ButtonSingleOrDoubleClickOrHold {
            conn_id: 1,
            click_type: ClickType::ButtonSingleClick,
            was_queued: false,
            time_diff: 0,
        }
    );
    assert_eq!(read_frame(&bytes, 2, 10), Event::NoOp);
}

#[test]
fn codec_decode_reads_the_buffer_and_leaves_it() {
    let mut codec = FlicCodec {};
    let bytes = button_report(1, 3, 0, [4, 0, 0, 0]);
    let mut src = BytesMut::from(&bytes[..]);
    let r = codec.decode(&mut src);
    assert_eq!(
        r,
        Some(EventResult::Event(Event::ButtonSingleOrDoubleClickOrHold {
            conn_id: 1,
            click_type: ClickType::ButtonSingleClick,
            was_queued: false,
            time_diff: 4,
        }))
    );
    assert_eq!(&src[..], &bytes[..]);
    assert_eq!(codec.decode(&mut BytesMut::new()), None);
}

#[test]
fn read_event_consumes_whole_packets() {
    let mut codec = FlicCodec {};
    let mut bytes = button_report(1, 3, 0, [0, 0, 0, 0]);
    bytes.extend([3u8, 0, 13, 1, 2]);
    bytes.extend([5u8, 0, 7]); // the start of a packet still to come
    let mut src = BytesMut::from(&bytes[..]);
    let r = codec.read_event(&mut src);
    assert_eq!(
        r,
        Some(EventResult::Event(Event::ButtonSingleOrDoubleClickOrHold {
            conn_id: 1,
            click_type: ClickType::ButtonSingleClick,
            was_queued: false,
            time_diff: 0,
        }))
    );
    assert_eq!(&src[..], &[5u8, 0, 7][..]);
    // the same report is not read twice
    assert_eq!(codec.read_event(&mut src), None);
    assert_eq!(&src[..], &[5u8, 0, 7][..]);
    // the rest of the packet arrives: a packet of another kind, consumed
    src.extend_from_slice(&[1, 2, 3, 4]);
    assert_eq!(codec.read_event(&mut src), None);
    assert!(src.is_empty());
}

#[test]
fn whole_packet_lengths() {
    assert_eq!(whole_packets_len(&vec![]), 0);
    assert_eq!(whole_packets_len(&vec![1]), 0);
    assert_eq!(whole_packets_len(&vec![0, 0, 2, 0, 9]), 2);
    assert_eq!(whole_packets_len(&vec![1, 0, 9, 2, 0, 9, 9, 3]), 7);
}
