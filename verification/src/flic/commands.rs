use vstd::prelude::*;

use bytes::BytesMut;

use crate::flic::buffer::{buffer_advance, buffer_bytes, buffer_contents, buffer_extend};
use crate::flic::enums::{latency_code, LatencyMode};
use crate::flic::events::{
    decode_bytes, frame_event, framed_len, header_len, lemma_framed_prefix, whole_packets_len, is_framed, packet_events, spec_decode, Event,
    EventResult,
};
use crate::flic::wire::{
    bd_addr_bytes, le16_at, le16_bytes, le32_at, le32_bytes, lemma_le16_read_back,
    lemma_le32_read_back, push_le16, push_le32, spec_bd_addr_bytes,
};

verus! {

/// A codec between the daemon's byte stream and commands and events.
pub struct FlicCodec {}

/// The commands that the flic daemon accepts.
#[derive(Debug)]
pub enum Command {
    GetInfo,
    CreateScanner { scan_id: u32 },
    RemoveScanner { scan_id: u32 },
    CreateConnectionChannel {
        conn_id: u32,
        bd_addr: String,
        latency_mode: LatencyMode,
        auto_disconnect_time: i16,
    },
    RemoveConnectionChannel { conn_id: u32 },
    ForceDisconnect { bd_addr: String },
    ChangeModeParameters { conn_id: u32, latency_mode: LatencyMode, auto_disconnect_time: i16 },
    Ping { ping_id: u32 },
    GetButtonInfo { bd_addr: String },
    CreateScanWizard { scan_wizard_id: u32 },
    CancelScanWizard { scan_wizard_id: u32 },
    DeleteButton { bd_addr: String },
    CreateBatteryStatusListener { listener_id: u32, bd_addr: String },
    RemoveBatteryStatusListener { listener_id: u32 },
}

/// The opcode of each command, in the order in which the protocol numbers them.
pub open spec fn spec_opcode(c: Command) -> u8 {
    match c {
        Command::GetInfo => 0,
        Command::CreateScanner { .. } => 1,
        Command::RemoveScanner { .. } => 2,
        Command::CreateConnectionChannel { .. } => 3,
        Command::RemoveConnectionChannel { .. } => 4,
        Command::ForceDisconnect { .. } => 5,
        Command::ChangeModeParameters { .. } => 6,
        Command::Ping { .. } => 7,
        Command::GetButtonInfo { .. } => 8,
        Command::CreateScanWizard { .. } => 9,
        Command::CancelScanWizard { .. } => 10,
        Command::DeleteButton { .. } => 11,
        Command::CreateBatteryStatusListener { .. } => 12,
        Command::RemoveBatteryStatusListener { .. } => 13,
    }
}

impl Command {
    /// The opcode that opens this command's packet.
    pub fn opcode(&self) -> (op: u8)
        ensures
            op == spec_opcode(*self),
    {
        match self {
            Self::GetInfo { .. } => 0,
            Self::CreateScanner { .. } => 1,
            Self::RemoveScanner { .. } => 2,
            Self::CreateConnectionChannel { .. } => 3,
            Self::RemoveConnectionChannel { .. } => 4,
            Self::ForceDisconnect { .. } => 5,
            Self::ChangeModeParameters { .. } => 6,
            Self::Ping { .. } => 7,
            Self::GetButtonInfo { .. } => 8,
            Self::CreateScanWizard { .. } => 9,
            Self::CancelScanWizard { .. } => 10,
            Self::DeleteButton { .. } => 11,
            Self::CreateBatteryStatusListener { .. } => 12,
            Self::RemoveBatteryStatusListener { .. } => 13,
        }
    }
}

/// The bytes that follow a command's opcode: its fields in order, integers
/// little-endian, latency modes as one byte, button addresses as six bytes.
pub open spec fn spec_payload(c: Command) -> Seq<u8> {
    match c {
        Command::GetInfo => Seq::empty(),
        Command::CreateScanner { scan_id } => le32_bytes(scan_id),
        Command::RemoveScanner { scan_id } => le32_bytes(scan_id),
        Command::CreateConnectionChannel { conn_id, bd_addr, latency_mode, auto_disconnect_time } =>
            le32_bytes(conn_id) + spec_bd_addr_bytes(bd_addr@) + seq![latency_code(latency_mode)]
                + le16_bytes(auto_disconnect_time as u16),
        Command::RemoveConnectionChannel { conn_id } => le32_bytes(conn_id),
        Command::ForceDisconnect { bd_addr } => spec_bd_addr_bytes(bd_addr@),
        Command::ChangeModeParameters { conn_id, latency_mode, auto_disconnect_time } => le32_bytes(
            conn_id,
        ) + seq![latency_code(latency_mode)] + le16_bytes(auto_disconnect_time as u16),
        Command::Ping { ping_id } => le32_bytes(ping_id),
        Command::GetButtonInfo { bd_addr } => spec_bd_addr_bytes(bd_addr@),
        Command::CreateScanWizard { scan_wizard_id } => le32_bytes(scan_wizard_id),
        Command::CancelScanWizard { scan_wizard_id } => le32_bytes(scan_wizard_id),
        Command::DeleteButton { bd_addr } => spec_bd_addr_bytes(bd_addr@),
        Command::CreateBatteryStatusListener { listener_id, bd_addr } => le32_bytes(listener_id)
            + spec_bd_addr_bytes(bd_addr@),
        Command::RemoveBatteryStatusListener { listener_id } => le32_bytes(listener_id),
    }
}

/// The packet of a command: the two-byte little-endian length of what follows,
/// the opcode, then the payload.
pub open spec fn spec_packet(c: Command) -> Seq<u8> {
    le16_bytes((spec_payload(c).len() + 1) as u16) + seq![spec_opcode(c)] + spec_payload(c)
}

/// Appends the six address bytes of `addr` to `v`.
fn push_bd_addr(v: &mut Vec<u8>, addr: &String)
    ensures
        final(v)@ == old(v)@ + spec_bd_addr_bytes(addr@),
{
    let mut a = bd_addr_bytes(addr.as_str());
    v.append(&mut a);
}

/// The payload of `c`.
fn payload(c: &Command) -> (v: Vec<u8>)
    ensures
        v@ == spec_payload(*c),
{
    let mut v: Vec<u8> = Vec::new();
    match c {
        Command::GetInfo => {},
        Command::CreateScanner { scan_id } => push_le32(&mut v, *scan_id),
        Command::RemoveScanner { scan_id } => push_le32(&mut v, *scan_id),
        Command::CreateConnectionChannel { conn_id, bd_addr, latency_mode, auto_disconnect_time } => {
            push_le32(&mut v, *conn_id);
            push_bd_addr(&mut v, bd_addr);
            v.push(latency_mode.code());
            push_le16(&mut v, *auto_disconnect_time as u16);
        },
        Command::RemoveConnectionChannel { conn_id } => push_le32(&mut v, *conn_id),
        Command::ForceDisconnect { bd_addr } => push_bd_addr(&mut v, bd_addr),
        Command::ChangeModeParameters { conn_id, latency_mode, auto_disconnect_time } => {
            push_le32(&mut v, *conn_id);
            v.push(latency_mode.code());
            push_le16(&mut v, *auto_disconnect_time as u16);
        },
        Command::Ping { ping_id } => push_le32(&mut v, *ping_id),
        Command::GetButtonInfo { bd_addr } => push_bd_addr(&mut v, bd_addr),
        Command::CreateScanWizard { scan_wizard_id } => push_le32(&mut v, *scan_wizard_id),
        Command::CancelScanWizard { scan_wizard_id } => push_le32(&mut v, *scan_wizard_id),
        Command::DeleteButton { bd_addr } => push_bd_addr(&mut v, bd_addr),
        Command::CreateBatteryStatusListener { listener_id, bd_addr } => {
            push_le32(&mut v, *listener_id);
            push_bd_addr(&mut v, bd_addr);
        },
        Command::RemoveBatteryStatusListener { listener_id } => push_le32(&mut v, *listener_id),
    }
    assert(v@ =~= spec_payload(*c));
    v
}

proof fn lemma_payload_len(c: Command)
    ensures
        spec_payload(c).len() <= 13,
{
}

/// The packet that carries `c` to the daemon.
pub fn packet(c: &Command) -> (v: Vec<u8>)
    ensures
        v@ == spec_packet(*c),
{
    let mut p = payload(c);
    proof {
        lemma_payload_len(*c);
    }
    let len = (p.len() + 1) as u16;
    let mut v: Vec<u8> = Vec::new();
    push_le16(&mut v, len);
    v.push(c.opcode());
    v.append(&mut p);
    v
}

/// Every command packet frames itself: its header announces the length of the
/// rest of the packet, the opcode comes first in that rest, and the daemon
/// stream's framing reads the packet as exactly one packet.
pub proof fn lemma_packet_framing(c: Command)
    ensures
        ({
            let p = spec_packet(c);
            &&& p.len() >= 3
            &&& header_len(p) == p.len() - 2
            &&& p[2] == spec_opcode(c)
            &&& packet_events(p) == seq![frame_event(p.subrange(2, p.len() as int))]
            &&& is_framed(p)
        }),
{
    lemma_payload_len(c);
    {
        let p = spec_packet(c);
        let body = spec_payload(c);
        assert(p.len() == body.len() + 3);
        assert(header_len(p) == p.len() - 2);
        let rest = p.subrange(p.len() as int, p.len() as int);
        assert(rest =~= Seq::<u8>::empty());
        assert(packet_events(rest) =~= Seq::<Event>::empty());
        assert(packet_events(p) =~= seq![frame_event(p.subrange(2, p.len() as int))]);
        assert(is_framed(rest));
    }
}

/// Every command's packet lays out its fields in the order the command declares
/// them, at fixed positions: bytes 0 and 1 give the length of what follows
/// them, byte 2 is the opcode, then come the fields from byte 3 on, numbers as
/// little-endian, latency modes as their code and button addresses as six bytes.
pub proof fn lemma_packet_layout(c: Command)
    ensures
        ({
            let p = spec_packet(c);
            &&& p.len() >= 3
            &&& le16_at(p, 0) == p.len() - 2
            &&& match c {
                Command::GetInfo => p.len() == 3 && p[2] == 0,
                Command::CreateScanner { scan_id } => p.len() == 7 && p[2] == 1 && le32_at(p, 3)
                    == scan_id,
                Command::RemoveScanner { scan_id } => p.len() == 7 && p[2] == 2 && le32_at(p, 3)
                    == scan_id,
                Command::CreateConnectionChannel {
                    conn_id,
                    bd_addr,
                    latency_mode,
                    auto_disconnect_time,
                } => {
                    &&& p.len() == 16
                    &&& p[2] == 3
                    &&& le32_at(p, 3) == conn_id
                    &&& p.subrange(7, 13) == spec_bd_addr_bytes(bd_addr@)
                    &&& p[13] == latency_code(latency_mode)
                    &&& le16_at(p, 14) == auto_disconnect_time as u16
                },
                Command::RemoveConnectionChannel { conn_id } => p.len() == 7 && p[2] == 4
                    && le32_at(p, 3) == conn_id,
                Command::ForceDisconnect { bd_addr } => p.len() == 9 && p[2] == 5 && p.subrange(
                    3,
                    9,
                ) == spec_bd_addr_bytes(bd_addr@),
                Command::ChangeModeParameters { conn_id, latency_mode, auto_disconnect_time } => {
                    &&& p.len() == 10
                    &&& p[2] == 6
                    &&& le32_at(p, 3) == conn_id
                    &&& p[7] == latency_code(latency_mode)
                    &&& le16_at(p, 8) == auto_disconnect_time as u16
                },
                Command::Ping { ping_id } => p.len() == 7 && p[2] == 7 && le32_at(p, 3) == ping_id,
                Command::GetButtonInfo { bd_addr } => p.len() == 9 && p[2] == 8 && p.subrange(3, 9)
                    == spec_bd_addr_bytes(bd_addr@),
                Command::CreateScanWizard { scan_wizard_id } => p.len() == 7 && p[2] == 9
                    && le32_at(p, 3) == scan_wizard_id,
                Command::CancelScanWizard { scan_wizard_id } => p.len() == 7 && p[2] == 10
                    && le32_at(p, 3) == scan_wizard_id,
                Command::DeleteButton { bd_addr } => p.len() == 9 && p[2] == 11 && p.subrange(3, 9)
                    == spec_bd_addr_bytes(bd_addr@),
                Command::CreateBatteryStatusListener { listener_id, bd_addr } => {
                    &&& p.len() == 13
                    &&& p[2] == 12
                    &&& le32_at(p, 3) == listener_id
                    &&& p.subrange(7, 13) == spec_bd_addr_bytes(bd_addr@)
                },
                Command::RemoveBatteryStatusListener { listener_id } => p.len() == 7 && p[2] == 13
                    && le32_at(p, 3) == listener_id,
            }
        }),
{
    lemma_payload_len(c);
    let p = spec_packet(c);
    let body = spec_payload(c);
    assert(p.subrange(0, 2) =~= le16_bytes((body.len() + 1) as u16));
    lemma_le16_read_back(p, 0, (body.len() + 1) as u16);
    assert(p.subrange(3, p.len() as int) =~= body);
    match c {
        Command::GetInfo => {},
        Command::CreateConnectionChannel { conn_id, bd_addr, latency_mode, auto_disconnect_time } => {
            assert(p.subrange(3, 7) =~= le32_bytes(conn_id));
            lemma_le32_read_back(p, 3, conn_id);
            assert(p.subrange(7, 13) =~= spec_bd_addr_bytes(bd_addr@));
            assert(p.subrange(14, 16) =~= le16_bytes(auto_disconnect_time as u16));
            lemma_le16_read_back(p, 14, auto_disconnect_time as u16);
        },
        Command::ForceDisconnect { bd_addr } => {
            assert(p.subrange(3, 9) =~= spec_bd_addr_bytes(bd_addr@));
        },
        Command::ChangeModeParameters { conn_id, latency_mode, auto_disconnect_time } => {
            assert(p.subrange(3, 7) =~= le32_bytes(conn_id));
            lemma_le32_read_back(p, 3, conn_id);
            assert(p.subrange(8, 10) =~= le16_bytes(auto_disconnect_time as u16));
            lemma_le16_read_back(p, 8, auto_disconnect_time as u16);
        },
        Command::GetButtonInfo { bd_addr } => {
            assert(p.subrange(3, 9) =~= spec_bd_addr_bytes(bd_addr@));
        },
        Command::DeleteButton { bd_addr } => {
            assert(p.subrange(3, 9) =~= spec_bd_addr_bytes(bd_addr@));
        },
        Command::CreateBatteryStatusListener { listener_id, bd_addr } => {
            assert(p.subrange(3, 7) =~= le32_bytes(listener_id));
            lemma_le32_read_back(p, 3, listener_id);
            assert(p.subrange(7, 13) =~= spec_bd_addr_bytes(bd_addr@));
        },
        Command::CreateScanner { scan_id } => {
            assert(p.subrange(3, 7) =~= le32_bytes(scan_id));
            lemma_le32_read_back(p, 3, scan_id);
        },
        Command::RemoveScanner { scan_id } => {
            assert(p.subrange(3, 7) =~= le32_bytes(scan_id));
            lemma_le32_read_back(p, 3, scan_id);
        },
        Command::RemoveConnectionChannel { conn_id } => {
            assert(p.subrange(3, 7) =~= le32_bytes(conn_id));
            lemma_le32_read_back(p, 3, conn_id);
        },
        Command::Ping { ping_id } => {
            assert(p.subrange(3, 7) =~= le32_bytes(ping_id));
            lemma_le32_read_back(p, 3, ping_id);
        },
        Command::CreateScanWizard { scan_wizard_id } => {
            assert(p.subrange(3, 7) =~= le32_bytes(scan_wizard_id));
            lemma_le32_read_back(p, 3, scan_wizard_id);
        },
        Command::CancelScanWizard { scan_wizard_id } => {
            assert(p.subrange(3, 7) =~= le32_bytes(scan_wizard_id));
            lemma_le32_read_back(p, 3, scan_wizard_id);
        },
        Command::RemoveBatteryStatusListener { listener_id } => {
            assert(p.subrange(3, 7) =~= le32_bytes(listener_id));
            lemma_le32_read_back(p, 3, listener_id);
        },
    }
}

impl FlicCodec {
    /// Reads the daemon's byte stream: returns the last event, other than `NoOp`,
    /// among the complete packets in `src`, or `None` when there is none. The
    /// buffer is left as it is.
    pub fn decode(&mut self, src: &mut BytesMut) -> (r: Option<EventResult>)
        ensures
            r == spec_decode(buffer_contents(*old(src))),
            *final(src) == *old(src),
    {
        let bytes = buffer_bytes(src);
        decode_bytes(&bytes)
    }

    /// Reads the daemon's byte stream and consumes what it read: returns what
    /// `decode` returns for `src`, and removes the whole packets at the front of
    /// `src`, leaving only the start of a packet still to come.
    pub fn read_event(&mut self, src: &mut BytesMut) -> (r: Option<EventResult>)
        ensures
            r == spec_decode(buffer_contents(*old(src))),
            buffer_contents(*final(src)) == buffer_contents(*old(src)).skip(
                framed_len(buffer_contents(*old(src))),
            ),
    {
        let bytes = buffer_bytes(src);
        let r = decode_bytes(&bytes);
        let n = whole_packets_len(&bytes);
        proof {
            lemma_framed_prefix(bytes@);
        }
        buffer_advance(src, n);
        r
    }

    /// Appends the packet of `item` to `dst`.
    pub fn encode(&mut self, item: Command, dst: &mut BytesMut)
        ensures
            buffer_contents(*final(dst)) == buffer_contents(*old(dst)) + spec_packet(item),
    {
        let p = packet(&item);
        buffer_extend(dst, p.as_slice());
    }
}

} // verus!
