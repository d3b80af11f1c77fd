use vstd::prelude::*;

use crate::flic::enums::{click_type_of, ClickType};
use crate::flic::wire::{le32_at, le32_bytes, lemma_le32_read_back, read_le32};

verus! {

/// An event read from the daemon. Every packet that is not a button
/// single/double/hold report reads as `NoOp`.
#[derive(Debug, Clone, Copy, PartialEq, Eq, Structural)]
pub enum Event {
    NoOp,
    ButtonSingleOrDoubleClickOrHold {
        conn_id: u32,
        click_type: ClickType,
        was_queued: bool,
        time_diff: i32,
    },
}

/// What reading from the daemon yields: an event, or nothing yet.
#[derive(Debug, Clone, Copy, PartialEq, Eq, Structural)]
pub enum EventResult {
    NoEvent,
    Event(Event),
}

/// The opcode of the button single/double/hold report.
pub const BUTTON_SINGLE_OR_DOUBLE_CLICK_OR_HOLD: u8 = 7;

/// The length of that report's packet body: opcode, connection id, click type,
/// queued flag and time difference.
pub const BUTTON_REPORT_LEN: usize = 11;

/// The event that one packet body (opcode first) stands for.
pub open spec fn frame_event(frame: Seq<u8>) -> Event {
    if frame.len() >= BUTTON_REPORT_LEN && frame[0] == BUTTON_SINGLE_OR_DOUBLE_CLICK_OR_HOLD
        && click_type_of(frame[5]) is Some {
        Event::ButtonSingleOrDoubleClickOrHold {
            conn_id: le32_at(frame, 1),
            click_type: click_type_of(frame[5])->0,
            was_queued: frame[6] != 0,
            time_diff: le32_at(frame, 7) as i32,
        }
    } else {
        Event::NoOp
    }
}

/// A button report reads back as the fields it was written from: after the
/// opcode, the connection id in four little-endian bytes, the click type's code,
/// the queued flag (any byte other than 0 is set) and the time difference in
/// four little-endian bytes.
pub proof fn lemma_report_reads_back(conn_id: u32, code: u8, queued: u8, time_diff: i32)
    requires
        click_type_of(code) is Some,
    ensures
        frame_event(
            seq![BUTTON_SINGLE_OR_DOUBLE_CLICK_OR_HOLD] + le32_bytes(conn_id) + seq![code, queued]
                + le32_bytes(time_diff as u32),
        ) == (Event::ButtonSingleOrDoubleClickOrHold {
            conn_id,
            click_type: click_type_of(code)->0,
            was_queued: queued != 0,
            time_diff,
        }),
{
    let f = seq![BUTTON_SINGLE_OR_DOUBLE_CLICK_OR_HOLD] + le32_bytes(conn_id) + seq![code, queued]
        + le32_bytes(time_diff as u32);
    assert(f.len() == 11);
    assert(f.subrange(1, 5) =~= le32_bytes(conn_id));
    lemma_le32_read_back(f, 1, conn_id);
    assert(f.subrange(7, 11) =~= le32_bytes(time_diff as u32));
    lemma_le32_read_back(f, 7, time_diff as u32);
    assert(f[5] == code && f[6] == queued);
    assert(((time_diff as u32) as i32) == time_diff) by (bit_vector);
}

/// The body length that a packet's two-byte little-endian header announces.
pub open spec fn header_len(s: Seq<u8>) -> int
    recommends
        s.len() >= 2,
{
    s[0] + 256 * s[1]
}

/// The events of the complete packets at the front of `s`, in order; an
/// incomplete packet at the end is not read.
pub open spec fn packet_events(s: Seq<u8>) -> Seq<Event>
    decreases s.len(),
{
    if s.len() < 2 || s.len() < 2 + header_len(s) {
        Seq::empty()
    } else {
        seq![frame_event(s.subrange(2, 2 + header_len(s)))] + packet_events(
            s.subrange(2 + header_len(s), s.len() as int),
        )
    }
}

/// The last event of `events` that is not `NoOp`, if there is one.
pub open spec fn last_event(events: Seq<Event>) -> Option<Event>
    decreases events.len(),
{
    if events.len() == 0 {
        None
    } else {
        match last_event(events.drop_first()) {
            Some(e) => Some(e),
            None => if events[0] is NoOp {
                None
            } else {
                Some(events[0])
            },
        }
    }
}

/// What decoding `s` yields: the last event, other than `NoOp`, among its complete packets.
pub open spec fn spec_decode(s: Seq<u8>) -> Option<EventResult> {
    match last_event(packet_events(s)) {
        Some(e) => Some(EventResult::Event(e)),
        None => None,
    }
}

/// Whether `s` is made of whole packets, with no bytes left over.
pub open spec fn is_framed(s: Seq<u8>) -> bool
    decreases s.len(),
{
    if s.len() == 0 {
        true
    } else if s.len() < 2 || s.len() < 2 + header_len(s) {
        false
    } else {
        is_framed(s.subrange(2 + header_len(s), s.len() as int))
    }
}

proof fn lemma_last_event_append(a: Seq<Event>, b: Seq<Event>)
    ensures
        last_event(a + b) == match last_event(b) {
            Some(e) => Some(e),
            None => last_event(a),
        },
    decreases a.len(),
{
    if a.len() == 0 {
        assert(a + b =~= b);
    } else {
        lemma_last_event_append(a.drop_first(), b);
        assert((a + b).drop_first() =~= a.drop_first() + b);
    }
}

proof fn lemma_packet_events_append(s1: Seq<u8>, s2: Seq<u8>)
    requires
        is_framed(s1),
    ensures
        packet_events(s1 + s2) == packet_events(s1) + packet_events(s2),
    decreases s1.len(),
{
    if s1.len() == 0 {
        assert(s1 + s2 =~= s2);
        assert(packet_events(s1) =~= Seq::<Event>::empty());
        assert(packet_events(s1) + packet_events(s2) =~= packet_events(s2));
    } else {
        let s = s1 + s2;
        let h = header_len(s1);
        assert(header_len(s) == h);
        let rest1 = s1.subrange(2 + h, s1.len() as int);
        lemma_packet_events_append(rest1, s2);
        assert(s.subrange(2, 2 + h) =~= s1.subrange(2, 2 + h));
        assert(s.subrange(2 + h, s.len() as int) =~= rest1 + s2);
        assert(packet_events(s) =~= packet_events(s1) + packet_events(s2));
    }
}

/// Decoding a stream that continues after whole packets: the later bytes win.
/// When `first` is made of whole packets, what `first + later` decodes to is what
/// `later` decodes to, or what `first` decodes to when `later` holds no report.
pub proof fn lemma_decode_append(first: Seq<u8>, later: Seq<u8>)
    requires
        is_framed(first),
    ensures
        spec_decode(first + later) == match spec_decode(later) {
            Some(r) => Some(r),
            None => spec_decode(first),
        },
{
    lemma_packet_events_append(first, later);
    lemma_last_event_append(packet_events(first), packet_events(later));
}

/// The length of the whole packets at the front of `s`.
pub open spec fn framed_len(s: Seq<u8>) -> int
    decreases s.len(),
{
    if s.len() < 2 || s.len() < 2 + header_len(s) {
        0
    } else {
        2 + header_len(s) + framed_len(s.subrange(2 + header_len(s), s.len() as int))
    }
}

/// What follows the whole packets at the front of a stream is no whole packet:
/// those packets make up at most the whole stream, they are framed, and they
/// carry every event that the stream's complete packets carry.
pub proof fn lemma_framed_prefix(s: Seq<u8>)
    ensures
        0 <= framed_len(s) <= s.len(),
        is_framed(s.take(framed_len(s))),
        packet_events(s.skip(framed_len(s))) == Seq::<Event>::empty(),
        packet_events(s.take(framed_len(s))) == packet_events(s),
    decreases s.len(),
{
    if s.len() < 2 || s.len() < 2 + header_len(s) {
        assert(s.skip(0) =~= s);
        assert(s.take(0) =~= Seq::<u8>::empty());
        assert(packet_events(s.take(0)) =~= Seq::<Event>::empty());
    } else {
        let h = header_len(s);
        let rest = s.subrange(2 + h, s.len() as int);
        lemma_framed_prefix(rest);
        let n = framed_len(s);
        let t = s.take(n);
        assert(s.skip(n) =~= rest.skip(framed_len(rest)));
        assert(header_len(t) == h);
        assert(t.subrange(2 + h, t.len() as int) =~= rest.take(framed_len(rest)));
        assert(t.subrange(2, 2 + h) =~= s.subrange(2, 2 + h));
        assert(packet_events(t) =~= packet_events(s));
    }
}

/// The length of the whole packets at the front of `bytes`.
pub fn whole_packets_len(bytes: &Vec<u8>) -> (n: usize)
    ensures
        n == framed_len(bytes@),
{
    let len = bytes.len();
    let mut pos: usize = 0;
    assert(bytes@.skip(0) =~= bytes@);
    loop
        invariant_except_break
            len == bytes@.len(),
            pos <= len,
            framed_len(bytes@) == pos + framed_len(bytes@.skip(pos as int)),
        ensures
            framed_len(bytes@) == pos,
        decreases len - pos,
    {
        let ghost rest = bytes@.skip(pos as int);
        if !(pos < len && len - pos >= 2) {
            break;
        }
        let h = bytes[pos] as usize + 256 * (bytes[pos + 1] as usize);
        assert(header_len(rest) == h);
        if len - pos - 2 < h {
            break;
        }
        assert(rest.subrange(2 + h as int, rest.len() as int) =~= bytes@.skip(pos + 2 + h));
        pos = pos + 2 + h;
    }
    pos
}

/// The event of the packet body `bytes[start..start + len]`.
pub fn read_frame(bytes: &Vec<u8>, start: usize, len: usize) -> (e: Event)
    requires
        start + len <= bytes.len(),
    ensures
        e == frame_event(bytes@.subrange(start as int, start + len)),
{
    let ghost frame = bytes@.subrange(start as int, start + len);
    if len >= BUTTON_REPORT_LEN && bytes[start] == BUTTON_SINGLE_OR_DOUBLE_CLICK_OR_HOLD {
        match ClickType::from_code(bytes[start + 5]) {
            Some(click_type) => {
                let conn_id = read_le32(bytes, start + 1);
                let diff = read_le32(bytes, start + 7);
                assert(le32_at(frame, 1) == le32_at(bytes@, start + 1));
                assert(le32_at(frame, 7) == le32_at(bytes@, start + 7));
                Event::ButtonSingleOrDoubleClickOrHold {
                    conn_id,
                    click_type,
                    was_queued: bytes[start + 6] != 0,
                    time_diff: #[verifier::truncate] (diff as i32),
                }
            },
            None => Event::NoOp,
        }
    } else {
        Event::NoOp
    }
}

/// Decodes the complete packets of `bytes` and returns the last event among
/// them that is not `NoOp`.
pub fn decode_bytes(bytes: &Vec<u8>) -> (r: Option<EventResult>)
    ensures
        r == spec_decode(bytes@),
{
    let n = bytes.len();
    let mut found: Option<Event> = None;
    let mut pos: usize = 0;
    assert(bytes@.skip(0) =~= bytes@);
    loop
        invariant_except_break
            n == bytes@.len(),
            pos <= n,
            last_event(packet_events(bytes@)) == match last_event(packet_events(bytes@.skip(pos as int))) {
                Some(e) => Some(e),
                None => found,
            },
        ensures
            last_event(packet_events(bytes@)) == found,
        decreases n - pos,
    {
        let ghost rest = bytes@.skip(pos as int);
        if !(pos < n && n - pos >= 2) {
            assert(packet_events(rest) =~= Seq::<Event>::empty());
            break;
        }
        let len = bytes[pos] as usize + 256 * (bytes[pos + 1] as usize);
        assert(header_len(rest) == len);
        if n - pos - 2 < len {
            assert(packet_events(rest) =~= Seq::<Event>::empty());
            break;
        }
        let e = read_frame(bytes, pos + 2, len);
        proof {
            let next = bytes@.skip(pos + 2 + len);
            assert(rest.subrange(2, 2 + len as int) =~= bytes@.subrange(pos + 2, pos + 2 + len));
            assert(rest.subrange(2 + len as int, rest.len() as int) =~= next);
            assert(packet_events(rest)[0] == e);
            assert(packet_events(rest).drop_first() =~= packet_events(next));
        }
        if !(e == Event::NoOp) {
            found = Some(e);
        }
        pos = pos + 2 + len;
    }
    match found {
        Some(e) => Some(EventResult::Event(e)),
        None => None,
    }
}

} // verus!
