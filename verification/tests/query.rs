use ptdecode::asid::Asid;
use ptdecode::config::Config;
use ptdecode::error::PtError;
use ptdecode::event::{Event, EventKind, ExecMode};
use ptdecode::flags::{Status, EOS, EVENT_PENDING};
use ptdecode::packet::{Class, Content, Fault, Packet, Slot};
use ptdecode::qry::{CondBranch, Phase, QueryDecoder};
use ptdecode::timing::{period_of, Clock};

fn q_marker(ip: u64) -> Content {
    Content::Packet { packet: Packet::Sync { ip, mode: ExecMode::Bit64, asid: Asid::new(None, None) } }
}

fn q_tip(ip: u64) -> Content {
    Content::Packet { packet: Packet::Tip { ip } }
}

fn q_tnt(bits: u64, count: u8) -> Content {
    Content::Packet { packet: Packet::Tnt { bits, count } }
}

fn q_event(kind: EventKind) -> Content {
    Content::Packet { packet: Packet::Event { event: Event { kind, ip: None, after: false } } }
}

fn q_packet(packet: Packet) -> Content {
    Content::Packet { packet }
}

fn q_trace(mtc_freq: u8, nom_freq: u8, slots: Vec<(Content, u8)>) -> Config {
    let mut cfg = Config::new(mtc_freq, nom_freq);
    for (content, size) in slots {
        cfg.push(content, size).unwrap();
    }
    cfg
}

fn q_quiet() -> Status {
    Status::new(false, false)
}

#[test]
fn marker_then_target() {
    let cfg = q_trace(0, 0, vec![(q_marker(0x1000), 16), (q_tip(0x2000), 7)]);
    let mut d = QueryDecoder::new(&cfg).unwrap();
    assert_eq!(d.sync_forward(), Ok((0x1000, q_quiet())));
    let (ip, status) = d.indirect_branch().unwrap();
    assert_eq!(ip, 0x2000);
    assert!(!status.event_pending());
    assert!(status.eos());
}

#[test]
fn core_bus_ratio_stays_until_next_sync() {
    let cfg = q_trace(
        0,
        0,
        vec![
            (q_marker(0x10), 16),
            (q_event(EventKind::Cbr { ratio: 0x14 }), 4),
            (q_tnt(0b10, 2), 1),
            (q_marker(0x20), 16),
            (q_tip(0x30), 7),
        ],
    );
    let mut d = QueryDecoder::new(&cfg).unwrap();
    let (_, status) = d.sync_forward().unwrap();
    assert!(status.event_pending());
    assert_eq!(d.core_bus_ratio(), Ok(0x14));
    assert_eq!(d.core_bus_ratio(), Ok(0x14));
    let (event, status) = d.event().unwrap();
    assert_eq!(event.kind, EventKind::Cbr { ratio: 0x14 });
    assert!(!status.event_pending());
    assert_eq!(d.core_bus_ratio(), Ok(0x14));
    assert_eq!(d.core_bus_ratio(), Ok(0x14));
    assert_eq!(d.cond_branch().unwrap().0, CondBranch::Taken);
    assert_eq!(d.core_bus_ratio(), Ok(0x14));
    assert_eq!(d.sync_forward(), Ok((0x20, q_quiet())));
    assert_eq!(d.core_bus_ratio(), Err(PtError::NoCbr));
    assert_eq!(d.sync_set(0), Ok((0x10, Status::new(true, false))));
    assert_eq!(d.core_bus_ratio(), Ok(0x14));
    d.event().unwrap();
    assert_eq!(d.cond_branch().unwrap().0, CondBranch::Taken);
    assert_eq!(d.cond_branch().unwrap().0, CondBranch::NotTaken);
    assert_eq!(d.core_bus_ratio(), Ok(0x14));
    assert_eq!(d.offset(), Ok(37));
    assert_eq!(d.sync_forward(), Err(PtError::Eos));
    assert_eq!(d.core_bus_ratio(), Ok(0x14));
}

#[test]
fn time_before_any_timestamp() {
    let cfg = q_trace(0, 0, vec![(q_marker(0x10), 16), (q_tip(0x30), 7)]);
    let mut d = QueryDecoder::new(&cfg).unwrap();
    d.sync_forward().unwrap();
    assert_eq!(d.time(), Err(PtError::NoTime { time: 0, lost_mtc: 0, lost_cyc: 0 }));
}

#[test]
fn unsynchronized_decoder_answers_nosync() {
    let cfg = q_trace(0, 0, vec![(q_marker(0x10), 16), (q_tip(0x30), 7)]);
    let mut d = QueryDecoder::new(&cfg).unwrap();
    assert_eq!(d.phase(), Phase::Unsynchronized);
    assert_eq!(d.cond_branch(), Err(PtError::Nosync));
    assert_eq!(d.indirect_branch(), Err(PtError::Nosync));
    assert_eq!(d.event(), Err(PtError::Nosync));
    assert_eq!(d.time(), Err(PtError::Nosync));
    assert_eq!(d.core_bus_ratio(), Err(PtError::Nosync));
    assert_eq!(d.offset(), Err(PtError::Nosync));
    assert_eq!(d.sync_offset(), Err(PtError::Nosync));
}

#[test]
fn sync_set_agrees_with_sync_forward() {
    let cfg = q_trace(
        3,
        0,
        vec![
            (q_marker(0x100), 16),
            (q_tip(0x110), 7),
            (q_marker(0x200), 16),
            (q_packet(Packet::Tsc { tsc: 77 }), 8),
            (q_event(EventKind::Stop), 2),
        ],
    );
    let mut walked = QueryDecoder::new(&cfg).unwrap();
    assert_eq!(walked.sync_forward(), Ok((0x100, q_quiet())));
    let second = walked.sync_forward();
    assert_eq!(second, Ok((0x200, Status::new(true, false))));

    let mut set = QueryDecoder::new(&cfg).unwrap();
    assert_eq!(set.sync_set(23), second);
    assert_eq!(set.offset(), walked.offset());
    assert_eq!(set.offset(), Ok(47));
    assert_eq!(set.sync_offset(), Ok(23));
    assert_eq!(walked.sync_offset(), Ok(23));
    assert_eq!(set.time(), Ok((77, 0, 0)));
    assert_eq!(walked.time(), Ok((77, 0, 0)));
    assert_eq!(set.event(), walked.event());
}

#[test]
fn sync_set_wants_a_marker_at_the_offset() {
    let cfg = q_trace(0, 0, vec![(q_marker(0x100), 16), (q_tip(0x110), 7), (q_marker(0x200), 16)]);
    let mut d = QueryDecoder::new(&cfg).unwrap();
    assert_eq!(d.sync_set(16), Err(PtError::Nosync));
    assert_eq!(d.sync_set(1), Err(PtError::Nosync));
    assert_eq!(d.sync_set(39), Err(PtError::Nosync));
    assert_eq!(d.sync_set(1000), Err(PtError::Nosync));
    assert_eq!(d.phase(), Phase::Unsynchronized);
    assert_eq!(d.sync_set(0), Ok((0x100, q_quiet())));
    assert_eq!(d.sync_set(16), Err(PtError::Nosync));
    assert_eq!(d.sync_offset(), Ok(0));
    assert_eq!(d.sync_set(23), Ok((0x200, Status::new(false, true))));
    assert_eq!(d.sync_offset(), Ok(23));
}

#[test]
fn sync_offset_is_the_marker_used() {
    let cfg = q_trace(
        0,
        0,
        vec![
            (q_packet(Packet::Pad), 1),
            (q_marker(0x100), 16),
            (q_tip(0x110), 7),
            (q_marker(0x200), 16),
            (q_tip(0x210), 7),
        ],
    );
    let mut d = QueryDecoder::new(&cfg).unwrap();
    d.sync_forward().unwrap();
    assert_eq!(d.sync_offset(), Ok(1));
    d.sync_forward().unwrap();
    assert_eq!(d.sync_offset(), Ok(24));
    d.sync_backward().unwrap();
    assert_eq!(d.sync_offset(), Ok(1));
    d.indirect_branch().unwrap();
    assert_eq!(d.sync_offset(), Ok(1));
    assert_eq!(d.offset(), Ok(40));
}

#[test]
fn sync_forward_runs_out_of_markers() {
    let cfg = q_trace(0, 0, vec![(q_marker(0x100), 16), (q_tip(0x110), 7)]);
    let mut d = QueryDecoder::new(&cfg).unwrap();
    assert_eq!(d.sync_forward(), Ok((0x100, q_quiet())));
    assert_eq!(d.sync_forward(), Err(PtError::Eos));
    assert_eq!(d.phase(), Phase::Synchronized);
    assert_eq!(d.sync_offset(), Ok(0));
    assert_eq!(d.indirect_branch().unwrap().0, 0x110);
}

#[test]
fn sync_on_an_empty_trace() {
    let cfg = q_trace(0, 0, vec![]);
    let mut d = QueryDecoder::new(&cfg).unwrap();
    assert_eq!(d.sync_forward(), Err(PtError::Eos));
    assert_eq!(d.sync_backward(), Err(PtError::Eos));
    assert_eq!(d.sync_set(0), Err(PtError::Nosync));
    assert_eq!(d.phase(), Phase::Unsynchronized);
}

#[test]
fn sync_backward_starts_at_the_end() {
    let cfg = q_trace(
        0,
        0,
        vec![(q_marker(0x100), 16), (q_tip(0x110), 7), (q_marker(0x200), 16), (q_tip(0x210), 7)],
    );
    let mut d = QueryDecoder::new(&cfg).unwrap();
    assert_eq!(d.sync_backward(), Ok((0x200, q_quiet())));
    assert_eq!(d.sync_offset(), Ok(23));
    assert_eq!(d.sync_backward(), Ok((0x100, q_quiet())));
    assert_eq!(d.sync_offset(), Ok(0));
    assert_eq!(d.sync_backward(), Err(PtError::Eos));
    assert_eq!(d.sync_offset(), Ok(0));
}

#[test]
fn sync_backward_returns_to_the_marker_in_use() {
    let cfg = q_trace(
        0,
        0,
        vec![(q_marker(0x100), 16), (q_tip(0x110), 7), (q_tip(0x120), 7), (q_tip(0x130), 7)],
    );
    let mut d = QueryDecoder::new(&cfg).unwrap();
    d.sync_forward().unwrap();
    d.indirect_branch().unwrap();
    d.indirect_branch().unwrap();
    assert_eq!(d.offset(), Ok(30));
    assert_eq!(d.sync_backward(), Ok((0x100, q_quiet())));
    assert_eq!(d.offset(), Ok(16));
}

#[test]
fn a_rejected_slot_stops_the_search() {
    let cfg = q_trace(
        0,
        0,
        vec![
            (Content::Fault { fault: Fault::BadOpc }, 1),
            (q_packet(Packet::Pad), 1),
            (Content::Fault { fault: Fault::BadPacket }, 3),
            (q_marker(0x100), 16),
            (q_tip(0x110), 7),
        ],
    );
    let mut d = QueryDecoder::new(&cfg).unwrap();
    assert_eq!(d.sync_forward(), Err(PtError::BadOpc));
    assert_eq!(d.phase(), Phase::Unsynchronized);
    assert_eq!(d.sync_forward(), Err(PtError::BadPacket));
    assert_eq!(d.phase(), Phase::Unsynchronized);
    assert_eq!(d.sync_forward(), Ok((0x100, q_quiet())));
    assert_eq!(d.sync_offset(), Ok(5));
    assert_eq!(d.sync_backward(), Err(PtError::BadPacket));
    assert_eq!(d.phase(), Phase::Unsynchronized);
    assert_eq!(d.sync_backward(), Err(PtError::BadOpc));
    assert_eq!(d.sync_backward(), Err(PtError::Eos));
    assert_eq!(d.sync_forward(), Err(PtError::BadPacket));
}

#[test]
fn end_of_trace_is_stable() {
    let cfg = q_trace(0, 0, vec![(q_marker(0x100), 16), (q_tnt(1, 1), 1)]);
    let mut d = QueryDecoder::new(&cfg).unwrap();
    d.sync_forward().unwrap();
    assert_eq!(d.phase(), Phase::Synchronized);
    assert_eq!(d.cond_branch(), Ok((CondBranch::Taken, Status::new(false, true))));
    assert_eq!(d.phase(), Phase::EndOfTrace);
    for _ in 0..3 {
        assert_eq!(d.cond_branch(), Err(PtError::Eos));
        assert_eq!(d.indirect_branch(), Err(PtError::Eos));
        assert_eq!(d.phase(), Phase::EndOfTrace);
        assert_eq!(d.offset(), Ok(17));
    }
    assert_eq!(d.event(), Err(PtError::BadQuery));
}

#[test]
fn events_come_before_branches() {
    let cfg = q_trace(
        0,
        0,
        vec![
            (q_marker(0x100), 16),
            (q_tip(0x110), 7),
            (q_event(EventKind::Paging { cr3: 0xabc000 }), 8),
            (q_event(EventKind::ExecMode { mode: ExecMode::Bit32 }), 2),
            (q_tnt(0, 1), 1),
        ],
    );
    let mut d = QueryDecoder::new(&cfg).unwrap();
    d.sync_forward().unwrap();
    assert_eq!(d.indirect_branch(), Ok((0x110, Status::new(true, false))));
    assert_eq!(d.cond_branch(), Err(PtError::BadQuery));
    assert_eq!(d.indirect_branch(), Err(PtError::BadQuery));
    assert_eq!(d.offset(), Ok(23));
    let (first, status) = d.event().unwrap();
    assert_eq!(first, Event { kind: EventKind::Paging { cr3: 0xabc000 }, ip: None, after: false });
    assert!(status.event_pending());
    assert_eq!(d.cond_branch(), Err(PtError::BadQuery));
    let (second, status) = d.event().unwrap();
    assert_eq!(second.kind, EventKind::ExecMode { mode: ExecMode::Bit32 });
    assert!(!status.event_pending());
    assert_eq!(d.event(), Err(PtError::BadQuery));
    assert_eq!(d.cond_branch(), Ok((CondBranch::NotTaken, Status::new(false, true))));
}

#[test]
fn the_wrong_question_is_a_bad_query() {
    let cfg = q_trace(0, 0, vec![(q_marker(0x100), 16), (q_tip(0x110), 7), (q_tnt(1, 1), 1)]);
    let mut d = QueryDecoder::new(&cfg).unwrap();
    d.sync_forward().unwrap();
    assert_eq!(d.cond_branch(), Err(PtError::BadQuery));
    assert_eq!(d.event(), Err(PtError::BadQuery));
    assert_eq!(d.offset(), Ok(16));
    assert_eq!(d.indirect_branch(), Ok((0x110, q_quiet())));
    assert_eq!(d.indirect_branch(), Err(PtError::BadQuery));
    assert_eq!(d.offset(), Ok(23));
    assert_eq!(d.cond_branch(), Ok((CondBranch::Taken, Status::new(false, true))));
}

#[test]
fn decisions_come_out_in_order() {
    let cfg = q_trace(0, 0, vec![(q_marker(0x100), 16), (q_tnt(0b1011, 4), 1), (q_tnt(0b01, 2), 1)]);
    let mut d = QueryDecoder::new(&cfg).unwrap();
    d.sync_forward().unwrap();
    let mut seen = Vec::new();
    for _ in 0..6 {
        let (branch, status) = d.cond_branch().unwrap();
        seen.push((branch.is_taken(), d.offset().unwrap(), status.eos()));
    }
    assert_eq!(
        seen,
        vec![
            (true, 16, false),
            (false, 16, false),
            (true, 16, false),
            (true, 17, false),
            (false, 17, false),
            (true, 18, true),
        ]
    );
    assert_eq!(d.cond_branch(), Err(PtError::Eos));
}

#[test]
fn a_full_packet_of_decisions() {
    let cfg = q_trace(0, 0, vec![(q_marker(0x100), 16), (q_tnt(1 << 63, 64), 9)]);
    let mut d = QueryDecoder::new(&cfg).unwrap();
    d.sync_forward().unwrap();
    assert_eq!(d.cond_branch().unwrap().0, CondBranch::Taken);
    for _ in 0..63 {
        assert_eq!(d.cond_branch().unwrap().0, CondBranch::NotTaken);
    }
    assert_eq!(d.cond_branch(), Err(PtError::Eos));
}

#[test]
fn decode_errors_cost_the_place() {
    let cfg = q_trace(
        0,
        0,
        vec![
            (q_marker(0x100), 16),
            (q_tnt(0, 0), 1),
            (q_marker(0x200), 16),
            (q_tnt(0, 65), 1),
            (q_marker(0x300), 16),
            (Content::Fault { fault: Fault::BadOpc }, 1),
            (q_marker(0x400), 16),
            (Content::Fault { fault: Fault::BadPacket }, 1),
        ],
    );
    let mut d = QueryDecoder::new(&cfg).unwrap();
    d.sync_forward().unwrap();
    assert_eq!(d.cond_branch(), Err(PtError::BadPacket));
    assert_eq!(d.phase(), Phase::Unsynchronized);
    assert_eq!(d.cond_branch(), Err(PtError::Nosync));
    assert_eq!(d.sync_forward(), Ok((0x200, q_quiet())));
    assert_eq!(d.indirect_branch(), Err(PtError::BadPacket));
    assert_eq!(d.phase(), Phase::Unsynchronized);
    assert_eq!(d.sync_forward(), Ok((0x300, q_quiet())));
    assert_eq!(d.event(), Err(PtError::BadQuery));
    assert_eq!(d.phase(), Phase::Synchronized);
    assert_eq!(d.cond_branch(), Err(PtError::BadOpc));
    assert_eq!(d.offset(), Err(PtError::Nosync));
    assert_eq!(d.sync_forward(), Ok((0x400, q_quiet())));
    assert_eq!(d.indirect_branch(), Err(PtError::BadPacket));
    assert_eq!(d.sync_forward(), Err(PtError::Eos));
    assert!(PtError::BadOpc.needs_resync());
    assert!(PtError::BadPacket.needs_resync());
    assert!(PtError::BadContext.needs_resync());
    assert!(!PtError::Eos.needs_resync());
    assert!(!PtError::BadQuery.needs_resync());
}

#[test]
fn timestamps_and_timer_ticks() {
    let cfg = q_trace(
        3,
        0,
        vec![
            (q_marker(0x100), 16),
            (q_packet(Packet::Mtc { ticks: 5 }), 2),
            (q_packet(Packet::Tsc { tsc: 1000 }), 8),
            (q_packet(Packet::Mtc { ticks: 5 }), 2),
            (q_tip(0x110), 7),
            (q_packet(Packet::Tsc { tsc: 900 }), 8),
            (q_packet(Packet::Mtc { ticks: 255 }), 2),
            (q_packet(Packet::Cyc { cycles: 10 }), 2),
            (q_tip(0x120), 7),
        ],
    );
    let mut d = QueryDecoder::new(&cfg).unwrap();
    d.sync_forward().unwrap();
    assert_eq!(d.time(), Ok((1040, 1, 0)));
    assert_eq!(d.offset(), Ok(28));
    d.indirect_branch().unwrap();
    assert_eq!(d.time(), Ok((1040 + 255 * 8, 1, 1)));
    d.sync_set(0).unwrap();
    assert_eq!(d.time(), Ok((1040, 1, 0)));
}

#[test]
fn cycle_counts_need_calibration() {
    let cfg = q_trace(
        0,
        6,
        vec![
            (q_marker(0x100), 16),
            (q_packet(Packet::Cyc { cycles: 100 }), 2),
            (q_event(EventKind::Cbr { ratio: 4 }), 4),
            (q_packet(Packet::Cyc { cycles: 101 }), 2),
            (q_event(EventKind::Cbr { ratio: 0 }), 4),
            (q_packet(Packet::Cyc { cycles: 7 }), 2),
            (q_tip(0x110), 7),
        ],
    );
    let mut d = QueryDecoder::new(&cfg).unwrap();
    d.sync_forward().unwrap();
    assert_eq!(d.time(), Err(PtError::NoTime { time: 0, lost_mtc: 0, lost_cyc: 1 }));
    d.event().unwrap();
    assert_eq!(d.time(), Err(PtError::NoTime { time: 151, lost_mtc: 0, lost_cyc: 1 }));
    d.event().unwrap();
    assert_eq!(d.time(), Err(PtError::NoTime { time: 151, lost_mtc: 0, lost_cyc: 2 }));
    assert_eq!(d.core_bus_ratio(), Ok(0));
}

#[test]
fn clock_formulas() {
    let start = Clock::new();
    assert_eq!(start, Clock { time: 0, have_tsc: false, lost_mtc: 0, lost_cyc: 0, cbr: None });
    assert_eq!(start.mtc(1, 0).lost_mtc, 1);
    assert_eq!(Clock { lost_mtc: u32::MAX, ..start }.mtc(1, 0).lost_mtc, u32::MAX);
    assert_eq!(Clock { lost_cyc: u32::MAX, ..start }.cyc(1, 1).lost_cyc, u32::MAX);
    let based = start.tsc(500);
    assert!(based.have_tsc);
    assert_eq!(based.time, 500);
    assert_eq!(based.tsc(499).time, 500);
    assert_eq!(based.tsc(501).time, 501);
    assert_eq!(based.mtc(3, 15).time, 500 + 3 * 32768);
    assert_eq!(based.mtc(0, 15).time, 500);
    assert_eq!(Clock { time: u64::MAX - 1, ..based }.mtc(2, 0).time, u64::MAX);
    let tuned = based.set_cbr(3);
    assert_eq!(tuned.cyc(10, 2).time, 506);
    assert_eq!(tuned.cyc(10, 0).lost_cyc, 1);
    assert_eq!(tuned.cyc(u64::MAX, 255).time, u64::MAX);
    assert_eq!(based.set_cbr(255).cyc(u64::MAX, 255).time, u64::MAX);
    assert_eq!(based.set_cbr(u32::MAX).cyc(u64::MAX, 1).time, 500 + u64::MAX / (u32::MAX as u64));
    assert_eq!(tuned.pass(Packet::Pad, 0, 0), tuned);
    assert_eq!(tuned.pass(Packet::Tsc { tsc: 600 }, 0, 0).time, 600);
    assert_eq!(tuned.pass(Packet::Mtc { ticks: 2 }, 4, 0).time, 532);
    assert_eq!(tuned.pass(Packet::Cyc { cycles: 9 }, 4, 1).time, 503);
    assert_eq!(period_of(0), 1);
    assert_eq!(period_of(1), 2);
    assert_eq!(period_of(15), 32768);
    assert_eq!(period_of(63), 1 << 63);
    assert_eq!(period_of(64), u64::MAX);
    assert_eq!(period_of(255), u64::MAX);
    assert_eq!(based.mtc(1, 63).time, 500 + (1 << 63));
    assert_eq!(based.mtc(2, 63).time, u64::MAX);
    assert_eq!(based.mtc(1, 64).time, u64::MAX);
    assert_eq!(based.mtc(0, 64).time, 500);
    assert_eq!(based.mtc(0, 255).time, 500);
    assert_eq!(based.mtc(255, 255).time, u64::MAX);
}

#[test]
fn events_change_what_the_decoder_knows() {
    let cfg = q_trace(
        0,
        0,
        vec![
            (q_marker(0x100), 16),
            (q_event(EventKind::AsyncBranch { to: 0x900 }), 8),
            (q_event(EventKind::Overflow), 2),
            (q_event(EventKind::Tsx { speculative: true, aborted: false }), 2),
        ],
    );
    let mut d = QueryDecoder::new(&cfg).unwrap();
    assert_eq!(d.sync_forward(), Ok((0x100, Status::new(true, false))));
    assert_eq!(d.event().unwrap().1, Status::new(true, false));
    assert_eq!(d.event().unwrap().0.kind, EventKind::Overflow);
    assert_eq!(d.event().unwrap().1, Status::new(false, true));
    assert_eq!(d.event(), Err(PtError::BadQuery));
    assert_eq!(d.phase(), Phase::EndOfTrace);
}

#[test]
fn markers_on_the_way_are_passed() {
    let cfg = q_trace(
        0,
        0,
        vec![(q_marker(0x100), 16), (q_tip(0x110), 7), (q_marker(0x200), 16), (q_tip(0x210), 7)],
    );
    let mut d = QueryDecoder::new(&cfg).unwrap();
    d.sync_forward().unwrap();
    assert_eq!(d.indirect_branch(), Ok((0x110, q_quiet())));
    assert_eq!(d.offset(), Ok(39));
    assert_eq!(d.sync_offset(), Ok(0));
    assert_eq!(d.indirect_branch(), Ok((0x210, Status::new(false, true))));
    assert_eq!(d.sync_forward(), Err(PtError::Eos));
    assert_eq!(d.sync_backward(), Ok((0x200, q_quiet())));
}

#[test]
fn status_masks() {
    assert_eq!(Status::from_bits(0), Some(Status::new(false, false)));
    assert_eq!(Status::from_bits(EVENT_PENDING), Some(Status::new(true, false)));
    assert_eq!(Status::from_bits(EOS), Some(Status::new(false, true)));
    assert_eq!(Status::from_bits(EVENT_PENDING | EOS), Some(Status::new(true, true)));
    assert_eq!(Status::from_bits(2).map(|s| s.ip_suppressed()), Some(true));
    assert_eq!(Status::from_bits(7).map(|s| s.bits()), Some(7));
    assert_eq!(Status::from_bits(8), None);
    assert_eq!(Status::from_bits(u32::MAX), None);
    assert_eq!(Status::new(true, true).bits(), 5);
    assert!(Status::new(true, false).event_pending());
    assert!(!Status::new(true, false).eos());
    assert!(Status::new(false, true).eos());
    assert!(!Status::new(false, true).event_pending());
}

#[test]
fn branch_outcomes_and_numbers() {
    assert_eq!(CondBranch::try_from_primitive(1), Ok(CondBranch::Taken));
    assert_eq!(CondBranch::try_from_primitive(0), Ok(CondBranch::NotTaken));
    assert_eq!(CondBranch::try_from_primitive(2), Err(PtError::Invalid));
    assert_eq!(CondBranch::try_from_primitive(-1), Err(PtError::Invalid));
    assert_eq!(CondBranch::Taken.number(), 1);
    assert_eq!(CondBranch::NotTaken.number(), 0);
    assert_eq!(CondBranch::from_taken(true), CondBranch::Taken);
    assert_eq!(CondBranch::from_taken(false), CondBranch::NotTaken);
    assert!(CondBranch::Taken.is_taken());
    assert!(!CondBranch::NotTaken.is_taken());
}

#[test]
fn configurations() {
    assert_eq!(Config::new(255, 0).mtc_freq(), 255);
    let mut cfg = Config::new(2, 9);
    assert_eq!(cfg.len(), 0);
    assert_eq!(cfg.end(), 0);
    assert_eq!(cfg.push(q_tip(1), 0), Err(PtError::Invalid));
    assert_eq!(cfg.len(), 0);
    assert_eq!(cfg.push(q_marker(1), 16), Ok(()));
    assert_eq!(cfg.push(q_tip(2), 7), Ok(()));
    assert_eq!(cfg.push(Content::Fault { fault: Fault::BadOpc }, 1), Ok(()));
    assert_eq!(cfg.len(), 3);
    assert_eq!(cfg.end(), 24);
    assert_eq!(cfg.mtc_freq(), 2);
    assert_eq!(cfg.nom_freq(), 9);
    assert_eq!(cfg.slot(1), Slot { offset: 16, size: 7, content: q_tip(2) });
    assert_eq!(cfg.offset_of(0), 0);
    assert_eq!(cfg.offset_of(2), 23);
    assert_eq!(cfg.offset_of(3), 24);
    assert_eq!(cfg.index_of(0), Some(0));
    assert_eq!(cfg.index_of(16), Some(1));
    assert_eq!(cfg.index_of(23), Some(2));
    assert_eq!(cfg.index_of(24), None);
    assert_eq!(cfg.index_of(15), None);
    assert_eq!(cfg.index_of(17), None);
    assert_eq!(cfg.slot(0).classify(), Class::Marker);
    assert_eq!(cfg.slot(1).classify(), Class::Target);
    assert_eq!(cfg.slot(2).classify(), Class::Broken);
    let d = QueryDecoder::new(&cfg).unwrap();
    assert_eq!(d.config().unwrap().len(), 3);
}

#[test]
fn a_trace_cannot_outgrow_its_offsets() {
    let mut cfg = Config::new(0, 0);
    let mut pushed: u64 = 0;
    while pushed < 300 {
        assert_eq!(cfg.push(q_packet(Packet::Pad), 255), Ok(()));
        pushed += 1;
    }
    assert_eq!(cfg.end(), 300 * 255);
    assert_eq!(cfg.index_of(255 * 299), Some(299));
    assert_eq!(cfg.index_of(255 * 299 + 1), None);
}

#[test]
fn slots_are_classified() {
    let at = |content: Content| Slot { offset: 0, size: 1, content }.classify();
    assert_eq!(at(q_marker(0)), Class::Marker);
    assert_eq!(at(q_tnt(0, 1)), Class::Branches);
    assert_eq!(at(q_tip(0)), Class::Target);
    assert_eq!(at(q_event(EventKind::Stall)), Class::Side);
    assert_eq!(at(q_packet(Packet::Tsc { tsc: 0 })), Class::Timing);
    assert_eq!(at(q_packet(Packet::Mtc { ticks: 0 })), Class::Timing);
    assert_eq!(at(q_packet(Packet::Cyc { cycles: 0 })), Class::Timing);
    assert_eq!(at(q_packet(Packet::Pad)), Class::Filler);
    assert_eq!(at(Content::Fault { fault: Fault::BadPacket }), Class::Broken);
}

#[test]
fn address_spaces() {
    let any = Asid::new(None, None);
    let a = Asid::new(Some(1), None);
    let b = Asid::new(Some(2), None);
    let av = Asid::new(Some(1), Some(9));
    assert!(any.matches(&a));
    assert!(any.matches(&any));
    assert!(a.matches(&av));
    assert!(!av.matches(&a));
    assert!(!a.matches(&b));
    assert!(!a.matches(&any));
    assert!(a.may_share(&any));
    assert!(a.may_share(&av));
    assert!(av.may_share(&a));
    assert!(!a.may_share(&b));
    assert!(Asid::new(None, Some(3)).may_share(&a));
    assert!(!Asid::new(None, Some(3)).may_share(&av));
}

#[test]
fn a_search_forwards_starts_at_the_place() {
    let cfg = q_trace(0, 0, vec![(q_marker(0x100), 16), (q_marker(0x200), 16), (q_tip(0x210), 7)]);
    let mut d = QueryDecoder::new(&cfg).unwrap();
    assert_eq!(d.sync_forward(), Ok((0x100, q_quiet())));
    assert_eq!(d.offset(), Ok(32));
    assert_eq!(d.sync_forward(), Err(PtError::Eos));
    assert_eq!(d.sync_offset(), Ok(0));
    assert_eq!(d.offset(), Ok(32));
    assert_eq!(d.sync_set(16), Ok((0x200, q_quiet())));
    assert_eq!(d.sync_offset(), Ok(16));
    assert_eq!(d.sync_forward(), Err(PtError::Eos));
    assert_eq!(d.sync_backward(), Ok((0x100, q_quiet())));
}

#[test]
fn a_search_forwards_does_not_go_back() {
    let cfg = q_trace(
        0,
        0,
        vec![
            (q_marker(0x100), 16),
            (q_tip(0x110), 7),
            (q_marker(0x200), 16),
            (q_tnt(0b10, 2), 1),
            (q_marker(0x300), 16),
            (q_tip(0x310), 7),
        ],
    );
    let mut d = QueryDecoder::new(&cfg).unwrap();
    d.sync_forward().unwrap();
    assert_eq!(d.indirect_branch(), Ok((0x110, q_quiet())));
    assert_eq!(d.offset(), Ok(39));
    assert_eq!(d.cond_branch().unwrap().0, CondBranch::Taken);
    assert_eq!(d.offset(), Ok(39));
    assert_eq!(d.sync_forward(), Ok((0x300, q_quiet())));
    assert_eq!(d.sync_offset(), Ok(40));
    assert_eq!(d.offset(), Ok(56));
    assert_eq!(d.sync_forward(), Err(PtError::Eos));
}

#[test]
fn the_marker_in_use_lies_before_the_place() {
    let cfg = q_trace(
        0,
        0,
        vec![(q_packet(Packet::Pad), 3), (q_marker(0x100), 16), (q_tnt(1, 1), 1), (q_marker(0x200), 16)],
    );
    let mut d = QueryDecoder::new(&cfg).unwrap();
    d.sync_forward().unwrap();
    assert!(d.sync_offset().unwrap() < d.offset().unwrap());
    d.cond_branch().unwrap();
    assert_eq!(d.sync_offset(), Ok(3));
    assert_eq!(d.offset(), Ok(36));
    d.sync_backward().unwrap();
    assert!(d.sync_offset().unwrap() < d.offset().unwrap());
    d.sync_set(20).unwrap();
    assert_eq!(d.sync_offset(), Ok(20));
    assert_eq!(d.offset(), Ok(36));
}

#[test]
fn no_time_without_timing_packets() {
    let cfg = q_trace(
        0,
        0,
        vec![
            (q_marker(0x100), 16),
            (q_tnt(0b10, 2), 1),
            (q_event(EventKind::Cbr { ratio: 3 }), 4),
            (q_tip(0x110), 7),
            (q_packet(Packet::Mtc { ticks: 1 }), 2),
            (q_tip(0x120), 7),
        ],
    );
    let mut d = QueryDecoder::new(&cfg).unwrap();
    let nothing = Err(PtError::NoTime { time: 0, lost_mtc: 0, lost_cyc: 0 });
    d.sync_forward().unwrap();
    assert_eq!(d.time(), nothing);
    d.cond_branch().unwrap();
    assert_eq!(d.time(), nothing);
    d.cond_branch().unwrap();
    assert_eq!(d.time(), nothing);
    d.event().unwrap();
    assert_eq!(d.time(), nothing);
    d.indirect_branch().unwrap();
    assert_eq!(d.time(), Err(PtError::NoTime { time: 0, lost_mtc: 1, lost_cyc: 0 }));
}

#[test]
fn a_ratio_is_known_once_its_report_is_reached() {
    let cfg = q_trace(
        0,
        0,
        vec![
            (q_marker(0x100), 16),
            (q_event(EventKind::Stop), 2),
            (q_event(EventKind::Cbr { ratio: 0x14 }), 4),
            (q_tip(0x110), 7),
            (q_event(EventKind::Cbr { ratio: 0x20 }), 4),
        ],
    );
    let mut d = QueryDecoder::new(&cfg).unwrap();
    d.sync_forward().unwrap();
    assert_eq!(d.core_bus_ratio(), Err(PtError::NoCbr));
    assert_eq!(d.event().unwrap().0.kind, EventKind::Stop);
    assert_eq!(d.core_bus_ratio(), Ok(0x14));
    assert_eq!(d.event().unwrap().0.kind, EventKind::Cbr { ratio: 0x14 });
    assert_eq!(d.core_bus_ratio(), Ok(0x14));
    assert_eq!(d.indirect_branch(), Ok((0x110, Status::new(true, false))));
    assert_eq!(d.core_bus_ratio(), Ok(0x20));
    assert_eq!(d.event().unwrap().0.kind, EventKind::Cbr { ratio: 0x20 });
    assert_eq!(d.core_bus_ratio(), Ok(0x20));
}
