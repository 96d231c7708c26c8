//! End-to-end and component tests of the capture pipeline.

use diegesis::arena::{Arena, BlockKind};
use diegesis::channel::{CaptureChannel, CaptureState, PollOutcome};
use diegesis::drain::{apply_write_outcome, WriteOutcome};
use diegesis::encoder::{decode_record_frame, encode_step, EncodeOutcome, WORST_FRAME_BYTES};
use diegesis::framing::find_terminator;
use diegesis::profiler::Profiler;
use diegesis::queue::{Report, ReportQueue};
use diegesis::ring::ByteRing;

fn pump(ch: &mut CaptureChannel, arena: &mut Arena, queue: &mut ReportQueue, prof: &mut Profiler,
        tripped: bool, now: u32, data: &[u8]) -> PollOutcome {
    ch.poll(arena, queue, prof, tripped, now, &data.to_vec())
}

#[test]
fn arena_never_double_allocates() {
    let mut arena = Arena::new(3, 1);
    let mut held = Vec::new();
    for _ in 0..3 {
        held.push(arena.allocate(BlockKind::Digital).expect("block free"));
    }
    assert!(arena.allocate(BlockKind::Digital).is_none());
    // Digital exhaustion does not starve the analog family.
    let analog = arena.allocate(BlockKind::Analog).expect("analog free");
    assert!(arena.allocate(BlockKind::Analog).is_none());
    // All handed-out digital blocks are distinct slots.
    for i in 0..held.len() {
        for j in 0..held.len() {
            if i != j {
                assert_ne!(held[i].id, held[j].id);
            }
        }
    }
    // Releasing makes the slot allocatable again — and only then.
    let freed = held.pop().unwrap();
    let freed_id = freed.id;
    arena.release(freed);
    let again = arena.allocate(BlockKind::Digital).expect("released block is free again");
    assert_eq!(again.id, freed_id);
    arena.release(analog);
    assert_eq!(arena.free_count(BlockKind::Analog), 1);
}

#[test]
fn queue_bound_counts_every_excess_push() {
    let mut arena = Arena::new(4, 0);
    let mut queue = ReportQueue::new(2);
    let mut dropped = 0u32;
    for i in 0..4 {
        let block = arena.allocate(BlockKind::Digital).expect("free");
        let report = Report { channel_id: i, timestamp: i as u32, length: 0, block };
        match queue.push(report) {
            Ok(()) => {}
            Err(back) => {
                dropped += 1;
                arena.release(back.block);
            }
        }
    }
    assert_eq!(queue.len(), 2);
    assert_eq!(dropped, 2);
    // FIFO order of what was accepted.
    assert_eq!(queue.pop().unwrap().channel_id, 0);
    assert_eq!(queue.pop().unwrap().channel_id, 1);
    assert!(queue.pop().is_none());
}

#[test]
fn scenario_empty_arena_drops_event_and_stays_idle() {
    let mut arena = Arena::new(0, 0);
    let mut queue = ReportQueue::new(4);
    let mut prof = Profiler::new();
    let mut ch = CaptureChannel::new(0, BlockKind::Digital);
    let out = pump(&mut ch, &mut arena, &mut queue, &mut prof, false, 7, &[]);
    assert_eq!(out, PollOutcome::SkippedNoBlock);
    assert!(matches!(ch.state, CaptureState::Idle));
    assert_eq!(prof.alloc_failures, 1);
    assert_eq!(queue.len(), 0);
}

#[test]
fn scenario_full_queue_releases_block_and_counts_drop() {
    let mut arena = Arena::new(3, 0);
    let mut queue = ReportQueue::new(0);
    let mut prof = Profiler::new();
    let mut ch = CaptureChannel::new(1, BlockKind::Digital);
    assert_eq!(pump(&mut ch, &mut arena, &mut queue, &mut prof, false, 1, &[]), PollOutcome::Started);
    assert_eq!(pump(&mut ch, &mut arena, &mut queue, &mut prof, false, 2, &[]), PollOutcome::Queued);
    assert!(matches!(ch.state, CaptureState::TwoPending(_, _)));
    assert_eq!(arena.free_count(BlockKind::Digital), 1);
    // A completion against the full queue: the report is dropped, its block
    // goes straight back to the arena, and the drop is counted.
    let out = pump(&mut ch, &mut arena, &mut queue, &mut prof, false, 3, &[1, 2, 3]);
    assert_eq!(out, PollOutcome::Completed { pushed: false });
    assert_eq!(prof.queue_full_drops, 1);
    assert_eq!(queue.len(), 0);
    // A replacement was taken and the completed block came back: still one
    // block free, two in flight.
    assert!(matches!(ch.state, CaptureState::TwoPending(_, _)));
    assert_eq!(arena.free_count(BlockKind::Digital), 1);
}

#[test]
fn scenario_stop_drains_two_pending_channels() {
    let mut arena = Arena::new(4, 0);
    let mut queue = ReportQueue::new(8);
    let mut prof = Profiler::new();
    let mut ring = ByteRing::new(65536);
    let mut ch1 = CaptureChannel::new(0, BlockKind::Digital);
    let mut ch2 = CaptureChannel::new(1, BlockKind::Digital);
    for ch in [&mut ch1, &mut ch2] {
        assert_eq!(pump(ch, &mut arena, &mut queue, &mut prof, false, 0, &[]), PollOutcome::Started);
        assert_eq!(pump(ch, &mut arena, &mut queue, &mut prof, false, 1, &[]), PollOutcome::Queued);
        assert!(matches!(ch.state, CaptureState::TwoPending(_, _)));
    }
    assert_eq!(arena.free_count(BlockKind::Digital), 0);
    // Fuse trips: each channel finishes its two in-flight transfers,
    // producing two more reports each, then quiesces.
    for ch in [&mut ch1, &mut ch2] {
        assert_eq!(
            pump(ch, &mut arena, &mut queue, &mut prof, true, 100, &[42]),
            PollOutcome::Completed { pushed: true }
        );
        assert!(matches!(ch.state, CaptureState::OnePending(_)));
        assert_eq!(
            pump(ch, &mut arena, &mut queue, &mut prof, true, 101, &[43]),
            PollOutcome::Completed { pushed: true }
        );
        assert!(matches!(ch.state, CaptureState::Idle));
        // Further events while tripped start nothing.
        assert_eq!(pump(ch, &mut arena, &mut queue, &mut prof, true, 102, &[]), PollOutcome::HeldByFuse);
        assert!(matches!(ch.state, CaptureState::Idle));
    }
    assert_eq!(queue.len(), 4);
    // Draining the queue returns every block to the arena.
    for _ in 0..4 {
        assert_eq!(encode_step(&mut queue, &mut ring, &mut arena, &mut prof), EncodeOutcome::Encoded);
    }
    assert_eq!(encode_step(&mut queue, &mut ring, &mut arena, &mut prof), EncodeOutcome::Idle);
    assert_eq!(arena.free_count(BlockKind::Digital), 4);
    assert_eq!(prof.reports_encoded, 4);
}

#[test]
fn zero_length_completion_still_reports() {
    let mut arena = Arena::new(1, 0);
    let mut queue = ReportQueue::new(2);
    let mut prof = Profiler::new();
    let mut ch = CaptureChannel::new(3, BlockKind::Digital);
    assert_eq!(pump(&mut ch, &mut arena, &mut queue, &mut prof, false, 1, &[]), PollOutcome::Started);
    // Fuse tripped: the single in-flight transfer completes empty.
    assert_eq!(
        pump(&mut ch, &mut arena, &mut queue, &mut prof, true, 2, &[]),
        PollOutcome::Completed { pushed: true }
    );
    let report = queue.pop().expect("report queued");
    assert_eq!(report.length, 0);
    assert_eq!(report.channel_id, 3);
    assert_eq!(report.timestamp, 2);
    arena.release(report.block);
}

#[test]
fn faulted_channel_ignores_events_and_returns_blocks() {
    let mut arena = Arena::new(2, 0);
    let mut queue = ReportQueue::new(2);
    let mut prof = Profiler::new();
    let mut ch = CaptureChannel::new(0, BlockKind::Digital);
    pump(&mut ch, &mut arena, &mut queue, &mut prof, false, 1, &[]);
    pump(&mut ch, &mut arena, &mut queue, &mut prof, false, 2, &[]);
    assert_eq!(arena.free_count(BlockKind::Digital), 0);
    ch.fault(&mut arena);
    assert!(matches!(ch.state, CaptureState::Faulted));
    assert_eq!(arena.free_count(BlockKind::Digital), 2);
    assert_eq!(pump(&mut ch, &mut arena, &mut queue, &mut prof, false, 3, &[]), PollOutcome::Faulted);
    assert!(matches!(ch.state, CaptureState::Faulted));
}

#[test]
fn encoder_backpressure_drops_and_counts_when_ring_is_full() {
    let mut arena = Arena::new(1, 0);
    let mut queue = ReportQueue::new(2);
    let mut prof = Profiler::new();
    let mut ring = ByteRing::new(WORST_FRAME_BYTES - 1);
    let block = arena.allocate(BlockKind::Digital).unwrap();
    queue.push(Report { channel_id: 0, timestamp: 0, length: 4, block }).ok().unwrap();
    assert_eq!(encode_step(&mut queue, &mut ring, &mut arena, &mut prof), EncodeOutcome::RingFull);
    assert_eq!(prof.ring_full_drops, 1);
    assert_eq!(ring.len(), 0);
    assert_eq!(queue.len(), 0);
    assert_eq!(arena.free_count(BlockKind::Digital), 1);
}

#[test]
fn drain_consumes_only_confirmed_bytes() {
    let mut ring = ByteRing::new(WORST_FRAME_BYTES + 16);
    let mut prof = Profiler::new();
    assert!(ring.grant_and_commit(&vec![10, 20, 30, 40, 50], 5));
    // Partial write: only the accepted prefix is consumed.
    assert_eq!(apply_write_outcome(&mut ring, WriteOutcome::Wrote(2), &mut prof), Ok(2));
    assert_eq!(ring.peek(), vec![30, 40, 50]);
    // Would-block: nothing is consumed.
    assert_eq!(apply_write_outcome(&mut ring, WriteOutcome::WouldBlock, &mut prof), Ok(0));
    assert_eq!(ring.peek(), vec![30, 40, 50]);
    // Any other error is fatal and still consumes nothing.
    assert!(apply_write_outcome(&mut ring, WriteOutcome::Failed, &mut prof).is_err());
    assert_eq!(ring.peek(), vec![30, 40, 50]);
    // Full success drains the rest.
    assert_eq!(apply_write_outcome(&mut ring, WriteOutcome::Wrote(3), &mut prof), Ok(3));
    assert_eq!(ring.len(), 0);
    assert_eq!(prof.drained_bytes, 5);
    assert_eq!(prof.usb_writes, 2);
}

#[test]
fn captured_payload_travels_byte_exact_to_the_wire() {
    let mut arena = Arena::new(2, 0);
    let mut queue = ReportQueue::new(4);
    let mut prof = Profiler::new();
    let mut ring = ByteRing::new(65536);
    let mut ch = CaptureChannel::new(2, BlockKind::Digital);
    let mut payload: Vec<u8> = (0..=255u8).collect();
    payload.extend_from_slice(&[0, 0, 0, 7]);
    assert_eq!(pump(&mut ch, &mut arena, &mut queue, &mut prof, false, 5, &[]), PollOutcome::Started);
    assert_eq!(
        ch.poll(&mut arena, &mut queue, &mut prof, true, 99, &payload),
        PollOutcome::Completed { pushed: true }
    );
    assert_eq!(encode_step(&mut queue, &mut ring, &mut arena, &mut prof), EncodeOutcome::Encoded);
    let wire = ring.peek();
    let end = find_terminator(&wire).expect("frame is terminated");
    assert_eq!(end, wire.len() - 1);
    let record = decode_record_frame(&wire).expect("frame decodes");
    assert_eq!(record.channel_id, 2);
    assert_eq!(record.timestamp, 99);
    assert_eq!(record.payload, payload);
}

#[test]
fn profiler_snapshot_reads_and_resets() {
    let mut prof = Profiler::new();
    prof.count_channel_event();
    prof.count_channel_event();
    prof.count_alloc_failure();
    prof.count_encoded(120);
    prof.count_drained(64);
    prof.count_idle_loop();
    prof.add_capture_ticks(1000);
    let snap = prof.clear_and_report();
    assert_eq!(snap.channel_events, 2);
    assert_eq!(snap.alloc_failures, 1);
    assert_eq!(snap.reports_encoded, 1);
    assert_eq!(snap.encoded_bytes, 120);
    assert_eq!(snap.drained_bytes, 64);
    assert_eq!(snap.usb_writes, 1);
    assert_eq!(snap.idle_loop_iters, 1);
    assert_eq!(snap.ticks_capture, 1000);
    let zero = prof.clear_and_report();
    assert_eq!(zero.channel_events, 0);
    assert_eq!(zero.encoded_bytes, 0);
    assert_eq!(zero.ticks_capture, 0);
}
