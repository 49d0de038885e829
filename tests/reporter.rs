use jack_midi_sink::decoder::decode;
use jack_midi_sink::event::{ChannelMessage, DecodeFailure, DecodeOutcome, MidiEvent};
use jack_midi_sink::reporter::{on_cycle, Control, RawMidiFrame, Report, ReportQueue};

fn frame(timestamp: u32, bytes: &[u8]) -> RawMidiFrame<'_> {
    RawMidiFrame { timestamp, bytes }
}

fn drain<const N: usize>(q: &mut ReportQueue<N>) -> Vec<Report<N>> {
    let mut out = Vec::new();
    while let Some(r) = q.pop() {
        out.push(r);
    }
    out
}

#[test]
fn end_to_end_reports() {
    let mut q = ReportQueue::<16>::new(8);
    let frames = vec![frame(12, &[0x90, 0x3C, 0x40]), frame(20, &[0xB0, 0xFF])];
    assert_eq!(on_cycle(&frames, &mut q), Control::Continue);
    let reports = drain(&mut q);
    assert_eq!(reports.len(), 2);
    assert_eq!(reports[0].timestamp(), 12);
    assert_eq!(
        reports[0].outcome(),
        DecodeOutcome::Decoded(
            MidiEvent { channel: 0, message: ChannelMessage::NoteOn { note: 60, velocity: 64 } },
            3
        )
    );
    assert_eq!(reports[0].raw(), &[0x90, 0x3c, 0x40]);
    assert_eq!(reports[1].timestamp(), 20);
    assert_eq!(reports[1].outcome(), DecodeOutcome::Failed(DecodeFailure::Truncated));
    assert_eq!(reports[1].raw(), &[0xB0, 0xFF]);
    assert_eq!(q.dropped(), 0);
}

#[test]
fn reports_come_in_frame_order() {
    let mut q = ReportQueue::<16>::new(8);
    let frames = vec![frame(1, &[0xC0, 1]), frame(2, &[0x01]), frame(3, &[0x80, 2, 3])];
    on_cycle(&frames, &mut q);
    let reports = drain(&mut q);
    let stamps: Vec<u32> = reports.iter().map(|r| r.timestamp()).collect();
    assert_eq!(stamps, vec![1, 2, 3]);
    for (r, f) in reports.iter().zip(frames.iter()) {
        assert_eq!(r.outcome(), decode(f.bytes));
        assert_eq!(r.raw(), f.bytes);
    }
}

#[test]
fn order_is_kept_across_cycles() {
    let mut q = ReportQueue::<16>::new(8);
    on_cycle(&[frame(5, &[0x90, 1, 1])], &mut q);
    on_cycle(&[frame(0, &[0x90, 2, 2]), frame(3, &[0x90, 3, 3])], &mut q);
    let stamps: Vec<u32> = drain(&mut q).iter().map(|r| r.timestamp()).collect();
    assert_eq!(stamps, vec![5, 0, 3]);
}

#[test]
fn full_queue_drops_newest_without_blocking() {
    let mut q = ReportQueue::<16>::new(2);
    let bytes = [0x90u8, 0x3C, 0x40];
    let frames: Vec<RawMidiFrame> = (0..1000u32).map(|t| frame(t, &bytes)).collect();
    assert_eq!(on_cycle(&frames, &mut q), Control::Continue);
    assert_eq!(q.len(), 2);
    assert_eq!(q.dropped(), 998);
    assert_eq!(on_cycle(&frames, &mut q), Control::Continue);
    assert_eq!(q.len(), 2);
    assert_eq!(q.dropped(), 1998);
    let stamps: Vec<u32> = drain(&mut q).iter().map(|r| r.timestamp()).collect();
    assert_eq!(stamps, vec![0, 1]);
}

#[test]
fn zero_capacity_queue_drops_everything() {
    let mut q = ReportQueue::<16>::new(0);
    on_cycle(&[frame(0, &[0x90, 1, 2]), frame(1, &[])], &mut q);
    assert_eq!(q.len(), 0);
    assert_eq!(q.dropped(), 2);
    assert!(q.pop().is_none());
}

#[test]
fn empty_cycle_changes_nothing() {
    let mut q = ReportQueue::<16>::new(4);
    assert_eq!(on_cycle(&[], &mut q), Control::Continue);
    assert_eq!(q.len(), 0);
    assert_eq!(q.dropped(), 0);
    assert_eq!(q.capacity(), 4);
}

#[test]
fn push_and_pop_directly() {
    let mut q = ReportQueue::<16>::new(1);
    assert!(q.try_push(Report::<16>::from_frame(&frame(7, &[]))));
    assert!(!q.try_push(Report::<16>::from_frame(&frame(8, &[]))));
    assert_eq!(q.dropped(), 1);
    let out = q.pop().unwrap();
    assert_eq!(out.timestamp(), 7);
    assert_eq!(out.outcome(), DecodeOutcome::Failed(DecodeFailure::EmptyFrame));
    assert_eq!(out.raw(), &[] as &[u8]);
    assert!(q.pop().is_none());
}

#[test]
fn long_frame_is_reported_whole() {
    let sysex: Vec<u8> = (0..40u8).map(|b| if b == 0 { 0xF0 } else { b }).collect();
    let r = Report::<64>::from_frame(&frame(9, &sysex));
    assert_eq!(r.raw(), &sysex[..]);
    assert_eq!(r.outcome(), DecodeOutcome::Failed(DecodeFailure::UnsupportedStatus));
    let mut q = ReportQueue::<64>::new(4);
    on_cycle(&[frame(9, &sysex)], &mut q);
    let reports = drain(&mut q);
    assert_eq!(reports.len(), 1);
    assert_eq!(reports[0].raw(), &sysex[..]);
}

#[test]
fn frame_that_fills_the_buffer_exactly() {
    let exact: Vec<u8> = vec![0x10; 16];
    let r = Report::<16>::from_frame(&frame(1, &exact));
    assert_eq!(r.raw(), &exact[..]);
    assert_eq!(r.outcome(), DecodeOutcome::Failed(DecodeFailure::UnexpectedDataByte));
}

#[test]
fn frame_longer_than_the_buffer_is_dropped_and_counted() {
    let long: Vec<u8> = vec![0xF0; 5];
    let mut q = ReportQueue::<4>::new(8);
    let frames = vec![frame(1, &[0x90, 1, 2]), frame(2, &long), frame(3, &[0xC0, 4])];
    assert_eq!(on_cycle(&frames, &mut q), Control::Continue);
    assert_eq!(q.dropped(), 1);
    let reports = drain(&mut q);
    let stamps: Vec<u32> = reports.iter().map(|r| r.timestamp()).collect();
    assert_eq!(stamps, vec![1, 3]);
    assert_eq!(reports[1].raw(), &[0xC0, 4]);
}
