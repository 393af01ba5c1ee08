use rawflash::flash::{FlashAction, FlashError, FlashEvent, FlashSession, Phase};

const MIB: usize = 1_048_576;

fn opened_session(block: usize, total: u64) -> FlashSession {
    let mut s = FlashSession::new(block);
    assert_eq!(s.step(FlashEvent::DeviceOpened), FlashAction::OpenSource);
    assert_eq!(s.step(FlashEvent::SourceOpened(total)), FlashAction::ReadBlock);
    s
}

#[test]
fn progress_for_two_and_a_half_mib() {
    let mut s = opened_session(MIB, 2_500_000);
    let mut reports = Vec::new();
    for n in [MIB, MIB, 2_500_000 - 2 * MIB] {
        assert_eq!(s.step(FlashEvent::BlockRead(n)), FlashAction::WriteBlock(n));
        match s.step(FlashEvent::BlockWritten(n as u32)) {
            FlashAction::ReportProgress(w, t) => reports.push((w, t)),
            other => panic!("unexpected action {:?}", other),
        }
    }
    assert_eq!(
        reports,
        vec![(1_048_576, 2_500_000), (2_097_152, 2_500_000), (2_500_000, 2_500_000)]
    );
    assert_eq!(s.step(FlashEvent::BlockRead(0)), FlashAction::CloseDevice);
    assert_eq!(s.step(FlashEvent::DeviceClosed), FlashAction::Exit);
    assert_eq!(s.phase, Phase::Done);
    assert_eq!(s.result, Ok(()));
}

#[test]
fn progress_count_is_ceiling_and_increasing() {
    let total: u64 = 10_000;
    let block: usize = 4096;
    let mut s = opened_session(block, total);
    let mut reports = Vec::new();
    let mut left = total as usize;
    while left > 0 {
        let n = left.min(block);
        assert_eq!(s.step(FlashEvent::BlockRead(n)), FlashAction::WriteBlock(n));
        if let FlashAction::ReportProgress(w, _) = s.step(FlashEvent::BlockWritten(n as u32)) {
            reports.push(w);
        }
        left -= n;
    }
    assert_eq!(reports.len(), 3);
    assert!(reports.windows(2).all(|p| p[0] < p[1]));
    assert_eq!(*reports.last().unwrap(), total);
    assert_eq!(s.step(FlashEvent::BlockRead(0)), FlashAction::CloseDevice);
}

#[test]
fn empty_source_reports_nothing() {
    let mut s = opened_session(MIB, 0);
    assert_eq!(s.step(FlashEvent::BlockRead(0)), FlashAction::CloseDevice);
    assert_eq!(s.step(FlashEvent::DeviceClosed), FlashAction::Exit);
    assert_eq!(s.result, Ok(()));
    assert_eq!(s.written, 0);
}

#[test]
fn open_failure_never_writes() {
    let mut s = FlashSession::new(MIB);
    assert_eq!(s.step(FlashEvent::DeviceOpenFailed(5)), FlashAction::Exit);
    assert_eq!(s.phase, Phase::Done);
    assert_eq!(s.result, Err(FlashError::Open(5)));
    assert_eq!(s.written, 0);
    assert!(!s.accepts_event(FlashEvent::BlockRead(1)));
    assert!(!s.accepts_event(FlashEvent::DeviceClosed));
}

#[test]
fn short_write_on_second_block_aborts() {
    let mut s = opened_session(MIB, 3 * MIB as u64);
    assert_eq!(s.step(FlashEvent::BlockRead(MIB)), FlashAction::WriteBlock(MIB));
    assert_eq!(
        s.step(FlashEvent::BlockWritten(MIB as u32)),
        FlashAction::ReportProgress(MIB as u64, 3 * MIB as u64)
    );
    assert_eq!(s.step(FlashEvent::BlockRead(MIB)), FlashAction::WriteBlock(MIB));
    assert_eq!(s.step(FlashEvent::BlockWritten(4096)), FlashAction::CloseDevice);
    assert_eq!(
        s.result,
        Err(FlashError::ShortWrite { requested: MIB, written: 4096 })
    );
    assert!(!s.accepts_event(FlashEvent::BlockRead(MIB)));
    assert!(s.accepts_event(FlashEvent::DeviceClosed));
    assert_eq!(s.step(FlashEvent::DeviceClosed), FlashAction::Exit);
    assert_eq!(s.written, MIB as u64);
    assert!(!s.accepts_event(FlashEvent::DeviceClosed));
}

#[test]
fn read_failure_is_fatal() {
    let mut s = opened_session(MIB, 100);
    assert_eq!(s.step(FlashEvent::ReadFailed), FlashAction::CloseDevice);
    assert_eq!(s.result, Err(FlashError::SourceIo));
}

#[test]
fn source_failure_releases_device() {
    let mut s = FlashSession::new(MIB);
    s.step(FlashEvent::DeviceOpened);
    assert_eq!(s.step(FlashEvent::SourceFailed), FlashAction::CloseDevice);
    assert_eq!(s.result, Err(FlashError::SourceIo));
}

#[test]
fn device_write_failure_is_fatal() {
    let mut s = opened_session(16, 100);
    s.step(FlashEvent::BlockRead(16));
    assert_eq!(s.step(FlashEvent::WriteFailed(31)), FlashAction::CloseDevice);
    assert_eq!(s.result, Err(FlashError::DeviceWrite(31)));
}

#[test]
fn counter_overflow_is_reported() {
    let mut s = opened_session(16, u64::MAX);
    s.written = u64::MAX - 4;
    assert_eq!(s.step(FlashEvent::BlockRead(5)), FlashAction::CloseDevice);
    assert_eq!(s.result, Err(FlashError::CounterOverflow));
}

#[test]
fn oversized_read_is_not_accepted() {
    let s = opened_session(16, 100);
    assert!(!s.accepts_event(FlashEvent::BlockRead(17)));
    assert!(s.accepts_event(FlashEvent::BlockRead(16)));
}

#[test]
fn same_events_give_same_writes() {
    let run = || {
        let mut s = opened_session(4, 10);
        let mut actions = Vec::new();
        for n in [4usize, 4, 2] {
            actions.push(s.step(FlashEvent::BlockRead(n)));
            actions.push(s.step(FlashEvent::BlockWritten(n as u32)));
        }
        actions.push(s.step(FlashEvent::BlockRead(0)));
        actions
    };
    assert_eq!(run(), run());
}
