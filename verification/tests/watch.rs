use mail_triage::watch::{
    fetch_query, inbox_name, LoopAction, LoopEvent, LoopState, ScanRequest, Watermark,
};

fn mark(next_expected_uid: u32, mailbox_generation: u32) -> Watermark {
    Watermark { next_expected_uid, mailbox_generation }
}

fn scan(range_start: u32, force: bool, watermark: u32) -> LoopAction {
    LoopAction::Scan(ScanRequest { range_start, force, watermark })
}

#[test]
fn the_loop_sweeps_once_and_then_waits() {
    let state = LoopState::start();
    assert_eq!(state, LoopState::Bootstrapping);
    assert_eq!(state.action(), LoopAction::SelectInbox);
    assert_eq!(state.watermark(), None);
    let state = state.on(LoopEvent::InboxSelected { generation: 7 }).unwrap();
    assert_eq!(state, LoopState::FullScan { watermark: mark(0, 7) });
    assert_eq!(state.action(), scan(1, true, 1));
    let state = state.on(LoopEvent::ScanFinished { watermark: 50 }).unwrap();
    assert_eq!(state, LoopState::Idling { watermark: mark(0, 7) });
    assert_eq!(state.action(), LoopAction::WaitForChange);
}

#[test]
fn after_a_wait_the_loop_scans_from_the_watermark() {
    let state = LoopState::Idling { watermark: mark(12, 7) };
    let state = state.on(LoopEvent::Changed).unwrap();
    assert_eq!(state, LoopState::Resuming { watermark: mark(12, 7) });
    assert_eq!(state.action(), LoopAction::SelectInbox);
    let state = state.on(LoopEvent::InboxSelected { generation: 7 }).unwrap();
    assert_eq!(state, LoopState::Scanning { watermark: mark(12, 7) });
    assert_eq!(state.action(), scan(12, false, 12));
    let state = state.on(LoopEvent::ScanFinished { watermark: 15 }).unwrap();
    assert_eq!(state, LoopState::Idling { watermark: mark(15, 7) });
    assert_eq!(state.watermark(), Some(mark(15, 7)));
}

#[test]
fn a_new_generation_resets_the_watermark() {
    for prior in [0, 1, 12, u32::MAX] {
        let state = LoopState::Resuming { watermark: mark(prior, 7) };
        let state = state.on(LoopEvent::InboxSelected { generation: 8 }).unwrap();
        assert_eq!(state, LoopState::Scanning { watermark: mark(0, 8) });
        assert_eq!(state.action(), scan(0, false, 0));
        let state = state.on(LoopEvent::ScanFinished { watermark: 4 }).unwrap();
        assert_eq!(state, LoopState::Idling { watermark: mark(4, 8) });
    }
}

#[test]
fn an_event_that_answers_nothing_is_refused() {
    let w = mark(3, 1);
    let selected = LoopEvent::InboxSelected { generation: 1 };
    let finished = LoopEvent::ScanFinished { watermark: 5 };
    assert_eq!(LoopState::Bootstrapping.on(finished), None);
    assert_eq!(LoopState::Bootstrapping.on(LoopEvent::Changed), None);
    assert_eq!(LoopState::FullScan { watermark: w }.on(selected), None);
    assert_eq!(LoopState::FullScan { watermark: w }.on(LoopEvent::Changed), None);
    assert_eq!(LoopState::Idling { watermark: w }.on(selected), None);
    assert_eq!(LoopState::Idling { watermark: w }.on(finished), None);
    assert_eq!(LoopState::Resuming { watermark: w }.on(finished), None);
    assert_eq!(LoopState::Resuming { watermark: w }.on(LoopEvent::Changed), None);
    assert_eq!(LoopState::Scanning { watermark: w }.on(selected), None);
    assert_eq!(LoopState::Scanning { watermark: w }.on(LoopEvent::Changed), None);
}

#[test]
fn a_scan_request_writes_its_uid_range() {
    assert_eq!(ScanRequest { range_start: 1, force: true, watermark: 1 }.range(), "1:*");
    assert_eq!(ScanRequest { range_start: 0, force: false, watermark: 0 }.range(), "0:*");
    assert_eq!(ScanRequest { range_start: 1204, force: false, watermark: 1204 }.range(), "1204:*");
    assert_eq!(
        ScanRequest { range_start: u32::MAX, force: false, watermark: 0 }.range(),
        "4294967295:*"
    );
}

#[test]
fn the_loop_watches_the_inbox_and_fetches_headers() {
    assert_eq!(inbox_name(), "INBOX");
    assert_eq!(fetch_query(), "(UID RFC822.HEADER)");
}
