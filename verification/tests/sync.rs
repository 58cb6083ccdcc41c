use mail_triage::classify::Rules;
use mail_triage::header::{ExtractError, HeaderName};
use mail_triage::mover::{MoveCapability, MoveError, MoveQueue, MoveRequest};
use mail_triage::pattern::PatternSet;
use mail_triage::sync::{
    advance_watermark, collect, extract_message, move_request, plan_moves, process_all,
    process_bulk, process_mail, watermark_fits, DispatchError, FetchedMessage, ScanError,
    SyncError,
};

fn my_domain() -> PatternSet {
    PatternSet::compile(&vec!["@mydomain\\.com$".to_string()]).unwrap()
}

fn rules() -> Rules {
    Rules::standard(vec!["me".to_string()])
}

fn message(uid: u32, from: &str, to: &str) -> FetchedMessage {
    let raw = format!("From: {from}\r\nTo: {to}\r\nSubject: s{uid}\r\nDate: now\r\n\r\n");
    FetchedMessage { uid: Some(uid), header: Some(raw.into_bytes()) }
}

fn inbox() -> Vec<FetchedMessage> {
    vec![
        message(3, "alice@uos.ac.kr", "me@mydomain.com"),
        message(4, "bob@other.com", "me@mydomain.com"),
        message(7, "carol@other.com", "extra@mydomain.com"),
        message(9, "dave@other.com", "someone@elsewhere.org"),
    ]
}

fn request(uid: &str, destination: &str) -> MoveRequest {
    MoveRequest { uid: uid.to_string(), destination: destination.to_string() }
}

fn uids_of(messages: &Vec<FetchedMessage>, force: bool, watermark: u32) -> (Vec<u32>, u32) {
    let batch = collect(messages, 1, force, watermark, &my_domain()).unwrap();
    (batch.headers.iter().map(|h| h.uid()).collect(), batch.watermark)
}

/// A session that refuses the move with the given number, counted from one.
struct Failing {
    seen: Vec<MoveRequest>,
    fail_at: usize,
}

impl MoveCapability for Failing {
    fn move_mail(&mut self, uid: String, destination: &str) -> Result<(), MoveError> {
        self.seen.push(MoveRequest { uid, destination: destination.to_string() });
        if self.seen.len() == self.fail_at {
            Err(MoveError::Copy)
        } else {
            Ok(())
        }
    }
}

#[test]
fn advance_watermark_moves_past_a_uid() {
    assert_eq!(advance_watermark(0, 0), 1);
    assert_eq!(advance_watermark(5, 5), 6);
    assert_eq!(advance_watermark(5, 9), 10);
    assert_eq!(advance_watermark(10, 3), 10);
    assert_eq!(advance_watermark(10, 9), 10);
    assert_eq!(advance_watermark(0, u32::MAX - 1), u32::MAX);
}

#[test]
fn a_forced_pass_takes_every_message_with_a_uid() {
    assert_eq!(uids_of(&inbox(), true, 1), (vec![3, 4, 7, 9], 10));
    assert_eq!(uids_of(&inbox(), true, 100), (vec![3, 4, 7, 9], 100));
    assert_eq!(uids_of(&Vec::new(), true, 1), (vec![], 1));
}

#[test]
fn an_unforced_pass_takes_what_is_not_below_the_watermark() {
    assert_eq!(uids_of(&inbox(), false, 0), (vec![3, 4, 7, 9], 10));
    assert_eq!(uids_of(&inbox(), false, 4), (vec![4, 7, 9], 10));
    assert_eq!(uids_of(&inbox(), false, 5), (vec![7, 9], 10));
    assert_eq!(uids_of(&inbox(), false, 9), (vec![9], 10));
    assert_eq!(uids_of(&inbox(), false, 10), (vec![], 10));
    assert_eq!(uids_of(&inbox(), false, 50), (vec![], 50));
}

#[test]
fn a_second_pass_over_the_same_fetch_finds_nothing() {
    for start in [0, 4, 8, 20] {
        let (_, reached) = uids_of(&inbox(), false, start);
        assert_eq!(uids_of(&inbox(), false, reached), (vec![], reached));
    }
    let (_, reached) = uids_of(&inbox(), true, 1);
    assert_eq!(uids_of(&inbox(), false, reached), (vec![], reached));
}

#[test]
fn what_is_left_of_a_fetch_holds_nothing_new() {
    let (_, reached) = uids_of(&inbox(), false, 0);
    let mut left = inbox();
    left.remove(2);
    left.remove(0);
    assert_eq!(uids_of(&left, false, reached), (vec![], reached));
    left.reverse();
    assert_eq!(uids_of(&left, false, reached), (vec![], reached));
}

#[test]
fn a_pass_from_zero_is_a_full_pass() {
    for watermark in [0, 1, 5, 1000] {
        assert_eq!(uids_of(&inbox(), false, 0).0, uids_of(&inbox(), true, watermark).0);
    }
}

#[test]
fn the_watermark_fits_unless_a_new_message_has_the_highest_uid() {
    let top = vec![message(5, "a@b.c", "x@y.z"), message(u32::MAX, "a@b.c", "x@y.z")];
    assert!(watermark_fits(&inbox(), true, 1));
    assert!(watermark_fits(&inbox(), false, u32::MAX));
    assert!(watermark_fits(&Vec::new(), true, u32::MAX));
    assert!(!watermark_fits(&top, true, 1));
    assert!(!watermark_fits(&top, false, 0));
    assert!(!watermark_fits(&top, false, u32::MAX));
    let below = vec![message(u32::MAX - 1, "a@b.c", "x@y.z")];
    assert!(watermark_fits(&below, true, 1));
    assert_eq!(uids_of(&below, true, 1), (vec![u32::MAX - 1], u32::MAX));
    let unseen = vec![message(u32::MAX, "a@b.c", "x@y.z")];
    assert!(!watermark_fits(&unseen, false, u32::MAX));
}

#[test]
fn each_message_is_judged_against_the_watermark_so_far() {
    let messages = vec![
        message(7, "a@other.com", "me@mydomain.com"),
        message(3, "b@other.com", "me@mydomain.com"),
        message(7, "c@other.com", "me@mydomain.com"),
        message(8, "d@other.com", "me@mydomain.com"),
    ];
    assert_eq!(uids_of(&messages, false, 0), (vec![7, 8], 9));
    assert_eq!(uids_of(&messages, true, 0), (vec![7, 3, 7, 8], 9));
}

#[test]
fn a_message_without_a_uid_is_passed_over() {
    let mut messages = inbox();
    messages.insert(1, FetchedMessage { uid: None, header: None });
    messages.push(FetchedMessage { uid: None, header: Some(b"garbage".to_vec()) });
    assert_eq!(uids_of(&messages, true, 1), (vec![3, 4, 7, 9], 10));
    assert_eq!(uids_of(&messages, false, 0), (vec![3, 4, 7, 9], 10));
}

#[test]
fn collect_makes_the_record_of_each_new_message() {
    let batch = collect(&inbox(), 21, false, 7, &my_domain()).unwrap();
    assert_eq!(batch.watermark, 10);
    assert_eq!(batch.headers.len(), 2);
    assert_eq!(batch.headers[0].uid(), 7);
    assert_eq!(batch.headers[0].id().mailbox_generation, 21);
    assert_eq!(batch.headers[0].from_address(), "carol@other.com");
    assert_eq!(batch.headers[0].to_address(), "extra@mydomain.com");
    assert_eq!(batch.headers[0].subject(), "s7");
    assert_eq!(batch.headers[1].uid(), 9);
    assert_eq!(batch.headers[1].to_address(), "");
}

#[test]
fn collect_ends_at_the_first_message_without_a_record() {
    let mut messages = inbox();
    messages[1] = FetchedMessage { uid: Some(4), header: None };
    messages[2] = FetchedMessage { uid: Some(7), header: Some(b"Subject: s\n\n".to_vec()) };
    assert_eq!(
        collect(&messages, 1, true, 1, &my_domain()).err(),
        Some(ScanError { uid: 4, cause: ExtractError::NoHeaderBlock })
    );
    assert_eq!(
        collect(&messages, 1, false, 5, &my_domain()).err(),
        Some(ScanError { uid: 7, cause: ExtractError::MissingHeader(HeaderName::From) })
    );
    assert_eq!(collect(&messages, 1, false, 8, &my_domain()).unwrap().watermark, 10);
}

#[test]
fn extract_message_needs_a_header_block() {
    let p = my_domain();
    let bare = FetchedMessage { uid: Some(4), header: None };
    assert_eq!(extract_message(&bare, 1, &p).err(), Some(ExtractError::NoHeaderBlock));
    let header = extract_message(&message(4, "a@b.c", "me@mydomain.com"), 6, &p).unwrap();
    assert_eq!(header.uid(), 4);
    assert_eq!(header.id().mailbox_generation, 6);
}

#[test]
fn move_request_is_the_move_that_the_rules_decide_on() {
    let batch = collect(&inbox(), 1, true, 1, &my_domain()).unwrap();
    assert_eq!(move_request(&batch.headers[0], &rules()), Some(request("3", "UOS")));
    assert_eq!(move_request(&batch.headers[1], &rules()), None);
    assert_eq!(move_request(&batch.headers[2], &rules()), Some(request("7", "Special/extra")));
    assert_eq!(move_request(&batch.headers[3], &rules()), Some(request("9", "Cc")));
}

#[test]
fn plan_moves_lists_the_moves_in_the_order_of_the_batch() {
    let batch = collect(&inbox(), 1, true, 1, &my_domain()).unwrap();
    assert_eq!(
        plan_moves(&batch.headers, &rules()),
        vec![request("3", "UOS"), request("7", "Special/extra"), request("9", "Cc")]
    );
    assert_eq!(plan_moves(&Vec::new(), &rules()), Vec::new());
    let batch = collect(&inbox(), 1, false, 4, &my_domain()).unwrap();
    let everyone = Rules::standard(vec!["me".to_string(), "extra".to_string()]);
    assert_eq!(plan_moves(&batch.headers, &everyone), vec![request("9", "Cc")]);
}

#[test]
fn process_mail_asks_for_the_move_that_the_rules_decide_on() {
    let batch = collect(&inbox(), 1, true, 1, &my_domain()).unwrap();
    let mut session = MoveQueue::new();
    assert_eq!(process_mail(&mut session, &batch.headers[0], &rules()), Ok(()));
    assert_eq!(session.pending, vec![request("3", "UOS")]);
    assert_eq!(process_mail(&mut session, &batch.headers[1], &rules()), Ok(()));
    assert_eq!(session.pending, vec![request("3", "UOS")]);
    assert_eq!(process_mail(&mut session, &batch.headers[2], &rules()), Ok(()));
    assert_eq!(
        session.pending,
        vec![request("3", "UOS"), request("7", "Special/extra")]
    );
}

#[test]
fn process_mail_hands_on_what_the_session_answers() {
    let batch = collect(&inbox(), 1, true, 1, &my_domain()).unwrap();
    let mut session = Failing { seen: Vec::new(), fail_at: 2 };
    assert_eq!(process_mail(&mut session, &batch.headers[0], &rules()), Ok(()));
    assert_eq!(process_mail(&mut session, &batch.headers[1], &rules()), Ok(()));
    assert_eq!(process_mail(&mut session, &batch.headers[2], &rules()), Err(MoveError::Copy));
    assert_eq!(process_mail(&mut session, &batch.headers[3], &rules()), Ok(()));
    assert_eq!(
        session.seen,
        vec![request("3", "UOS"), request("7", "Special/extra"), request("9", "Cc")]
    );
}

#[test]
fn a_pass_at_the_watermark_takes_the_message_there() {
    let alice = |uid| message(uid, "alice@uos.ac.kr", "me@mydomain.com");
    let fetched = vec![alice(4), alice(5)];
    let patterns = PatternSet::compile(&vec!["mydomain".to_string()]).unwrap();
    let mut session = MoveQueue::new();
    let reached = process_bulk(&mut session, &fetched, 1, false, 5, &patterns, &rules());
    assert_eq!(reached, Ok(6));
    assert_eq!(session.pending, vec![request("5", "UOS")]);
}

#[test]
fn process_bulk_moves_in_the_order_of_the_fetch() {
    let mut session = MoveQueue::new();
    let reached = process_bulk(&mut session, &inbox(), 1, true, 1, &my_domain(), &rules());
    assert_eq!(reached, Ok(10));
    assert_eq!(
        session.pending,
        vec![request("3", "UOS"), request("7", "Special/extra"), request("9", "Cc")]
    );
    let mut session = MoveQueue::new();
    let reached = process_bulk(&mut session, &inbox(), 1, false, 8, &my_domain(), &rules());
    assert_eq!(reached, Ok(10));
    assert_eq!(session.pending, vec![request("9", "Cc")]);
    let mut session = MoveQueue::new();
    let reached = process_bulk(&mut session, &inbox(), 1, false, 10, &my_domain(), &rules());
    assert_eq!(reached, Ok(10));
    assert_eq!(session.pending, Vec::new());
}

#[test]
fn process_bulk_moves_nothing_when_a_record_is_missing() {
    let mut messages = inbox();
    messages.push(message(11, "a@b.c, d@e.f", "me@mydomain.com"));
    let mut session = MoveQueue::new();
    let r = process_bulk(&mut session, &messages, 1, true, 1, &my_domain(), &rules());
    assert!(matches!(r, Err(SyncError::Scan(ScanError { uid: 11, .. }))));
    assert_eq!(session.pending, Vec::new());
}

#[test]
fn process_all_stops_at_the_first_move_that_fails() {
    let batch = collect(&inbox(), 1, true, 1, &my_domain()).unwrap();
    let mut session = Failing { seen: Vec::new(), fail_at: 2 };
    let r = process_all(&mut session, &batch.headers, &rules());
    assert_eq!(r, Err(DispatchError { index: 2, uid: 7, error: MoveError::Copy }));
    assert_eq!(session.seen, vec![request("3", "UOS"), request("7", "Special/extra")]);
    let mut session = Failing { seen: Vec::new(), fail_at: 9 };
    assert_eq!(process_all(&mut session, &batch.headers, &rules()), Ok(()));
    assert_eq!(session.seen.len(), 3);
}

#[test]
fn process_bulk_reports_a_failed_move() {
    let mut session = Failing { seen: Vec::new(), fail_at: 1 };
    let r = process_bulk(&mut session, &inbox(), 1, true, 1, &my_domain(), &rules());
    assert_eq!(
        r,
        Err(SyncError::Move {
            failed: DispatchError { index: 0, uid: 3, error: MoveError::Copy },
            watermark: 10
        })
    );
    assert_eq!(session.seen, vec![request("3", "UOS")]);
}
