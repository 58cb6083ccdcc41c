use mail_triage::mover::{
    refusal_reply, Command, MoveCapability, MoveError, MoveQueue, MoveRequest, MoveStage, Reply,
};

fn request(uid: &str, destination: &str) -> MoveRequest {
    MoveRequest { uid: uid.to_string(), destination: destination.to_string() }
}

#[test]
fn a_move_sends_four_commands_in_order() {
    let r = request("42", "Special/Linked in");
    let mut stage = MoveStage::first();
    assert_eq!(stage, MoveStage::EnsureFolder);
    assert_eq!(
        r.command(stage),
        Some(Command::Create { mailbox: "Special/Linked in".to_string() })
    );
    stage = stage.advance(Reply::Completed);
    assert_eq!(
        r.command(stage),
        Some(Command::UidCopy {
            uid_set: "42".to_string(),
            mailbox_path: "\"Special/Linked in\"".to_string()
        })
    );
    stage = stage.advance(Reply::Completed);
    assert_eq!(
        r.command(stage),
        Some(Command::UidStore {
            uid_set: "42".to_string(),
            query: "+FLAGS (\\Deleted)".to_string()
        })
    );
    stage = stage.advance(Reply::Completed);
    assert_eq!(r.command(stage), Some(Command::Expunge));
    stage = stage.advance(Reply::Completed);
    assert_eq!(stage, MoveStage::Done);
    assert_eq!(r.command(stage), None);
    assert_eq!(stage.outcome(), Some(Ok(())));
}

#[test]
fn an_existing_folder_is_no_failure() {
    assert_eq!(MoveStage::EnsureFolder.advance(Reply::AlreadyExists), MoveStage::Copy);
    assert_eq!(MoveStage::EnsureFolder.advance(Reply::Completed), MoveStage::Copy);
}

#[test]
fn any_other_refusal_fails_the_folder_step() {
    assert_eq!(
        MoveStage::EnsureFolder.advance(Reply::Refused),
        MoveStage::Failed(MoveError::FolderCreate)
    );
    let r = request("7", "not/allowed");
    let stage = MoveStage::first().advance(Reply::Refused);
    assert_eq!(r.command(stage), None);
    assert_eq!(stage.outcome(), Some(Err(MoveError::FolderCreate)));
}

#[test]
fn a_refusal_is_read_by_the_words_of_the_server() {
    for info in [
        "code: None, info: Some(\"[ALREADYEXISTS] Mailbox already exists\")",
        "[ALREADYEXISTS] Duplicate folder name",
        "Mailbox already exists",
        "MAILBOX ALREADY EXISTS",
        "alreadyexists",
    ] {
        assert_eq!(refusal_reply(info), Reply::AlreadyExists);
    }
    for info in [
        "",
        "code: None, info: Some(\"[CANNOT] Invalid mailbox name\")",
        "permission denied",
        "already  exists",
        "already exist",
        "[OVERQUOTA] too many folders",
    ] {
        assert_eq!(refusal_reply(info), Reply::Refused);
    }
}

#[test]
fn every_step_can_fail_with_its_own_error() {
    assert_eq!(
        MoveStage::EnsureFolder.advance(Reply::Failed),
        MoveStage::Failed(MoveError::FolderCreate)
    );
    for reply in [Reply::AlreadyExists, Reply::Refused, Reply::Failed] {
        assert_eq!(MoveStage::Copy.advance(reply), MoveStage::Failed(MoveError::Copy));
        assert_eq!(MoveStage::FlagDeleted.advance(reply), MoveStage::Failed(MoveError::Flag));
        assert_eq!(MoveStage::Expunge.advance(reply), MoveStage::Failed(MoveError::Expunge));
    }
}

#[test]
fn a_failed_move_sends_nothing_more() {
    let r = request("7", "Cc");
    let failed = MoveStage::Copy.advance(Reply::Refused);
    assert!(failed.is_over());
    assert_eq!(r.command(failed), None);
    assert_eq!(failed.outcome(), Some(Err(MoveError::Copy)));
    for reply in [Reply::Completed, Reply::AlreadyExists, Reply::Refused, Reply::Failed] {
        assert_eq!(failed.advance(reply), failed);
        assert_eq!(MoveStage::Done.advance(reply), MoveStage::Done);
    }
}

#[test]
fn a_move_under_way_has_no_outcome() {
    for stage in
        [MoveStage::EnsureFolder, MoveStage::Copy, MoveStage::FlagDeleted, MoveStage::Expunge]
    {
        assert!(!stage.is_over());
        assert_eq!(stage.outcome(), None);
    }
    assert!(MoveStage::Done.is_over());
    assert!(MoveStage::Failed(MoveError::Flag).is_over());
}

#[test]
fn a_message_is_marked_deleted_only_after_the_copy() {
    let replies = [Reply::Completed, Reply::AlreadyExists, Reply::Refused, Reply::Failed];
    for a in replies {
        for b in replies {
            let stage = MoveStage::first().advance(a).advance(b);
            let past_copy = stage == MoveStage::FlagDeleted;
            let folder_there = a == Reply::Completed || a == Reply::AlreadyExists;
            assert_eq!(past_copy, folder_there && b == Reply::Completed);
        }
    }
}

#[test]
fn a_queue_records_moves_in_order() {
    let mut queue = MoveQueue::new();
    assert_eq!(queue.pending, Vec::new());
    assert_eq!(queue.move_mail("3".to_string(), "UOS"), Ok(()));
    assert_eq!(queue.move_mail("5".to_string(), "Cc"), Ok(()));
    assert_eq!(queue.pending, vec![request("3", "UOS"), request("5", "Cc")]);
}
