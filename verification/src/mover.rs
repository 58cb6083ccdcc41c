//! Moving one message to a folder: the four commands of the protocol, their
//! order, and what each server reply leads to.
//!
//! A move is not atomic. The message is copied before the one in the inbox
//! is marked deleted, so an interrupted move leaves a duplicate and never
//! loses mail.

use crate::text::{lowercased, occurs_in, text_contains, to_lower};
use vstd::prelude::*;
use vstd::string::*;

verus! {

/// The step of a move that failed.
#[derive(Clone, Copy, Debug, PartialEq, Eq, Structural)]
pub enum MoveError {
    /// The destination folder could not be created.
    FolderCreate,
    /// The message could not be copied into the destination.
    Copy,
    /// The message in the inbox could not be marked deleted.
    Flag,
    /// The mailbox could not be expunged.
    Expunge,
}

/// As many successes as `count`.
pub open spec fn all_ok(count: nat) -> Seq<Result<(), MoveError>> {
    Seq::new(count, |i: int| Ok::<(), MoveError>(()))
}

/// A session that can move a message of the selected mailbox to a folder.
///
/// A session has a record of the moves that were asked of it and of what it
/// answered to each. The library's contracts speak of that record: which
/// moves a pass asked for, in what order, and what came back. A session that
/// is to be verified says what its record is; one that says nothing has the
/// empty record, of which `move_mail`'s contract cannot be proved.
pub trait MoveCapability {
    /// The moves asked of this session so far, oldest first: each the
    /// message's uid and the destination folder.
    open spec fn asked(&self) -> Seq<(Seq<char>, Seq<char>)> {
        Seq::empty()
    }

    /// What the session answered to each of those moves, in the same order.
    open spec fn answers(&self) -> Seq<Result<(), MoveError>> {
        Seq::empty()
    }

    /// Moves the message `uid` to `destination`, and answers whether that
    /// went through. The move and the answer go on record.
    fn move_mail(&mut self, uid: String, destination: &str) -> (r: Result<(), MoveError>)
        ensures
            final(self).asked() == old(self).asked().push((uid@, destination@)),
            final(self).answers() == old(self).answers().push(r),
    ;
}

/// One requested move.
#[derive(Clone, Debug, PartialEq, Eq)]
pub struct MoveRequest {
    /// The message, as the text of its uid.
    pub uid: String,
    /// The destination folder.
    pub destination: String,
}

impl View for MoveRequest {
    type V = (Seq<char>, Seq<char>);

    open spec fn view(&self) -> (Seq<char>, Seq<char>) {
        (self.uid@, self.destination@)
    }
}

/// The views of a sequence of requests.
pub open spec fn request_views(requests: Seq<MoveRequest>) -> Seq<(Seq<char>, Seq<char>)> {
    Seq::new(requests.len(), |i: int| requests[i]@)
}

/// Moves that were asked for and are still to be carried out, oldest first.
///
/// As a session it carries nothing out: it notes each move and answers that
/// it went through.
#[derive(Clone, Debug, PartialEq, Eq)]
pub struct MoveQueue {
    pub pending: Vec<MoveRequest>,
}

impl MoveQueue {
    /// A queue with nothing in it.
    pub fn new() -> (queue: MoveQueue)
        ensures
            queue.pending@.len() == 0,
            queue.asked() == Seq::<(Seq<char>, Seq<char>)>::empty(),
            queue.answers() == Seq::<Result<(), MoveError>>::empty(),
    {
        let queue = MoveQueue { pending: Vec::new() };
        assert(queue.asked() =~= Seq::<(Seq<char>, Seq<char>)>::empty());
        assert(queue.answers() =~= Seq::<Result<(), MoveError>>::empty());
        queue
    }
}

impl MoveCapability for MoveQueue {
    open spec fn asked(&self) -> Seq<(Seq<char>, Seq<char>)> {
        request_views(self.pending@)
    }

    open spec fn answers(&self) -> Seq<Result<(), MoveError>> {
        all_ok(self.pending@.len())
    }

    /// Appends the move to the queue. Always succeeds.
    fn move_mail(&mut self, uid: String, destination: &str) -> (r: Result<(), MoveError>)
        ensures
            r is Ok,
    {
        let request = MoveRequest { uid, destination: destination.to_owned() };
        self.pending.push(request);
        assert(self.asked() =~= old(self).asked().push((uid@, destination@)));
        assert(self.answers() =~= old(self).answers().push(Ok::<(), MoveError>(())));
        Ok(())
    }
}

/// How far a move has come.
#[derive(Clone, Copy, Debug, PartialEq, Eq, Structural)]
pub enum MoveStage {
    /// Next: make sure the destination folder exists.
    EnsureFolder,
    /// Next: copy the message into the destination.
    Copy,
    /// Next: mark the message in the inbox deleted.
    FlagDeleted,
    /// Next: expunge the mailbox.
    Expunge,
    /// All four steps went through.
    Done,
    /// A step failed; the steps after it were not attempted.
    Failed(MoveError),
}

/// What the server made of a command.
#[derive(Clone, Copy, Debug, PartialEq, Eq, Structural)]
pub enum Reply {
    /// The command went through.
    Completed,
    /// The server refused to create a folder because it exists already.
    AlreadyExists,
    /// The server refused the command with a `NO` for any other reason.
    Refused,
    /// Any other failure.
    Failed,
}

/// Whether the server's words on refusing to create a folder say that the
/// folder exists already: letter case aside, they hold `alreadyexists` (the
/// response code) or `already exists`.
pub open spec fn says_already_exists(info: Seq<char>) -> bool {
    occurs_in("alreadyexists"@, lowercased(info)) || occurs_in("already exists"@, lowercased(info))
}

/// The reply that a refusal to create a folder amounts to, by the words
/// `info` that the server gave with it.
pub fn refusal_reply(info: &str) -> (reply: Reply)
    ensures
        reply == if says_already_exists(info@) {
            Reply::AlreadyExists
        } else {
            Reply::Refused
        },
{
    let lower = to_lower(info);
    if text_contains(lower.as_str(), "alreadyexists") || text_contains(
        lower.as_str(),
        "already exists",
    ) {
        Reply::AlreadyExists
    } else {
        Reply::Refused
    }
}

/// A command for the mail server.
#[derive(Clone, Debug, PartialEq, Eq)]
pub enum Command {
    /// Create the folder `mailbox`.
    Create { mailbox: String },
    /// Copy the messages of `uid_set` into the folder written as `mailbox_path`.
    UidCopy { uid_set: String, mailbox_path: String },
    /// Change the flags of the messages of `uid_set` as `query` says.
    UidStore { uid_set: String, query: String },
    /// Remove the messages that are marked deleted.
    Expunge,
}

/// A command, as character sequences.
pub enum CommandView {
    Create { mailbox: Seq<char> },
    UidCopy { uid_set: Seq<char>, mailbox_path: Seq<char> },
    UidStore { uid_set: Seq<char>, query: Seq<char> },
    Expunge,
}

impl View for Command {
    type V = CommandView;

    open spec fn view(&self) -> CommandView {
        match self {
            Command::Create { mailbox } => CommandView::Create { mailbox: mailbox@ },
            Command::UidCopy { uid_set, mailbox_path } => CommandView::UidCopy {
                uid_set: uid_set@,
                mailbox_path: mailbox_path@,
            },
            Command::UidStore { uid_set, query } => CommandView::UidStore {
                uid_set: uid_set@,
                query: query@,
            },
            Command::Expunge => CommandView::Expunge,
        }
    }
}

/// A folder name between double quotes, as the copy command takes it.
pub open spec fn quoted(name: Seq<char>) -> Seq<char> {
    seq!['"'] + name + seq!['"']
}

/// The flag change that marks a message deleted.
pub open spec fn deleted_flag_query() -> Seq<char> {
    "+FLAGS (\\Deleted)"@
}

/// The command that the stage `stage` of moving `uid` to `destination` sends;
/// none once the move is over.
pub open spec fn stage_command(stage: MoveStage, uid: Seq<char>, destination: Seq<char>) -> Option<
    CommandView,
> {
    match stage {
        MoveStage::EnsureFolder => Some(CommandView::Create { mailbox: destination }),
        MoveStage::Copy => Some(
            CommandView::UidCopy { uid_set: uid, mailbox_path: quoted(destination) },
        ),
        MoveStage::FlagDeleted => Some(
            CommandView::UidStore { uid_set: uid, query: deleted_flag_query() },
        ),
        MoveStage::Expunge => Some(CommandView::Expunge),
        MoveStage::Done => None,
        MoveStage::Failed(_) => None,
    }
}

/// The stage that follows `stage` once the server answered `reply`.
///
/// The folder step is done where the folder was created or exists already;
/// any other refusal fails it. Every other step must complete, or the move
/// stops there.
pub open spec fn stage_after(stage: MoveStage, reply: Reply) -> MoveStage {
    match stage {
        MoveStage::EnsureFolder => match reply {
            Reply::Completed => MoveStage::Copy,
            Reply::AlreadyExists => MoveStage::Copy,
            Reply::Refused => MoveStage::Failed(MoveError::FolderCreate),
            Reply::Failed => MoveStage::Failed(MoveError::FolderCreate),
        },
        MoveStage::Copy => match reply {
            Reply::Completed => MoveStage::FlagDeleted,
            _ => MoveStage::Failed(MoveError::Copy),
        },
        MoveStage::FlagDeleted => match reply {
            Reply::Completed => MoveStage::Expunge,
            _ => MoveStage::Failed(MoveError::Flag),
        },
        MoveStage::Expunge => match reply {
            Reply::Completed => MoveStage::Done,
            _ => MoveStage::Failed(MoveError::Expunge),
        },
        MoveStage::Done => MoveStage::Done,
        MoveStage::Failed(e) => MoveStage::Failed(e),
    }
}

/// The stage reached from `stage` after the server answered with `replies`,
/// one per command.
pub open spec fn stage_after_all(stage: MoveStage, replies: Seq<Reply>) -> MoveStage
    decreases replies.len(),
{
    if replies.len() == 0 {
        stage
    } else {
        stage_after_all(stage_after(stage, replies[0]), replies.drop_first())
    }
}

impl MoveStage {
    /// The stage a move starts in.
    pub fn first() -> (stage: MoveStage)
        ensures
            stage == MoveStage::EnsureFolder,
    {
        MoveStage::EnsureFolder
    }

    /// Whether the move is over, for better or worse.
    pub fn is_over(&self) -> (over: bool)
        ensures
            over == (*self is Done || *self is Failed),
    {
        match self {
            MoveStage::Done => true,
            MoveStage::Failed(_) => true,
            _ => false,
        }
    }

    /// What the whole move comes to, once it is over.
    pub fn outcome(&self) -> (r: Option<Result<(), MoveError>>)
        ensures
            r == match *self {
                MoveStage::Done => Some(Ok::<(), MoveError>(())),
                MoveStage::Failed(e) => Some(Err::<(), MoveError>(e)),
                _ => None::<Result<(), MoveError>>,
            },
    {
        match self {
            MoveStage::Done => Some(Ok(())),
            MoveStage::Failed(e) => Some(Err(*e)),
            _ => None,
        }
    }

    /// The stage that follows once the server answered `reply`.
    pub fn advance(self, reply: Reply) -> (next: MoveStage)
        ensures
            next == stage_after(self, reply),
    {
        match self {
            MoveStage::EnsureFolder => match reply {
                Reply::Completed => MoveStage::Copy,
                Reply::AlreadyExists => MoveStage::Copy,
                Reply::Refused => MoveStage::Failed(MoveError::FolderCreate),
                Reply::Failed => MoveStage::Failed(MoveError::FolderCreate),
            },
            MoveStage::Copy => match reply {
                Reply::Completed => MoveStage::FlagDeleted,
                _ => MoveStage::Failed(MoveError::Copy),
            },
            MoveStage::FlagDeleted => match reply {
                Reply::Completed => MoveStage::Expunge,
                _ => MoveStage::Failed(MoveError::Flag),
            },
            MoveStage::Expunge => match reply {
                Reply::Completed => MoveStage::Done,
                _ => MoveStage::Failed(MoveError::Expunge),
            },
            MoveStage::Done => MoveStage::Done,
            MoveStage::Failed(e) => MoveStage::Failed(e),
        }
    }
}

impl MoveRequest {
    /// The command to send at `stage`; none once the move is over.
    pub fn command(&self, stage: MoveStage) -> (command: Option<Command>)
        ensures
            match command {
                Some(c) => stage_command(stage, self.uid@, self.destination@) == Some(c@),
                None => stage_command(stage, self.uid@, self.destination@) is None,
            },
    {
        match stage {
            MoveStage::EnsureFolder => Some(Command::Create { mailbox: self.destination.clone() }),
            MoveStage::Copy => {
                proof {
                    reveal_strlit("\"");
                }
                let mut path = String::from_str("\"");
                path.append(self.destination.as_str());
                path.append("\"");
                assert(path@ =~= quoted(self.destination@));
                Some(Command::UidCopy { uid_set: self.uid.clone(), mailbox_path: path })
            },
            MoveStage::FlagDeleted => Some(
                Command::UidStore {
                    uid_set: self.uid.clone(),
                    query: String::from_str("+FLAGS (\\Deleted)"),
                },
            ),
            MoveStage::Expunge => Some(Command::Expunge),
            MoveStage::Done => None,
            MoveStage::Failed(_) => None,
        }
    }
}

/// A move succeeds exactly when the folder was created or existed already
/// and the three steps after that completed.
pub proof fn lemma_move_succeeds(replies: Seq<Reply>)
    requires
        replies.len() == 4,
    ensures
        stage_after_all(MoveStage::EnsureFolder, replies) is Done <==> {
            &&& replies[0] is Completed || replies[0] is AlreadyExists
            &&& replies[1] is Completed
            &&& replies[2] is Completed
            &&& replies[3] is Completed
        },
{
    reveal_with_fuel(stage_after_all, 5);
    let r1 = replies.drop_first();
    let r2 = r1.drop_first();
    let r3 = r2.drop_first();
    assert(r1[0] == replies[1]);
    assert(r2[0] == replies[2]);
    assert(r3[0] == replies[3]);
}

/// A move that is over stays as it is, whatever else the server says.
pub proof fn lemma_over_is_final(stage: MoveStage, replies: Seq<Reply>)
    requires
        stage is Done || stage is Failed,
    ensures
        stage_after_all(stage, replies) == stage,
    decreases replies.len(),
{
    if replies.len() > 0 {
        lemma_over_is_final(stage, replies.drop_first());
    }
}

/// Duplicate rather than loss: whatever the server answers, a move gets as
/// far as marking the message deleted only after the copy completed.
pub proof fn lemma_delete_only_after_copy(replies: Seq<Reply>)
    ensures
        ({
            let stage = stage_after_all(MoveStage::EnsureFolder, replies);
            stage is FlagDeleted || stage is Expunge || stage is Done || stage == MoveStage::Failed(
                MoveError::Flag,
            ) || stage == MoveStage::Failed(MoveError::Expunge)
        }) ==> replies.len() >= 2 && replies[1] is Completed,
{
    reveal_with_fuel(stage_after_all, 3);
    if replies.len() >= 2 {
        let rest = replies.drop_first().drop_first();
        assert(replies.drop_first()[0] == replies[1]);
        let after_two = stage_after(stage_after(MoveStage::EnsureFolder, replies[0]), replies[1]);
        assert(stage_after_all(MoveStage::EnsureFolder, replies) == stage_after_all(
            after_two,
            rest,
        ));
        if after_two is Failed {
            lemma_over_is_final(after_two, rest);
        }
    }
}

} // verus!
