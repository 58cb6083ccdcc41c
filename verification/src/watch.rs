//! The outer loop of the agent as a state machine: what to ask of the server
//! in each state, and which state each answer leads to.
//!
//! The loop sweeps the inbox once, then waits for the server to announce a
//! change, looks at the inbox again and scans what is new. Uids are only
//! comparable within one generation of the mailbox, so a new generation
//! resets the watermark.

use crate::text::{decimal, decimal_string};
use vstd::prelude::*;
use vstd::string::*;

verus! {

/// The lowest uid not seen yet, and the mailbox generation that it counts in.
#[derive(Clone, Copy, Debug, PartialEq, Eq, Structural)]
pub struct Watermark {
    pub next_expected_uid: u32,
    pub mailbox_generation: u32,
}

/// Where the loop stands.
#[derive(Clone, Copy, Debug, PartialEq, Eq, Structural)]
pub enum LoopState {
    /// The inbox is being selected for the first time.
    Bootstrapping,
    /// The pass over all mail that was there at startup is under way.
    FullScan { watermark: Watermark },
    /// Waiting for the server to announce a change.
    Idling { watermark: Watermark },
    /// The inbox is being selected again after a wait.
    Resuming { watermark: Watermark },
    /// A pass over what is new is under way.
    Scanning { watermark: Watermark },
}

/// What a pass is to fetch and how it is to judge what it gets.
#[derive(Clone, Copy, Debug, PartialEq, Eq, Structural)]
pub struct ScanRequest {
    /// The pass fetches the uids from this one upwards.
    pub range_start: u32,
    /// Whether every fetched message counts as new.
    pub force: bool,
    /// The watermark that the pass starts from.
    pub watermark: u32,
}

/// What the loop asks of its caller.
#[derive(Clone, Copy, Debug, PartialEq, Eq, Structural)]
pub enum LoopAction {
    /// Select the inbox and report its generation.
    SelectInbox,
    /// Run a pass and report the watermark it returns.
    Scan(ScanRequest),
    /// Wait until the server announces a change.
    WaitForChange,
}

/// What the caller reports back.
#[derive(Clone, Copy, Debug, PartialEq, Eq, Structural)]
pub enum LoopEvent {
    /// The inbox was selected; it is of this generation.
    InboxSelected { generation: u32 },
    /// A pass ended with this watermark.
    ScanFinished { watermark: u32 },
    /// The wait ended.
    Changed,
}

/// The pass over all mail: every uid from 1 upwards, each message new.
pub open spec fn full_scan() -> ScanRequest {
    ScanRequest { range_start: 1, force: true, watermark: 1 }
}

/// The pass over what is new since `watermark`.
pub open spec fn incremental_scan(watermark: Watermark) -> ScanRequest {
    ScanRequest {
        range_start: watermark.next_expected_uid,
        force: false,
        watermark: watermark.next_expected_uid,
    }
}

/// What the loop asks for in `state`.
pub open spec fn action_in(state: LoopState) -> LoopAction {
    match state {
        LoopState::Bootstrapping => LoopAction::SelectInbox,
        LoopState::FullScan { watermark } => LoopAction::Scan(full_scan()),
        LoopState::Idling { watermark } => LoopAction::WaitForChange,
        LoopState::Resuming { watermark } => LoopAction::SelectInbox,
        LoopState::Scanning { watermark } => LoopAction::Scan(incremental_scan(watermark)),
    }
}

/// The watermark to go on with once the inbox turned out to be of
/// `generation`: the stored one, or zero in a new generation.
pub open spec fn resumed(watermark: Watermark, generation: u32) -> Watermark {
    if generation == watermark.mailbox_generation {
        watermark
    } else {
        Watermark { next_expected_uid: 0, mailbox_generation: generation }
    }
}

/// The state that follows `state` on `event`; none where the event is not an
/// answer to what the state asks for.
///
/// The watermark that the full pass returns is not kept: the first pass
/// after it starts from zero again.
pub open spec fn state_after(state: LoopState, event: LoopEvent) -> Option<LoopState> {
    match (state, event) {
        (LoopState::Bootstrapping, LoopEvent::InboxSelected { generation }) => Some(
            LoopState::FullScan {
                watermark: Watermark { next_expected_uid: 0, mailbox_generation: generation },
            },
        ),
        (LoopState::FullScan { watermark }, LoopEvent::ScanFinished { watermark: _ }) => Some(
            LoopState::Idling { watermark },
        ),
        (LoopState::Idling { watermark }, LoopEvent::Changed) => Some(
            LoopState::Resuming { watermark },
        ),
        (LoopState::Resuming { watermark }, LoopEvent::InboxSelected { generation }) => Some(
            LoopState::Scanning { watermark: resumed(watermark, generation) },
        ),
        (LoopState::Scanning { watermark }, LoopEvent::ScanFinished { watermark: reached }) => Some(
            LoopState::Idling {
                watermark: Watermark {
                    next_expected_uid: reached,
                    mailbox_generation: watermark.mailbox_generation,
                },
            },
        ),
        _ => None,
    }
}

/// The watermark that `state` holds; none before the inbox was first
/// selected.
pub open spec fn watermark_in(state: LoopState) -> Option<Watermark> {
    match state {
        LoopState::Bootstrapping => None,
        LoopState::FullScan { watermark } => Some(watermark),
        LoopState::Idling { watermark } => Some(watermark),
        LoopState::Resuming { watermark } => Some(watermark),
        LoopState::Scanning { watermark } => Some(watermark),
    }
}

/// The uid range of a pass, as the fetch command takes it: from
/// `range_start` to the highest uid there is.
pub open spec fn range_text(range_start: u32) -> Seq<char> {
    decimal(range_start as nat) + ":*"@
}

impl ScanRequest {
    /// The uid range of the pass, as the fetch command takes it.
    pub fn range(&self) -> (text: String)
        ensures
            text@ == range_text(self.range_start),
    {
        decimal_string(self.range_start).concat(":*")
    }
}

/// The name of the mailbox that the loop watches.
pub fn inbox_name() -> (name: &'static str)
    ensures
        name@ == "INBOX"@,
{
    "INBOX"
}

/// What a pass asks the server for of each message: its uid and its header
/// block.
pub fn fetch_query() -> (query: &'static str)
    ensures
        query@ == "(UID RFC822.HEADER)"@,
{
    "(UID RFC822.HEADER)"
}

impl LoopState {
    /// The state that the loop starts in.
    pub fn start() -> (state: LoopState)
        ensures
            state == LoopState::Bootstrapping,
    {
        LoopState::Bootstrapping
    }

    /// What the loop asks for in this state.
    pub fn action(&self) -> (action: LoopAction)
        ensures
            action == action_in(*self),
    {
        match self {
            LoopState::Bootstrapping => LoopAction::SelectInbox,
            LoopState::FullScan { watermark: _ } => LoopAction::Scan(
                ScanRequest { range_start: 1, force: true, watermark: 1 },
            ),
            LoopState::Idling { watermark: _ } => LoopAction::WaitForChange,
            LoopState::Resuming { watermark: _ } => LoopAction::SelectInbox,
            LoopState::Scanning { watermark } => LoopAction::Scan(
                ScanRequest {
                    range_start: watermark.next_expected_uid,
                    force: false,
                    watermark: watermark.next_expected_uid,
                },
            ),
        }
    }

    /// The watermark that the state holds.
    pub fn watermark(&self) -> (watermark: Option<Watermark>)
        ensures
            watermark == watermark_in(*self),
    {
        match self {
            LoopState::Bootstrapping => None,
            LoopState::FullScan { watermark } => Some(*watermark),
            LoopState::Idling { watermark } => Some(*watermark),
            LoopState::Resuming { watermark } => Some(*watermark),
            LoopState::Scanning { watermark } => Some(*watermark),
        }
    }

    /// The state that follows on `event`; none where the event is not an
    /// answer to what this state asks for.
    pub fn on(self, event: LoopEvent) -> (next: Option<LoopState>)
        ensures
            next == state_after(self, event),
    {
        match self {
            LoopState::Bootstrapping => match event {
                LoopEvent::InboxSelected { generation } => Some(
                    LoopState::FullScan {
                        watermark: Watermark {
                            next_expected_uid: 0,
                            mailbox_generation: generation,
                        },
                    },
                ),
                _ => None,
            },
            LoopState::FullScan { watermark } => match event {
                LoopEvent::ScanFinished { watermark: _ } => Some(LoopState::Idling { watermark }),
                _ => None,
            },
            LoopState::Idling { watermark } => match event {
                LoopEvent::Changed => Some(LoopState::Resuming { watermark }),
                _ => None,
            },
            LoopState::Resuming { watermark } => match event {
                LoopEvent::InboxSelected { generation } => {
                    let kept = if generation == watermark.mailbox_generation {
                        watermark
                    } else {
                        Watermark { next_expected_uid: 0, mailbox_generation: generation }
                    };
                    Some(LoopState::Scanning { watermark: kept })
                },
                _ => None,
            },
            LoopState::Scanning { watermark } => match event {
                LoopEvent::ScanFinished { watermark: reached } => Some(
                    LoopState::Idling {
                        watermark: Watermark {
                            next_expected_uid: reached,
                            mailbox_generation: watermark.mailbox_generation,
                        },
                    },
                ),
                _ => None,
            },
        }
    }
}

/// The event that answers an action.
pub open spec fn answers(event: LoopEvent, action: LoopAction) -> bool {
    match action {
        LoopAction::SelectInbox => event is InboxSelected,
        LoopAction::Scan(_) => event is ScanFinished,
        LoopAction::WaitForChange => event is Changed,
    }
}

/// The loop never ends of itself: every state has a successor on exactly
/// the events that answer what it asks for.
pub proof fn lemma_loop_goes_on(state: LoopState, event: LoopEvent)
    ensures
        state_after(state, event) is Some <==> answers(event, action_in(state)),
{
}

/// A changed generation resets the loop: whatever the watermark was, the
/// next pass starts from zero, in the new generation.
pub proof fn lemma_generation_change_resets(watermark: Watermark, generation: u32)
    requires
        generation != watermark.mailbox_generation,
    ensures
        state_after(LoopState::Resuming { watermark }, LoopEvent::InboxSelected { generation })
            == Some(
            LoopState::Scanning {
                watermark: Watermark { next_expected_uid: 0, mailbox_generation: generation },
            },
        ),
        action_in(
            state_after(
                LoopState::Resuming { watermark },
                LoopEvent::InboxSelected { generation },
            )->Some_0,
        ) == LoopAction::Scan(ScanRequest { range_start: 0, force: false, watermark: 0 }),
{
}

/// An unchanged generation keeps the watermark: the next pass starts where
/// the last one ended, and is not forced.
pub proof fn lemma_same_generation_resumes(watermark: Watermark)
    ensures
        action_in(
            state_after(
                LoopState::Resuming { watermark },
                LoopEvent::InboxSelected { generation: watermark.mailbox_generation },
            )->Some_0,
        ) == LoopAction::Scan(
            ScanRequest {
                range_start: watermark.next_expected_uid,
                force: false,
                watermark: watermark.next_expected_uid,
            },
        ),
{
}

/// Within one generation the stored watermark never moves back, as long as
/// no pass reports a watermark below the one it was started from.
pub proof fn lemma_watermark_never_moves_back(state: LoopState, event: LoopEvent)
    requires
        state_after(state, event) is Some,
        watermark_in(state) is Some,
        (state is Scanning && event is ScanFinished) ==> event->ScanFinished_watermark
            >= watermark_in(state)->Some_0.next_expected_uid,
    ensures
        ({
            let before = watermark_in(state)->Some_0;
            let after = watermark_in(state_after(state, event)->Some_0)->Some_0;
            after.mailbox_generation == before.mailbox_generation ==> after.next_expected_uid
                >= before.next_expected_uid
        }),
{
}

} // verus!
