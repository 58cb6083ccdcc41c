//! One pass over a fetch: which of the fetched messages are new, the record
//! of each, and how far the watermark moves.
//!
//! The watermark is the lowest uid that has not been seen yet. A pass first
//! collects the records of all new messages and only then acts on them, so
//! the watermark moves with what was seen, whether or not a later move fails.

use crate::classify::{classify, decide, Decision, DecisionView, RuleView, Rules};
use crate::header::{extract, extracted, CanonicalHeader, ExtractError, HeaderView, MessageIdentity};
use crate::mover::{all_ok, request_views, MoveCapability, MoveError, MoveRequest};
use crate::pattern::PatternSet;
use crate::text::{decimal, decimal_string};
use vstd::prelude::*;

verus! {

/// One message of a fetch, as the server returned it: the uid and the raw
/// header block, either of which may be missing.
#[derive(Clone, Debug, PartialEq, Eq)]
pub struct FetchedMessage {
    pub uid: Option<u32>,
    pub header: Option<Vec<u8>>,
}

/// A fetched message, with the header block as a byte sequence.
pub struct FetchedView {
    pub uid: Option<u32>,
    pub header: Option<Seq<u8>>,
}

impl View for FetchedMessage {
    type V = FetchedView;

    open spec fn view(&self) -> FetchedView {
        FetchedView {
            uid: self.uid,
            header: match self.header {
                Some(raw) => Some(raw@),
                None => None,
            },
        }
    }
}

/// The views of a sequence of fetched messages.
pub open spec fn fetched_views(messages: Seq<FetchedMessage>) -> Seq<FetchedView> {
    Seq::new(messages.len(), |i: int| messages[i]@)
}

/// The views of a sequence of records.
pub open spec fn header_views(headers: Seq<CanonicalHeader>) -> Seq<HeaderView> {
    Seq::new(headers.len(), |i: int| headers[i]@)
}

/// Whether a message is new: it has a uid, and the pass is forced or the uid
/// is not below the watermark.
pub open spec fn is_candidate(uid: Option<u32>, force: bool, watermark: int) -> bool {
    uid matches Some(u) && (force || u >= watermark)
}

/// The watermark after a message was looked at: past the uid of a new
/// message, unchanged by any other.
pub open spec fn watermark_after(uid: Option<u32>, force: bool, watermark: int) -> int {
    if is_candidate(uid, force, watermark) && uid->Some_0 + 1 > watermark {
        uid->Some_0 + 1
    } else {
        watermark
    }
}

/// The watermark after all of `messages` were looked at, in order.
pub open spec fn scan_watermark(messages: Seq<FetchedView>, force: bool, watermark: int) -> int
    decreases messages.len(),
{
    if messages.len() == 0 {
        watermark
    } else {
        scan_watermark(
            messages.drop_first(),
            force,
            watermark_after(messages[0].uid, force, watermark),
        )
    }
}

/// The new messages among `messages`, in order. Each is judged against the
/// watermark as the messages before it left it.
pub open spec fn candidates(messages: Seq<FetchedView>, force: bool, watermark: int) -> Seq<
    FetchedView,
>
    decreases messages.len(),
{
    if messages.len() == 0 {
        Seq::empty()
    } else {
        let rest = candidates(
            messages.drop_first(),
            force,
            watermark_after(messages[0].uid, force, watermark),
        );
        if is_candidate(messages[0].uid, force, watermark) {
            seq![messages[0]] + rest
        } else {
            rest
        }
    }
}

/// The record of a new message of the mailbox generation `generation`.
pub open spec fn extracted_message(
    message: FetchedView,
    generation: u32,
    patterns: Seq<Seq<char>>,
) -> Result<HeaderView, ExtractError> {
    match message.header {
        None => Err(ExtractError::NoHeaderBlock),
        Some(raw) => extracted(
            raw,
            MessageIdentity { uid: message.uid->Some_0, mailbox_generation: generation },
            patterns,
        ),
    }
}

/// A new message of which no record could be made.
#[derive(Clone, Copy, Debug, PartialEq, Eq, Structural)]
pub struct ScanError {
    pub uid: u32,
    pub cause: ExtractError,
}

/// The records of `messages`, in order; where one has none, the error of the
/// first such.
pub open spec fn extracted_all(
    messages: Seq<FetchedView>,
    generation: u32,
    patterns: Seq<Seq<char>>,
) -> Result<Seq<HeaderView>, ScanError>
    decreases messages.len(),
{
    if messages.len() == 0 {
        Ok(Seq::empty())
    } else {
        match extracted_all(messages.drop_last(), generation, patterns) {
            Err(e) => Err(e),
            Ok(headers) => match extracted_message(messages.last(), generation, patterns) {
                Err(cause) => Err(ScanError { uid: messages.last().uid->Some_0, cause }),
                Ok(header) => Ok(headers.push(header)),
            },
        }
    }
}

/// What a pass over a fetch collected.
#[derive(Debug, PartialEq, Eq)]
pub struct ScanBatch {
    /// The records of the new messages, in the order of the fetch.
    pub headers: Vec<CanonicalHeader>,
    /// The watermark after the pass.
    pub watermark: u32,
}

/// The watermark never moves back.
pub proof fn lemma_scan_watermark_grows(messages: Seq<FetchedView>, force: bool, watermark: int)
    ensures
        scan_watermark(messages, force, watermark) >= watermark,
    decreases messages.len(),
{
    if messages.len() > 0 {
        lemma_scan_watermark_grows(
            messages.drop_first(),
            force,
            watermark_after(messages[0].uid, force, watermark),
        );
    }
}

/// Once a record is missing, it stays missing however many messages follow.
proof fn lemma_extracted_all_fails(
    messages: Seq<FetchedView>,
    more: Seq<FetchedView>,
    generation: u32,
    patterns: Seq<Seq<char>>,
)
    requires
        extracted_all(messages, generation, patterns) is Err,
    ensures
        extracted_all(messages + more, generation, patterns) == extracted_all(
            messages,
            generation,
            patterns,
        ),
    decreases more.len(),
{
    if more.len() == 0 {
        assert(messages + more =~= messages);
    } else {
        lemma_extracted_all_fails(messages, more.drop_last(), generation, patterns);
        assert((messages + more).drop_last() =~= messages + more.drop_last());
    }
}

/// Makes the record of one new message.
pub fn extract_message(message: &FetchedMessage, generation: u32, patterns: &PatternSet) -> (r:
    Result<CanonicalHeader, ExtractError>)
    requires
        message.uid is Some,
    ensures
        match r {
            Ok(header) => extracted_message(message@, generation, patterns@) == Ok::<
                HeaderView,
                ExtractError,
            >(header@),
            Err(e) => extracted_message(message@, generation, patterns@) == Err::<
                HeaderView,
                ExtractError,
            >(e),
        },
{
    let uid = message.uid.unwrap();
    match &message.header {
        None => Err(ExtractError::NoHeaderBlock),
        Some(raw) => extract(
            raw.as_slice(),
            MessageIdentity { uid, mailbox_generation: generation },
            patterns,
        ),
    }
}

/// Moves `watermark` past `uid`.
pub fn advance_watermark(watermark: u32, uid: u32) -> (next: u32)
    requires
        uid < u32::MAX,
    ensures
        next == if uid + 1 > watermark {
            uid + 1
        } else {
            watermark as int
        },
{
    if uid + 1 > watermark {
        uid + 1
    } else {
        watermark
    }
}

/// Whether the watermark after a pass over `messages` is still a uid: it is
/// not where a new message carries the highest uid there is.
pub fn watermark_fits(messages: &Vec<FetchedMessage>, force: bool, watermark: u32) -> (fits: bool)
    ensures
        fits == (scan_watermark(fetched_views(messages@), force, watermark as int) <= u32::MAX),
{
    let ghost all = fetched_views(messages@);
    let mut current = watermark;
    let mut i: usize = 0;
    proof {
        assert(all.skip(0) =~= all);
    }
    while i < messages.len()
        invariant
            all == fetched_views(messages@),
            i <= messages@.len(),
            scan_watermark(all, force, watermark as int) == scan_watermark(
                all.skip(i as int),
                force,
                current as int,
            ),
        decreases messages@.len() - i,
    {
        let ghost rest = all.skip(i as int);
        proof {
            assert(rest[0] == messages@[i as int]@);
            assert(rest.drop_first() =~= all.skip(i + 1));
        }
        match messages[i].uid {
            Some(uid) => {
                if force || uid >= current {
                    if uid == u32::MAX {
                        proof {
                            lemma_scan_watermark_grows(
                                rest.drop_first(),
                                force,
                                watermark_after(rest[0].uid, force, current as int),
                            );
                        }
                        return false;
                    }
                    current = advance_watermark(current, uid);
                }
            },
            None => {},
        }
        i += 1;
    }
    proof {
        assert(all.skip(i as int).len() == 0);
    }
    true
}

/// Collects the new messages of a fetch: makes the record of each, in order,
/// and moves the watermark past them.
///
/// A message without a uid is passed over. So is one whose uid is below the
/// watermark, unless the pass is forced. The first new message of which no
/// record can be made ends the pass with its error.
pub fn collect(
    messages: &Vec<FetchedMessage>,
    generation: u32,
    force: bool,
    watermark: u32,
    patterns: &PatternSet,
) -> (r: Result<ScanBatch, ScanError>)
    requires
        scan_watermark(fetched_views(messages@), force, watermark as int) <= u32::MAX,
    ensures
        match r {
            Ok(batch) => {
                &&& extracted_all(
                    candidates(fetched_views(messages@), force, watermark as int),
                    generation,
                    patterns@,
                ) == Ok::<Seq<HeaderView>, ScanError>(header_views(batch.headers@))
                &&& batch.watermark == scan_watermark(
                    fetched_views(messages@),
                    force,
                    watermark as int,
                )
            },
            Err(e) => extracted_all(
                candidates(fetched_views(messages@), force, watermark as int),
                generation,
                patterns@,
            ) == Err::<Seq<HeaderView>, ScanError>(e),
        },
{
    let ghost all = fetched_views(messages@);
    let ghost mut seen: Seq<FetchedView> = Seq::empty();
    let mut headers: Vec<CanonicalHeader> = Vec::new();
    let mut current = watermark;
    let mut i: usize = 0;
    proof {
        assert(all.skip(0) =~= all);
        assert(seen + candidates(all, force, watermark as int) =~= candidates(
            all,
            force,
            watermark as int,
        ));
        assert(header_views(headers@) =~= Seq::empty());
    }
    while i < messages.len()
        invariant
            all == fetched_views(messages@),
            i <= messages@.len(),
            scan_watermark(all, force, watermark as int) <= u32::MAX,
            scan_watermark(all, force, watermark as int) == scan_watermark(
                all.skip(i as int),
                force,
                current as int,
            ),
            candidates(all, force, watermark as int) == seen + candidates(
                all.skip(i as int),
                force,
                current as int,
            ),
            extracted_all(seen, generation, patterns@) == Ok::<Seq<HeaderView>, ScanError>(
                header_views(headers@),
            ),
        decreases messages@.len() - i,
    {
        let ghost rest = all.skip(i as int);
        let ghost next = watermark_after(rest[0].uid, force, current as int);
        proof {
            assert(rest[0] == messages@[i as int]@);
            assert(rest.drop_first() =~= all.skip(i + 1));
            lemma_scan_watermark_grows(rest.drop_first(), force, next);
        }
        let message = &messages[i];
        match message.uid {
            Some(uid) => {
                if force || uid >= current {
                    let ghost later = candidates(rest.drop_first(), force, next);
                    proof {
                        assert(seen + (seq![rest[0]] + later) =~= seen.push(rest[0]) + later);
                        assert(seen.push(rest[0]).drop_last() =~= seen);
                    }
                    match extract_message(message, generation, patterns) {
                        Ok(header) => {
                            let ghost before = header_views(headers@);
                            headers.push(header);
                            proof {
                                assert(header_views(headers@) =~= before.push(header@));
                                seen = seen.push(rest[0]);
                            }
                        },
                        Err(cause) => {
                            proof {
                                lemma_extracted_all_fails(
                                    seen.push(rest[0]),
                                    later,
                                    generation,
                                    patterns@,
                                );
                            }
                            return Err(ScanError { uid, cause });
                        },
                    }
                    current = advance_watermark(current, uid);
                }
            },
            None => {},
        }
        i += 1;
    }
    proof {
        assert(all.skip(i as int).len() == 0);
        assert(seen + Seq::<FetchedView>::empty() =~= seen);
    }
    Ok(ScanBatch { headers, watermark: current })
}

/// The moves that the rules ask for one message: one move or none.
pub open spec fn moves_for(header: HeaderView, rules: Seq<RuleView>) -> Seq<(Seq<char>, Seq<char>)> {
    match decide(header, rules) {
        DecisionView::Move(folder) => seq![(decimal(header.id.uid as nat), folder)],
        DecisionView::NoAction => Seq::empty(),
    }
}

/// The moves that the rules ask for `headers`, in order.
pub open spec fn planned_moves(headers: Seq<HeaderView>, rules: Seq<RuleView>) -> Seq<
    (Seq<char>, Seq<char>),
>
    decreases headers.len(),
{
    if headers.len() == 0 {
        Seq::empty()
    } else {
        planned_moves(headers.drop_last(), rules) + moves_for(headers.last(), rules)
    }
}

/// A move that failed while a batch was acted on.
#[derive(Clone, Copy, Debug, PartialEq, Eq, Structural)]
pub struct DispatchError {
    /// Position in the batch of the message whose move failed.
    pub index: usize,
    /// The uid of that message.
    pub uid: u32,
    /// What the session reported.
    pub error: MoveError,
}

/// Why a pass ended early.
#[derive(Clone, Copy, Debug, PartialEq, Eq, Structural)]
pub enum SyncError {
    /// No record could be made of a new message. Nothing was moved.
    Scan(ScanError),
    /// A move failed. The messages after it were left alone. The watermark
    /// had moved past every new message of the fetch all the same.
    Move { failed: DispatchError, watermark: u32 },
}

/// The move that the rules ask for one message, if they ask for one.
pub fn move_request(header: &CanonicalHeader, rules: &Rules) -> (request: Option<MoveRequest>)
    ensures
        match request {
            Some(r) => moves_for(header@, rules@) == seq![r@],
            None => moves_for(header@, rules@) == Seq::<(Seq<char>, Seq<char>)>::empty(),
        },
{
    match classify(header, rules) {
        Decision::Move(destination) => Some(
            MoveRequest { uid: decimal_string(header.uid()), destination },
        ),
        Decision::NoAction => None,
    }
}

/// The moves that the rules ask for a batch of records, in order.
pub fn plan_moves(headers: &Vec<CanonicalHeader>, rules: &Rules) -> (requests: Vec<MoveRequest>)
    ensures
        request_views(requests@) == planned_moves(header_views(headers@), rules@),
{
    let ghost all = header_views(headers@);
    let mut requests: Vec<MoveRequest> = Vec::new();
    let mut i: usize = 0;
    proof {
        assert(all.take(0) =~= Seq::<HeaderView>::empty());
        assert(request_views(requests@) =~= Seq::<(Seq<char>, Seq<char>)>::empty());
    }
    while i < headers.len()
        invariant
            all == header_views(headers@),
            i <= headers@.len(),
            request_views(requests@) == planned_moves(all.take(i as int), rules@),
        decreases headers@.len() - i,
    {
        let ghost before = request_views(requests@);
        proof {
            assert(all.take(i + 1).drop_last() =~= all.take(i as int));
            assert(all.take(i + 1).last() == headers@[i as int]@);
        }
        match move_request(&headers[i], rules) {
            Some(request) => {
                requests.push(request);
                assert(request_views(requests@) =~= before + seq![request@]);
            },
            None => {
                assert(before + Seq::<(Seq<char>, Seq<char>)>::empty() =~= before);
            },
        }
        i += 1;
    }
    proof {
        assert(all.take(i as int) =~= all);
    }
    requests
}

/// Classifies one message and, where the rules say so, asks the session to
/// move it.
///
/// The session is asked for exactly the move that the rules decide on, and
/// what it answers is the result. Where the rules decide on no move, the
/// session is left alone and the result is success.
pub fn process_mail<S: MoveCapability>(session: &mut S, header: &CanonicalHeader, rules: &Rules) -> (r:
    Result<(), MoveError>)
    ensures
        final(session).asked() == old(session).asked() + moves_for(header@, rules@),
        decide(header@, rules@) is Move ==> final(session).answers() == old(session).answers().push(
            r,
        ),
        decide(header@, rules@) is NoAction ==> r is Ok && *final(session) == *old(session),
{
    match move_request(header, rules) {
        Some(request) => {
            let r = session.move_mail(request.uid, request.destination.as_str());
            assert(session.asked() =~= old(session).asked() + moves_for(header@, rules@));
            r
        },
        None => {
            assert(session.asked() =~= old(session).asked() + moves_for(header@, rules@));
            Ok(())
        },
    }
}

/// Acts on a batch of records in order, and stops at the first move that
/// fails.
///
/// The result is success exactly when the session answered every move that
/// the rules decide on with success. Otherwise the session was asked for
/// the moves up to and including the first that it failed, and the result
/// carries its answer to that one.
pub fn process_all<S: MoveCapability>(
    session: &mut S,
    headers: &Vec<CanonicalHeader>,
    rules: &Rules,
) -> (r: Result<(), DispatchError>)
    ensures
        match r {
            Ok(_) => {
                &&& final(session).asked() == old(session).asked() + planned_moves(
                    header_views(headers@),
                    rules@,
                )
                &&& final(session).answers() == old(session).answers() + all_ok(
                    planned_moves(header_views(headers@), rules@).len(),
                )
            },
            Err(e) => {
                &&& e.index < headers@.len()
                &&& e.uid == headers@[e.index as int]@.id.uid
                &&& decide(headers@[e.index as int]@, rules@) is Move
                &&& final(session).asked() == old(session).asked() + planned_moves(
                    header_views(headers@).take(e.index + 1),
                    rules@,
                )
                &&& final(session).answers() == old(session).answers() + all_ok(
                    planned_moves(header_views(headers@).take(e.index as int), rules@).len(),
                ).push(Err::<(), MoveError>(e.error))
            },
        },
{
    let ghost all = header_views(headers@);
    let mut i: usize = 0;
    proof {
        assert(all.take(0) =~= Seq::<HeaderView>::empty());
        assert(session.asked() + Seq::<(Seq<char>, Seq<char>)>::empty() =~= session.asked());
        assert(session.answers() + all_ok(0) =~= session.answers());
    }
    while i < headers.len()
        invariant
            all == header_views(headers@),
            i <= headers@.len(),
            session.asked() == old(session).asked() + planned_moves(all.take(i as int), rules@),
            session.answers() == old(session).answers() + all_ok(
                planned_moves(all.take(i as int), rules@).len(),
            ),
        decreases headers@.len() - i,
    {
        let ghost done = planned_moves(all.take(i as int), rules@);
        let ghost answered = session.answers();
        proof {
            assert(all.take(i + 1).drop_last() =~= all.take(i as int));
            assert(all.take(i + 1).last() == headers@[i as int]@);
        }
        let r = process_mail(session, &headers[i], rules);
        proof {
            assert(session.asked() =~= old(session).asked() + planned_moves(
                all.take(i + 1),
                rules@,
            ));
        }
        match r {
            Ok(_) => {
                proof {
                    if decide(headers@[i as int]@, rules@) is Move {
                        assert(moves_for(headers@[i as int]@, rules@).len() == 1);
                        assert(r->Ok_0 == ());
                        assert(r == Ok::<(), MoveError>(()));
                        assert(all_ok(done.len()).push(r) =~= all_ok((done.len() + 1) as nat));
                        assert(answered.push(r) =~= old(session).answers() + all_ok(
                            (done.len() + 1) as nat,
                        ));
                    } else {
                        assert(moves_for(headers@[i as int]@, rules@).len() == 0);
                    }
                }
            },
            Err(error) => {
                proof {
                    assert(answered.push(r) =~= old(session).answers() + all_ok(done.len()).push(
                        Err::<(), MoveError>(error),
                    ));
                }
                return Err(DispatchError { index: i, uid: headers[i].uid(), error });
            },
        }
        i += 1;
    }
    proof {
        assert(all.take(i as int) =~= all);
    }
    Ok(())
}

/// One whole pass over a fetch: collects the new messages, then acts on each
/// in the order of the fetch, and returns the watermark after the pass.
///
/// Where no record can be made of a new message, the pass ends before
/// anything is moved. Otherwise the pass succeeds exactly when the session
/// answered every move with success. Where a move fails, the error carries
/// the session's answer and the watermark, which has moved past every new
/// message of the fetch by then.
pub fn process_bulk<S: MoveCapability>(
    session: &mut S,
    messages: &Vec<FetchedMessage>,
    generation: u32,
    force: bool,
    watermark: u32,
    patterns: &PatternSet,
    rules: &Rules,
) -> (r: Result<u32, SyncError>)
    requires
        scan_watermark(fetched_views(messages@), force, watermark as int) <= u32::MAX,
    ensures
        match extracted_all(
            candidates(fetched_views(messages@), force, watermark as int),
            generation,
            patterns@,
        ) {
            Err(e) => r == Err::<u32, SyncError>(SyncError::Scan(e)) && *final(session) == *old(
                session,
            ),
            Ok(headers) => match r {
                Ok(reached) => {
                    &&& reached == scan_watermark(
                        fetched_views(messages@),
                        force,
                        watermark as int,
                    )
                    &&& final(session).asked() == old(session).asked() + planned_moves(
                        headers,
                        rules@,
                    )
                    &&& final(session).answers() == old(session).answers() + all_ok(
                        planned_moves(headers, rules@).len(),
                    )
                },
                Err(SyncError::Move { failed, watermark: reached }) => {
                    &&& reached == scan_watermark(
                        fetched_views(messages@),
                        force,
                        watermark as int,
                    )
                    &&& failed.index < headers.len()
                    &&& failed.uid == headers[failed.index as int].id.uid
                    &&& decide(headers[failed.index as int], rules@) is Move
                    &&& final(session).asked() == old(session).asked() + planned_moves(
                        headers.take(failed.index + 1),
                        rules@,
                    )
                    &&& final(session).answers() == old(session).answers() + all_ok(
                        planned_moves(headers.take(failed.index as int), rules@).len(),
                    ).push(Err::<(), MoveError>(failed.error))
                },
                Err(SyncError::Scan(_)) => false,
            },
        },
{
    let batch = match collect(messages, generation, force, watermark, patterns) {
        Ok(batch) => batch,
        Err(e) => {
            return Err(SyncError::Scan(e));
        },
    };
    match process_all(session, &batch.headers, rules) {
        Ok(_) => Ok(batch.watermark),
        Err(failed) => Err(SyncError::Move { failed, watermark: batch.watermark }),
    }
}

/// Every uid of a pass lies below the watermark that the pass ends with.
pub proof fn lemma_seen_below_watermark(
    messages: Seq<FetchedView>,
    force: bool,
    watermark: int,
    index: int,
)
    requires
        0 <= index < messages.len(),
        messages[index].uid is Some,
    ensures
        messages[index].uid->Some_0 < scan_watermark(messages, force, watermark),
    decreases messages.len(),
{
    let next = watermark_after(messages[0].uid, force, watermark);
    lemma_scan_watermark_grows(messages.drop_first(), force, next);
    if index > 0 {
        assert(messages.drop_first()[index - 1] == messages[index]);
        lemma_seen_below_watermark(messages.drop_first(), force, next, index - 1);
    }
}

/// An unforced pass finds nothing new where every uid lies below the
/// watermark.
pub proof fn lemma_nothing_new_below(messages: Seq<FetchedView>, watermark: int)
    requires
        forall|i: int|
            0 <= i < messages.len() && (#[trigger] messages[i]).uid is Some ==> messages[i].uid->Some_0
                < watermark,
    ensures
        candidates(messages, false, watermark) == Seq::<FetchedView>::empty(),
        scan_watermark(messages, false, watermark) == watermark,
    decreases messages.len(),
{
    if messages.len() > 0 {
        let rest = messages.drop_first();
        assert(!is_candidate(messages[0].uid, false, watermark));
        assert forall|i: int| 0 <= i < rest.len() && (#[trigger] rest[i]).uid is Some implies rest[i].uid->Some_0
            < watermark by {
            assert(rest[i] == messages[i + 1]);
        }
        lemma_nothing_new_below(rest, watermark);
    }
}

/// Every uid of `later` is one of `messages`: no new mail arrived.
pub open spec fn no_new_mail(messages: Seq<FetchedView>, later: Seq<FetchedView>) -> bool {
    forall|i: int|
        0 <= i < later.len() && (#[trigger] later[i]).uid is Some ==> exists|j: int|
            0 <= j < messages.len() && (#[trigger] messages[j]).uid == later[i].uid
}

/// Scanning twice is scanning once: an unforced pass that begins at the
/// watermark that an earlier pass returned, over a fetch that holds no new
/// mail, finds no new message and leaves the watermark where it is.
pub proof fn lemma_rescan_finds_nothing(
    messages: Seq<FetchedView>,
    force: bool,
    watermark: int,
    later: Seq<FetchedView>,
)
    requires
        no_new_mail(messages, later),
    ensures
        candidates(later, false, scan_watermark(messages, force, watermark)) == Seq::<
            FetchedView,
        >::empty(),
        scan_watermark(later, false, scan_watermark(messages, force, watermark)) == scan_watermark(
            messages,
            force,
            watermark,
        ),
{
    let reached = scan_watermark(messages, force, watermark);
    assert forall|i: int| 0 <= i < later.len() && (#[trigger] later[i]).uid is Some implies later[i].uid->Some_0
        < reached by {
        let j = choose|j: int|
            0 <= j < messages.len() && (#[trigger] messages[j]).uid == later[i].uid;
        lemma_seen_below_watermark(messages, force, watermark, j);
    }
    lemma_nothing_new_below(later, reached);
}

/// A fetch holds no new mail compared with itself.
pub proof fn lemma_same_fetch_no_new_mail(messages: Seq<FetchedView>)
    ensures
        no_new_mail(messages, messages),
{
}

/// The uids of `messages` rise strictly, messages without one aside.
pub open spec fn uids_ascend(messages: Seq<FetchedView>) -> bool {
    forall|i: int, j: int|
        0 <= i < j < messages.len() && (#[trigger] messages[i]).uid is Some && (
        #[trigger] messages[j]).uid is Some ==> messages[i].uid->Some_0 < messages[j].uid->Some_0
}

/// A pass with the watermark at zero is a full pass: where the uids of the
/// fetch rise strictly, it finds the same new messages as a forced pass from
/// any watermark.
pub proof fn lemma_zero_watermark_is_full_pass(messages: Seq<FetchedView>, watermark: int)
    requires
        uids_ascend(messages),
    ensures
        candidates(messages, false, 0) == candidates(messages, true, watermark),
{
    lemma_ascending_pass(messages, 0, watermark);
}

/// Where the uids rise strictly and none lies below `low`, an unforced pass
/// from `low` finds what a forced pass finds.
proof fn lemma_ascending_pass(messages: Seq<FetchedView>, low: int, forced: int)
    requires
        uids_ascend(messages),
        forall|i: int|
            0 <= i < messages.len() && (#[trigger] messages[i]).uid is Some ==> messages[i].uid->Some_0
                >= low,
    ensures
        candidates(messages, false, low) == candidates(messages, true, forced),
    decreases messages.len(),
{
    if messages.len() > 0 {
        let rest = messages.drop_first();
        let low_next = watermark_after(messages[0].uid, false, low);
        let forced_next = watermark_after(messages[0].uid, true, forced);
        assert forall|i: int, j: int|
            0 <= i < j < rest.len() && (#[trigger] rest[i]).uid is Some && (
            #[trigger] rest[j]).uid is Some implies rest[i].uid->Some_0 < rest[j].uid->Some_0 by {
            assert(rest[i] == messages[i + 1]);
            assert(rest[j] == messages[j + 1]);
        }
        assert forall|i: int| 0 <= i < rest.len() && (#[trigger] rest[i]).uid is Some implies rest[i].uid->Some_0
            >= low_next by {
            assert(rest[i] == messages[i + 1]);
            if messages[0].uid is Some {
                assert(messages[0].uid->Some_0 < messages[i + 1].uid->Some_0);
            }
        }
        lemma_ascending_pass(rest, low_next, forced_next);
    }
}

} // verus!
