//! Syncing one IMAP folder, one step at a time.
//!
//! A folder is opened read-only (EXAMINE), its catalogue record is read for
//! the last UID already saved, the server is searched for the UIDs after it,
//! and each new UID is fetched with `BODY.PEEK[]` (which leaves the message's
//! `\Seen` flag alone) unless the catalogue already holds it. The highest UID
//! stored or found present is written back as the folder's checkpoint after
//! each fetched UID. The decisions live here as a transition function; the
//! caller talks to the server and the catalogue and reports what came back.

use crate::db::FolderRecord;
use crate::error::{error_view, Error, ErrorView};
use crate::imap::{fetch_order, lemma_uids_after, new_uids, uid_leq, uid_search_query, uids_after, SyncProgress};
use crate::storage::{slug, StorageEngine};
use crate::text::{decimal, decimal_text};
use vstd::prelude::*;

verus! {

/// The message items every fetch asks for: the whole message without
/// setting `\Seen`, and its internal date.
pub open spec fn peek_items() -> Seq<char> {
    "(BODY.PEEK[] INTERNALDATE)"@
}

/// The search for the UIDs after `last_uid`.
pub open spec fn search_text(last_uid: u32) -> Seq<char> {
    "UID "@ + decimal((last_uid + 1) as nat) + ":*"@
}

/// Where a folder sync stands; the action last handed out is the one whose
/// outcome the next step reads.
#[derive(Clone, Copy, Debug, PartialEq, Eq, Structural)]
pub enum FolderStage {
    Start,
    Examining,
    Recording,
    Searching,
    Checking,
    Fetching,
    Storing,
    Checkpointing,
    Finished,
}

/// A folder sync in progress.
pub struct FolderSync {
    pub folder_name: String,
    pub stage: FolderStage,
    /// Catalogue id of the folder, once its record is read.
    pub folder_id: String,
    /// The checkpoint the record held when the sync began.
    pub last_uid: u32,
    /// The highest UID stored or found already present, or `last_uid`.
    pub max_uid: u32,
    /// The UID being worked on.
    pub current: u32,
    /// The UIDs still to do, in ascending order.
    pub pending: Vec<u32>,
    /// Messages fetched for `current` and not stored yet: raw bytes and
    /// the server's internal date in seconds.
    pub fetched: Vec<(Vec<u8>, Option<i64>)>,
    pub progress: SyncProgress,
}

/// A folder sync over plain values.
pub struct FolderSyncView {
    pub folder_name: Seq<char>,
    pub stage: FolderStage,
    pub folder_id: Seq<char>,
    pub last_uid: u32,
    pub max_uid: u32,
    pub current: u32,
    pub pending: Seq<u32>,
    pub fetched: Seq<(Seq<u8>, Option<i64>)>,
    pub account: Seq<char>,
    pub progress_folder: Seq<char>,
    pub total: u32,
    pub processed: u32,
    pub bytes: u64,
}

impl View for FolderSync {
    type V = FolderSyncView;

    open spec fn view(&self) -> FolderSyncView {
        FolderSyncView {
            folder_name: self.folder_name@,
            stage: self.stage,
            folder_id: self.folder_id@,
            last_uid: self.last_uid,
            max_uid: self.max_uid,
            current: self.current,
            pending: self.pending@,
            fetched: self.fetched.deep_view(),
            account: self.progress.account_id@,
            progress_folder: self.progress.current_folder@,
            total: self.progress.total_messages,
            processed: self.progress.processed_messages,
            bytes: self.progress.downloaded_bytes,
        }
    }
}

/// What came of the last action.
pub enum FolderSyncEvent {
    /// The first step; nothing has been done yet.
    Begin,
    /// EXAMINE succeeded and reported the folder's UIDVALIDITY.
    Examined(Option<u32>),
    /// The folder's catalogue record, as found or created.
    Recorded(FolderRecord),
    /// The UIDs the search returned.
    Searched(Vec<u32>),
    /// Whether the catalogue already holds the current UID.
    Exists(bool),
    /// The messages the fetch returned: raw bytes and internal date.
    Fetched(Vec<(Vec<u8>, Option<i64>)>),
    /// The message was stored and catalogued; its size in bytes.
    Stored(u64),
    /// The checkpoint was written.
    Saved,
    /// The server refused the command; its message.
    ServerError(String),
    /// The catalogue or the archive failed.
    Failed(Error),
}

/// What the caller is to do next.
pub enum FolderSyncAction {
    /// EXAMINE the folder (read-only).
    Examine(String),
    /// Find or create the folder's record: name, local slug, UIDVALIDITY.
    OpenRecord(String, String, Option<u32>),
    /// UID SEARCH with this query.
    UidSearch(String),
    /// Ask the catalogue whether the folder (by id) holds this UID.
    CheckExists(String, u32),
    /// UID FETCH this UID with these items.
    FetchPeek(u32, String),
    /// Store and catalogue a fetched message: UID, raw bytes, internal date.
    Store(u32, Vec<u8>, Option<i64>),
    /// Write the folder's (by id) checkpoint.
    Checkpoint(String, u32),
    /// The folder is done, with this result.
    Finish(Result<(), Error>),
}

/// `FolderSyncEvent` over plain values; a record is taken by its id and
/// checkpoint.
pub enum FolderEventView {
    Begin,
    Examined(Option<u32>),
    Recorded(Seq<char>, u32),
    Searched(Seq<u32>),
    Exists(bool),
    Fetched(Seq<(Seq<u8>, Option<i64>)>),
    Stored(u64),
    Saved,
    ServerError(Seq<char>),
    Failed(ErrorView),
}

/// `FolderSyncAction` over plain values.
pub enum FolderActionView {
    Examine(Seq<char>),
    OpenRecord(Seq<char>, Seq<char>, Option<u32>),
    UidSearch(Seq<char>),
    CheckExists(Seq<char>, u32),
    FetchPeek(u32, Seq<char>),
    Store(u32, Seq<u8>, Option<i64>),
    Checkpoint(Seq<char>, u32),
    Finish(Option<ErrorView>),
}

pub open spec fn event_view(e: FolderSyncEvent) -> FolderEventView {
    match e {
        FolderSyncEvent::Begin => FolderEventView::Begin,
        FolderSyncEvent::Examined(u) => FolderEventView::Examined(u),
        FolderSyncEvent::Recorded(r) => FolderEventView::Recorded(r.id@, r.last_synced_uid),
        FolderSyncEvent::Searched(f) => FolderEventView::Searched(f@),
        FolderSyncEvent::Exists(b) => FolderEventView::Exists(b),
        FolderSyncEvent::Fetched(m) => FolderEventView::Fetched(m.deep_view()),
        FolderSyncEvent::Stored(n) => FolderEventView::Stored(n),
        FolderSyncEvent::Saved => FolderEventView::Saved,
        FolderSyncEvent::ServerError(m) => FolderEventView::ServerError(m@),
        FolderSyncEvent::Failed(e) => FolderEventView::Failed(error_view(e)),
    }
}

pub open spec fn action_view(a: FolderSyncAction) -> FolderActionView {
    match a {
        FolderSyncAction::Examine(n) => FolderActionView::Examine(n@),
        FolderSyncAction::OpenRecord(n, s, u) => FolderActionView::OpenRecord(n@, s@, u),
        FolderSyncAction::UidSearch(q) => FolderActionView::UidSearch(q@),
        FolderSyncAction::CheckExists(f, u) => FolderActionView::CheckExists(f@, u),
        FolderSyncAction::FetchPeek(u, i) => FolderActionView::FetchPeek(u, i@),
        FolderSyncAction::Store(u, raw, d) => FolderActionView::Store(u, raw@, d),
        FolderSyncAction::Checkpoint(f, u) => FolderActionView::Checkpoint(f@, u),
        FolderSyncAction::Finish(r) => FolderActionView::Finish(
            match r {
                Ok(_) => None,
                Err(e) => Some(error_view(e)),
            },
        ),
    }
}

pub open spec fn max_u32(a: u32, b: u32) -> u32 {
    if a >= b {
        a
    } else {
        b
    }
}

pub open spec fn finish_with(s: FolderSyncView, e: Option<ErrorView>) -> (FolderSyncView, FolderActionView) {
    (FolderSyncView { stage: FolderStage::Finished, ..s }, FolderActionView::Finish(e))
}

/// On to the next pending UID, or done.
pub open spec fn next_uid(s: FolderSyncView) -> (FolderSyncView, FolderActionView) {
    if s.pending.len() == 0 {
        finish_with(s, None)
    } else {
        (
            FolderSyncView { stage: FolderStage::Checking, current: s.pending[0], pending: s.pending.drop_first(), ..s },
            FolderActionView::CheckExists(s.folder_id, s.pending[0]),
        )
    }
}

/// On to the next fetched message of the current UID, or, when none is
/// left, write the checkpoint.
pub open spec fn next_message(s: FolderSyncView) -> (FolderSyncView, FolderActionView) {
    if s.fetched.len() == 0 {
        (FolderSyncView { stage: FolderStage::Checkpointing, ..s }, FolderActionView::Checkpoint(s.folder_id, s.max_uid))
    } else {
        (
            FolderSyncView { stage: FolderStage::Storing, fetched: s.fetched.drop_first(), ..s },
            FolderActionView::Store(s.current, s.fetched[0].0, s.fetched[0].1),
        )
    }
}

/// The next state and action of a folder sync, from its state and what came
/// of the last action. An event that does not belong to the stage ends the
/// sync without error (the caller never sends one; see `event_fits`).
pub open spec fn folder_sync_transition(s: FolderSyncView, e: FolderEventView) -> (FolderSyncView, FolderActionView) {
    match s.stage {
        FolderStage::Start => (FolderSyncView { stage: FolderStage::Examining, ..s }, FolderActionView::Examine(s.folder_name)),
        FolderStage::Finished => finish_with(s, None),
        _ => match e {
            FolderEventView::Failed(err) => finish_with(s, Some(err)),
            FolderEventView::Examined(uv) => if s.stage == FolderStage::Examining {
                (
                    FolderSyncView { stage: FolderStage::Recording, ..s },
                    FolderActionView::OpenRecord(s.folder_name, slug(s.folder_name), uv),
                )
            } else {
                finish_with(s, None)
            },
            FolderEventView::Recorded(id, l) => if s.stage == FolderStage::Recording {
                (
                    FolderSyncView { stage: FolderStage::Searching, folder_id: id, last_uid: l, max_uid: l, ..s },
                    FolderActionView::UidSearch(search_text(l)),
                )
            } else {
                finish_with(s, None)
            },
            FolderEventView::Searched(found) => if s.stage == FolderStage::Searching {
                let u = fetch_order(found, s.last_uid);
                if u.len() == 0 {
                    finish_with(s, None)
                } else {
                    (
                        FolderSyncView {
                            stage: FolderStage::Checking,
                            total: (s.total + u.len()) as u32,
                            current: u[0],
                            pending: u.drop_first(),
                            ..s
                        },
                        FolderActionView::CheckExists(s.folder_id, u[0]),
                    )
                }
            } else {
                finish_with(s, None)
            },
            FolderEventView::Exists(b) => if s.stage == FolderStage::Checking {
                if b {
                    next_uid(FolderSyncView { max_uid: max_u32(s.max_uid, s.current), ..s })
                } else {
                    (FolderSyncView { stage: FolderStage::Fetching, ..s }, FolderActionView::FetchPeek(s.current, peek_items()))
                }
            } else {
                finish_with(s, None)
            },
            FolderEventView::Fetched(ms) => if s.stage == FolderStage::Fetching {
                next_message(FolderSyncView { fetched: ms, ..s })
            } else {
                finish_with(s, None)
            },
            FolderEventView::Stored(n) => if s.stage == FolderStage::Storing {
                next_message(
                    FolderSyncView {
                        processed: (s.processed + 1) as u32,
                        bytes: (s.bytes + n) as u64,
                        max_uid: max_u32(s.max_uid, s.current),
                        ..s
                    },
                )
            } else {
                finish_with(s, None)
            },
            FolderEventView::Saved => if s.stage == FolderStage::Checkpointing {
                next_uid(s)
            } else {
                finish_with(s, None)
            },
            FolderEventView::ServerError(m) => if s.stage == FolderStage::Examining {
                finish_with(s, Some(ErrorView::Imap("Failed to examine mailbox '"@ + s.folder_name + "': "@ + m)))
            } else if s.stage == FolderStage::Searching {
                finish_with(s, Some(ErrorView::Imap("UID search failed in '"@ + s.folder_name + "': "@ + m)))
            } else if s.stage == FolderStage::Fetching {
                finish_with(
                    s,
                    Some(
                        ErrorView::Imap(
                            "Failed to fetch message UID "@ + decimal(s.current as nat) + " in '"@ + s.folder_name
                                + "': "@ + m,
                        ),
                    ),
                )
            } else {
                finish_with(s, None)
            },
            FolderEventView::Begin => finish_with(s, None),
        },
    }
}

/// The events that answer the action handed out at each stage; a failure of
/// the catalogue or the archive can answer any of them.
pub open spec fn event_fits(stage: FolderStage, e: FolderEventView) -> bool {
    match stage {
        FolderStage::Start => e is Begin,
        FolderStage::Finished => false,
        _ => e is Failed || match stage {
            FolderStage::Examining => e is Examined || e is ServerError,
            FolderStage::Recording => e is Recorded,
            FolderStage::Searching => e is Searched || e is ServerError,
            FolderStage::Checking => e is Exists,
            FolderStage::Fetching => e is Fetched || e is ServerError,
            FolderStage::Storing => e is Stored,
            _ => e is Saved,
        },
    }
}

/// A step may be taken: the event answers the stage, and the counts stay
/// within their types (the UID after the checkpoint, the number of new
/// messages, and the stored messages and bytes).
pub open spec fn step_allowed(s: FolderSyncView, e: FolderEventView) -> bool {
    &&& event_fits(s.stage, e)
    &&& (e matches FolderEventView::Recorded(_, l) ==> l < u32::MAX)
    &&& (e matches FolderEventView::Searched(found) ==> s.total + fetch_order(found, s.last_uid).len() <= u32::MAX)
    &&& (e matches FolderEventView::Stored(n) ==> s.processed < u32::MAX && s.bytes + n <= u64::MAX)
}

/// The states and actions of a folder sync from `s` through the events
/// `evs`: the state after the last event, and one action per event.
pub open spec fn folder_run(s: FolderSyncView, evs: Seq<FolderEventView>) -> (FolderSyncView, Seq<FolderActionView>)
    decreases evs.len(),
{
    if evs.len() == 0 {
        (s, Seq::empty())
    } else {
        let (s1, acts) = folder_run(s, evs.drop_last());
        let (s2, a) = folder_sync_transition(s1, evs.last());
        (s2, acts.push(a))
    }
}

/// The only commands a sync sends to the server are EXAMINE, a UID SEARCH
/// for the UIDs after a checkpoint, and UID FETCH with `BODY.PEEK[]`; the
/// other actions go to the catalogue and the archive.
pub open spec fn read_only_action(a: FolderActionView) -> bool {
    match a {
        FolderActionView::Examine(_) => true,
        FolderActionView::UidSearch(q) => exists|l: u32| q == #[trigger] search_text(l),
        FolderActionView::FetchPeek(_, items) => items == peek_items(),
        FolderActionView::OpenRecord(..) | FolderActionView::CheckExists(..) | FolderActionView::Store(..)
        | FolderActionView::Checkpoint(..) | FolderActionView::Finish(_) => true,
    }
}

proof fn lemma_step_read_only(s: FolderSyncView, e: FolderEventView)
    ensures
        read_only_action(folder_sync_transition(s, e).1),
{
    if let FolderEventView::Recorded(_, l) = e {
        assert(search_text(l) == search_text(l));
    }
}

/// Syncing a folder never changes the server: whatever the server and the
/// catalogue answer, every action of a run is EXAMINE, a UID SEARCH for the
/// UIDs after a checkpoint, a UID FETCH of `BODY.PEEK[]` (which does not set
/// `\Seen`), or work on the local catalogue and archive.
pub proof fn law_folder_sync_read_only(s: FolderSyncView, evs: Seq<FolderEventView>)
    ensures
        forall|i: int| 0 <= i < folder_run(s, evs).1.len() ==> read_only_action(#[trigger] folder_run(s, evs).1[i]),
    decreases evs.len(),
{
    if evs.len() > 0 {
        law_folder_sync_read_only(s, evs.drop_last());
        let (s1, acts) = folder_run(s, evs.drop_last());
        lemma_step_read_only(s1, evs.last());
        let all = folder_run(s, evs).1;
        assert forall|i: int| 0 <= i < all.len() implies read_only_action(#[trigger] all[i]) by {
            if i < acts.len() {
                assert(all[i] == acts[i]);
            }
        }
    }
}

/// The folder's checkpoint has been read: the sync is past its record.
pub open spec fn checkpoint_read(s: FolderSyncView) -> bool {
    s.stage != FolderStage::Start && s.stage != FolderStage::Examining && s.stage != FolderStage::Recording
}

/// The UID an event credits: the current one, when the catalogue already
/// holds it or a message of it was stored.
pub open spec fn credit(s: FolderSyncView, e: FolderEventView) -> Seq<u32> {
    if (s.stage == FolderStage::Checking && (e matches FolderEventView::Exists(b) && b)) || (s.stage
        == FolderStage::Storing && e is Stored) {
        seq![s.current]
    } else {
        Seq::empty()
    }
}

/// The UIDs credited along a run, in order.
pub open spec fn credited(s: FolderSyncView, evs: Seq<FolderEventView>) -> Seq<u32>
    decreases evs.len(),
{
    if evs.len() == 0 {
        Seq::empty()
    } else {
        credited(s, evs.drop_last()) + credit(folder_run(s, evs.drop_last()).0, evs.last())
    }
}

/// The greatest of `m` and the UIDs `us`.
pub open spec fn max_of(m: u32, us: Seq<u32>) -> u32
    decreases us.len(),
{
    if us.len() == 0 {
        m
    } else {
        max_u32(max_of(m, us.drop_last()), us.last())
    }
}

proof fn lemma_max_of_concat(m: u32, a: Seq<u32>, b: Seq<u32>)
    ensures
        max_of(m, a + b) == max_of(max_of(m, a), b),
    decreases b.len(),
{
    if b.len() == 0 {
        assert(a + b =~= a);
    } else {
        lemma_max_of_concat(m, a, b.drop_last());
        assert((a + b).drop_last() =~= a + b.drop_last());
        assert((a + b).last() == b.last());
    }
}

proof fn lemma_step_checkpoint(s: FolderSyncView, e: FolderEventView)
    requires
        checkpoint_read(s),
    ensures
        checkpoint_read(folder_sync_transition(s, e).0),
        folder_sync_transition(s, e).0.last_uid == s.last_uid,
        folder_sync_transition(s, e).0.max_uid == max_of(s.max_uid, credit(s, e)),
        folder_sync_transition(s, e).1 matches FolderActionView::Checkpoint(_, c) ==> c == folder_sync_transition(
            s,
            e,
        ).0.max_uid,
{
    let c = credit(s, e);
    if c.len() == 1 {
        assert(c.drop_last() =~= Seq::<u32>::empty());
        assert(max_of(s.max_uid, c.drop_last()) == s.max_uid);
        assert(c.last() == s.current);
        assert(max_of(s.max_uid, c) == max_u32(s.max_uid, s.current));
    } else {
        assert(c.len() == 0);
    }
}

/// The checkpoint a sync writes is the highest UID it has credited: from
/// the moment the folder's checkpoint `l` is read (the state then holds
/// `max_uid == last_uid == l`), the sync keeps `l`, its running maximum is
/// the greatest of its starting value and every UID found already in the
/// catalogue or stored since, and each checkpoint it writes is that maximum.
/// UIDs are only ever added to the maximum, so the checkpoint never moves
/// back.
pub proof fn law_folder_sync_checkpoint(s: FolderSyncView, evs: Seq<FolderEventView>)
    requires
        checkpoint_read(s),
    ensures
        checkpoint_read(folder_run(s, evs).0),
        folder_run(s, evs).0.last_uid == s.last_uid,
        folder_run(s, evs).0.max_uid == max_of(s.max_uid, credited(s, evs)),
        folder_run(s, evs).0.max_uid >= s.max_uid,
        evs.len() > 0 ==> (folder_run(s, evs).1.last() matches FolderActionView::Checkpoint(_, c) ==> c == max_of(
            s.max_uid,
            credited(s, evs),
        )),
    decreases evs.len(),
{
    if evs.len() > 0 {
        law_folder_sync_checkpoint(s, evs.drop_last());
        let s1 = folder_run(s, evs.drop_last()).0;
        lemma_step_checkpoint(s1, evs.last());
        lemma_max_of_concat(s.max_uid, credited(s, evs.drop_last()), credit(s1, evs.last()));
    }
}

/// UIDs from a search come after the checkpoint they were searched from.
proof fn lemma_fetch_order_after(found: Seq<u32>, last_uid: u32)
    ensures
        forall|i: int| 0 <= i < fetch_order(found, last_uid).len() ==> fetch_order(found, last_uid)[i] > last_uid,
{
    let leq = uid_leq();
    assert(vstd::relations::total_ordering(leq)) by {
        assert(vstd::relations::reflexive(leq));
        assert(vstd::relations::antisymmetric(leq));
        assert(vstd::relations::transitive(leq));
        assert(vstd::relations::strongly_connected(leq));
    }
    let a = uids_after(found, last_uid);
    a.lemma_sort_by_ensures(leq);
    lemma_uids_after(found, last_uid);
    let f = fetch_order(found, last_uid);
    assert forall|i: int| 0 <= i < f.len() implies f[i] > last_uid by {
        assert(f.contains(f[i]));
        assert(a.contains(f[i]));
        let j = choose|j: int| 0 <= j < a.len() && a[j] == f[i];
    }
}

/// Every UID the sync works on comes after the checkpoint.
pub open spec fn uids_after_checkpoint(s: FolderSyncView) -> bool {
    &&& checkpoint_read(s)
    &&& (s.stage == FolderStage::Checking || s.stage == FolderStage::Fetching || s.stage == FolderStage::Storing
        || s.stage == FolderStage::Checkpointing) ==> s.current > s.last_uid
    &&& forall|i: int| 0 <= i < s.pending.len() ==> s.pending[i] > s.last_uid
}

/// An action works on a UID after `l`, if it names a UID at all.
pub open spec fn uid_after(a: FolderActionView, l: u32) -> bool {
    match a {
        FolderActionView::CheckExists(_, u) => u > l,
        FolderActionView::FetchPeek(u, _) => u > l,
        FolderActionView::Store(u, _, _) => u > l,
        _ => true,
    }
}

proof fn lemma_step_incremental(s: FolderSyncView, e: FolderEventView)
    requires
        uids_after_checkpoint(s),
    ensures
        uids_after_checkpoint(folder_sync_transition(s, e).0),
        folder_sync_transition(s, e).0.last_uid == s.last_uid,
        uid_after(folder_sync_transition(s, e).1, s.last_uid),
{
    if let FolderEventView::Searched(found) = e {
        lemma_fetch_order_after(found, s.last_uid);
    }
    lemma_step_checkpoint(s, e);
}

/// The sync is incremental: once the folder's checkpoint is read, every UID
/// it looks up in the catalogue, fetches or stores comes after that
/// checkpoint, whatever the server and the catalogue answer.
pub proof fn law_folder_sync_incremental(s: FolderSyncView, evs: Seq<FolderEventView>)
    requires
        uids_after_checkpoint(s),
    ensures
        uids_after_checkpoint(folder_run(s, evs).0),
        folder_run(s, evs).0.last_uid == s.last_uid,
        forall|i: int| 0 <= i < folder_run(s, evs).1.len() ==> uid_after(#[trigger] folder_run(s, evs).1[i], s.last_uid),
    decreases evs.len(),
{
    if evs.len() > 0 {
        law_folder_sync_incremental(s, evs.drop_last());
        let (s1, acts) = folder_run(s, evs.drop_last());
        lemma_step_incremental(s1, evs.last());
        let all = folder_run(s, evs).1;
        assert forall|i: int| 0 <= i < all.len() implies uid_after(#[trigger] all[i], s.last_uid) by {
            if i < acts.len() {
                assert(all[i] == acts[i]);
            }
        }
    }
}

impl FolderSync {
    /// A sync of `folder_name` that has not begun, carrying the account's
    /// progress so far.
    pub fn new(folder_name: &str, progress: SyncProgress) -> (r: Self)
        ensures
            r@.folder_name == folder_name@,
            r@.stage == FolderStage::Start,
            r@.folder_id.len() == 0,
            r@.last_uid == 0,
            r@.max_uid == 0,
            r@.current == 0,
            r@.pending.len() == 0,
            r@.fetched.len() == 0,
            r.progress == progress,
    {
        FolderSync {
            folder_name: String::from_str(folder_name),
            stage: FolderStage::Start,
            folder_id: String::new(),
            last_uid: 0,
            max_uid: 0,
            current: 0,
            pending: Vec::new(),
            fetched: Vec::new(),
            progress,
        }
    }
}

fn finish(s: FolderSync, r: Result<(), Error>) -> (out: (FolderSync, FolderSyncAction))
    ensures
        (out.0@, action_view(out.1)) == finish_with(
            s@,
            match r {
                Ok(_) => None,
                Err(e) => Some(error_view(e)),
            },
        ),
{
    let mut s = s;
    s.stage = FolderStage::Finished;
    (s, FolderSyncAction::Finish(r))
}

fn to_next_uid(s: FolderSync) -> (out: (FolderSync, FolderSyncAction))
    ensures
        (out.0@, action_view(out.1)) == next_uid(s@),
{
    let mut s = s;
    if s.pending.len() == 0 {
        s.stage = FolderStage::Finished;
        (s, FolderSyncAction::Finish(Ok(())))
    } else {
        let ghost before = s.pending@;
        let u = s.pending.remove(0);
        assert(s.pending@ =~= before.drop_first());
        s.current = u;
        s.stage = FolderStage::Checking;
        let id = s.folder_id.clone();
        (s, FolderSyncAction::CheckExists(id, u))
    }
}

fn to_next_message(s: FolderSync) -> (out: (FolderSync, FolderSyncAction))
    ensures
        (out.0@, action_view(out.1)) == next_message(s@),
{
    let mut s = s;
    if s.fetched.len() == 0 {
        s.stage = FolderStage::Checkpointing;
        let id = s.folder_id.clone();
        let m = s.max_uid;
        (s, FolderSyncAction::Checkpoint(id, m))
    } else {
        let ghost before = s.fetched.deep_view();
        let ghost raw_before = s.fetched@;
        let (raw, date) = s.fetched.remove(0);
        assert(raw_before[0] == (raw, date));
        assert(before[0] == (raw@, date));
        assert(s.fetched.deep_view() =~= before.drop_first()) by {
            assert forall|k: int| 0 <= k < s.fetched.deep_view().len() implies s.fetched.deep_view()[k]
                == before.drop_first()[k] by {
                assert(s.fetched@[k] == raw_before[k + 1]);
            }
        }
        s.stage = FolderStage::Storing;
        let u = s.current;
        (s, FolderSyncAction::Store(u, raw, date))
    }
}

/// The next state and action of a folder sync (see
/// `folder_sync_transition`). A sync starts from `FolderSync::new` with the
/// event `Begin` and goes on until the action is `Finish`.
pub fn folder_sync_step(state: FolderSync, event: FolderSyncEvent) -> (r: (FolderSync, FolderSyncAction))
    requires
        step_allowed(state@, event_view(event)),
    ensures
        (r.0@, action_view(r.1)) == folder_sync_transition(state@, event_view(event)),
{
    let mut s = state;
    if s.stage == FolderStage::Start {
        s.stage = FolderStage::Examining;
        let n = s.folder_name.clone();
        return (s, FolderSyncAction::Examine(n));
    }
    match event {
        FolderSyncEvent::Failed(e) => finish(s, Err(e)),
        FolderSyncEvent::Examined(uv) => {
            s.stage = FolderStage::Recording;
            let local_slug = StorageEngine::sanitize_slug(s.folder_name.as_str());
            let n = s.folder_name.clone();
            (s, FolderSyncAction::OpenRecord(n, local_slug, uv))
        },
        FolderSyncEvent::Recorded(rec) => {
            let l = rec.last_synced_uid;
            s.stage = FolderStage::Searching;
            s.folder_id = rec.id;
            s.last_uid = l;
            s.max_uid = l;
            (s, FolderSyncAction::UidSearch(uid_search_query(l)))
        },
        FolderSyncEvent::Searched(found) => {
            let mut u = new_uids(&found, s.last_uid);
            if u.len() == 0 {
                finish(s, Ok(()))
            } else {
                s.progress.add_found(u.len() as u32);
                let ghost before = u@;
                let first = u.remove(0);
                assert(u@ =~= before.drop_first());
                s.current = first;
                s.pending = u;
                s.stage = FolderStage::Checking;
                let id = s.folder_id.clone();
                (s, FolderSyncAction::CheckExists(id, first))
            }
        },
        FolderSyncEvent::Exists(b) => {
            if b {
                if s.current > s.max_uid {
                    s.max_uid = s.current;
                }
                to_next_uid(s)
            } else {
                s.stage = FolderStage::Fetching;
                let u = s.current;
                (s, FolderSyncAction::FetchPeek(u, String::from_str("(BODY.PEEK[] INTERNALDATE)")))
            }
        },
        FolderSyncEvent::Fetched(ms) => {
            s.fetched = ms;
            to_next_message(s)
        },
        FolderSyncEvent::Stored(n) => {
            s.progress.record_stored(n);
            if s.current > s.max_uid {
                s.max_uid = s.current;
            }
            to_next_message(s)
        },
        FolderSyncEvent::Saved => to_next_uid(s),
        FolderSyncEvent::ServerError(m) => {
            let msg = if s.stage == FolderStage::Examining {
                String::from_str("Failed to examine mailbox '").concat(s.folder_name.as_str()).concat("': ").concat(
                    m.as_str(),
                )
            } else if s.stage == FolderStage::Searching {
                String::from_str("UID search failed in '").concat(s.folder_name.as_str()).concat("': ").concat(
                    m.as_str(),
                )
            } else {
                String::from_str("Failed to fetch message UID ").concat(decimal_text(s.current as u64).as_str()).concat(
                    " in '",
                ).concat(s.folder_name.as_str()).concat("': ").concat(m.as_str())
            };
            finish(s, Err(Error::Imap(msg)))
        },
        FolderSyncEvent::Begin => finish(s, Ok(())),
    }
}

} // verus!
