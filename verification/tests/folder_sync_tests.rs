use mailbackup_core::db::FolderRecord;
use mailbackup_core::error::Error;
use mailbackup_core::folder_sync::{folder_sync_step, FolderStage, FolderSync, FolderSyncAction, FolderSyncEvent};
use mailbackup_core::imap::SyncProgress;

fn record(last: u32) -> FolderRecord {
    FolderRecord {
        id: "f1".to_string(),
        account_id: "acc".to_string(),
        remote_name: "INBOX".to_string(),
        local_slug: "INBOX".to_string(),
        uidvalidity: Some(7),
        last_synced_uid: last,
        message_count: 0,
        updated_at: 0,
    }
}

fn describe(a: &FolderSyncAction) -> String {
    match a {
        FolderSyncAction::Examine(n) => format!("EXAMINE {}", n),
        FolderSyncAction::OpenRecord(n, s, u) => format!("record {} {} {:?}", n, s, u),
        FolderSyncAction::UidSearch(q) => format!("SEARCH {}", q),
        FolderSyncAction::CheckExists(f, u) => format!("exists {} {}", f, u),
        FolderSyncAction::FetchPeek(u, i) => format!("FETCH {} {}", u, i),
        FolderSyncAction::Store(u, raw, d) => format!("store {} {} {:?}", u, String::from_utf8_lossy(raw), d),
        FolderSyncAction::Checkpoint(f, u) => format!("checkpoint {} {}", f, u),
        FolderSyncAction::Finish(r) => format!("finish {}", r.is_ok()),
    }
}

/// Feeds the events in order (after `Begin`); returns every action and the
/// final state.
fn drive(events: Vec<FolderSyncEvent>) -> (Vec<String>, FolderSync, Option<Result<(), Error>>) {
    let mut state = FolderSync::new("INBOX", SyncProgress::start("acc"));
    let mut asked = Vec::new();
    let mut event = FolderSyncEvent::Begin;
    let mut rest = events.into_iter();
    loop {
        let (next, action) = folder_sync_step(state, event);
        state = next;
        asked.push(describe(&action));
        if let FolderSyncAction::Finish(r) = action {
            return (asked, state, Some(r));
        }
        match rest.next() {
            Some(e) => event = e,
            None => return (asked, state, None),
        }
    }
}

#[test]
fn folder_sync_fetches_only_new_uids_read_only() {
    let events = vec![
        FolderSyncEvent::Examined(Some(7)),
        FolderSyncEvent::Recorded(record(5)),
        FolderSyncEvent::Searched(vec![9, 5, 7, 3]),
        FolderSyncEvent::Exists(false),
        FolderSyncEvent::Fetched(vec![(b"seven".to_vec(), Some(100))]),
        FolderSyncEvent::Stored(5),
        FolderSyncEvent::Saved,
        FolderSyncEvent::Exists(true),
    ];
    let (asked, state, result) = drive(events);
    assert_eq!(
        asked,
        vec![
            "EXAMINE INBOX",
            "record INBOX INBOX Some(7)",
            "SEARCH UID 6:*",
            "exists f1 7",
            "FETCH 7 (BODY.PEEK[] INTERNALDATE)",
            "store 7 seven Some(100)",
            "checkpoint f1 7",
            "exists f1 9",
            "finish true",
        ]
    );
    assert!(result.unwrap().is_ok());
    assert_eq!(state.stage, FolderStage::Finished);
    assert_eq!(state.max_uid, 9);
    assert_eq!(state.progress.total_messages, 2);
    assert_eq!(state.progress.processed_messages, 1);
    assert_eq!(state.progress.downloaded_bytes, 5);
}

#[test]
fn folder_sync_up_to_date_folder_finishes_after_search() {
    let events = vec![
        FolderSyncEvent::Examined(None),
        FolderSyncEvent::Recorded(record(10)),
        FolderSyncEvent::Searched(vec![10]),
    ];
    let (asked, state, result) = drive(events);
    assert_eq!(asked.last().unwrap(), "finish true");
    assert!(result.unwrap().is_ok());
    assert_eq!(state.progress.total_messages, 0);
}

#[test]
fn folder_sync_checkpoint_after_empty_fetch_keeps_maximum() {
    let events = vec![
        FolderSyncEvent::Examined(Some(7)),
        FolderSyncEvent::Recorded(record(0)),
        FolderSyncEvent::Searched(vec![4, 2]),
        FolderSyncEvent::Exists(true),
        FolderSyncEvent::Exists(false),
        FolderSyncEvent::Fetched(vec![]),
        FolderSyncEvent::Saved,
    ];
    let (asked, _, _) = drive(events);
    assert_eq!(asked[3], "exists f1 2");
    assert_eq!(asked[4], "exists f1 4");
    assert_eq!(asked[6], "checkpoint f1 2");
    assert_eq!(asked[7], "finish true");
}

#[test]
fn folder_sync_stores_every_fetched_message_then_checkpoints() {
    let events = vec![
        FolderSyncEvent::Examined(Some(7)),
        FolderSyncEvent::Recorded(record(0)),
        FolderSyncEvent::Searched(vec![3]),
        FolderSyncEvent::Exists(false),
        FolderSyncEvent::Fetched(vec![(b"a".to_vec(), None), (b"b".to_vec(), Some(1))]),
        FolderSyncEvent::Stored(1),
        FolderSyncEvent::Stored(1),
        FolderSyncEvent::Saved,
    ];
    let (asked, state, _) = drive(events);
    assert_eq!(asked[5], "store 3 a None");
    assert_eq!(asked[6], "store 3 b Some(1)");
    assert_eq!(asked[7], "checkpoint f1 3");
    assert_eq!(state.progress.processed_messages, 2);
}

#[test]
fn folder_sync_server_errors_name_the_folder() {
    let (_, _, r) = drive(vec![FolderSyncEvent::ServerError("NO such mailbox".to_string())]);
    match r.unwrap() {
        Err(Error::Imap(m)) => assert_eq!(m, "Failed to examine mailbox 'INBOX': NO such mailbox"),
        other => panic!("unexpected {:?}", other),
    }
    let (_, _, r) = drive(vec![
        FolderSyncEvent::Examined(None),
        FolderSyncEvent::Recorded(record(1)),
        FolderSyncEvent::ServerError("BAD".to_string()),
    ]);
    match r.unwrap() {
        Err(Error::Imap(m)) => assert_eq!(m, "UID search failed in 'INBOX': BAD"),
        other => panic!("unexpected {:?}", other),
    }
    let (_, _, r) = drive(vec![
        FolderSyncEvent::Examined(None),
        FolderSyncEvent::Recorded(record(1)),
        FolderSyncEvent::Searched(vec![12]),
        FolderSyncEvent::Exists(false),
        FolderSyncEvent::ServerError("timeout".to_string()),
    ]);
    match r.unwrap() {
        Err(Error::Imap(m)) => assert_eq!(m, "Failed to fetch message UID 12 in 'INBOX': timeout"),
        other => panic!("unexpected {:?}", other),
    }
}

#[test]
fn folder_sync_catalogue_failure_is_passed_on() {
    let (asked, _, r) = drive(vec![
        FolderSyncEvent::Examined(None),
        FolderSyncEvent::Failed(Error::Database("locked".to_string())),
    ]);
    assert_eq!(asked.len(), 3);
    match r.unwrap() {
        Err(Error::Database(m)) => assert_eq!(m, "locked"),
        other => panic!("unexpected {:?}", other),
    }
}
