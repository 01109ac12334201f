use asmith_bot::storage::{decode_storage, encode_storage, StorageManager};
use asmith_bot::todo::TodoList;

const SESSION: &str = "0f8c3a1e-9b2d-4c5e-8f7a-6d5e4c3b2a10";

fn manager() -> StorageManager {
    StorageManager::new("/data".to_owned(), SESSION.to_owned())
}

fn sample_name() -> String {
    format!("asmith_bot_{}_2024-05-17_10-30-05Z.json", SESSION)
}

#[test]
fn generated_save_names_are_accepted() {
    let storage = manager();
    let name = storage.make_save_filename("2024-05-17_10-30-05Z");
    assert_eq!(name, sample_name());
    assert!(storage.is_valid_filename(name.as_str()));
}

#[test]
fn foreign_or_mangled_names_are_rejected() {
    let storage = manager();
    assert!(!storage.is_valid_filename(""));
    assert!(!storage.is_valid_filename("asmith_bot.json"));
    // Another session's identifier.
    assert!(!storage.is_valid_filename(
        "asmith_bot_ffffffff-ffff-ffff-ffff-ffffffffffff_2024-05-17_10-30-05Z.json"
    ));
    // A letter where the timestamp must hold a digit.
    assert!(!storage.is_valid_filename(
        format!("asmith_bot_{}_2o24-05-17_10-30-05Z.json", SESSION).as_str()
    ));
    // The wrong suffix.
    assert!(!storage.is_valid_filename(
        format!("asmith_bot_{}_2024-05-17_10-30-05Z.txt2", SESSION).as_str()
    ));
    // A missing final Z.
    assert!(!storage.is_valid_filename(
        format!("asmith_bot_{}_2024-05-17_10-30-055.json", SESSION).as_str()
    ));
}

#[test]
fn snapshot_save_then_load_reproduces_the_lists() {
    let mut lists = TodoList::new();
    lists.add_task("!a:x", "@alice:x".to_owned(), "buy milk".to_owned());
    lists.add_task("!a:x", "@bob:x".to_owned(), "water plants".to_owned());
    lists.add_task("!b:x", "@carol:x".to_owned(), "title with\nnewline and 5:colon".to_owned());
    lists.done_task("!a:x", "@alice:x".to_owned(), 2);
    lists.log_task("!a:x", "@alice:x".to_owned(), 1, "note".to_owned());

    let content = encode_storage(&lists);
    let loaded = decode_storage(content.as_str()).expect("a fresh snapshot must load");
    assert_eq!(loaded.rooms.len(), lists.rooms.len());
    for (a, b) in lists.rooms.iter().zip(loaded.rooms.iter()) {
        assert_eq!(a.room_id, b.room_id);
        assert_eq!(a.tasks.len(), b.tasks.len());
        for (t, u) in a.tasks.iter().zip(b.tasks.iter()) {
            assert_eq!(t.id, u.id);
            assert_eq!(t.title, u.title);
            assert_eq!(t.status, u.status);
            assert_eq!(t.logs, u.logs);
            assert_eq!(t.internal_logs, u.internal_logs);
            assert_eq!(t.creator, u.creator);
        }
    }
}

#[test]
fn empty_lists_round_trip() {
    let lists = TodoList::new();
    let content = encode_storage(&lists);
    let loaded = decode_storage(content.as_str()).expect("an empty snapshot must load");
    assert_eq!(loaded.rooms.len(), 0);
}

#[test]
fn corrupt_snapshots_are_rejected() {
    assert!(decode_storage("").is_none());
    assert!(decode_storage("not a snapshot").is_none());
    let mut lists = TodoList::new();
    lists.add_task("!a:x", "@alice:x".to_owned(), "t".to_owned());
    let content = encode_storage(&lists);
    let truncated = &content[..content.len() - 1];
    assert!(decode_storage(truncated).is_none());
    let mut extended = content.clone();
    extended.push('y');
    assert!(decode_storage(extended.as_str()).is_none());
}

#[test]
fn snapshots_naming_a_room_twice_are_rejected() {
    // Two one-task rooms under the same name: the counted form of a
    // duplicate-key document.
    let mut lists_a = TodoList::new();
    lists_a.add_task("!a:x", "@u:x".to_owned(), "t".to_owned());
    let one_room = encode_storage(&lists_a);
    let body = &one_room[3..]; // strip the "1:1" room count
    let double = format!("1:2{}{}", body, body);
    assert!(decode_storage(double.as_str()).is_none());
}

#[test]
fn load_rejects_names_that_are_not_snapshots_of_this_session() {
    let storage = manager();
    let lists = TodoList::new();
    let content = encode_storage(&lists);
    assert!(storage.load("notes.txt", content.as_str()).is_none());
    assert!(storage.load(sample_name().as_str(), content.as_str()).is_some());
    assert!(storage.load(sample_name().as_str(), "garbage").is_none());
}

#[test]
fn listing_keeps_only_valid_names_sorted_by_time() {
    let storage = manager();
    let older = storage.make_save_filename("2024-05-17_10-30-05Z");
    let newer = storage.make_save_filename("2024-05-17_11-00-00Z");
    let newest = storage.make_save_filename("2025-01-01_00-00-00Z");
    let names = vec![
        newest.clone(),
        "README.md".to_owned(),
        older.clone(),
        "asmith_bot_other.json".to_owned(),
        newer.clone(),
    ];
    let sorted = storage.list_saved_files(names);
    assert_eq!(sorted, vec![older, newer, newest]);
}

#[test]
fn the_most_recent_file_is_last() {
    let storage = manager();
    let a = storage.make_save_filename("2023-12-31_23-59-59Z");
    let b = storage.make_save_filename("2024-01-01_00-00-00Z");
    let sorted = storage.list_saved_files(vec![b.clone(), a.clone()]);
    assert_eq!(sorted.last(), Some(&b));
}
