use asmith_bot::commands::{
    ascii_lower, list_files_reply, load_bad_format_reply, load_error_reply, load_failed_reply,
    load_invalid_chars_reply, load_success_reply, loadlast_error_reply, loadlast_failed_reply,
    loadlast_success_reply, no_files_reply, parse_message_command, process_command,
    save_error_reply, save_success_reply, should_autojoin, split_once_ws, trim, ProcessOutcome,
    StorageOp,
};
use asmith_bot::text::{parse_task_id, replace_newlines, str_eq, str_le};
use asmith_bot::todo::TodoList;

const ROOM: &str = "!room:example.org";

fn run(
    list: &mut TodoList,
    command: &str,
    args: &str,
) -> ProcessOutcome {
    process_command(list, ROOM, "@alice:example.org".to_owned(), command, args.to_owned())
}

fn reply_message(outcome: ProcessOutcome) -> String {
    match outcome {
        ProcessOutcome::Replied { reply } => reply.message,
        ProcessOutcome::StorageRequested { .. } => panic!("expected a direct reply"),
    }
}

#[test]
fn add_command_creates_a_task() {
    let mut list = TodoList::new();
    let message = reply_message(run(&mut list, "add", "buy milk"));
    assert_eq!(message, "📝 Task 1 added by @alice:example.org:\n buy milk");
    assert_eq!(list.rooms[0].tasks.len(), 1);
}

#[test]
fn command_names_are_trimmed_and_lowercased() {
    let mut list = TodoList::new();
    let message = reply_message(run(&mut list, "  ADD ", "x"));
    assert_eq!(message, "📝 Task 1 added by @alice:example.org:\n x");
}

#[test]
fn done_with_a_bad_id_reports_an_error_and_changes_nothing() {
    let mut list = TodoList::new();
    run(&mut list, "add", "x");
    let message = reply_message(run(&mut list, "done", "not-a-number"));
    assert_eq!(
        message,
        "⚠️ Error: Invalid task ID. Please provide a valid task number."
    );
    assert_eq!(list.rooms[0].tasks[0].status, "pending");
}

#[test]
fn done_with_a_valid_id_marks_the_task() {
    let mut list = TodoList::new();
    run(&mut list, "add", "x");
    let message = reply_message(run(&mut list, "done", " 1 "));
    assert_eq!(message, "✅ Task 1 marked as done: **x**");
    assert_eq!(list.rooms[0].tasks[0].status, "done");
}

#[test]
fn log_command_splits_id_and_message() {
    let mut list = TodoList::new();
    run(&mut list, "add", "x");
    let message = reply_message(run(&mut list, "log", "1 did the thing"));
    assert!(message.starts_with("📝 Log Added to Task #1:\nLog: 'did the thing'"));
    assert_eq!(list.rooms[0].tasks[0].logs, vec!["did the thing".to_owned()]);
}

#[test]
fn log_with_only_an_id_shows_details() {
    let mut list = TodoList::new();
    run(&mut list, "add", "x");
    let message = reply_message(run(&mut list, "log", "1"));
    assert!(message.starts_with("🔍 Task Details:\n**[pending] x**"));
}

#[test]
fn log_without_arguments_reports_what_is_missing() {
    let mut list = TodoList::new();
    let message = reply_message(run(&mut list, "log", "  "));
    assert_eq!(message, "⚠️ Error: Missing task ID and log message.");
}

#[test]
fn log_with_an_unreadable_single_token_explains_the_format() {
    let mut list = TodoList::new();
    let message = reply_message(run(&mut list, "log", "abc"));
    assert_eq!(
        message,
        "⚠️ Error: Unable to parse task ID and log message. Format: !log 1 Your log message"
    );
}

#[test]
fn edit_command_changes_the_title() {
    let mut list = TodoList::new();
    run(&mut list, "add", "x");
    let message = reply_message(run(&mut list, "edit", "1 new title"));
    assert_eq!(
        message,
        "✏️ Task Edited: Task #1 title changed:\nFrom: x\nTo: new title"
    );
}

#[test]
fn edit_without_arguments_reports_what_is_missing() {
    let mut list = TodoList::new();
    let message = reply_message(run(&mut list, "edit", ""));
    assert_eq!(message, "⚠️ Error: Missing task ID and new description.");
}

#[test]
fn bot_save_requests_the_storage_operation() {
    let mut list = TodoList::new();
    match run(&mut list, "bot", "save") {
        ProcessOutcome::StorageRequested { op } => assert!(matches!(op, StorageOp::SaveLists)),
        _ => panic!("bot save must request a save"),
    }
}

#[test]
fn bot_load_carries_the_lowercased_filename() {
    let mut list = TodoList::new();
    match run(&mut list, "bot", "load Some_File.json") {
        ProcessOutcome::StorageRequested { op } => match op {
            StorageOp::LoadFile { filename } => assert_eq!(filename, "some_file.json"),
            _ => panic!("bot load must request a file load"),
        },
        _ => panic!("bot load must request a storage operation"),
    }
}

#[test]
fn bot_load_without_a_filename_reports_usage() {
    let mut list = TodoList::new();
    let message = reply_message(run(&mut list, "bot", "load"));
    assert_eq!(message, "⚠️ Error: Missing filename. Usage: !bot load <filename>");
}

#[test]
fn bot_loadlast_and_listfiles_request_their_operations() {
    let mut list = TodoList::new();
    assert!(matches!(
        run(&mut list, "bot", "loadlast"),
        ProcessOutcome::StorageRequested { op: StorageOp::LoadLastFile }
    ));
    assert!(matches!(
        run(&mut list, "bot", "listfiles"),
        ProcessOutcome::StorageRequested { op: StorageOp::ListFiles }
    ));
}

#[test]
fn bot_cleartasks_clears_the_room() {
    let mut list = TodoList::new();
    run(&mut list, "add", "x");
    let message = reply_message(run(&mut list, "bot", "cleartasks"));
    assert_eq!(message, "🗑️ List Cleared: The room's to-do list has been cleared.");
    assert_eq!(list.rooms[0].tasks.len(), 0);
}

#[test]
fn bot_with_an_unknown_subcommand_shows_usage() {
    let mut list = TodoList::new();
    let message = reply_message(run(&mut list, "bot", "frobnicate"));
    assert!(message.starts_with("Bot Commands Usage:\n\n!bot save - Save all lists"));
}

#[test]
fn unknown_commands_are_echoed_back() {
    let mut list = TodoList::new();
    let message = reply_message(run(&mut list, "frobnicate", ""));
    assert_eq!(
        message,
        "⚠️ Unknown command: 'frobnicate'. Type !help for available commands."
    );
}

#[test]
fn help_lists_every_command() {
    let mut list = TodoList::new();
    match run(&mut list, "help", "") {
        ProcessOutcome::Replied { reply } => {
            assert!(reply.message.starts_with("Matrix ToDo Bot Help:"));
            assert!(reply.message.contains("!edit <id> <new description>"));
            let html = reply.html_message.unwrap();
            assert!(html.starts_with("<h4>Matrix ToDo Bot Help</h4>"));
        }
        _ => panic!("help must reply directly"),
    }
}

#[test]
fn message_bodies_parse_into_commands() {
    let parsed = parse_message_command("!Add  buy milk").unwrap();
    assert_eq!(parsed.command, "add");
    assert_eq!(parsed.args, " buy milk");

    let bare = parse_message_command("!list").unwrap();
    assert_eq!(bare.command, "list");
    assert_eq!(bare.args, "");

    assert!(parse_message_command("hello").is_none());
    assert!(parse_message_command("!").is_none());
    assert!(parse_message_command("").is_none());
    assert!(parse_message_command("!   ").is_none());
}

#[test]
fn task_ids_parse_like_decimal_numbers() {
    assert_eq!(parse_task_id("7"), Some(7));
    assert_eq!(parse_task_id("+7"), Some(7));
    assert_eq!(parse_task_id("007"), Some(7));
    assert_eq!(parse_task_id("0"), Some(0));
    assert_eq!(parse_task_id(""), None);
    assert_eq!(parse_task_id("+"), None);
    assert_eq!(parse_task_id("-7"), None);
    assert_eq!(parse_task_id("7a"), None);
    assert_eq!(parse_task_id("999999999999999999999999999999"), None);
}

#[test]
fn text_utilities_behave_like_their_specifications_say() {
    assert_eq!(trim("  a b \t"), "a b");
    assert_eq!(trim(""), "");
    assert_eq!(trim("   "), "");
    assert_eq!(ascii_lower("MiXeD 123 ÄÖ"), "mixed 123 ÄÖ");
    assert_eq!(replace_newlines("a\nb\n"), "a<br>b<br>");
    assert_eq!(replace_newlines("plain"), "plain");
    assert_eq!(split_once_ws("a b c"), Some(("a".to_owned(), "b c".to_owned())));
    assert_eq!(split_once_ws("abc"), None);
    assert!(str_eq("same", "same"));
    assert!(!str_eq("same", "sam"));
    assert!(str_le("abc", "abd"));
    assert!(str_le("ab", "abc"));
    assert!(!str_le("b", "abc"));
    assert!(should_autojoin("@me:x", "@me:x"));
    assert!(!should_autojoin("@me:x", "@you:x"));
}

#[test]
fn snapshot_replies_name_the_file_or_the_error() {
    let saved = save_success_reply("f.json");
    assert_eq!(saved.message, "💾 Lists Saved: The to-do lists have been saved to `f.json`.");
    assert_eq!(
        saved.html_message.as_deref(),
        Some("💾 Lists Saved: The to-do lists have been saved to <code>f.json</code>.")
    );

    let failed = save_error_reply("disk full");
    assert_eq!(
        failed.message,
        "❌ Error Saving: An error occurred while saving the lists: disk full"
    );

    assert_eq!(
        load_invalid_chars_reply().message,
        "❌ Invalid Filename: Invalid characters detected in filename."
    );
    assert_eq!(
        load_bad_format_reply("x.json").message,
        "❌ Invalid Filename Format: Filename 'x.json' does not match the expected format."
    );
    assert_eq!(
        load_success_reply("f.json").message,
        "📂 Lists Loaded: Successfully loaded to-do lists from `f.json`."
    );
    assert_eq!(
        load_failed_reply("f.json").message,
        "❌ Error Loading: Failed to load lists from `f.json`. Check the filename and ensure it's a valid save file."
    );
    assert_eq!(
        load_error_reply("boom").message,
        "❌ Error Loading: An error occurred while loading the lists: boom"
    );
    assert_eq!(
        no_files_reply().message,
        "ℹ️ No Files Found: No saved to-do list files found."
    );
    assert_eq!(
        loadlast_success_reply("f.json").message,
        "📂 Last List Loaded: Successfully loaded the most recent lists from `f.json`."
    );
    assert_eq!(
        loadlast_failed_reply("f.json").message,
        "❌ Error Loading: Failed to load the most recent lists from `f.json`. The file might be corrupted."
    );
    assert_eq!(
        loadlast_error_reply("boom").message,
        "❌ Error Loading: An error occurred while loading the most recent lists: boom"
    );
}

#[test]
fn file_listings_are_numbered() {
    let files = vec!["a.json".to_owned(), "b.json".to_owned()];
    let reply = list_files_reply(&files);
    assert_eq!(
        reply.message,
        "📄 Available Save Files:\n1. `a.json`\n2. `b.json`"
    );
    assert_eq!(
        reply.html_message.as_deref(),
        Some("📄 Available Save Files:<br>1. <code>a.json</code><br>2. <code>b.json</code>")
    );
    let empty = list_files_reply(&Vec::new());
    assert_eq!(empty.message, "ℹ️ No Files Found: No saved to-do list files found.");
}
