use asmith_bot::todo::TodoList;

const ROOM: &str = "!room:example.org";

fn list_with_two_tasks() -> TodoList {
    let mut list = TodoList::new();
    list.add_task(ROOM, "@alice:example.org".to_owned(), "buy milk".to_owned());
    list.add_task(ROOM, "@bob:example.org".to_owned(), "water plants".to_owned());
    list
}

#[test]
fn add_task_numbers_tasks_from_one() {
    let mut list = TodoList::new();
    let reply = list.add_task(ROOM, "@alice:example.org".to_owned(), "buy milk".to_owned());
    assert_eq!(
        reply.message,
        "📝 Task 1 added by @alice:example.org:\n buy milk"
    );
    assert!(reply.html_message.is_none());
    assert!(reply.save_needed);
    let reply2 = list.add_task(ROOM, "@bob:example.org".to_owned(), "water plants".to_owned());
    assert_eq!(
        reply2.message,
        "📝 Task 2 added by @bob:example.org:\n water plants"
    );
    assert_eq!(list.rooms.len(), 1);
    assert_eq!(list.rooms[0].tasks.len(), 2);
    assert_eq!(list.rooms[0].tasks[0].id, 1);
    assert_eq!(list.rooms[0].tasks[0].status, "pending");
    assert_eq!(list.rooms[0].tasks[0].creator, "@alice:example.org");
    assert_eq!(list.rooms[0].tasks[1].id, 2);
}

#[test]
fn rooms_keep_independent_lists() {
    let mut list = TodoList::new();
    list.add_task("!a:x", "@u:x".to_owned(), "one".to_owned());
    list.add_task("!b:x", "@u:x".to_owned(), "two".to_owned());
    let reply = list.add_task("!a:x", "@u:x".to_owned(), "three".to_owned());
    assert_eq!(reply.message, "📝 Task 2 added by @u:x:\n three");
    assert_eq!(list.rooms.len(), 2);
}

#[test]
fn list_tasks_renders_numbered_short_lines() {
    let list = list_with_two_tasks();
    let reply = list.list_tasks(ROOM);
    assert_eq!(
        reply.message,
        "📋 Room To-Do List:\n1. **[pending] buy milk**\n2. **[pending] water plants**\n"
    );
    assert_eq!(
        reply.html_message.as_deref(),
        Some("📋 Room To-Do List:<br>1. **[pending] buy milk**<br>2. **[pending] water plants**<br>")
    );
    assert!(!reply.save_needed);
}

#[test]
fn list_tasks_of_unknown_room_reports_no_tasks() {
    let list = TodoList::new();
    let reply = list.list_tasks(ROOM);
    assert_eq!(
        reply.message,
        "ℹ️ Info: There are no tasks in this room's to-do list."
    );
    assert!(reply.html_message.is_none());
}

#[test]
fn done_task_updates_status_and_replies() {
    let mut list = list_with_two_tasks();
    let reply = list.done_task(ROOM, "@carol:example.org".to_owned(), 2);
    assert_eq!(reply.message, "✅ Task 2 marked as done: **water plants**");
    assert_eq!(
        reply.html_message.as_deref(),
        Some("✅ Task 2 marked as done: <b>water plants</b>")
    );
    assert!(reply.save_needed);
    assert_eq!(list.rooms[0].tasks[1].status, "done");
    assert_eq!(list.rooms[0].tasks[0].status, "pending");
}

#[test]
fn done_task_out_of_range_changes_nothing() {
    let mut list = list_with_two_tasks();
    let reply = list.done_task(ROOM, "@carol:example.org".to_owned(), 3);
    assert_eq!(reply.message, "❌ Error: Task 3 doesn't exist.");
    assert!(!reply.save_needed);
    assert_eq!(list.rooms[0].tasks.len(), 2);
    let zero = list.done_task(ROOM, "@carol:example.org".to_owned(), 0);
    assert_eq!(zero.message, "❌ Error: Task 0 doesn't exist.");
}

#[test]
fn close_task_removes_it_from_the_list() {
    let mut list = list_with_two_tasks();
    let reply = list.close_task(ROOM, "@alice:example.org".to_owned(), 1);
    assert_eq!(reply.message, "✖️ Task Closed: ****[closed] buy milk****");
    assert_eq!(
        reply.html_message.as_deref(),
        Some("✖️ Task Closed: <b>**[closed] buy milk**</b>")
    );
    assert!(reply.save_needed);
    assert_eq!(list.rooms[0].tasks.len(), 1);
    assert_eq!(list.rooms[0].tasks[0].title, "water plants");
}

#[test]
fn close_task_invalid_number_reports_the_range_error() {
    let mut list = list_with_two_tasks();
    let reply = list.close_task(ROOM, "@alice:example.org".to_owned(), 9);
    assert_eq!(
        reply.message,
        "❌ Error: Invalid task number: 9. Use `!list` to see valid numbers."
    );
    assert_eq!(list.rooms[0].tasks.len(), 2);
}

#[test]
fn log_task_appends_the_log_and_shows_details() {
    let mut list = list_with_two_tasks();
    let reply = list.log_task(ROOM, "@alice:example.org".to_owned(), 1, "got oat milk".to_owned());
    assert!(reply.message.starts_with("📝 Log Added to Task #1:\nLog: 'got oat milk'\n\nCurrent Task Details:\n**[pending] buy milk**\nCreated by: @alice:example.org\n\n**Logs:**\n1. got oat milk\n\n**History:**\n"));
    assert!(reply.save_needed);
    assert_eq!(list.rooms[0].tasks[0].logs, vec!["got oat milk".to_owned()]);
    let html = reply.html_message.unwrap();
    assert!(html.starts_with("📝 Log Added to Task #1:<br>Log: 'got oat milk'<<br><br><b>Current Task Details:</b><br>**[pending] buy milk**<br>Created by: @alice:example.org"));
}

#[test]
fn details_task_renders_history_entries() {
    let mut list = list_with_two_tasks();
    list.log_task(ROOM, "@alice:example.org".to_owned(), 1, "first log".to_owned());
    let reply = list.details_task(ROOM, 1);
    let message = reply.message;
    assert!(message.starts_with("🔍 Task Details:\n**[pending] buy milk**\nCreated by: @alice:example.org\n\n**Logs:**\n1. first log\n\n**History:**\n"));
    // One creation entry and one log entry.
    assert!(message.contains("Created task"));
    assert!(message.contains("Added log: 'first log'"));
    assert!(!reply.save_needed);
}

#[test]
fn long_logs_are_quoted_and_shortened_in_the_history() {
    let mut list = list_with_two_tasks();
    let long = "abcdefghijklmnopqrstuvwxyz0123456789".to_owned();
    list.log_task(ROOM, "@alice:example.org".to_owned(), 1, long);
    let reply = list.details_task(ROOM, 1);
    assert!(reply.message.contains("Added log: 'abcdefghijklmnopqrstuvwxyz0123...'"));
}

#[test]
fn edit_task_replaces_the_title() {
    let mut list = list_with_two_tasks();
    let reply = list.edit_task(
        ROOM,
        "@alice:example.org".to_owned(),
        1,
        "buy oat milk".to_owned(),
    );
    assert_eq!(
        reply.message,
        "✏️ Task Edited: Task #1 title changed:\nFrom: buy milk\nTo: buy oat milk"
    );
    assert_eq!(
        reply.html_message.as_deref(),
        Some("✏️ Task Edited: Task #1 title changed:<br><b>From:</b> buy milk<br><b>To:</b> buy oat milk")
    );
    assert!(reply.save_needed);
    assert_eq!(list.rooms[0].tasks[0].title, "buy oat milk");
}

#[test]
fn clear_tasks_empties_a_non_empty_room() {
    let mut list = list_with_two_tasks();
    let reply = list.clear_tasks(ROOM);
    assert_eq!(
        reply.message,
        "🗑️ List Cleared: The room's to-do list has been cleared."
    );
    assert!(reply.save_needed);
    assert_eq!(list.rooms[0].tasks.len(), 0);
    let again = list.clear_tasks(ROOM);
    assert_eq!(
        again.message,
        "ℹ️ Info: There are no tasks in this room's to-do list to clear."
    );
    assert!(!again.save_needed);
}

#[test]
fn task_history_records_every_change() {
    let mut list = TodoList::new();
    list.add_task(ROOM, "@a:x".to_owned(), "t".to_owned());
    list.done_task(ROOM, "@b:x".to_owned(), 1);
    list.edit_task(ROOM, "@c:x".to_owned(), 1, "t2".to_owned());
    let task = &list.rooms[0].tasks[0];
    assert_eq!(task.internal_logs.len(), 3);
    assert_eq!(task.internal_logs[0].1, "@a:x");
    assert_eq!(task.internal_logs[0].2, "Created task");
    assert_eq!(task.internal_logs[1].1, "@b:x");
    assert_eq!(task.internal_logs[1].2, "Updated status: from 'pending' to 'done'");
    assert_eq!(task.internal_logs[2].1, "@c:x");
    assert_eq!(task.internal_logs[2].2, "Edited title: from 't' to 't2'");
}

#[test]
fn done_on_an_unknown_room_creates_its_empty_list() {
    let mut list = TodoList::new();
    let reply = list.done_task(ROOM, "@alice:example.org".to_owned(), 1);
    assert_eq!(reply.message, "❌ Error: Task 1 doesn't exist.");
    assert!(!reply.save_needed);
    assert_eq!(list.rooms.len(), 1);
    assert_eq!(list.rooms[0].tasks.len(), 0);
}

#[test]
fn operations_on_an_emptied_room_report_no_tasks() {
    let mut list = list_with_two_tasks();
    list.clear_tasks(ROOM);
    let closed = list.close_task(ROOM, "@a:x".to_owned(), 1);
    assert_eq!(closed.message, "ℹ️ Info: There are no tasks in this room's to-do list.");
    let logged = list.log_task(ROOM, "@a:x".to_owned(), 1, "l".to_owned());
    assert_eq!(logged.message, "ℹ️ Info: There are no tasks in this room's to-do list.");
    let details = list.details_task(ROOM, 1);
    assert_eq!(details.message, "ℹ️ Info: There are no tasks in this room's to-do list.");
    let edited = list.edit_task(ROOM, "@a:x".to_owned(), 1, "t".to_owned());
    assert_eq!(edited.message, "ℹ️ Info: There are no tasks in this room's to-do list.");
}

#[test]
fn long_titles_are_shortened_in_the_history_but_kept_whole() {
    let mut list = TodoList::new();
    let long_title = "0123456789012345678901234567890123456789".to_owned();
    list.add_task(ROOM, "@a:x".to_owned(), long_title.clone());
    list.edit_task(ROOM, "@a:x".to_owned(), 1, "short".to_owned());
    let task = &list.rooms[0].tasks[0];
    assert_eq!(task.title, "short");
    assert_eq!(
        task.internal_logs[1].2,
        "Edited title: from '012345678901234567890123456789...' to 'short'"
    );
}
