//! The per-room to-do lists and every decision and reply of the task
//! commands. The surrounding application only delivers the replies and saves
//! snapshots when asked to.

use vstd::prelude::*;

use crate::codec::{append_digits, opt_view, spec_digits};
use crate::tasks::{
    spec_log_action, spec_quoted_truncate, spec_task_details, spec_task_short, Task, TaskEvent,
    TaskView,
};
use crate::text::{replace_newlines, spec_replace_newlines, str_eq};

verus! {

/// The tasks of one room.
pub struct RoomTasks {
    pub room_id: String,
    pub tasks: Vec<Task>,
}

/// The to-do lists of all rooms, keyed by room.
pub struct TodoList {
    pub rooms: Vec<RoomTasks>,
}

/// The plain values the lists denote: room after room, each with its tasks.
pub type RoomsView = Seq<(Seq<char>, Seq<TaskView>)>;

impl View for TodoList {
    type V = RoomsView;

    open spec fn view(&self) -> RoomsView {
        self.rooms@.map_values(
            |r: RoomTasks| (r.room_id@, r.tasks@.map_values(|t: Task| t@)),
        )
    }
}

/// The reply one command produces, and whether the lists must be saved
/// afterwards.
pub struct CommandReply {
    pub message: String,
    pub html_message: Option<String>,
    pub save_needed: bool,
}

/// The first position of a room in the lists, or `-1` when the room has no
/// list yet.
pub open spec fn spec_room_index(v: RoomsView, room_id: Seq<char>) -> int
    decreases v.len(),
{
    if v.len() == 0 {
        -1
    } else if v[0].0 == room_id {
        0
    } else {
        let rest = spec_room_index(v.drop_first(), room_id);
        if rest == -1 {
            -1
        } else {
            rest + 1
        }
    }
}

/// The index of the first match, where one exists before nothing but
/// mismatches.
proof fn lemma_room_index_first(v: RoomsView, room_id: Seq<char>, i: int)
    requires
        0 <= i < v.len(),
        v[i].0 == room_id,
        forall|k: int| 0 <= k < i ==> (#[trigger] v[k]).0 != room_id,
    ensures
        spec_room_index(v, room_id) == i,
    decreases i,
{
    if i > 0 {
        assert(v.drop_first()[i - 1] == v[i]);
        assert(forall|k: int|
            0 <= k < i - 1 ==> (#[trigger] v.drop_first()[k]).0 == v[k + 1].0);
        lemma_room_index_first(v.drop_first(), room_id, i - 1);
    }
}

/// No match anywhere means no index.
proof fn lemma_room_index_none(v: RoomsView, room_id: Seq<char>)
    requires
        forall|k: int| 0 <= k < v.len() ==> (#[trigger] v[k]).0 != room_id,
    ensures
        spec_room_index(v, room_id) == -1,
    decreases v.len(),
{
    if v.len() > 0 {
        assert(forall|k: int|
            0 <= k < v.drop_first().len() ==> (#[trigger] v.drop_first()[k]) == v[k + 1]);
        lemma_room_index_none(v.drop_first(), room_id);
    }
}

/// Where an index exists it points at the room.
pub proof fn lemma_room_index_points_at_room(v: RoomsView, room_id: Seq<char>)
    ensures
        spec_room_index(v, room_id) == -1 || (0 <= spec_room_index(v, room_id) < v.len()
            && v[spec_room_index(v, room_id)].0 == room_id),
    decreases v.len(),
{
    if v.len() > 0 && v[0].0 != room_id {
        lemma_room_index_points_at_room(v.drop_first(), room_id);
        let rest = spec_room_index(v.drop_first(), room_id);
        if rest != -1 {
            assert(v.drop_first()[rest] == v[rest + 1]);
        }
    }
}

/// An index is never below the value that means "missing".
proof fn lemma_room_index_range(v: RoomsView, room_id: Seq<char>)
    ensures
        spec_room_index(v, room_id) >= -1,
    decreases v.len(),
{
    if v.len() > 0 && v[0].0 != room_id {
        lemma_room_index_range(v.drop_first(), room_id);
    }
}

/// No index means no match anywhere.
pub proof fn lemma_room_index_missing(v: RoomsView, room_id: Seq<char>)
    requires
        spec_room_index(v, room_id) == -1,
    ensures
        forall|k: int| 0 <= k < v.len() ==> (#[trigger] v[k]).0 != room_id,
    decreases v.len(),
{
    if v.len() > 0 {
        assert(v[0].0 != room_id);
        lemma_room_index_range(v.drop_first(), room_id);
        assert(spec_room_index(v.drop_first(), room_id) == -1);
        lemma_room_index_missing(v.drop_first(), room_id);
        assert forall|k: int| 0 <= k < v.len() implies (#[trigger] v[k]).0 != room_id by {
            if k > 0 {
                assert(v.drop_first()[k - 1] == v[k]);
            }
        }
    }
}

/// A freshly created task as the lists record it, timestamped `ts`.
pub open spec fn spec_new_task(
    creator: Seq<char>,
    id: int,
    title: Seq<char>,
    ts: Seq<char>,
) -> TaskView {
    TaskView {
        id,
        title,
        status: "pending"@,
        logs: Seq::empty(),
        internal_logs: seq![
            (ts, creator, spec_log_action(TaskEvent::Created, Option::None)),
        ],
        creator,
    }
}

/// The reply to every command that found no tasks to work on.
pub open spec fn spec_msg_no_tasks() -> Seq<char> {
    "ℹ️ Info: There are no tasks in this room's to-do list."@
}

/// The confirmation that a task was added.
pub open spec fn spec_msg_task_added(id: int, sender: Seq<char>, title: Seq<char>) -> Seq<char> {
    "📝 Task "@ + spec_digits(id as nat) + " added by "@ + sender + ":\n "@ + title
}

/// The heading and numbered lines of a room's task list, from index `k` on.
pub open spec fn spec_list_lines(tasks: Seq<TaskView>, k: int) -> Seq<char>
    decreases tasks.len() - k,
{
    if k < 0 || k >= tasks.len() {
        Seq::empty()
    } else {
        spec_digits((k + 1) as nat) + ". "@ + spec_task_short(tasks[k]) + "\n"@
            + spec_list_lines(tasks, k + 1)
    }
}


/// A task after its status changed, timestamped `ts`.
pub open spec fn spec_with_status(
    t: TaskView,
    sender: Seq<char>,
    status: Seq<char>,
    ts: Seq<char>,
) -> TaskView {
    TaskView {
        status,
        internal_logs: t.internal_logs.push(
            (
                ts,
                sender,
                spec_log_action(
                    TaskEvent::StatusUpdated,
                    Option::Some("from '"@ + t.status + "' to '"@ + status + "'"@),
                ),
            ),
        ),
        ..t
    }
}

/// A task after a log was added, timestamped `ts`.
pub open spec fn spec_with_log(
    t: TaskView,
    sender: Seq<char>,
    log: Seq<char>,
    ts: Seq<char>,
) -> TaskView {
    TaskView {
        logs: t.logs.push(log),
        internal_logs: t.internal_logs.push(
            (
                ts,
                sender,
                spec_log_action(
                    TaskEvent::LogAdded,
                    Option::Some(spec_quoted_truncate(log)),
                ),
            ),
        ),
        ..t
    }
}

/// A task after its title changed, timestamped `ts`.
pub open spec fn spec_with_title(
    t: TaskView,
    sender: Seq<char>,
    title: Seq<char>,
    ts: Seq<char>,
) -> TaskView {
    TaskView {
        title,
        internal_logs: t.internal_logs.push(
            (
                ts,
                sender,
                spec_log_action(
                    TaskEvent::TitleEdited,
                    Option::Some(
                        "from "@ + spec_quoted_truncate(t.title) + " to "@
                            + spec_quoted_truncate(title),
                    ),
                ),
            ),
        ),
        ..t
    }
}


/// The one-line form a just-closed task shows: its "closed" status and its
/// title.
pub open spec fn spec_closed_short(title: Seq<char>) -> Seq<char> {
    "**["@ + "closed"@ + "] "@ + title + "**"@
}

/// The confirmation that a task was marked done.
pub open spec fn spec_msg_task_done(n: int, title: Seq<char>) -> Seq<char> {
    "\u{2705} Task "@ + spec_digits(n as nat) + " marked as done: **"@ + title + "**"@
}

pub open spec fn spec_msg_task_done_html(n: int, title: Seq<char>) -> Seq<char> {
    "\u{2705} Task "@ + spec_digits(n as nat) + " marked as done: <b>"@ + title + "</b>"@
}

/// The reply when the named task does not exist.
pub open spec fn spec_msg_task_missing(n: int) -> Seq<char> {
    "\u{274c} Error: Task "@ + spec_digits(n as nat) + " doesn't exist."@
}

/// The reply when the task number is out of range.
pub open spec fn spec_msg_invalid_number(n: int) -> Seq<char> {
    "\u{274c} Error: Invalid task number: "@ + spec_digits(n as nat)
        + ". Use `!list` to see valid numbers."@
}

/// The confirmation that a task was closed and removed.
pub open spec fn spec_msg_task_closed(short: Seq<char>) -> Seq<char> {
    "\u{2716}\u{fe0f} Task Closed: **"@ + short + "**"@
}

pub open spec fn spec_msg_task_closed_html(short: Seq<char>) -> Seq<char> {
    "\u{2716}\u{fe0f} Task Closed: <b>"@ + short + "</b>"@
}

/// The confirmation that a log was added, with the task's details.
pub open spec fn spec_msg_log_added(n: int, log: Seq<char>, details: Seq<char>) -> Seq<char> {
    "\u{1f4dd} Log Added to Task #"@ + spec_digits(n as nat) + ":\nLog: '"@ + log
        + "'\n\nCurrent Task Details:\n"@ + details
}

pub open spec fn spec_msg_log_added_html(n: int, log: Seq<char>, details: Seq<char>) -> Seq<
    char,
> {
    "\u{1f4dd} Log Added to Task #"@ + spec_digits(n as nat) + ":<br>Log: '"@ + log
        + "'<<br><br><b>Current Task Details:</b><br>"@ + spec_replace_newlines(details, 0)
}

/// A task's details on request.
pub open spec fn spec_msg_details(details: Seq<char>) -> Seq<char> {
    "\u{1f50d} Task Details:\n"@ + details
}

pub open spec fn spec_msg_details_html(details: Seq<char>) -> Seq<char> {
    "\u{1f50d} Task Details:<br>"@ + spec_replace_newlines(details, 0)
}

/// The confirmation that a task's title changed.
pub open spec fn spec_msg_task_edited(n: int, from: Seq<char>, to: Seq<char>) -> Seq<char> {
    "\u{270f}\u{fe0f} Task Edited: Task #"@ + spec_digits(n as nat) + " title changed:\nFrom: "@
        + from + "\nTo: "@ + to
}

pub open spec fn spec_msg_task_edited_html(n: int, from: Seq<char>, to: Seq<char>) -> Seq<char> {
    "\u{270f}\u{fe0f} Task Edited: Task #"@ + spec_digits(n as nat)
        + " title changed:<br><b>From:</b> "@ + from + "<br><b>To:</b> "@ + to
}

/// The confirmation that a room's list was cleared.
pub open spec fn spec_msg_cleared() -> Seq<char> {
    "\u{1f5d1}\u{fe0f} List Cleared: The room's to-do list has been cleared."@
}

/// The reply when there was nothing to clear.
pub open spec fn spec_msg_nothing_to_clear() -> Seq<char> {
    "\u{2139}\u{fe0f} Info: There are no tasks in this room's to-do list to clear."@
}

/// The reply when the named task does not exist.
fn task_missing_message(n: usize) -> (r: String)
    ensures
        r@ == spec_msg_task_missing(n as int),
{
    let mut m = String::new();
    m.append("\u{274c} Error: Task ");
    append_digits(&mut m, n);
    m.append(" doesn't exist.");
    proof {
        assert(m@ =~= spec_msg_task_missing(n as int));
    }
    m
}

/// The reply when the task number is out of range.
fn invalid_number_message(n: usize) -> (r: String)
    ensures
        r@ == spec_msg_invalid_number(n as int),
{
    let mut m = String::new();
    m.append("\u{274c} Error: Invalid task number: ");
    append_digits(&mut m, n);
    m.append(". Use `!list` to see valid numbers.");
    proof {
        assert(m@ =~= spec_msg_invalid_number(n as int));
    }
    m
}


/// What adding a task guarantees: the room's list grew by the new task,
/// numbered one past the old count, and the reply names it; a save follows.
pub open spec fn spec_add_task_post(
    v0: RoomsView,
    v1: RoomsView,
    room_id: Seq<char>,
    sender: Seq<char>,
    title: Seq<char>,
    msg: Seq<char>,
    html: Option<Seq<char>>,
    save: bool,
) -> bool {
    &&& ({
        let i = spec_room_index(v0, room_id);
        if i >= 0 {
            &&& (exists|ts: Seq<char>|
                v1 == v0.update(
                    i,
                    (
                        room_id,
                        v0[i].1.push(
                            #[trigger] spec_new_task(sender, v0[i].1.len() + 1 as int, title, ts),
                        ),
                    ),
                ))
            &&& msg == spec_msg_task_added(v0[i].1.len() + 1 as int, sender, title)
        } else {
            &&& (exists|ts: Seq<char>|
                v1 == v0.push((room_id, seq![#[trigger] spec_new_task(sender, 1, title, ts)])))
            &&& msg == spec_msg_task_added(1, sender, title)
        }
    })
    &&& html is None
    &&& save
}

/// What listing guarantees: the reply renders the room's tasks, or notes that
/// there are none; nothing needs saving.
pub open spec fn spec_list_tasks_post(
    v: RoomsView,
    room_id: Seq<char>,
    msg: Seq<char>,
    html: Option<Seq<char>>,
    save: bool,
) -> bool {
    &&& ({
        let i = spec_room_index(v, room_id);
        if i >= 0 && v[i].1.len() > 0 {
            &&& msg == "\u{1f4cb} Room To-Do List:\n"@ + spec_list_lines(v[i].1, 0)
            &&& html == Option::Some(
                "\u{1f4cb} Room To-Do List:<br>"@ + spec_replace_newlines(
                    spec_list_lines(v[i].1, 0),
                    0,
                ),
            )
        } else {
            msg == spec_msg_no_tasks() && html is None
        }
    })
    &&& !save
}

/// What marking a task done guarantees: within range, the task's status
/// becomes "done" with the change on its history and a save follows; out of
/// range, nothing changes but a missing room gains an empty list.
pub open spec fn spec_done_task_post(
    v0: RoomsView,
    v1: RoomsView,
    room_id: Seq<char>,
    sender: Seq<char>,
    n: int,
    msg: Seq<char>,
    html: Option<Seq<char>>,
    save: bool,
) -> bool {
    let i = spec_room_index(v0, room_id);
    if i >= 0 {
        if 1 <= n <= v0[i].1.len() {
            exists|ts: Seq<char>|
                {
                    let t1 = #[trigger] spec_with_status(v0[i].1[n - 1], sender, "done"@, ts);
                    &&& v1 == v0.update(i, (room_id, v0[i].1.update(n - 1, t1)))
                    &&& msg == spec_msg_task_done(n, t1.title)
                    &&& html == Option::Some(spec_msg_task_done_html(n, t1.title))
                    &&& save
                }
        } else {
            &&& v1 == v0
            &&& msg == spec_msg_task_missing(n)
            &&& html is None
            &&& !save
        }
    } else {
        &&& v1 == v0.push((room_id, Seq::<TaskView>::empty()))
        &&& msg == spec_msg_task_missing(n)
        &&& html is None
        &&& !save
    }
}

/// What clearing guarantees: a non-empty list becomes empty and a save
/// follows; otherwise nothing changes.
pub open spec fn spec_clear_tasks_post(
    v0: RoomsView,
    v1: RoomsView,
    room_id: Seq<char>,
    msg: Seq<char>,
    html: Option<Seq<char>>,
    save: bool,
) -> bool {
    &&& ({
        let i = spec_room_index(v0, room_id);
        if i >= 0 && v0[i].1.len() > 0 {
            &&& v1 == v0.update(i, (room_id, Seq::<TaskView>::empty()))
            &&& msg == spec_msg_cleared()
            &&& save
        } else {
            &&& v1 == v0
            &&& msg == spec_msg_nothing_to_clear()
            &&& !save
        }
    })
    &&& html is None
}

/// What closing guarantees: within range, the task leaves the list and the
/// reply shows it closed, with a save; otherwise nothing changes.
pub open spec fn spec_close_task_post(
    v0: RoomsView,
    v1: RoomsView,
    room_id: Seq<char>,
    n: int,
    msg: Seq<char>,
    html: Option<Seq<char>>,
    save: bool,
) -> bool {
    let i = spec_room_index(v0, room_id);
    if i >= 0 && v0[i].1.len() > 0 {
        if 1 <= n <= v0[i].1.len() {
            &&& v1 == v0.update(i, (room_id, v0[i].1.remove(n - 1)))
            &&& msg == spec_msg_task_closed(spec_closed_short(v0[i].1[n - 1].title))
            &&& html == Option::Some(
                spec_msg_task_closed_html(spec_closed_short(v0[i].1[n - 1].title)),
            )
            &&& save
        } else {
            &&& v1 == v0
            &&& msg == spec_msg_invalid_number(n)
            &&& html is None
            &&& !save
        }
    } else {
        &&& v1 == v0
        &&& msg == spec_msg_no_tasks()
        &&& html is None
        &&& !save
    }
}

/// What logging guarantees: within range, the log lands on the task with the
/// addition on its history, the reply carries the entry and the details, and
/// a save follows; otherwise nothing changes.
pub open spec fn spec_log_task_post(
    v0: RoomsView,
    v1: RoomsView,
    room_id: Seq<char>,
    sender: Seq<char>,
    n: int,
    log: Seq<char>,
    msg: Seq<char>,
    html: Option<Seq<char>>,
    save: bool,
) -> bool {
    let i = spec_room_index(v0, room_id);
    if i >= 0 && v0[i].1.len() > 0 {
        if 1 <= n <= v0[i].1.len() {
            exists|ts: Seq<char>|
                {
                    let t1 = #[trigger] spec_with_log(v0[i].1[n - 1], sender, log, ts);
                    &&& v1 == v0.update(i, (room_id, v0[i].1.update(n - 1, t1)))
                    &&& msg == spec_msg_log_added(n, log, spec_task_details(t1))
                    &&& html == Option::Some(spec_msg_log_added_html(n, log, spec_task_details(t1)))
                    &&& save
                }
        } else {
            &&& v1 == v0
            &&& msg == spec_msg_invalid_number(n)
            &&& html is None
            &&& !save
        }
    } else {
        &&& v1 == v0
        &&& msg == spec_msg_no_tasks()
        &&& html is None
        &&& !save
    }
}

/// What asking for details guarantees: the reply carries the task's full
/// rendering, or the fitting error; nothing changes.
pub open spec fn spec_details_task_post(
    v: RoomsView,
    room_id: Seq<char>,
    n: int,
    msg: Seq<char>,
    html: Option<Seq<char>>,
    save: bool,
) -> bool {
    &&& ({
        let i = spec_room_index(v, room_id);
        if i >= 0 && v[i].1.len() > 0 {
            if 1 <= n <= v[i].1.len() {
                &&& msg == spec_msg_details(spec_task_details(v[i].1[n - 1]))
                &&& html == Option::Some(spec_msg_details_html(spec_task_details(v[i].1[n - 1])))
            } else {
                msg == spec_msg_invalid_number(n) && html is None
            }
        } else {
            msg == spec_msg_no_tasks() && html is None
        }
    })
    &&& !save
}

/// What editing guarantees: within range, the task's title changes with the
/// change on its history, the reply names both titles, and a save follows;
/// otherwise nothing changes.
pub open spec fn spec_edit_task_post(
    v0: RoomsView,
    v1: RoomsView,
    room_id: Seq<char>,
    sender: Seq<char>,
    n: int,
    title: Seq<char>,
    msg: Seq<char>,
    html: Option<Seq<char>>,
    save: bool,
) -> bool {
    let i = spec_room_index(v0, room_id);
    if i >= 0 && v0[i].1.len() > 0 {
        if 1 <= n <= v0[i].1.len() {
            exists|ts: Seq<char>|
                {
                    let t1 = #[trigger] spec_with_title(v0[i].1[n - 1], sender, title, ts);
                    &&& v1 == v0.update(i, (room_id, v0[i].1.update(n - 1, t1)))
                    &&& msg == spec_msg_task_edited(n, v0[i].1[n - 1].title, title)
                    &&& html == Option::Some(
                        spec_msg_task_edited_html(n, v0[i].1[n - 1].title, title),
                    )
                    &&& save
                }
        } else {
            &&& v1 == v0
            &&& msg == spec_msg_invalid_number(n)
            &&& html is None
            &&& !save
        }
    } else {
        &&& v1 == v0
        &&& msg == spec_msg_no_tasks()
        &&& html is None
        &&& !save
    }
}

impl TodoList {
    /// No room has a list yet.
    pub fn new() -> (r: TodoList)
        ensures
            r@ == Seq::<(Seq<char>, Seq<TaskView>)>::empty(),
            r.wf(),
    {
        let r = TodoList { rooms: Vec::new() };
        proof {
            assert(r@ =~= Seq::<(Seq<char>, Seq<TaskView>)>::empty());
        }
        r
    }

    /// Each room has at most one list.
    pub open spec fn wf(&self) -> bool {
        forall|i: int, j: int| 0 <= i < j < self@.len() ==> self@[i].0 != self@[j].0
    }

    /// Finds the room's position in the lists.
    fn find_room(&self, room_id: &str) -> (r: Option<usize>)
        ensures
            match r {
                Option::Some(i) => spec_room_index(self@, room_id@) == i as int && i < self@.len(),
                Option::None => spec_room_index(self@, room_id@) == -1,
            },
    {
        let mut i: usize = 0;
        while i < self.rooms.len()
            invariant
                0 <= i <= self.rooms@.len(),
                self@.len() == self.rooms@.len(),
                forall|k: int| 0 <= k < i ==> (#[trigger] self@[k]).0 != room_id@,
            decreases self.rooms@.len() - i,
        {
            if str_eq(self.rooms[i].room_id.as_str(), room_id) {
                proof {
                    assert(self@[i as int].0 == self.rooms@[i as int].room_id@);
                    lemma_room_index_first(self@, room_id@, i as int);
                }
                return Option::Some(i);
            }
            proof {
                assert(self@[i as int].0 == self.rooms@[i as int].room_id@);
            }
            i = i + 1;
        }
        proof {
            lemma_room_index_none(self@, room_id@);
        }
        Option::None
    }

    /// Adds a task with the next number to the room's list, creating the list
    /// when the room has none, and asks for a save. The reply names the new
    /// task's number, its creator and its title.
    pub fn add_task(&mut self, room_id: &str, sender: String, task_title: String) -> (r:
        CommandReply)
        requires
            old(self).wf(),
            spec_room_index(old(self)@, room_id@) >= 0 ==> old(self)@[spec_room_index(
                old(self)@,
                room_id@,
            )].1.len() < usize::MAX,
        ensures
            final(self).wf(),
            spec_add_task_post(
                old(self)@,
                final(self)@,
                room_id@,
                sender@,
                task_title@,
                r.message@,
                opt_view(r.html_message),
                r.save_needed,
            ),
    {
        proof {
            lemma_room_index_points_at_room(self@, room_id@);
        }
        match self.find_room(room_id) {
            Option::Some(i) => {
                let mut room = self.rooms.remove(i);
                let next_id = room.tasks.len() + 1;
                let task = Task::new(sender.clone(), next_id, task_title.clone());
                let ghost ts = task@.internal_logs[0].0;
                let ghost task_view = task@;
                room.tasks.push(task);
                self.rooms.insert(i, room);
                proof {
                    assert(task_view == spec_new_task(sender@, next_id as int, task_title@, ts))
                        by {
                        assert(task_view.internal_logs =~= seq![
                            (ts, sender@, spec_log_action(TaskEvent::Created, Option::None)),
                        ]);
                    }
                    assert(final(self)@ =~~= old(self)@.update(
                        i as int,
                        (
                            room_id@,
                            old(self)@[i as int].1.push(
                                spec_new_task(
                                    sender@,
                                    old(self)@[i as int].1.len() + 1 as int,
                                    task_title@,
                                    ts,
                                ),
                            ),
                        ),
                    ));
                }
                let mut message = String::new();
                message.append("📝 Task ");
                append_digits(&mut message, next_id);
                message.append(" added by ");
                message.append(sender.as_str());
                message.append(":\n ");
                message.append(task_title.as_str());
                proof {
                    assert(message@ =~= spec_msg_task_added(next_id as int, sender@, task_title@));
                }
                CommandReply { message, html_message: Option::None, save_needed: true }
            },
            Option::None => {
                let task = Task::new(sender.clone(), 1, task_title.clone());
                let ghost ts = task@.internal_logs[0].0;
                let ghost task_view = task@;
                let mut tasks = Vec::new();
                tasks.push(task);
                self.rooms.push(RoomTasks { room_id: room_id.to_owned(), tasks });
                proof {
                    assert(task_view == spec_new_task(sender@, 1, task_title@, ts)) by {
                        assert(task_view.internal_logs =~= seq![
                            (ts, sender@, spec_log_action(TaskEvent::Created, Option::None)),
                        ]);
                    }
                    lemma_room_index_missing(old(self)@, room_id@);
                    assert(final(self)@ =~~= old(self)@.push(
                        (room_id@, seq![spec_new_task(sender@, 1, task_title@, ts)]),
                    ));
                }
                let mut message = String::new();
                message.append("📝 Task ");
                append_digits(&mut message, 1);
                message.append(" added by ");
                message.append(sender.as_str());
                message.append(":\n ");
                message.append(task_title.as_str());
                proof {
                    assert(spec_digits(1nat) =~= seq!['1']);
                    assert(message@ =~= spec_msg_task_added(1, sender@, task_title@));
                }
                CommandReply { message, html_message: Option::None, save_needed: true }
            },
        }
    }

    /// Renders the room's task list: a numbered line per task, or a note that
    /// there are none. Nothing changes and nothing needs saving.
    pub fn list_tasks(&self, room_id: &str) -> (r: CommandReply)
        ensures
            spec_list_tasks_post(
                self@,
                room_id@,
                r.message@,
                opt_view(r.html_message),
                r.save_needed,
            ),
    {
        proof {
            lemma_room_index_points_at_room(self@, room_id@);
        }
        match self.find_room(room_id) {
            Option::Some(i) => {
                let room = &self.rooms[i];
                if room.tasks.len() == 0 {
                    proof {
                        assert(self@[i as int].1 =~= Seq::<TaskView>::empty());
                    }
                    return CommandReply {
                        message: no_tasks_message(),
                        html_message: Option::None,
                        save_needed: false,
                    };
                }
                let ghost tasks_view = self@[i as int].1;
                let mut response = String::new();
                let mut k: usize = 0;
                while k < room.tasks.len()
                    invariant
                        0 <= k <= room.tasks@.len(),
                        tasks_view.len() == room.tasks@.len(),
                        forall|m: int|
                            0 <= m < room.tasks@.len()
                                ==> tasks_view[m] == (#[trigger] room.tasks@[m])@,
                        spec_list_lines(tasks_view, 0) == response@ + spec_list_lines(
                            tasks_view,
                            k as int,
                        ),
                    decreases room.tasks@.len() - k,
                {
                    append_digits(&mut response, k + 1);
                    response.append(". ");
                    let short = room.tasks[k].to_string_short();
                    response.append(short.as_str());
                    response.append("\n");
                    proof {
                        assert(spec_list_lines(tasks_view, 0) =~= response@ + spec_list_lines(
                            tasks_view,
                            k + 1,
                        ));
                    }
                    k = k + 1;
                }
                let mut message = String::new();
                message.append("📋 Room To-Do List:\n");
                message.append(response.as_str());
                let mut html = String::new();
                html.append("📋 Room To-Do List:<br>");
                let replaced = replace_newlines(response.as_str());
                html.append(replaced.as_str());
                proof {
                    assert(spec_list_lines(tasks_view, k as int) =~= Seq::<char>::empty());
                    assert(response@ =~= spec_list_lines(tasks_view, 0));
                    assert(message@ =~= "📋 Room To-Do List:\n"@ + spec_list_lines(
                        tasks_view,
                        0,
                    ));
                    assert(html@ =~= "📋 Room To-Do List:<br>"@ + spec_replace_newlines(
                        spec_list_lines(tasks_view, 0),
                        0,
                    ));
                }
                CommandReply {
                    message,
                    html_message: Option::Some(html),
                    save_needed: false,
                }
            },
            Option::None => CommandReply {
                message: no_tasks_message(),
                html_message: Option::None,
                save_needed: false,
            },
        }
    }

    /// Marks a task done: its status becomes "done" and the change is
    /// recorded in its history. The reply names the task and its title. A
    /// missing room gets an empty list; a task number out of range changes
    /// nothing and earns an error reply.
    pub fn done_task(&mut self, room_id: &str, sender: String, task_number: usize) -> (r:
        CommandReply)
        requires
            old(self).wf(),
        ensures
            final(self).wf(),
            spec_done_task_post(
                old(self)@,
                final(self)@,
                room_id@,
                sender@,
                task_number as int,
                r.message@,
                opt_view(r.html_message),
                r.save_needed,
            ),
    {
        proof {
            lemma_room_index_points_at_room(self@, room_id@);
        }
        match self.find_room(room_id) {
            Option::Some(i) => {
                if 1 <= task_number && task_number <= self.rooms[i].tasks.len() {
                    let mut room = self.rooms.remove(i);
                    let mut task = room.tasks.remove(task_number - 1);
                    let ghost t0 = task@;
                    task.set_status(sender, "done".to_owned());
                    let ghost ts = task@.internal_logs.last().0;
                    let mut message = String::new();
                    message.append("\u{2705} Task ");
                    append_digits(&mut message, task_number);
                    message.append(" marked as done: **");
                    message.append(task.title.as_str());
                    message.append("**");
                    let mut html = String::new();
                    html.append("\u{2705} Task ");
                    append_digits(&mut html, task_number);
                    html.append(" marked as done: <b>");
                    html.append(task.title.as_str());
                    html.append("</b>");
                    proof {
                        assert(task@ == spec_with_status(t0, sender@, "done"@, ts)) by {
                            assert(task@.internal_logs =~= t0.internal_logs.push(
                                (ts, sender@, task@.internal_logs.last().2),
                            ));
                        }
                        assert(message@ =~= spec_msg_task_done(task_number as int, task@.title));
                        assert(html@ =~= spec_msg_task_done_html(task_number as int, task@.title));
                    }
                    room.tasks.insert(task_number - 1, task);
                    self.rooms.insert(i, room);
                    proof {
                        assert(room.tasks@ =~= old(self).rooms@[i as int].tasks@.update(
                            task_number - 1,
                            room.tasks@[task_number - 1],
                        ));
                        assert(final(self)@ =~~= old(self)@.update(
                            i as int,
                            (
                                room_id@,
                                old(self)@[i as int].1.update(
                                    task_number - 1,
                                    spec_with_status(
                                        old(self)@[i as int].1[task_number - 1],
                                        sender@,
                                        "done"@,
                                        ts,
                                    ),
                                ),
                            ),
                        ));
                    }
                    CommandReply {
                        message,
                        html_message: Option::Some(html),
                        save_needed: true,
                    }
                } else {
                    CommandReply {
                        message: task_missing_message(task_number),
                        html_message: Option::None,
                        save_needed: false,
                    }
                }
            },
            Option::None => {
                proof {
                    lemma_room_index_missing(self@, room_id@);
                }
                self.rooms.push(RoomTasks { room_id: room_id.to_owned(), tasks: Vec::new() });
                proof {
                    assert(final(self)@ =~~= old(self)@.push(
                        (room_id@, Seq::<TaskView>::empty()),
                    ));
                }
                CommandReply {
                    message: task_missing_message(task_number),
                    html_message: Option::None,
                    save_needed: false,
                }
            },
        }
    }

    /// Empties a room's list when it holds tasks and asks for a save; where
    /// there is nothing to clear, nothing changes.
    pub fn clear_tasks(&mut self, room_id: &str) -> (r: CommandReply)
        requires
            old(self).wf(),
        ensures
            final(self).wf(),
            spec_clear_tasks_post(
                old(self)@,
                final(self)@,
                room_id@,
                r.message@,
                opt_view(r.html_message),
                r.save_needed,
            ),
    {
        proof {
            lemma_room_index_points_at_room(self@, room_id@);
        }
        match self.find_room(room_id) {
            Option::Some(i) => {
                if self.rooms[i].tasks.len() > 0 {
                    let mut room = self.rooms.remove(i);
                    room.tasks = Vec::new();
                    self.rooms.insert(i, room);
                    proof {
                        assert(final(self)@ =~~= old(self)@.update(
                            i as int,
                            (room_id@, Seq::<TaskView>::empty()),
                        ));
                    }
                    CommandReply {
                        message: "\u{1f5d1}\u{fe0f} List Cleared: The room's to-do list has been cleared."
                            .to_owned(),
                        html_message: Option::None,
                        save_needed: true,
                    }
                } else {
                    proof {
                        assert(old(self)@[i as int].1 =~= Seq::<TaskView>::empty());
                    }
                    CommandReply {
                        message:
                            "\u{2139}\u{fe0f} Info: There are no tasks in this room's to-do list to clear."
                            .to_owned(),
                        html_message: Option::None,
                        save_needed: false,
                    }
                }
            },
            Option::None => CommandReply {
                message:
                    "\u{2139}\u{fe0f} Info: There are no tasks in this room's to-do list to clear."
                    .to_owned(),
                html_message: Option::None,
                save_needed: false,
            },
        }
    }

    /// Closes a task: it is removed from the list with its status set to
    /// "closed", and the reply shows it. A missing room, an empty list, or a
    /// task number out of range changes nothing.
    pub fn close_task(&mut self, room_id: &str, sender: String, task_number: usize) -> (r:
        CommandReply)
        requires
            old(self).wf(),
        ensures
            final(self).wf(),
            spec_close_task_post(
                old(self)@,
                final(self)@,
                room_id@,
                task_number as int,
                r.message@,
                opt_view(r.html_message),
                r.save_needed,
            ),
    {
        proof {
            lemma_room_index_points_at_room(self@, room_id@);
        }
        match self.find_room(room_id) {
            Option::Some(i) => {
                if self.rooms[i].tasks.len() == 0 {
                    proof {
                        assert(old(self)@[i as int].1 =~= Seq::<TaskView>::empty());
                    }
                    return CommandReply {
                        message: no_tasks_message(),
                        html_message: Option::None,
                        save_needed: false,
                    };
                }
                if 1 <= task_number && task_number <= self.rooms[i].tasks.len() {
                    let mut room = self.rooms.remove(i);
                    let mut task = room.tasks.remove(task_number - 1);
                    self.rooms.insert(i, room);
                    let ghost t0 = task@;
                    task.set_status(sender, "closed".to_owned());
                    let short = task.to_string_short();
                    let mut message = String::new();
                    message.append("\u{2716}\u{fe0f} Task Closed: **");
                    message.append(short.as_str());
                    message.append("**");
                    let mut html = String::new();
                    html.append("\u{2716}\u{fe0f} Task Closed: <b>");
                    html.append(short.as_str());
                    html.append("</b>");
                    proof {
                        assert(short@ =~= spec_closed_short(t0.title));
                        assert(message@ =~= spec_msg_task_closed(spec_closed_short(t0.title)));
                        assert(html@ =~= spec_msg_task_closed_html(spec_closed_short(t0.title)));
                        assert(final(self)@ =~~= old(self)@.update(
                            i as int,
                            (room_id@, old(self)@[i as int].1.remove(task_number - 1)),
                        ));
                    }
                    CommandReply {
                        message,
                        html_message: Option::Some(html),
                        save_needed: true,
                    }
                } else {
                    CommandReply {
                        message: invalid_number_message(task_number),
                        html_message: Option::None,
                        save_needed: false,
                    }
                }
            },
            Option::None => CommandReply {
                message: no_tasks_message(),
                html_message: Option::None,
                save_needed: false,
            },
        }
    }

    /// Adds a log entry to a task and replies with the entry and the task's
    /// full details. A missing room, an empty list, or a task number out of
    /// range changes nothing.
    pub fn log_task(
        &mut self,
        room_id: &str,
        sender: String,
        task_number: usize,
        log_content: String,
    ) -> (r: CommandReply)
        requires
            old(self).wf(),
        ensures
            final(self).wf(),
            spec_log_task_post(
                old(self)@,
                final(self)@,
                room_id@,
                sender@,
                task_number as int,
                log_content@,
                r.message@,
                opt_view(r.html_message),
                r.save_needed,
            ),
    {
        proof {
            lemma_room_index_points_at_room(self@, room_id@);
        }
        match self.find_room(room_id) {
            Option::Some(i) => {
                if self.rooms[i].tasks.len() == 0 {
                    proof {
                        assert(old(self)@[i as int].1 =~= Seq::<TaskView>::empty());
                    }
                    return CommandReply {
                        message: no_tasks_message(),
                        html_message: Option::None,
                        save_needed: false,
                    };
                }
                if 1 <= task_number && task_number <= self.rooms[i].tasks.len() {
                    let mut room = self.rooms.remove(i);
                    let mut task = room.tasks.remove(task_number - 1);
                    let ghost t0 = task@;
                    task.add_log(sender, log_content.clone());
                    let ghost ts = task@.internal_logs.last().0;
                    let details = task.show_details();
                    let replaced = replace_newlines(details.as_str());
                    let mut message = String::new();
                    message.append("\u{1f4dd} Log Added to Task #");
                    append_digits(&mut message, task_number);
                    message.append(":\nLog: '");
                    message.append(log_content.as_str());
                    message.append("'\n\nCurrent Task Details:\n");
                    message.append(details.as_str());
                    let mut html = String::new();
                    html.append("\u{1f4dd} Log Added to Task #");
                    append_digits(&mut html, task_number);
                    html.append(":<br>Log: '");
                    html.append(log_content.as_str());
                    html.append("'<<br><br><b>Current Task Details:</b><br>");
                    html.append(replaced.as_str());
                    proof {
                        assert(task@ == spec_with_log(t0, sender@, log_content@, ts)) by {
                            assert(task@.internal_logs =~= t0.internal_logs.push(
                                (ts, sender@, task@.internal_logs.last().2),
                            ));
                        }
                        assert(message@ =~= spec_msg_log_added(
                            task_number as int,
                            log_content@,
                            spec_task_details(task@),
                        ));
                        assert(html@ =~= spec_msg_log_added_html(
                            task_number as int,
                            log_content@,
                            spec_task_details(task@),
                        ));
                    }
                    room.tasks.insert(task_number - 1, task);
                    self.rooms.insert(i, room);
                    proof {
                        assert(final(self)@ =~~= old(self)@.update(
                            i as int,
                            (
                                room_id@,
                                old(self)@[i as int].1.update(
                                    task_number - 1,
                                    spec_with_log(
                                        old(self)@[i as int].1[task_number - 1],
                                        sender@,
                                        log_content@,
                                        ts,
                                    ),
                                ),
                            ),
                        ));
                    }
                    CommandReply {
                        message,
                        html_message: Option::Some(html),
                        save_needed: true,
                    }
                } else {
                    CommandReply {
                        message: invalid_number_message(task_number),
                        html_message: Option::None,
                        save_needed: false,
                    }
                }
            },
            Option::None => CommandReply {
                message: no_tasks_message(),
                html_message: Option::None,
                save_needed: false,
            },
        }
    }

    /// Replies with a task's full details. Nothing ever changes.
    pub fn details_task(&self, room_id: &str, task_number: usize) -> (r: CommandReply)
        ensures
            spec_details_task_post(
                self@,
                room_id@,
                task_number as int,
                r.message@,
                opt_view(r.html_message),
                r.save_needed,
            ),
    {
        proof {
            lemma_room_index_points_at_room(self@, room_id@);
        }
        match self.find_room(room_id) {
            Option::Some(i) => {
                if self.rooms[i].tasks.len() == 0 {
                    proof {
                        assert(self@[i as int].1 =~= Seq::<TaskView>::empty());
                    }
                    return CommandReply {
                        message: no_tasks_message(),
                        html_message: Option::None,
                        save_needed: false,
                    };
                }
                if 1 <= task_number && task_number <= self.rooms[i].tasks.len() {
                    let task = &self.rooms[i].tasks[task_number - 1];
                    proof {
                        assert(self@[i as int].1[task_number - 1]
                            == self.rooms@[i as int].tasks@[task_number - 1]@);
                    }
                    let details = task.show_details();
                    let replaced = replace_newlines(details.as_str());
                    let mut message = String::new();
                    message.append("\u{1f50d} Task Details:\n");
                    message.append(details.as_str());
                    let mut html = String::new();
                    html.append("\u{1f50d} Task Details:<br>");
                    html.append(replaced.as_str());
                    proof {
                        assert(message@ =~= spec_msg_details(
                            spec_task_details(self@[i as int].1[task_number - 1]),
                        ));
                        assert(html@ =~= spec_msg_details_html(
                            spec_task_details(self@[i as int].1[task_number - 1]),
                        ));
                    }
                    CommandReply {
                        message,
                        html_message: Option::Some(html),
                        save_needed: false,
                    }
                } else {
                    CommandReply {
                        message: invalid_number_message(task_number),
                        html_message: Option::None,
                        save_needed: false,
                    }
                }
            },
            Option::None => CommandReply {
                message: no_tasks_message(),
                html_message: Option::None,
                save_needed: false,
            },
        }
    }

    /// Replaces a task's title and replies with the change. A missing room,
    /// an empty list, or a task number out of range changes nothing.
    pub fn edit_task(
        &mut self,
        room_id: &str,
        sender: String,
        task_number: usize,
        new_title: String,
    ) -> (r: CommandReply)
        requires
            old(self).wf(),
        ensures
            final(self).wf(),
            spec_edit_task_post(
                old(self)@,
                final(self)@,
                room_id@,
                sender@,
                task_number as int,
                new_title@,
                r.message@,
                opt_view(r.html_message),
                r.save_needed,
            ),
    {
        proof {
            lemma_room_index_points_at_room(self@, room_id@);
        }
        match self.find_room(room_id) {
            Option::Some(i) => {
                if self.rooms[i].tasks.len() == 0 {
                    proof {
                        assert(old(self)@[i as int].1 =~= Seq::<TaskView>::empty());
                    }
                    return CommandReply {
                        message: no_tasks_message(),
                        html_message: Option::None,
                        save_needed: false,
                    };
                }
                if 1 <= task_number && task_number <= self.rooms[i].tasks.len() {
                    let mut room = self.rooms.remove(i);
                    let mut task = room.tasks.remove(task_number - 1);
                    let ghost t0 = task@;
                    let old_title = task.title.clone();
                    task.set_title(sender, new_title.clone());
                    let ghost ts = task@.internal_logs.last().0;
                    let mut message = String::new();
                    message.append("\u{270f}\u{fe0f} Task Edited: Task #");
                    append_digits(&mut message, task_number);
                    message.append(" title changed:\nFrom: ");
                    message.append(old_title.as_str());
                    message.append("\nTo: ");
                    message.append(new_title.as_str());
                    let mut html = String::new();
                    html.append("\u{270f}\u{fe0f} Task Edited: Task #");
                    append_digits(&mut html, task_number);
                    html.append(" title changed:<br><b>From:</b> ");
                    html.append(old_title.as_str());
                    html.append("<br><b>To:</b> ");
                    html.append(new_title.as_str());
                    proof {
                        assert(task@ == spec_with_title(t0, sender@, new_title@, ts)) by {
                            assert(task@.internal_logs =~= t0.internal_logs.push(
                                (ts, sender@, task@.internal_logs.last().2),
                            ));
                        }
                        assert(message@ =~= spec_msg_task_edited(
                            task_number as int,
                            t0.title,
                            new_title@,
                        ));
                        assert(html@ =~= spec_msg_task_edited_html(
                            task_number as int,
                            t0.title,
                            new_title@,
                        ));
                    }
                    room.tasks.insert(task_number - 1, task);
                    self.rooms.insert(i, room);
                    proof {
                        assert(final(self)@ =~~= old(self)@.update(
                            i as int,
                            (
                                room_id@,
                                old(self)@[i as int].1.update(
                                    task_number - 1,
                                    spec_with_title(
                                        old(self)@[i as int].1[task_number - 1],
                                        sender@,
                                        new_title@,
                                        ts,
                                    ),
                                ),
                            ),
                        ));
                    }
                    CommandReply {
                        message,
                        html_message: Option::Some(html),
                        save_needed: true,
                    }
                } else {
                    CommandReply {
                        message: invalid_number_message(task_number),
                        html_message: Option::None,
                        save_needed: false,
                    }
                }
            },
            Option::None => CommandReply {
                message: no_tasks_message(),
                html_message: Option::None,
                save_needed: false,
            },
        }
    }
}

/// The note that a room's list holds no tasks.
pub fn no_tasks_message() -> (r: String)
    ensures
        r@ == spec_msg_no_tasks(),
{
    "ℹ️ Info: There are no tasks in this room's to-do list.".to_owned()
}

} // verus!
