//! Tasks on a room's to-do list: their history bookkeeping and their
//! human-readable renderings.

use vstd::prelude::*;

use crate::clock::now_log_timestamp;
use crate::codec::{append_digits, opt_view, spec_digits};

verus! {

/// What happened to a task, for its internal history.
#[derive(Debug, Clone, Copy, PartialEq, Eq, Structural)]
pub enum TaskEvent {
    Created,
    StatusUpdated,
    LogAdded,
    TitleEdited,
}

/// The label a history entry uses for an event.
pub open spec fn spec_event_label(e: TaskEvent) -> Seq<char> {
    match e {
        TaskEvent::Created => "Created task"@,
        TaskEvent::StatusUpdated => "Updated status"@,
        TaskEvent::LogAdded => "Added log"@,
        TaskEvent::TitleEdited => "Edited title"@,
    }
}

impl TaskEvent {
    pub fn to_string_readable(&self) -> (r: &'static str)
        ensures
            r@ == spec_event_label(*self),
    {
        match self {
            TaskEvent::Created => "Created task",
            TaskEvent::StatusUpdated => "Updated status",
            TaskEvent::LogAdded => "Added log",
            TaskEvent::TitleEdited => "Edited title",
        }
    }
}

/// One task: its number, title, status, the logs users added, the internal
/// history (timestamp, user, action), and who created it.
pub struct Task {
    pub id: usize,
    pub title: String,
    pub status: String,
    pub logs: Vec<String>,
    pub internal_logs: Vec<(String, String, String)>,
    pub creator: String,
}

/// The plain values a task denotes.
pub struct TaskView {
    pub id: int,
    pub title: Seq<char>,
    pub status: Seq<char>,
    pub logs: Seq<Seq<char>>,
    pub internal_logs: Seq<(Seq<char>, Seq<char>, Seq<char>)>,
    pub creator: Seq<char>,
}

impl View for Task {
    type V = TaskView;

    open spec fn view(&self) -> TaskView {
        TaskView {
            id: self.id as int,
            title: self.title@,
            status: self.status@,
            logs: self.logs@.map_values(|s: String| s@),
            internal_logs: self.internal_logs@.map_values(
                |t: (String, String, String)| (t.0@, t.1@, t.2@),
            ),
            creator: self.creator@,
        }
    }
}

/// The text a history entry records for an event, with its extra detail when
/// there is one.
pub open spec fn spec_log_action(e: TaskEvent, extra: Option<Seq<char>>) -> Seq<char> {
    match extra {
        Option::None => spec_event_label(e),
        Option::Some(info) => spec_event_label(e) + ": "@ + info,
    }
}

/// A string quoted for a history entry, shortened to its first thirty
/// characters and an ellipsis when longer than thirty characters.
pub open spec fn spec_quoted_truncate(s: Seq<char>) -> Seq<char> {
    if s.len() > 30 {
        "'"@ + s.subrange(0, 30) + "...'"@
    } else {
        "'"@ + s + "'"@
    }
}

/// Quotes a string for a history entry, shortening it to thirty characters.
pub fn quoted_truncate(s: &str) -> (r: String)
    ensures
        r@ == spec_quoted_truncate(s@),
{
    let mut out = String::new();
    out.append("'");
    let n = s.unicode_len();
    if n > 30 {
        out.append(s.substring_char(0, 30));
        out.append("...'");
    } else {
        out.append(s);
        out.append("'");
    }
    proof {
        assert(out@ =~= spec_quoted_truncate(s@));
    }
    out
}

impl Task {
    /// A freshly created pending task with one history entry recording its
    /// creation by its creator.
    pub fn new(sender: String, id: usize, title: String) -> (task: Task)
        ensures
            task@.id == id as int,
            task@.title == title@,
            task@.status == "pending"@,
            task@.logs == Seq::<Seq<char>>::empty(),
            task@.creator == sender@,
            task@.internal_logs.len() == 1,
            task@.internal_logs[0].1 == sender@,
            task@.internal_logs[0].2 == spec_log_action(TaskEvent::Created, Option::None),
    {
        let mut task = Task {
            id,
            title,
            status: "pending".to_owned(),
            logs: Vec::new(),
            internal_logs: Vec::new(),
            creator: sender.clone(),
        };
        task.add_internal_log(sender, TaskEvent::Created, Option::None);
        proof {
            assert(task@.logs =~= Seq::<Seq<char>>::empty());
        }
        task
    }

    /// Appends one history entry: the current time, the acting user, and the
    /// event's text. Nothing else changes.
    pub fn add_internal_log(
        &mut self,
        sender: String,
        event_type: TaskEvent,
        extra_info: Option<String>,
    )
        ensures
            final(self)@.internal_logs.len() == old(self)@.internal_logs.len() + 1,
            final(self)@.internal_logs.drop_last() == old(self)@.internal_logs,
            final(self)@.internal_logs.last().1 == sender@,
            final(self)@.internal_logs.last().2 == spec_log_action(
                event_type,
                opt_view(extra_info),
            ),
            final(self)@.id == old(self)@.id,
            final(self)@.title == old(self)@.title,
            final(self)@.status == old(self)@.status,
            final(self)@.logs == old(self)@.logs,
            final(self)@.creator == old(self)@.creator,
    {
        let timestamp = now_log_timestamp();
        let action = match &extra_info {
            Option::Some(info) => {
                let mut a = String::new();
                a.append(event_type.to_string_readable());
                a.append(": ");
                a.append(info.as_str());
                proof {
                    assert(a@ =~= spec_log_action(event_type, opt_view(extra_info)));
                }
                a
            },
            Option::None => event_type.to_string_readable().to_owned(),
        };
        self.internal_logs.push((timestamp, sender, action));
        proof {
            assert(self@.internal_logs.drop_last() =~= old(self)@.internal_logs);
        }
    }

    /// Appends a user log to the task and records the addition, with the log
    /// quoted and shortened, in the history.
    pub fn add_log(&mut self, sender: String, log: String)
        ensures
            final(self)@.logs == old(self)@.logs.push(log@),
            final(self)@.internal_logs.len() == old(self)@.internal_logs.len() + 1,
            final(self)@.internal_logs.drop_last() == old(self)@.internal_logs,
            final(self)@.internal_logs.last().1 == sender@,
            final(self)@.internal_logs.last().2 == spec_log_action(
                TaskEvent::LogAdded,
                Option::Some(spec_quoted_truncate(log@)),
            ),
            final(self)@.id == old(self)@.id,
            final(self)@.title == old(self)@.title,
            final(self)@.status == old(self)@.status,
            final(self)@.creator == old(self)@.creator,
    {
        let truncated = quoted_truncate(log.as_str());
        self.logs.push(log);
        proof {
            assert(self@.logs =~= old(self)@.logs.push(self.logs@.last()@));
        }
        self.add_internal_log(sender, TaskEvent::LogAdded, Option::Some(truncated));
    }

    /// Replaces the task's status and records the change, from the old status
    /// to the new, in the history.
    pub fn set_status(&mut self, sender: String, status: String)
        ensures
            final(self)@.status == status@,
            final(self)@.internal_logs.len() == old(self)@.internal_logs.len() + 1,
            final(self)@.internal_logs.drop_last() == old(self)@.internal_logs,
            final(self)@.internal_logs.last().1 == sender@,
            final(self)@.internal_logs.last().2 == spec_log_action(
                TaskEvent::StatusUpdated,
                Option::Some(
                    "from '"@ + old(self)@.status + "' to '"@ + status@ + "'"@,
                ),
            ),
            final(self)@.id == old(self)@.id,
            final(self)@.title == old(self)@.title,
            final(self)@.logs == old(self)@.logs,
            final(self)@.creator == old(self)@.creator,
    {
        let mut detail = String::new();
        detail.append("from '");
        detail.append(self.status.as_str());
        detail.append("' to '");
        detail.append(status.as_str());
        detail.append("'");
        self.status = status;
        proof {
            assert(detail@ =~= "from '"@ + old(self)@.status + "' to '"@ + self.status@ + "'"@);
        }
        self.add_internal_log(sender, TaskEvent::StatusUpdated, Option::Some(detail));
    }

    /// Replaces the task's title and records the change, both titles quoted
    /// and shortened, in the history.
    pub fn set_title(&mut self, sender: String, title: String)
        ensures
            final(self)@.title == title@,
            final(self)@.internal_logs.len() == old(self)@.internal_logs.len() + 1,
            final(self)@.internal_logs.drop_last() == old(self)@.internal_logs,
            final(self)@.internal_logs.last().1 == sender@,
            final(self)@.internal_logs.last().2 == spec_log_action(
                TaskEvent::TitleEdited,
                Option::Some(
                    "from "@ + spec_quoted_truncate(old(self)@.title) + " to "@
                        + spec_quoted_truncate(title@),
                ),
            ),
            final(self)@.id == old(self)@.id,
            final(self)@.status == old(self)@.status,
            final(self)@.logs == old(self)@.logs,
            final(self)@.creator == old(self)@.creator,
    {
        let truncated_old = quoted_truncate(self.title.as_str());
        let truncated_new = quoted_truncate(title.as_str());
        let mut detail = String::new();
        detail.append("from ");
        detail.append(truncated_old.as_str());
        detail.append(" to ");
        detail.append(truncated_new.as_str());
        self.title = title;
        proof {
            assert(detail@ =~= "from "@ + spec_quoted_truncate(old(self)@.title) + " to "@
                + spec_quoted_truncate(self.title@));
        }
        self.add_internal_log(sender, TaskEvent::TitleEdited, Option::Some(detail));
    }

    /// The one-line rendering of a task: its status and title.
    pub fn to_string_short(&self) -> (r: String)
        ensures
            r@ == spec_task_short(self@),
    {
        let mut out = String::new();
        out.append("**[");
        out.append(self.status.as_str());
        out.append("] ");
        out.append(self.title.as_str());
        out.append("**");
        proof {
            assert(out@ =~= spec_task_short(self@));
        }
        out
    }

    /// The full rendering of a task: its heading, creator, logs numbered from
    /// one, and history.
    pub fn show_details(&self) -> (r: String)
        ensures
            r@ == spec_task_details(self@),
    {
        let mut out = String::new();
        out.append("**[");
        out.append(self.status.as_str());
        out.append("] ");
        out.append(self.title.as_str());
        out.append("**");
        out.append("\nCreated by: ");
        out.append(self.creator.as_str());
        if self.logs.len() > 0 {
            out.append("\n\n**Logs:**");
            let ghost base = out@;
            let mut i: usize = 0;
            while i < self.logs.len()
                invariant
                    0 <= i <= self.logs@.len(),
                    base + spec_log_lines(self@.logs, 0) == out@ + spec_log_lines(
                        self@.logs,
                        i as int,
                    ),
                    self@.logs.len() == self.logs@.len(),
                decreases self.logs@.len() - i,
            {
                out.append("\n");
                append_digits(&mut out, i + 1);
                out.append(". ");
                out.append(self.logs[i].as_str());
                proof {
                    assert(self@.logs[i as int] == self.logs@[i as int]@);
                    assert(out@ + spec_log_lines(self@.logs, i + 1) =~= base + spec_log_lines(
                        self@.logs,
                        0,
                    ));
                }
                i = i + 1;
            }
        }
        if self.internal_logs.len() > 0 {
            out.append("\n\n**History:**");
            let ghost base = out@;
            let mut i: usize = 0;
            while i < self.internal_logs.len()
                invariant
                    0 <= i <= self.internal_logs@.len(),
                    base + spec_history_lines(self@.internal_logs, 0) == out@ + spec_history_lines(
                        self@.internal_logs,
                        i as int,
                    ),
                    self@.internal_logs.len() == self.internal_logs@.len(),
                decreases self.internal_logs@.len() - i,
            {
                let entry = &self.internal_logs[i];
                out.append("\n• ");
                out.append(entry.0.as_str());
                out.append(" - ");
                out.append(entry.1.as_str());
                out.append(": ");
                out.append(entry.2.as_str());
                proof {
                    assert(self@.internal_logs[i as int]
                        == (self.internal_logs@[i as int].0@, self.internal_logs@[i as int].1@,
                        self.internal_logs@[i as int].2@));
                    assert(out@ + spec_history_lines(self@.internal_logs, i + 1) =~= base
                        + spec_history_lines(self@.internal_logs, 0));
                }
                i = i + 1;
            }
        }
        proof {
            assert(out@ =~= spec_task_details(self@));
        }
        out
    }
}

/// The one-line rendering of a task.
pub open spec fn spec_task_short(t: TaskView) -> Seq<char> {
    "**["@ + t.status + "] "@ + t.title + "**"@
}

/// The numbered log lines of a task's full rendering, from index `k` on.
pub open spec fn spec_log_lines(logs: Seq<Seq<char>>, k: int) -> Seq<char>
    decreases logs.len() - k,
{
    if k < 0 || k >= logs.len() {
        Seq::empty()
    } else {
        "\n"@ + spec_digits((k + 1) as nat) + ". "@ + logs[k] + spec_log_lines(logs, k + 1)
    }
}

/// The history lines of a task's full rendering, from index `k` on.
pub open spec fn spec_history_lines(
    entries: Seq<(Seq<char>, Seq<char>, Seq<char>)>,
    k: int,
) -> Seq<char>
    decreases entries.len() - k,
{
    if k < 0 || k >= entries.len() {
        Seq::empty()
    } else {
        "\n• "@ + entries[k].0 + " - "@ + entries[k].1 + ": "@ + entries[k].2
            + spec_history_lines(entries, k + 1)
    }
}

/// The full rendering of a task.
pub open spec fn spec_task_details(t: TaskView) -> Seq<char> {
    spec_task_short(t) + "\nCreated by: "@ + t.creator + (if t.logs.len() > 0 {
        "\n\n**Logs:**"@ + spec_log_lines(t.logs, 0)
    } else {
        Seq::empty()
    }) + (if t.internal_logs.len() > 0 {
        "\n\n**History:**"@ + spec_history_lines(t.internal_logs, 0)
    } else {
        Seq::empty()
    })
}

} // verus!
