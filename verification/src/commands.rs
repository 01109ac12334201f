//! Turning inbound message text into operations on the to-do lists, and the
//! replies of the snapshot commands. The application delivers replies, runs
//! the storage operations this module asks for, and hands their outcomes
//! back to the reply builders here.

use vstd::prelude::*;

use crate::codec::append_digits;
use crate::codec::spec_digits;
use crate::text::str_eq;
use crate::codec::opt_view;
use crate::text::{parse_task_id, spec_parse_usize};
use crate::todo::{
    spec_add_task_post, spec_clear_tasks_post, spec_close_task_post, spec_details_task_post,
    spec_done_task_post, spec_edit_task_post, spec_list_tasks_post, spec_log_task_post,
    CommandReply, RoomsView, TodoList,
};

verus! {

/// An ASCII whitespace character, as the command text is trimmed and split.
pub open spec fn is_ascii_ws(c: char) -> bool {
    c == ' ' || c == '\t' || c == '\n' || c == '\r'
}

/// The text without leading and trailing whitespace.
pub open spec fn spec_trim(s: Seq<char>) -> Seq<char>
    decreases s.len(),
{
    if s.len() > 0 && is_ascii_ws(s[0]) {
        spec_trim(s.drop_first())
    } else if s.len() > 0 && is_ascii_ws(s.last()) {
        spec_trim(s.drop_last())
    } else {
        s
    }
}

/// Trims ASCII whitespace from both ends.
pub fn trim(s: &str) -> (r: String)
    ensures
        r@ == spec_trim(s@),
{
    let total = s.unicode_len();
    let mut lo: usize = 0;
    proof {
        assert(s@.subrange(0, total as int) =~= s@);
    }
    while lo < total && is_ws_char(s.get_char(lo))
        invariant
            0 <= lo <= total,
            total == s@.len(),
            spec_trim(s@) == spec_trim(s@.subrange(lo as int, total as int)),
        decreases total - lo,
    {
        proof {
            let cur = s@.subrange(lo as int, total as int);
            assert(cur[0] == s@[lo as int]);
            assert(cur.drop_first() =~= s@.subrange(lo + 1 as int, total as int));
        }
        lo = lo + 1;
    }
    let mut hi: usize = total;
    while hi > lo && is_ws_char(s.get_char(hi - 1))
        invariant
            lo <= hi <= total,
            total == s@.len(),
            lo < total ==> !is_ascii_ws(s@[lo as int]),
            spec_trim(s@) == spec_trim(s@.subrange(lo as int, hi as int)),
        decreases hi,
    {
        proof {
            let cur = s@.subrange(lo as int, hi as int);
            assert(cur.last() == s@[hi - 1]);
            assert(cur[0] == s@[lo as int]);
            assert(!is_ascii_ws(cur[0]));
            assert(cur.drop_last() =~= s@.subrange(lo as int, hi - 1));
        }
        hi = hi - 1;
    }
    let r = s.substring_char(lo, hi).to_owned();
    proof {
        let cur = s@.subrange(lo as int, hi as int);
        if cur.len() > 0 {
            assert(cur[0] == s@[lo as int]);
            assert(cur.last() == s@[hi - 1]);
        }
        assert(spec_trim(cur) == cur);
    }
    r
}

/// Decides whether a character is ASCII whitespace.
pub fn is_ws_char(c: char) -> (r: bool)
    ensures
        r == is_ascii_ws(c),
{
    c == ' ' || c == '\t' || c == '\n' || c == '\r'
}

/// The character with an ASCII capital letter replaced by its small form.
pub open spec fn spec_lower_char(c: char) -> char {
    if 65 <= c as int && c as int <= 90 {
        ((c as u8) + 32) as char
    } else {
        c
    }
}

/// The text with every ASCII capital letter replaced by its small form.
pub open spec fn spec_ascii_lower(s: Seq<char>) -> Seq<char> {
    s.map_values(|c: char| spec_lower_char(c))
}

/// Lowercases the ASCII letters of a text.
pub fn ascii_lower(s: &str) -> (r: String)
    ensures
        r@ == spec_ascii_lower(s@),
{
    let total = s.unicode_len();
    let mut out = String::new();
    let mut i: usize = 0;
    while i < total
        invariant
            0 <= i <= total,
            total == s@.len(),
            out@ == spec_ascii_lower(s@).subrange(0, i as int),
        decreases total - i,
    {
        let c = s.get_char(i);
        let u = c as u32;
        if 65 <= u && u <= 90 {
            out.append(lower_letter_str(c));
        } else {
            out.append(s.substring_char(i, i + 1));
        }
        proof {
            assert(spec_ascii_lower(s@)[i as int] == spec_lower_char(s@[i as int]));
            assert(out@ =~= spec_ascii_lower(s@).subrange(0, i + 1 as int));
        }
        i = i + 1;
    }
    proof {
        assert(spec_ascii_lower(s@).subrange(0, total as int) =~= spec_ascii_lower(s@));
    }
    out
}

/// The small form of one ASCII capital letter.
fn lower_letter_str(c: char) -> (r: &'static str)
    requires
        65 <= c as u32 <= 90,
    ensures
        r@ == seq![spec_lower_char(c)],
{
    let u = c as u32;
    let r = if u == 65 {
        "a"
    } else if u == 66 {
        "b"
    } else if u == 67 {
        "c"
    } else if u == 68 {
        "d"
    } else if u == 69 {
        "e"
    } else if u == 70 {
        "f"
    } else if u == 71 {
        "g"
    } else if u == 72 {
        "h"
    } else if u == 73 {
        "i"
    } else if u == 74 {
        "j"
    } else if u == 75 {
        "k"
    } else if u == 76 {
        "l"
    } else if u == 77 {
        "m"
    } else if u == 78 {
        "n"
    } else if u == 79 {
        "o"
    } else if u == 80 {
        "p"
    } else if u == 81 {
        "q"
    } else if u == 82 {
        "r"
    } else if u == 83 {
        "s"
    } else if u == 84 {
        "t"
    } else if u == 85 {
        "u"
    } else if u == 86 {
        "v"
    } else if u == 87 {
        "w"
    } else if u == 88 {
        "x"
    } else if u == 89 {
        "y"
    } else {
        "z"
    };
    proof {
        reveal_strlit("a");
        reveal_strlit("b");
        reveal_strlit("c");
        reveal_strlit("d");
        reveal_strlit("e");
        reveal_strlit("f");
        reveal_strlit("g");
        reveal_strlit("h");
        reveal_strlit("i");
        reveal_strlit("j");
        reveal_strlit("k");
        reveal_strlit("l");
        reveal_strlit("m");
        reveal_strlit("n");
        reveal_strlit("o");
        reveal_strlit("p");
        reveal_strlit("q");
        reveal_strlit("r");
        reveal_strlit("s");
        reveal_strlit("t");
        reveal_strlit("u");
        reveal_strlit("v");
        reveal_strlit("w");
        reveal_strlit("x");
        reveal_strlit("y");
        reveal_strlit("z");
        assert(r@ =~= seq![spec_lower_char(c)]);
    }
    r
}

/// The position of the first character satisfying the split, or the length.
pub open spec fn spec_first_ws(s: Seq<char>, k: int) -> int
    decreases s.len() - k,
{
    if k < 0 || k >= s.len() {
        s.len() as int
    } else if is_ascii_ws(s[k]) {
        k
    } else {
        spec_first_ws(s, k + 1)
    }
}

/// Splits a text at its first whitespace character: the part before it and
/// the part after it, or nothing when it has none.
pub fn split_once_ws(s: &str) -> (r: Option<(String, String)>)
    ensures
        match r {
            Option::Some((head, tail)) => {
                &&& spec_first_ws(s@, 0) < s@.len()
                &&& head@ == s@.subrange(0, spec_first_ws(s@, 0))
                &&& tail@ == s@.subrange(spec_first_ws(s@, 0) + 1, s@.len() as int)
            },
            Option::None => spec_first_ws(s@, 0) == s@.len(),
        },
{
    let total = s.unicode_len();
    let mut i: usize = 0;
    while i < total && !is_ws_char(s.get_char(i))
        invariant
            0 <= i <= total,
            total == s@.len(),
            spec_first_ws(s@, 0) == spec_first_ws(s@, i as int),
        decreases total - i,
    {
        i = i + 1;
    }
    if i >= total {
        return Option::None;
    }
    let head = s.substring_char(0, i).to_owned();
    let tail = s.substring_char(i + 1, total).to_owned();
    Option::Some((head, tail))
}

/// What the message parser found: the lowercased command and its argument
/// text, from a line that started with the command marker.
pub struct ParsedCommand {
    pub command: String,
    pub args: String,
}

/// The storage operation a command asks the application to run.
pub enum StorageOp {
    SaveLists,
    LoadFile { filename: String },
    LoadLastFile,
    ListFiles,
}

/// What processing one command produced: a finished reply, or a storage
/// operation whose outcome the reply builders below turn into a reply.
pub enum ProcessOutcome {
    Replied { reply: CommandReply },
    StorageRequested { op: StorageOp },
}


/// The first non-whitespace position at or after `k`, or the length.
pub open spec fn spec_skip_ws(s: Seq<char>, k: int) -> int
    decreases s.len() - k,
{
    if k < 0 || k >= s.len() {
        s.len() as int
    } else if is_ascii_ws(s[k]) {
        spec_skip_ws(s, k + 1)
    } else {
        k
    }
}

/// The position of the first space at or after `k`, or the length.
pub open spec fn spec_first_space(s: Seq<char>, k: int) -> int
    decreases s.len() - k,
{
    if k < 0 || k >= s.len() {
        s.len() as int
    } else if s[k] == ' ' {
        k
    } else {
        spec_first_space(s, k + 1)
    }
}

/// Splits a text at its first space: the part before it and the part after
/// it, or nothing when it has none.
pub fn split_once_space(s: &str) -> (r: Option<(String, String)>)
    ensures
        match r {
            Option::Some((head, tail)) => {
                &&& spec_first_space(s@, 0) < s@.len()
                &&& head@ == s@.subrange(0, spec_first_space(s@, 0))
                &&& tail@ == s@.subrange(spec_first_space(s@, 0) + 1, s@.len() as int)
            },
            Option::None => spec_first_space(s@, 0) == s@.len(),
        },
{
    let total = s.unicode_len();
    let mut i: usize = 0;
    while i < total && s.get_char(i) != ' '
        invariant
            0 <= i <= total,
            total == s@.len(),
            spec_first_space(s@, 0) == spec_first_space(s@, i as int),
        decreases total - i,
    {
        i = i + 1;
    }
    if i >= total {
        return Option::None;
    }
    let head = s.substring_char(0, i).to_owned();
    let tail = s.substring_char(i + 1, total).to_owned();
    Option::Some((head, tail))
}

/// Reads the whitespace-separated token at or after `from`: the token and the
/// position after it, or nothing when only whitespace is left.
pub fn next_token(s: &str, from: usize) -> (r: Option<(String, usize)>)
    requires
        from <= s@.len(),
    ensures
        match r {
            Option::Some((token, end)) => {
                &&& spec_skip_ws(s@, from as int) < s@.len()
                &&& token@ == s@.subrange(
                    spec_skip_ws(s@, from as int),
                    spec_first_ws(s@, spec_skip_ws(s@, from as int)),
                )
                &&& end as int == spec_first_ws(s@, spec_skip_ws(s@, from as int))
                &&& end <= s@.len()
                &&& token@.len() > 0
            },
            Option::None => spec_skip_ws(s@, from as int) == s@.len(),
        },
{
    let total = s.unicode_len();
    let mut p = from;
    while p < total && is_ws_char(s.get_char(p))
        invariant
            from <= p <= total,
            total == s@.len(),
            spec_skip_ws(s@, from as int) == spec_skip_ws(s@, p as int),
        decreases total - p,
    {
        p = p + 1;
    }
    if p >= total {
        return Option::None;
    }
    let mut q = p;
    while q < total && !is_ws_char(s.get_char(q))
        invariant
            p <= q <= total,
            total == s@.len(),
            spec_first_ws(s@, p as int) == spec_first_ws(s@, q as int),
        decreases total - q,
    {
        q = q + 1;
    }
    let token = s.substring_char(p, q).to_owned();
    proof {
        assert(spec_skip_ws(s@, p as int) == p as int);
        assert(spec_first_ws(s@, q as int) == q as int);
    }
    Option::Some((token, q))
}

/// The command marker every inbound command starts with.
pub open spec fn spec_is_command_line(body: Seq<char>) -> bool {
    body.len() > 0 && body[0] == '!'
}

/// The lowercased command name a command line carries.
pub open spec fn spec_command_of(body: Seq<char>) -> Seq<char> {
    let rest = spec_trim(body.drop_first());
    spec_ascii_lower(rest.subrange(0, spec_first_space(rest, 0)))
}

/// The argument text a command line carries: what follows the first space.
pub open spec fn spec_args_of(body: Seq<char>) -> Seq<char> {
    let rest = spec_trim(body.drop_first());
    if spec_first_space(rest, 0) < rest.len() {
        rest.subrange(spec_first_space(rest, 0) + 1, rest.len() as int)
    } else {
        Seq::empty()
    }
}

/// Reads a message body as a command: a line starting with `!` whose first
/// word, lowercased, is the command and whose remainder is the argument
/// text. Anything else, including a bare `!`, is no command.
pub fn parse_message_command(body: &str) -> (r: Option<ParsedCommand>)
    ensures
        match r {
            Option::Some(pc) => {
                &&& spec_is_command_line(body@)
                &&& spec_command_of(body@).len() > 0
                &&& pc.command@ == spec_command_of(body@)
                &&& pc.args@ == spec_args_of(body@)
            },
            Option::None => !spec_is_command_line(body@) || spec_command_of(body@).len() == 0,
        },
{
    let total = body.unicode_len();
    if total == 0 || body.get_char(0) != '!' {
        return Option::None;
    }
    let stripped = body.substring_char(1, total);
    proof {
        assert(stripped@ =~= body@.drop_first());
    }
    let rest = trim(stripped);
    let (head, args) = match split_once_space(rest.as_str()) {
        Option::Some((head, tail)) => (head, tail),
        Option::None => {
            let whole = rest.clone();
            proof {
                assert(rest@.subrange(0, spec_first_space(rest@, 0)) =~= rest@);
            }
            (whole, String::new())
        },
    };
    let command = ascii_lower(head.as_str());
    if command.unicode_len() == 0 {
        return Option::None;
    }
    Option::Some(ParsedCommand { command, args })
}


/// A command name, trimmed and lowercased, as the dispatcher matches it.
pub open spec fn spec_norm(s: Seq<char>) -> Seq<char> {
    spec_ascii_lower(spec_trim(s))
}

/// What processing one command guarantees, for every command text: which
/// operation ran on the lists, which storage operation was requested, or
/// which error or help reply came back, with the lists untouched everywhere
/// no task operation ran.
pub open spec fn spec_process_post(
    v0: RoomsView,
    v1: RoomsView,
    room_id: Seq<char>,
    sender: Seq<char>,
    command: Seq<char>,
    args: Seq<char>,
    r: ProcessOutcome,
) -> bool {
    let c = spec_norm(command);
    if c == "add"@ {
        r is Replied && spec_add_task_post(
            v0,
            v1,
            room_id,
            sender,
            args,
            r->Replied_reply.message@,
            opt_view(r->Replied_reply.html_message),
            r->Replied_reply.save_needed,
        )
    } else if c == "list"@ {
        v1 == v0 && r is Replied && spec_list_tasks_post(
            v0,
            room_id,
            r->Replied_reply.message@,
            opt_view(r->Replied_reply.html_message),
            r->Replied_reply.save_needed,
        )
    } else if c == "done"@ {
        match spec_parse_usize(spec_trim(args)) {
            Option::Some(id) => r is Replied && spec_done_task_post(
                v0,
                v1,
                room_id,
                sender,
                id as int,
                r->Replied_reply.message@,
                opt_view(r->Replied_reply.html_message),
                r->Replied_reply.save_needed,
            ),
            Option::None => v1 == v0 && r is Replied && spec_plain_reply(r->Replied_reply, spec_msg_invalid_task_id()),
        }
    } else if c == "close"@ {
        match spec_parse_usize(spec_trim(args)) {
            Option::Some(id) => r is Replied && spec_close_task_post(
                v0,
                v1,
                room_id,
                id as int,
                r->Replied_reply.message@,
                opt_view(r->Replied_reply.html_message),
                r->Replied_reply.save_needed,
            ),
            Option::None => v1 == v0 && r is Replied && spec_plain_reply(r->Replied_reply, spec_msg_invalid_task_id()),
        }
    } else if c == "log"@ {
        let t = spec_trim(args);
        if t.len() == 0 {
            v1 == v0 && r is Replied && spec_plain_reply(
                r->Replied_reply,
                "\u{26a0}\u{fe0f} Error: Missing task ID and log message."@,
            )
        } else if spec_first_ws(t, 0) < t.len() {
            let id_str = t.subrange(0, spec_first_ws(t, 0));
            let log_msg = t.subrange(spec_first_ws(t, 0) + 1, t.len() as int);
            match spec_parse_usize(id_str) {
                Option::Some(id) => r is Replied && spec_log_task_post(
                    v0,
                    v1,
                    room_id,
                    sender,
                    id as int,
                    spec_trim(log_msg),
                    r->Replied_reply.message@,
                    opt_view(r->Replied_reply.html_message),
                    r->Replied_reply.save_needed,
                ),
                Option::None => v1 == v0 && r is Replied && spec_plain_reply(r->Replied_reply, spec_msg_invalid_task_id()),
            }
        } else {
            match spec_parse_usize(t) {
                Option::Some(id) => v1 == v0 && r is Replied && spec_details_task_post(
                    v0,
                    room_id,
                    id as int,
                    r->Replied_reply.message@,
                    opt_view(r->Replied_reply.html_message),
                    r->Replied_reply.save_needed,
                ),
                Option::None => v1 == v0 && r is Replied && spec_plain_reply(
                    r->Replied_reply,
                    "\u{26a0}\u{fe0f} Error: Unable to parse task ID and log message. Format: !log 1 Your log message"@,
                ),
            }
        }
    } else if c == "details"@ {
        match spec_parse_usize(spec_trim(args)) {
            Option::Some(id) => v1 == v0 && r is Replied && spec_details_task_post(
                v0,
                room_id,
                id as int,
                r->Replied_reply.message@,
                opt_view(r->Replied_reply.html_message),
                r->Replied_reply.save_needed,
            ),
            Option::None => v1 == v0 && r is Replied && spec_plain_reply(r->Replied_reply, spec_msg_invalid_task_id()),
        }
    } else if c == "edit"@ {
        let t = spec_trim(args);
        if t.len() == 0 {
            v1 == v0 && r is Replied && spec_plain_reply(
                r->Replied_reply,
                "\u{26a0}\u{fe0f} Error: Missing task ID and new description."@,
            )
        } else if spec_first_ws(t, 0) < t.len() {
            let id_str = t.subrange(0, spec_first_ws(t, 0));
            let desc = t.subrange(spec_first_ws(t, 0) + 1, t.len() as int);
            match spec_parse_usize(id_str) {
                Option::Some(id) => r is Replied && spec_edit_task_post(
                    v0,
                    v1,
                    room_id,
                    sender,
                    id as int,
                    spec_trim(desc),
                    r->Replied_reply.message@,
                    opt_view(r->Replied_reply.html_message),
                    r->Replied_reply.save_needed,
                ),
                Option::None => v1 == v0 && r is Replied && spec_plain_reply(r->Replied_reply, spec_msg_invalid_task_id()),
            }
        } else {
            v1 == v0 && r is Replied && spec_plain_reply(
                r->Replied_reply,
                "\u{26a0}\u{fe0f} Error: Unable to parse task ID and new description. Format: !edit 1 New task description"@,
            )
        }
    } else if c == "bot"@ {
        let low = spec_norm(args);
        let p = spec_skip_ws(low, 0);
        if p >= low.len() {
            v1 == v0 && r is Replied && spec_plain_reply(
                r->Replied_reply,
                spec_msg_bot_usage(),
            )
        } else {
            let t1 = low.subrange(p, spec_first_ws(low, p));
            if t1 == "save"@ {
                v1 == v0 && r is StorageRequested && r->StorageRequested_op is SaveLists
            } else if t1 == "load"@ {
                let p2 = spec_skip_ws(low, spec_first_ws(low, p));
                if p2 >= low.len() {
                    v1 == v0 && r is Replied && spec_plain_reply(
                        r->Replied_reply,
                        "\u{26a0}\u{fe0f} Error: Missing filename. Usage: !bot load <filename>"@,
                    )
                } else {
                    v1 == v0 && r is StorageRequested && r->StorageRequested_op is LoadFile
                        && r->StorageRequested_op->LoadFile_filename@
                        == low.subrange(p2, spec_first_ws(low, p2))
                }
            } else if t1 == "loadlast"@ {
                v1 == v0 && r is StorageRequested && r->StorageRequested_op is LoadLastFile
            } else if t1 == "listfiles"@ {
                v1 == v0 && r is StorageRequested && r->StorageRequested_op is ListFiles
            } else if t1 == "cleartasks"@ {
                r is Replied && spec_clear_tasks_post(
                    v0,
                    v1,
                    room_id,
                    r->Replied_reply.message@,
                    opt_view(r->Replied_reply.html_message),
                    r->Replied_reply.save_needed,
                )
            } else {
                v1 == v0 && r is Replied && spec_plain_reply(
                    r->Replied_reply,
                    spec_msg_bot_usage(),
                )
            }
        }
    } else if c == "help"@ {
        v1 == v0 && r is Replied && r->Replied_reply.message@
            == spec_msg_help() && opt_view(r->Replied_reply.html_message) == Option::Some(
            spec_msg_help_html(),
        ) && !r->Replied_reply.save_needed
    } else {
        v1 == v0 && r is Replied && spec_plain_reply(
            r->Replied_reply,
            "\u{26a0}\u{fe0f} Unknown command: '"@ + command
                + "'. Type !help for available commands."@,
        )
    }
}

/// A reply that carries only a plain message and asks for no save.
pub open spec fn spec_plain_reply(reply: CommandReply, msg: Seq<char>) -> bool {
    reply.message@ == msg && reply.html_message is None && !reply.save_needed
}

/// The reply to a task command whose task number would not read.
pub open spec fn spec_msg_invalid_task_id() -> Seq<char> {
    "\u{26a0}\u{fe0f} Error: Invalid task ID. Please provide a valid task number."@
}

/// The usage summary of the snapshot commands.
pub open spec fn spec_msg_bot_usage() -> Seq<char> {
    "Bot Commands Usage:\n\n!bot save - Save all lists\n!bot load <filename> - Load lists from file\n!bot loadlast - Load most recent save file\n!bot listfiles - List all save files\n!bot cleartasks - Clear the current room's list"@
}

/// The help message.
pub open spec fn spec_msg_help() -> Seq<char> {
    "Matrix ToDo Bot Help:\n\n**Task Commands:**\n!add <task description> - Add a new task\n!list - List all tasks\n!done <id> - Mark a task as done\n!close <id> - Mark a task as closed/completed\n!log <id> <message> - Add a log entry to a task\n!log <id> - Show logs for a task\n!details <id> - Show full task details\n!edit <id> <new description> - Edit a task description\n\n**Bot Commands:**\n!bot save - Save all lists\n!bot load <filename> - Load lists from file\n!bot loadlast - Load most recent save file\n!bot listfiles - List all save files\n!bot cleartasks - Clear the current room's list\n\n**Other Commands:**\n!help - Show this help message"@
}

/// The help message's HTML form.
pub open spec fn spec_msg_help_html() -> Seq<char> {
    "<h4>Matrix ToDo Bot Help</h4><strong>Task Commands:</strong><br><code>!add &lt;task description&gt;</code> - Add a new task<br><code>!list</code> - List all tasks<br><code>!done &lt;id&gt;</code> - Mark a task as done<br><code>!close &lt;id&gt;</code> - Mark a task as closed/completed<br><code>!log &lt;id&gt; &lt;message&gt;</code> - Add a log entry to a task<br><code>!log &lt;id&gt;</code> - Show logs for a task<br><code>!details &lt;id&gt;</code> - Show full task details<br><code>!edit &lt;id&gt; &lt;new description&gt;</code> - Edit a task description<br><br><strong>Bot Commands:</strong><br><code>!bot save</code> - Save all lists<br><code>!bot load &lt;filename&gt;</code> - Load lists from file<br><code>!bot loadlast</code> - Load most recent save file<br><code>!bot listfiles</code> - List all save files<br><code>!bot cleartasks</code> - Clear the current room's list<br><br><strong>Other Commands:</strong><br><code>!help</code> - Show this help message"@
}

/// A reply that carries only the given message.
fn plain_reply(message: String) -> (r: CommandReply)
    ensures
        spec_plain_reply(r, message@),
{
    CommandReply { message, html_message: Option::None, save_needed: false }
}

/// Turns one inbound command into its effect: runs the task operation it
/// names on the lists and returns the reply, or returns the storage
/// operation the application must run, or the fitting error, usage or help
/// reply. Unknown commands are echoed back.
pub fn process_command(
    list: &mut TodoList,
    room_id: &str,
    sender: String,
    command: &str,
    args_str: String,
) -> (r: ProcessOutcome)
    requires
        old(list).wf(),
        forall|k: int| 0 <= k < old(list)@.len() ==> (#[trigger] old(list)@[k]).1.len()
            < usize::MAX,
    ensures
        final(list).wf(),
        spec_process_post(old(list)@, final(list)@, room_id@, sender@, command@, args_str@, r),
{
    let trimmed_cmd = trim(command);
    let norm = ascii_lower(trimmed_cmd.as_str());
    if str_eq(norm.as_str(), "add") {
        proof {
            crate::todo::lemma_room_index_points_at_room(list@, room_id@);
        }
        let reply = list.add_task(room_id, sender, args_str);
        ProcessOutcome::Replied { reply }
    } else if str_eq(norm.as_str(), "list") {
        let reply = list.list_tasks(room_id);
        ProcessOutcome::Replied { reply }
    } else if str_eq(norm.as_str(), "done") {
        let t = trim(args_str.as_str());
        match parse_task_id(t.as_str()) {
            Option::Some(id) => {
                let reply = list.done_task(room_id, sender, id);
                ProcessOutcome::Replied { reply }
            },
            Option::None => ProcessOutcome::Replied {
                reply: plain_reply(
                    "\u{26a0}\u{fe0f} Error: Invalid task ID. Please provide a valid task number."
                        .to_owned(),
                ),
            },
        }
    } else if str_eq(norm.as_str(), "close") {
        let t = trim(args_str.as_str());
        match parse_task_id(t.as_str()) {
            Option::Some(id) => {
                let reply = list.close_task(room_id, sender, id);
                ProcessOutcome::Replied { reply }
            },
            Option::None => ProcessOutcome::Replied {
                reply: plain_reply(
                    "\u{26a0}\u{fe0f} Error: Invalid task ID. Please provide a valid task number."
                        .to_owned(),
                ),
            },
        }
    } else if str_eq(norm.as_str(), "log") {
        let t = trim(args_str.as_str());
        if t.unicode_len() == 0 {
            ProcessOutcome::Replied {
                reply: plain_reply(
                    "\u{26a0}\u{fe0f} Error: Missing task ID and log message.".to_owned(),
                ),
            }
        } else {
            match split_once_ws(t.as_str()) {
                Option::Some((id_str, log_msg)) => {
                    match parse_task_id(id_str.as_str()) {
                        Option::Some(id) => {
                            let lm = trim(log_msg.as_str());
                            let reply = list.log_task(room_id, sender, id, lm);
                            ProcessOutcome::Replied { reply }
                        },
                        Option::None => ProcessOutcome::Replied {
                            reply: plain_reply(
                                "\u{26a0}\u{fe0f} Error: Invalid task ID. Please provide a valid task number."
                                    .to_owned(),
                            ),
                        },
                    }
                },
                Option::None => {
                    match parse_task_id(t.as_str()) {
                        Option::Some(id) => {
                            let reply = list.details_task(room_id, id);
                            ProcessOutcome::Replied { reply }
                        },
                        Option::None => ProcessOutcome::Replied {
                            reply: plain_reply(
                                "\u{26a0}\u{fe0f} Error: Unable to parse task ID and log message. Format: !log 1 Your log message"
                                    .to_owned(),
                            ),
                        },
                    }
                },
            }
        }
    } else if str_eq(norm.as_str(), "details") {
        let t = trim(args_str.as_str());
        match parse_task_id(t.as_str()) {
            Option::Some(id) => {
                let reply = list.details_task(room_id, id);
                ProcessOutcome::Replied { reply }
            },
            Option::None => ProcessOutcome::Replied {
                reply: plain_reply(
                    "\u{26a0}\u{fe0f} Error: Invalid task ID. Please provide a valid task number."
                        .to_owned(),
                ),
            },
        }
    } else if str_eq(norm.as_str(), "edit") {
        let t = trim(args_str.as_str());
        if t.unicode_len() == 0 {
            ProcessOutcome::Replied {
                reply: plain_reply(
                    "\u{26a0}\u{fe0f} Error: Missing task ID and new description.".to_owned(),
                ),
            }
        } else {
            match split_once_ws(t.as_str()) {
                Option::Some((id_str, desc)) => {
                    match parse_task_id(id_str.as_str()) {
                        Option::Some(id) => {
                            let d = trim(desc.as_str());
                            let reply = list.edit_task(room_id, sender, id, d);
                            ProcessOutcome::Replied { reply }
                        },
                        Option::None => ProcessOutcome::Replied {
                            reply: plain_reply(
                                "\u{26a0}\u{fe0f} Error: Invalid task ID. Please provide a valid task number."
                                    .to_owned(),
                            ),
                        },
                    }
                },
                Option::None => ProcessOutcome::Replied {
                    reply: plain_reply(
                        "\u{26a0}\u{fe0f} Error: Unable to parse task ID and new description. Format: !edit 1 New task description"
                            .to_owned(),
                    ),
                },
            }
        }
    } else if str_eq(norm.as_str(), "bot") {
        let ta = trim(args_str.as_str());
        let low = ascii_lower(ta.as_str());
        match next_token(low.as_str(), 0) {
            Option::None => ProcessOutcome::Replied { reply: bot_usage_reply() },
            Option::Some((t1, e1)) => {
                if str_eq(t1.as_str(), "save") {
                    ProcessOutcome::StorageRequested { op: StorageOp::SaveLists }
                } else if str_eq(t1.as_str(), "load") {
                    match next_token(low.as_str(), e1) {
                        Option::None => ProcessOutcome::Replied {
                            reply: plain_reply(
                                "\u{26a0}\u{fe0f} Error: Missing filename. Usage: !bot load <filename>"
                                    .to_owned(),
                            ),
                        },
                        Option::Some((t2, _)) => ProcessOutcome::StorageRequested {
                            op: StorageOp::LoadFile { filename: t2 },
                        },
                    }
                } else if str_eq(t1.as_str(), "loadlast") {
                    ProcessOutcome::StorageRequested { op: StorageOp::LoadLastFile }
                } else if str_eq(t1.as_str(), "listfiles") {
                    ProcessOutcome::StorageRequested { op: StorageOp::ListFiles }
                } else if str_eq(t1.as_str(), "cleartasks") {
                    let reply = list.clear_tasks(room_id);
                    ProcessOutcome::Replied { reply }
                } else {
                    ProcessOutcome::Replied { reply: bot_usage_reply() }
                }
            },
        }
    } else if str_eq(norm.as_str(), "help") {
        ProcessOutcome::Replied {
            reply: CommandReply {
                message:
                    "Matrix ToDo Bot Help:\n\n**Task Commands:**\n!add <task description> - Add a new task\n!list - List all tasks\n!done <id> - Mark a task as done\n!close <id> - Mark a task as closed/completed\n!log <id> <message> - Add a log entry to a task\n!log <id> - Show logs for a task\n!details <id> - Show full task details\n!edit <id> <new description> - Edit a task description\n\n**Bot Commands:**\n!bot save - Save all lists\n!bot load <filename> - Load lists from file\n!bot loadlast - Load most recent save file\n!bot listfiles - List all save files\n!bot cleartasks - Clear the current room's list\n\n**Other Commands:**\n!help - Show this help message"
                    .to_owned(),
                html_message: Option::Some(
                    "<h4>Matrix ToDo Bot Help</h4><strong>Task Commands:</strong><br><code>!add &lt;task description&gt;</code> - Add a new task<br><code>!list</code> - List all tasks<br><code>!done &lt;id&gt;</code> - Mark a task as done<br><code>!close &lt;id&gt;</code> - Mark a task as closed/completed<br><code>!log &lt;id&gt; &lt;message&gt;</code> - Add a log entry to a task<br><code>!log &lt;id&gt;</code> - Show logs for a task<br><code>!details &lt;id&gt;</code> - Show full task details<br><code>!edit &lt;id&gt; &lt;new description&gt;</code> - Edit a task description<br><br><strong>Bot Commands:</strong><br><code>!bot save</code> - Save all lists<br><code>!bot load &lt;filename&gt;</code> - Load lists from file<br><code>!bot loadlast</code> - Load most recent save file<br><code>!bot listfiles</code> - List all save files<br><code>!bot cleartasks</code> - Clear the current room's list<br><br><strong>Other Commands:</strong><br><code>!help</code> - Show this help message"
                    .to_owned(),
                ),
                save_needed: false,
            },
        }
    } else {
        let mut message = String::new();
        message.append("\u{26a0}\u{fe0f} Unknown command: '");
        message.append(command);
        message.append("'. Type !help for available commands.");
        proof {
            assert(message@ =~= "\u{26a0}\u{fe0f} Unknown command: '"@ + command@
                + "'. Type !help for available commands."@);
        }
        ProcessOutcome::Replied {
            reply: CommandReply { message, html_message: Option::None, save_needed: false },
        }
    }
}

/// The usage summary of the snapshot commands, as a reply.
fn bot_usage_reply() -> (r: CommandReply)
    ensures
        spec_plain_reply(r, spec_msg_bot_usage()),
{
    plain_reply(
        "Bot Commands Usage:\n\n!bot save - Save all lists\n!bot load <filename> - Load lists from file\n!bot loadlast - Load most recent save file\n!bot listfiles - List all save files\n!bot cleartasks - Clear the current room's list"
        .to_owned(),
    )
}


/// A reply that carries a plain and an HTML message and asks for no save.
pub open spec fn spec_html_reply(reply: CommandReply, msg: Seq<char>, html: Seq<char>) -> bool {
    reply.message@ == msg && opt_view(reply.html_message) == Option::Some(html)
        && !reply.save_needed
}

/// The confirmation that the lists were saved, naming the file.
pub fn save_success_reply(filename: &str) -> (r: CommandReply)
    ensures
        spec_html_reply(
            r,
            "\u{1f4be} Lists Saved: The to-do lists have been saved to `"@ + filename@ + "`."@,
            "\u{1f4be} Lists Saved: The to-do lists have been saved to <code>"@ + filename@
                + "</code>."@,
        ),
{
    let mut message = String::new();
    message.append("\u{1f4be} Lists Saved: The to-do lists have been saved to `");
    message.append(filename);
    message.append("`.");
    let mut html = String::new();
    html.append("\u{1f4be} Lists Saved: The to-do lists have been saved to <code>");
    html.append(filename);
    html.append("</code>.");
    proof {
        assert(message@ =~= "\u{1f4be} Lists Saved: The to-do lists have been saved to `"@
            + filename@ + "`."@);
        assert(html@ =~= "\u{1f4be} Lists Saved: The to-do lists have been saved to <code>"@
            + filename@ + "</code>."@);
    }
    CommandReply { message, html_message: Option::Some(html), save_needed: false }
}

/// The report that saving failed, with the error's text.
pub fn save_error_reply(error: &str) -> (r: CommandReply)
    ensures
        spec_plain_reply(
            r,
            "\u{274c} Error Saving: An error occurred while saving the lists: "@ + error@,
        ),
{
    let mut message = String::new();
    message.append("\u{274c} Error Saving: An error occurred while saving the lists: ");
    message.append(error);
    proof {
        assert(message@ =~= "\u{274c} Error Saving: An error occurred while saving the lists: "@
            + error@);
    }
    plain_reply(message)
}

/// The rejection of a load whose filename held path characters.
pub fn load_invalid_chars_reply() -> (r: CommandReply)
    ensures
        spec_plain_reply(
            r,
            "\u{274c} Invalid Filename: Invalid characters detected in filename."@,
        ),
{
    plain_reply("\u{274c} Invalid Filename: Invalid characters detected in filename.".to_owned())
}

/// The rejection of a load whose filename does not match the snapshot name
/// format.
pub fn load_bad_format_reply(filename: &str) -> (r: CommandReply)
    ensures
        spec_html_reply(
            r,
            "\u{274c} Invalid Filename Format: Filename '"@ + filename@
                + "' does not match the expected format."@,
            "\u{274c} Invalid Filename Format: Filename '<code>"@ + filename@
                + "</code>' does not match the expected format."@,
        ),
{
    let mut message = String::new();
    message.append("\u{274c} Invalid Filename Format: Filename '");
    message.append(filename);
    message.append("' does not match the expected format.");
    let mut html = String::new();
    html.append("\u{274c} Invalid Filename Format: Filename '<code>");
    html.append(filename);
    html.append("</code>' does not match the expected format.");
    proof {
        assert(message@ =~= "\u{274c} Invalid Filename Format: Filename '"@ + filename@
            + "' does not match the expected format."@);
        assert(html@ =~= "\u{274c} Invalid Filename Format: Filename '<code>"@ + filename@
            + "</code>' does not match the expected format."@);
    }
    CommandReply { message, html_message: Option::Some(html), save_needed: false }
}

/// The confirmation that the named file was loaded.
pub fn load_success_reply(filename: &str) -> (r: CommandReply)
    ensures
        spec_html_reply(
            r,
            "\u{1f4c2} Lists Loaded: Successfully loaded to-do lists from `"@ + filename@
                + "`."@,
            "\u{1f4c2} Lists Loaded: Successfully loaded to-do lists from <code>"@ + filename@
                + "</code>."@,
        ),
{
    let mut message = String::new();
    message.append("\u{1f4c2} Lists Loaded: Successfully loaded to-do lists from `");
    message.append(filename);
    message.append("`.");
    let mut html = String::new();
    html.append("\u{1f4c2} Lists Loaded: Successfully loaded to-do lists from <code>");
    html.append(filename);
    html.append("</code>.");
    proof {
        assert(message@ =~= "\u{1f4c2} Lists Loaded: Successfully loaded to-do lists from `"@
            + filename@ + "`."@);
        assert(html@ =~= "\u{1f4c2} Lists Loaded: Successfully loaded to-do lists from <code>"@
            + filename@ + "</code>."@);
    }
    CommandReply { message, html_message: Option::Some(html), save_needed: false }
}

/// The report that the named file would not load as a snapshot.
pub fn load_failed_reply(filename: &str) -> (r: CommandReply)
    ensures
        spec_html_reply(
            r,
            "\u{274c} Error Loading: Failed to load lists from `"@ + filename@
                + "`. Check the filename and ensure it's a valid save file."@,
            "\u{274c} Error Loading: Failed to load lists from <code>"@ + filename@
                + "</code>. Check the filename and ensure it's a valid save file."@,
        ),
{
    let mut message = String::new();
    message.append("\u{274c} Error Loading: Failed to load lists from `");
    message.append(filename);
    message.append("`. Check the filename and ensure it's a valid save file.");
    let mut html = String::new();
    html.append("\u{274c} Error Loading: Failed to load lists from <code>");
    html.append(filename);
    html.append("</code>. Check the filename and ensure it's a valid save file.");
    proof {
        assert(message@ =~= "\u{274c} Error Loading: Failed to load lists from `"@ + filename@
            + "`. Check the filename and ensure it's a valid save file."@);
        assert(html@ =~= "\u{274c} Error Loading: Failed to load lists from <code>"@ + filename@
            + "</code>. Check the filename and ensure it's a valid save file."@);
    }
    CommandReply { message, html_message: Option::Some(html), save_needed: false }
}

/// The report that loading failed with an error.
pub fn load_error_reply(error: &str) -> (r: CommandReply)
    ensures
        spec_plain_reply(
            r,
            "\u{274c} Error Loading: An error occurred while loading the lists: "@ + error@,
        ),
{
    let mut message = String::new();
    message.append("\u{274c} Error Loading: An error occurred while loading the lists: ");
    message.append(error);
    proof {
        assert(message@ =~= "\u{274c} Error Loading: An error occurred while loading the lists: "@
            + error@);
    }
    plain_reply(message)
}

/// The note that no saved files exist.
pub fn no_files_reply() -> (r: CommandReply)
    ensures
        spec_plain_reply(r, "\u{2139}\u{fe0f} No Files Found: No saved to-do list files found."@),
{
    plain_reply("\u{2139}\u{fe0f} No Files Found: No saved to-do list files found.".to_owned())
}

/// The confirmation that the most recent file was loaded.
pub fn loadlast_success_reply(filename: &str) -> (r: CommandReply)
    ensures
        spec_html_reply(
            r,
            "\u{1f4c2} Last List Loaded: Successfully loaded the most recent lists from `"@
                + filename@ + "`."@,
            "\u{1f4c2} Last List Loaded: Successfully loaded the most recent lists from <code>"@
                + filename@ + "</code>."@,
        ),
{
    let mut message = String::new();
    message.append("\u{1f4c2} Last List Loaded: Successfully loaded the most recent lists from `");
    message.append(filename);
    message.append("`.");
    let mut html = String::new();
    html.append(
        "\u{1f4c2} Last List Loaded: Successfully loaded the most recent lists from <code>",
    );
    html.append(filename);
    html.append("</code>.");
    proof {
        assert(message@
            =~= "\u{1f4c2} Last List Loaded: Successfully loaded the most recent lists from `"@
            + filename@ + "`."@);
        assert(html@
            =~= "\u{1f4c2} Last List Loaded: Successfully loaded the most recent lists from <code>"@
            + filename@ + "</code>."@);
    }
    CommandReply { message, html_message: Option::Some(html), save_needed: false }
}

/// The report that the most recent file would not load.
pub fn loadlast_failed_reply(filename: &str) -> (r: CommandReply)
    ensures
        spec_html_reply(
            r,
            "\u{274c} Error Loading: Failed to load the most recent lists from `"@ + filename@
                + "`. The file might be corrupted."@,
            "\u{274c} Error Loading: Failed to load the most recent lists from <code>"@
                + filename@ + "</code>. The file might be corrupted."@,
        ),
{
    let mut message = String::new();
    message.append("\u{274c} Error Loading: Failed to load the most recent lists from `");
    message.append(filename);
    message.append("`. The file might be corrupted.");
    let mut html = String::new();
    html.append("\u{274c} Error Loading: Failed to load the most recent lists from <code>");
    html.append(filename);
    html.append("</code>. The file might be corrupted.");
    proof {
        assert(message@
            =~= "\u{274c} Error Loading: Failed to load the most recent lists from `"@
            + filename@ + "`. The file might be corrupted."@);
        assert(html@
            =~= "\u{274c} Error Loading: Failed to load the most recent lists from <code>"@
            + filename@ + "</code>. The file might be corrupted."@);
    }
    CommandReply { message, html_message: Option::Some(html), save_needed: false }
}

/// The report that loading the most recent file failed with an error.
pub fn loadlast_error_reply(error: &str) -> (r: CommandReply)
    ensures
        spec_plain_reply(
            r,
            "\u{274c} Error Loading: An error occurred while loading the most recent lists: "@
                + error@,
        ),
{
    let mut message = String::new();
    message.append(
        "\u{274c} Error Loading: An error occurred while loading the most recent lists: ",
    );
    message.append(error);
    proof {
        assert(message@
            =~= "\u{274c} Error Loading: An error occurred while loading the most recent lists: "@
            + error@);
    }
    plain_reply(message)
}

/// The report that listing the saved files failed with an error.
pub fn list_files_error_reply(error: &str) -> (r: CommandReply)
    ensures
        spec_plain_reply(
            r,
            "\u{274c} Error Listing Files: An error occurred while listing saved files: "@
                + error@,
        ),
{
    let mut message = String::new();
    message.append(
        "\u{274c} Error Listing Files: An error occurred while listing saved files: ",
    );
    message.append(error);
    proof {
        assert(message@
            =~= "\u{274c} Error Listing Files: An error occurred while listing saved files: "@
            + error@);
    }
    plain_reply(message)
}

/// The numbered lines that list the saved files, from index `k` on, with a
/// line break before every line but the first.
pub open spec fn spec_file_lines(files: Seq<Seq<char>>, k: int) -> Seq<char>
    decreases files.len() - k,
{
    if k < 0 || k >= files.len() {
        Seq::empty()
    } else {
        (if k > 0 {
            "\n"@
        } else {
            Seq::empty()
        }) + spec_digits((k + 1) as nat) + ". `"@ + files[k] + "`"@ + spec_file_lines(
            files,
            k + 1,
        )
    }
}

/// The same lines in HTML form, separated by `<br>`.
pub open spec fn spec_file_lines_html(files: Seq<Seq<char>>, k: int) -> Seq<char>
    decreases files.len() - k,
{
    if k < 0 || k >= files.len() {
        Seq::empty()
    } else {
        (if k > 0 {
            "<br>"@
        } else {
            Seq::empty()
        }) + spec_digits((k + 1) as nat) + ". <code>"@ + files[k] + "</code>"@
            + spec_file_lines_html(files, k + 1)
    }
}

/// The reply that lists the saved files, or notes that there are none.
pub fn list_files_reply(files: &Vec<String>) -> (r: CommandReply)
    ensures
        ({
            let fv = files@.map_values(|s: String| s@);
            if fv.len() == 0 {
                spec_plain_reply(
                    r,
                    "\u{2139}\u{fe0f} No Files Found: No saved to-do list files found."@,
                )
            } else {
                spec_html_reply(
                    r,
                    "\u{1f4c4} Available Save Files:\n"@ + spec_file_lines(fv, 0),
                    "\u{1f4c4} Available Save Files:<br>"@ + spec_file_lines_html(fv, 0),
                )
            }
        }),
{
    let ghost fv = files@.map_values(|s: String| s@);
    if files.len() == 0 {
        return no_files_reply();
    }
    let mut lines = String::new();
    let mut html_lines = String::new();
    let mut k: usize = 0;
    while k < files.len()
        invariant
            0 <= k <= files@.len(),
            fv == files@.map_values(|s: String| s@),
            fv.len() == files@.len(),
            spec_file_lines(fv, 0) == lines@ + spec_file_lines(fv, k as int),
            spec_file_lines_html(fv, 0) == html_lines@ + spec_file_lines_html(fv, k as int),
        decreases files@.len() - k,
    {
        if k > 0 {
            lines.append("\n");
            html_lines.append("<br>");
        }
        append_digits(&mut lines, k + 1);
        lines.append(". `");
        lines.append(files[k].as_str());
        lines.append("`");
        append_digits(&mut html_lines, k + 1);
        html_lines.append(". <code>");
        html_lines.append(files[k].as_str());
        html_lines.append("</code>");
        proof {
            assert(fv[k as int] == files@[k as int]@);
            assert(spec_file_lines(fv, 0) =~= lines@ + spec_file_lines(fv, k + 1));
            assert(spec_file_lines_html(fv, 0) =~= html_lines@ + spec_file_lines_html(
                fv,
                k + 1,
            ));
        }
        k = k + 1;
    }
    let mut message = String::new();
    message.append("\u{1f4c4} Available Save Files:\n");
    message.append(lines.as_str());
    let mut html = String::new();
    html.append("\u{1f4c4} Available Save Files:<br>");
    html.append(html_lines.as_str());
    proof {
        assert(spec_file_lines(fv, k as int) =~= Seq::<char>::empty());
        assert(spec_file_lines_html(fv, k as int) =~= Seq::<char>::empty());
        assert(message@ =~= "\u{1f4c4} Available Save Files:\n"@ + spec_file_lines(fv, 0));
        assert(html@ =~= "\u{1f4c4} Available Save Files:<br>"@ + spec_file_lines_html(fv, 0));
    }
    CommandReply { message, html_message: Option::Some(html), save_needed: false }
}


/// Whether an invitation's member event concerns this account, so that the
/// room should be joined automatically.
pub fn should_autojoin(state_key: &str, own_user_id: &str) -> (r: bool)
    ensures
        r == (state_key@ == own_user_id@),
{
    str_eq(state_key, own_user_id)
}

} // verus!
