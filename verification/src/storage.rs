//! Snapshot storage for the to-do lists: the snapshot file name format, the
//! text a snapshot is written as, and reading one back. The application
//! performs the file reads and writes.

use vstd::prelude::*;

use crate::clock::now_file_stamp;
use crate::codec::{
    all_dec_digits, append_digits, append_field, digits_val_acc, parse_field_at, spec_digits,
    spec_emit_str, spec_parse_str,
};
use crate::config::{app_name, spec_app_name};
use crate::tasks::{Task, TaskView};
use crate::text::{str_eq, str_le, spec_str_le};
use crate::todo::{RoomTasks, RoomsView, TodoList};

verus! {

/// A timestamp as it appears inside a snapshot file name:
/// `YYYY-MM-DD_HH-MM-SS` followed by `Z`.
pub open spec fn spec_valid_stamp(s: Seq<char>) -> bool {
    &&& s.len() == 20
    &&& all_dec_digits(s.subrange(0, 4))
    &&& s[4] == '-'
    &&& all_dec_digits(s.subrange(5, 7))
    &&& s[7] == '-'
    &&& all_dec_digits(s.subrange(8, 10))
    &&& s[10] == '_'
    &&& all_dec_digits(s.subrange(11, 13))
    &&& s[13] == '-'
    &&& all_dec_digits(s.subrange(14, 16))
    &&& s[16] == '-'
    &&& all_dec_digits(s.subrange(17, 19))
    &&& s[19] == 'Z'
}

/// The name a snapshot is saved under: the application's name, the session's
/// identifier and a timestamp, separated by underscores, with the `json`
/// suffix.
pub open spec fn spec_save_filename(session_id: Seq<char>, stamp: Seq<char>) -> Seq<char> {
    spec_app_name() + "_"@ + session_id + "_"@ + stamp + ".json"@
}

/// Whether a name is a well-formed snapshot name for this session.
pub open spec fn spec_valid_filename(session_id: Seq<char>, name: Seq<char>) -> bool {
    let prefix_len = spec_app_name().len() + 1 + session_id.len() + 1 as int;
    &&& name.len() == prefix_len + 25
    &&& name.subrange(0, spec_app_name().len() as int) == spec_app_name()
    &&& name[spec_app_name().len() as int] == '_'
    &&& name.subrange(
        spec_app_name().len() + 1 as int,
        spec_app_name().len() + 1 + session_id.len() as int,
    ) == session_id
    &&& name[spec_app_name().len() + 1 + session_id.len() as int] == '_'
    &&& spec_valid_stamp(name.subrange(prefix_len as int, prefix_len + 20))
    &&& name.subrange(prefix_len + 20, name.len() as int) == ".json"@
}

/// Metadata of the snapshot store: where snapshots live and the identifier
/// under which this session writes them.
pub struct StorageManager {
    pub data_dir: String,
    pub session_id: String,
}

impl StorageManager {
    pub fn new(data_dir: String, session_id: String) -> (r: StorageManager)
        ensures
            r.data_dir@ == data_dir@,
            r.session_id@ == session_id@,
    {
        StorageManager { data_dir, session_id }
    }

    /// The name a snapshot taken at the given timestamp is saved under.
    pub fn make_save_filename(&self, stamp: &str) -> (r: String)
        ensures
            r@ == spec_save_filename(self.session_id@, stamp@),
    {
        let mut name = String::new();
        name.append(app_name());
        name.append("_");
        name.append(self.session_id.as_str());
        name.append("_");
        name.append(stamp);
        name.append(".json");
        proof {
            assert(name@ =~= spec_save_filename(self.session_id@, stamp@));
        }
        name
    }

    /// Decides whether a name is a well-formed snapshot name for this
    /// session.
    pub fn is_valid_filename(&self, name: &str) -> (r: bool)
        ensures
            r == spec_valid_filename(self.session_id@, name@),
    {
        let app = app_name();
        let app_len = app.unicode_len();
        let sess_len = self.session_id.as_str().unicode_len();
        let total = name.unicode_len();
        if total < 27 || app_len > total - 27 || sess_len > total - 27 - app_len {
            return false;
        }
        let prefix_len = app_len + 1 + sess_len + 1;
        if total != prefix_len + 25 {
            return false;
        }
        if !str_eq(name.substring_char(0, app_len), app) {
            return false;
        }
        if name.get_char(app_len) != '_' {
            return false;
        }
        if !str_eq(
            name.substring_char(app_len + 1, app_len + 1 + sess_len),
            self.session_id.as_str(),
        ) {
            return false;
        }
        if name.get_char(app_len + 1 + sess_len) != '_' {
            return false;
        }
        let stamp = name.substring_char(prefix_len, prefix_len + 20);
        if !is_valid_stamp(stamp) {
            return false;
        }
        if !str_eq(name.substring_char(prefix_len + 20, total), ".json") {
            return false;
        }
        proof {
            assert(spec_valid_filename(self.session_id@, name@));
        }
        true
    }

    /// The snapshot of the given lists, taken now: the file name carrying the
    /// current timestamp, and the text to write under it.
    pub fn save(&self, lists: &TodoList) -> (r: (String, String))
        ensures
            (exists|stamp: Seq<char>|
                r.0@ == #[trigger] spec_save_filename(self.session_id@, stamp)),
            r.1@ == spec_encode_storage(lists@),
    {
        let stamp = now_file_stamp();
        let filename = self.make_save_filename(stamp.as_str());
        let content = encode_storage(lists);
        (filename, content)
    }

    /// Reads a snapshot back, provided its name is well-formed for this
    /// session: the lists it holds, exactly as the decoding function says.
    /// A bad name or malformed text yields nothing.
    pub fn load(&self, filename: &str, content: &str) -> (r: Option<TodoList>)
        ensures
            match r {
                Option::Some(lists) => spec_valid_filename(self.session_id@, filename@)
                    && spec_parse_storage(content@) == Option::Some(lists@) && lists.wf(),
                Option::None => !spec_valid_filename(self.session_id@, filename@)
                    || spec_parse_storage(content@) is None,
            },
    {
        if !self.is_valid_filename(filename) {
            return Option::None;
        }
        decode_storage(content)
    }

    /// The well-formed snapshot names among the given directory entries,
    /// sorted ascending; as all share one prefix, the order is the
    /// timestamps' order.
    pub fn list_saved_files(&self, names: Vec<String>) -> (r: Vec<String>)
        ensures
            forall|k: int|
                0 <= k < r@.len() ==> spec_valid_filename(self.session_id@, (#[trigger] r@[k])@),
            forall|i: int, j: int| 0 <= i < j < r@.len() ==> spec_str_le(r@[i]@, r@[j]@),
            r@.map_values(|s: String| s@).to_multiset() == names@.map_values(
                |s: String| s@,
            ).filter(|n: Seq<char>| spec_valid_filename(self.session_id@, n)).to_multiset(),
    {
        let mut valid: Vec<String> = Vec::new();
        let mut i: usize = 0;
        let ghost all = names@.map_values(|s: String| s@);
        let ghost keep = |n: Seq<char>| spec_valid_filename(self.session_id@, n);
        while i < names.len()
            invariant
                0 <= i <= names@.len(),
                all == names@.map_values(|s: String| s@),
                keep == (|n: Seq<char>| spec_valid_filename(self.session_id@, n)),
                forall|k: int|
                    0 <= k < valid@.len() ==> spec_valid_filename(
                        self.session_id@,
                        (#[trigger] valid@[k])@,
                    ),
                valid@.map_values(|s: String| s@) == all.subrange(0, i as int).filter(keep),
            decreases names@.len() - i,
        {
            proof {
                assert(all.subrange(0, i + 1).drop_last() =~= all.subrange(0, i as int));
                assert(all.subrange(0, i + 1).last() == names@[i as int]@);
            }
            if self.is_valid_filename(names[i].as_str()) {
                let ghost pre = valid@;
                valid.push(names[i].clone());
                proof {
                    assert(valid@.map_values(|s: String| s@) =~= pre.map_values(
                        |s: String| s@,
                    ).push(names@[i as int]@));
                    reveal(Seq::filter);
                }
            } else {
                proof {
                    reveal(Seq::filter);
                }
            }
            i = i + 1;
        }
        proof {
            assert(all.subrange(0, all.len() as int) =~= all);
        }
        sort_names(valid)
    }
}

/// Decides whether a text is a snapshot timestamp.
fn is_valid_stamp(s: &str) -> (r: bool)
    ensures
        r == spec_valid_stamp(s@),
{
    let total = s.unicode_len();
    if total != 20 {
        return false;
    }
    let mut i: usize = 0;
    while i < 20
        invariant
            0 <= i <= 20,
            s@.len() == 20,
            forall|k: int|
                0 <= k < i ==> (if stamp_shape_char(k) == 'd' {
                    crate::codec::is_dec_digit(#[trigger] s@[k])
                } else {
                    s@[k] == stamp_shape_char(k)
                }),
        decreases 20 - i,
    {
        let c = s.get_char(i);
        let ok = if i == 4 || i == 7 || i == 13 || i == 16 {
            c == '-'
        } else if i == 10 {
            c == '_'
        } else if i == 19 {
            c == 'Z'
        } else {
            let u = c as u32;
            48 <= u && u <= 57
        };
        if !ok {
            proof {
                assert(c as int == c as u32 as int);
                assert(!spec_valid_stamp(s@)) by {
                    if spec_valid_stamp(s@) {
                        stamp_positions(s@, i as int);
                    }
                }
            }
            return false;
        }
        proof {
            assert(c as int == c as u32 as int);
        }
        i = i + 1;
    }
    proof {
        assert forall|m: int| 0 <= m < 4 implies crate::codec::is_dec_digit(
            #[trigger] s@.subrange(0, 4)[m],
        ) by {
            assert(s@.subrange(0, 4)[m] == s@[m]);
        }
        assert forall|m: int| 0 <= m < 2 implies crate::codec::is_dec_digit(
            #[trigger] s@.subrange(5, 7)[m],
        ) by {
            assert(s@.subrange(5, 7)[m] == s@[5 + m]);
        }
        assert forall|m: int| 0 <= m < 2 implies crate::codec::is_dec_digit(
            #[trigger] s@.subrange(8, 10)[m],
        ) by {
            assert(s@.subrange(8, 10)[m] == s@[8 + m]);
        }
        assert forall|m: int| 0 <= m < 2 implies crate::codec::is_dec_digit(
            #[trigger] s@.subrange(11, 13)[m],
        ) by {
            assert(s@.subrange(11, 13)[m] == s@[11 + m]);
        }
        assert forall|m: int| 0 <= m < 2 implies crate::codec::is_dec_digit(
            #[trigger] s@.subrange(14, 16)[m],
        ) by {
            assert(s@.subrange(14, 16)[m] == s@[14 + m]);
        }
        assert forall|m: int| 0 <= m < 2 implies crate::codec::is_dec_digit(
            #[trigger] s@.subrange(17, 19)[m],
        ) by {
            assert(s@.subrange(17, 19)[m] == s@[17 + m]);
        }
    }
    true
}

/// The fixed character a stamp holds at a position, with `d` standing for
/// any digit.
pub open spec fn stamp_shape_char(k: int) -> char {
    if k == 4 || k == 7 || k == 13 || k == 16 {
        '-'
    } else if k == 10 {
        '_'
    } else if k == 19 {
        'Z'
    } else {
        'd'
    }
}

/// In a valid stamp, every position carries its shape's character.
proof fn stamp_positions(s: Seq<char>, k: int)
    requires
        spec_valid_stamp(s),
        0 <= k < 20,
    ensures
        stamp_shape_char(k) == 'd' ==> crate::codec::is_dec_digit(s[k]),
        stamp_shape_char(k) != 'd' ==> s[k] == stamp_shape_char(k),
{
    if k < 4 {
        assert(s.subrange(0, 4)[k] == s[k]);
    } else if 5 <= k < 7 {
        assert(s.subrange(5, 7)[k - 5] == s[k]);
    } else if 8 <= k < 10 {
        assert(s.subrange(8, 10)[k - 8] == s[k]);
    } else if 11 <= k < 13 {
        assert(s.subrange(11, 13)[k - 11] == s[k]);
    } else if 14 <= k < 16 {
        assert(s.subrange(14, 16)[k - 14] == s[k]);
    } else if 17 <= k < 19 {
        assert(s.subrange(17, 19)[k - 17] == s[k]);
    }
}

/// Sorts names ascending by the lexicographic order, keeping exactly the
/// given names.
fn sort_names(names: Vec<String>) -> (r: Vec<String>)
    ensures
        forall|i: int, j: int| 0 <= i < j < r@.len() ==> spec_str_le(r@[i]@, r@[j]@),
        r@.map_values(|s: String| s@).to_multiset() == names@.map_values(
            |s: String| s@,
        ).to_multiset(),
        forall|k: int|
            0 <= k < r@.len() ==> names@.map_values(|s: String| s@).contains(
                (#[trigger] r@[k])@,
            ),
{
    let mut out: Vec<String> = Vec::new();
    let mut i: usize = 0;
    let ghost all = names@.map_values(|s: String| s@);
    proof {
        assert(out@.map_values(|s: String| s@) =~= all.subrange(0, 0));
    }
    while i < names.len()
        invariant
            0 <= i <= names@.len(),
            all == names@.map_values(|s: String| s@),
            forall|p: int, q: int| 0 <= p < q < out@.len() ==> spec_str_le(out@[p]@, out@[q]@),
            out@.map_values(|s: String| s@).to_multiset() == all.subrange(
                0,
                i as int,
            ).to_multiset(),
            forall|k: int| 0 <= k < out@.len() ==> all.contains((#[trigger] out@[k])@),
        decreases names@.len() - i,
    {
        let x = names[i].clone();
        let ghost pre = out@;
        // Find the insertion point: the first position whose entry is not <= x.
        let mut j: usize = 0;
        while j < out.len() && str_le(out[j].as_str(), x.as_str())
            invariant
                0 <= j <= out@.len(),
                out@ == pre,
                forall|p: int| 0 <= p < j ==> spec_str_le((#[trigger] out@[p])@, x@),
            decreases out@.len() - j,
        {
            j = j + 1;
        }
        proof {
            if j < pre.len() {
                crate::text::lemma_str_le_total(pre[j as int]@, x@);
            }
            assert forall|p: int| j <= p < pre.len() implies spec_str_le(
                x@,
                (#[trigger] pre[p])@,
            ) by {
                if p > j {
                    assert(spec_str_le(pre[j as int]@, pre[p]@));
                    crate::text::lemma_str_le_trans(x@, pre[j as int]@, pre[p]@);
                }
            }
        }
        out.insert(j, x);
        proof {
            assert forall|p: int, q: int|
                0 <= p < q < out@.len() implies spec_str_le(
                (#[trigger] out@[p])@,
                (#[trigger] out@[q])@,
            ) by {
                if q < j {
                } else if p < j && q == j {
                    assert(out@[q] == x);
                } else if p < j && q > j {
                    assert(out@[q] == pre[q - 1]);
                } else if p == j {
                    assert(out@[p] == x);
                    assert(out@[q] == pre[q - 1]);
                } else {
                    assert(out@[p] == pre[p - 1]);
                    assert(out@[q] == pre[q - 1]);
                }
            }
        }
        proof {
            assert(all.subrange(0, i + 1).drop_last() =~= all.subrange(0, i as int));
            assert(all.subrange(0, i + 1).last() == names@[i as int]@);
            lemma_insert_multiset(pre.map_values(|s: String| s@), j as int, names@[i as int]@);
            assert(out@.map_values(|s: String| s@) =~= pre.map_values(|s: String| s@).insert(
                j as int,
                names@[i as int]@,
            ));
            assert(all.subrange(0, i + 1) =~= all.subrange(0, i as int).push(
                names@[i as int]@,
            ));
            all.subrange(0, i as int).to_multiset_ensures();
            assert(all.subrange(0, i + 1).to_multiset() =~= all.subrange(
                0,
                i as int,
            ).to_multiset().insert(names@[i as int]@));
        }
        i = i + 1;
    }
    proof {
        assert(all.subrange(0, all.len() as int) =~= all);
    }
    out
}

/// Inserting into a sequence adds exactly one occurrence to its multiset.
proof fn lemma_insert_multiset(s: Seq<Seq<char>>, j: int, x: Seq<char>)
    requires
        0 <= j <= s.len(),
    ensures
        s.insert(j, x).to_multiset() == s.to_multiset().insert(x),
{
    assert(s.insert(j, x) =~= s.subrange(0, j).push(x) + s.subrange(j, s.len() as int));
    s.subrange(0, j).to_multiset_ensures();
    s.to_multiset_ensures();
    vstd::seq_lib::lemma_multiset_commutative(s.subrange(0, j).push(x), s.subrange(j, s.len() as int));
    vstd::seq_lib::lemma_multiset_commutative(s.subrange(0, j), s.subrange(j, s.len() as int));
    s.subrange(0, j).push(x).to_multiset_ensures();
    assert(s =~= s.subrange(0, j) + s.subrange(j, s.len() as int));
}

/// The text the lists are written as: the room count, then room after room.
pub open spec fn spec_encode_storage(v: RoomsView) -> Seq<char> {
    spec_emit_str(spec_digits(v.len())) + spec_encode_rooms(v, 0)
}

pub open spec fn spec_encode_rooms(v: RoomsView, k: int) -> Seq<char>
    decreases v.len() - k,
{
    if k < 0 || k >= v.len() {
        Seq::empty()
    } else {
        spec_emit_str(v[k].0) + spec_emit_str(spec_digits(v[k].1.len()))
            + spec_encode_tasks(v[k].1, 0) + spec_encode_rooms(v, k + 1)
    }
}

pub open spec fn spec_encode_tasks(ts: Seq<TaskView>, k: int) -> Seq<char>
    decreases ts.len() - k,
{
    if k < 0 || k >= ts.len() {
        Seq::empty()
    } else {
        spec_encode_task(ts[k]) + spec_encode_tasks(ts, k + 1)
    }
}

/// One task's fields in order: number, title, status, the logs with their
/// count, the history entries with their count, and the creator.
pub open spec fn spec_encode_task(t: TaskView) -> Seq<char> {
    spec_emit_str(spec_digits(t.id as nat)) + spec_emit_str(t.title) + spec_emit_str(t.status)
        + spec_emit_str(spec_digits(t.logs.len())) + spec_encode_strs(t.logs, 0)
        + spec_emit_str(spec_digits(t.internal_logs.len())) + spec_encode_triples(
        t.internal_logs,
        0,
    ) + spec_emit_str(t.creator)
}

pub open spec fn spec_encode_strs(ss: Seq<Seq<char>>, k: int) -> Seq<char>
    decreases ss.len() - k,
{
    if k < 0 || k >= ss.len() {
        Seq::empty()
    } else {
        spec_emit_str(ss[k]) + spec_encode_strs(ss, k + 1)
    }
}

pub open spec fn spec_encode_triples(es: Seq<(Seq<char>, Seq<char>, Seq<char>)>, k: int) -> Seq<
    char,
>
    decreases es.len() - k,
{
    if k < 0 || k >= es.len() {
        Seq::empty()
    } else {
        spec_emit_str(es[k].0) + spec_emit_str(es[k].1) + spec_emit_str(es[k].2)
            + spec_encode_triples(es, k + 1)
    }
}

/// Writes the lists as one snapshot text.
#[verifier::rlimit(50)]
pub fn encode_storage(lists: &TodoList) -> (r: String)
    ensures
        r@ == spec_encode_storage(lists@),
{
    let mut out = String::new();
    append_count(&mut out, lists.rooms.len());
    let mut k: usize = 0;
    while k < lists.rooms.len()
        invariant
            0 <= k <= lists.rooms@.len(),
            lists@.len() == lists.rooms@.len(),
            spec_encode_storage(lists@) == out@ + spec_encode_rooms(lists@, k as int),
        decreases lists.rooms@.len() - k,
    {
        let room = &lists.rooms[k];
        append_field(&mut out, room.room_id.as_str());
        append_count(&mut out, room.tasks.len());
        let ghost tasks_view = lists@[k as int].1;
        proof {
            assert(lists@[k as int].0 == room.room_id@);
            assert(tasks_view.len() == room.tasks@.len());
        }
        let mut t: usize = 0;
        while t < room.tasks.len()
            invariant
                0 <= t <= room.tasks@.len(),
                tasks_view.len() == room.tasks@.len(),
                forall|m: int|
                    0 <= m < room.tasks@.len() ==> tasks_view[m] == (#[trigger] room.tasks@[m])@,
                spec_encode_storage(lists@) == out@ + spec_encode_tasks(tasks_view, t as int)
                    + spec_encode_rooms(lists@, k + 1),
            decreases room.tasks@.len() - t,
        {
            append_task(&mut out, &room.tasks[t]);
            proof {
                assert(spec_encode_storage(lists@) =~= out@ + spec_encode_tasks(
                    tasks_view,
                    t + 1,
                ) + spec_encode_rooms(lists@, k + 1));
            }
            t = t + 1;
        }
        proof {
            assert(spec_encode_tasks(tasks_view, t as int) =~= Seq::<char>::empty());
            assert(spec_encode_storage(lists@) =~= out@ + spec_encode_rooms(lists@, k + 1));
        }
        k = k + 1;
    }
    proof {
        assert(spec_encode_rooms(lists@, k as int) =~= Seq::<char>::empty());
        assert(spec_encode_storage(lists@) =~= out@);
    }
    out
}

/// Appends a count as a decimal field.
fn append_count(out: &mut String, n: usize)
    ensures
        final(out)@ == old(out)@ + spec_emit_str(spec_digits(n as nat)),
{
    let mut digits = String::new();
    append_digits(&mut digits, n);
    append_field(out, digits.as_str());
}

/// Appends one task's fields.
fn append_task(out: &mut String, task: &Task)
    ensures
        final(out)@ == old(out)@ + spec_encode_task(task@),
{
    append_count(out, task.id);
    append_field(out, task.title.as_str());
    append_field(out, task.status.as_str());
    append_count(out, task.logs.len());
    let ghost logs_view = task@.logs;
    let mut k: usize = 0;
    while k < task.logs.len()
        invariant
            0 <= k <= task.logs@.len(),
            logs_view.len() == task.logs@.len(),
            forall|m: int|
                0 <= m < task.logs@.len() ==> logs_view[m] == (#[trigger] task.logs@[m])@,
            old(out)@ + spec_encode_task(task@) == out@ + spec_encode_strs(logs_view, k as int)
                + spec_emit_str(spec_digits(task@.internal_logs.len())) + spec_encode_triples(
                task@.internal_logs,
                0,
            ) + spec_emit_str(task@.creator),
        decreases task.logs@.len() - k,
    {
        append_field(out, task.logs[k].as_str());
        proof {
            assert(old(out)@ + spec_encode_task(task@) =~= out@ + spec_encode_strs(
                logs_view,
                k + 1,
            ) + spec_emit_str(spec_digits(task@.internal_logs.len())) + spec_encode_triples(
                task@.internal_logs,
                0,
            ) + spec_emit_str(task@.creator));
        }
        k = k + 1;
    }
    proof {
        assert(spec_encode_strs(logs_view, k as int) =~= Seq::<char>::empty());
    }
    append_count(out, task.internal_logs.len());
    let ghost il_view = task@.internal_logs;
    let mut k2: usize = 0;
    while k2 < task.internal_logs.len()
        invariant
            0 <= k2 <= task.internal_logs@.len(),
            il_view.len() == task.internal_logs@.len(),
            forall|m: int|
                0 <= m < task.internal_logs@.len() ==> il_view[m] == (
                    (#[trigger] task.internal_logs@[m]).0@,
                    task.internal_logs@[m].1@,
                    task.internal_logs@[m].2@,
                ),
            old(out)@ + spec_encode_task(task@) == out@ + spec_encode_triples(
                il_view,
                k2 as int,
            ) + spec_emit_str(task@.creator),
        decreases task.internal_logs@.len() - k2,
    {
        let entry = &task.internal_logs[k2];
        append_field(out, entry.0.as_str());
        append_field(out, entry.1.as_str());
        append_field(out, entry.2.as_str());
        proof {
            assert(old(out)@ + spec_encode_task(task@) =~= out@ + spec_encode_triples(
                il_view,
                k2 + 1,
            ) + spec_emit_str(task@.creator));
        }
        k2 = k2 + 1;
    }
    proof {
        assert(spec_encode_triples(il_view, k2 as int) =~= Seq::<char>::empty());
    }
    append_field(out, task.creator.as_str());
    proof {
        assert(out@ =~= old(out)@ + spec_encode_task(task@));
    }
}


/// Reads a count: one field holding at least one decimal digit, denoting a
/// value that fits in usize.
pub open spec fn spec_parse_count(s: Seq<char>, i: int) -> Option<(nat, int)> {
    match spec_parse_str(s, i) {
        Option::None => Option::None,
        Option::Some((f, j)) => if f.len() > 0 && all_dec_digits(f) && digits_val_acc(f, 0)
            <= usize::MAX {
            Option::Some((digits_val_acc(f, 0), j))
        } else {
            Option::None
        },
    }
}

/// Reads `n` fields in a row.
pub open spec fn spec_parse_strs(s: Seq<char>, i: int, n: nat) -> Option<(Seq<Seq<char>>, int)>
    decreases n,
{
    if n == 0 {
        Option::Some((Seq::empty(), i))
    } else {
        match spec_parse_str(s, i) {
            Option::None => Option::None,
            Option::Some((f, j)) => match spec_parse_strs(s, j, (n - 1) as nat) {
                Option::None => Option::None,
                Option::Some((rest, e)) => Option::Some((seq![f] + rest, e)),
            },
        }
    }
}

/// Reads `n` history entries, three fields each.
pub open spec fn spec_parse_triples(s: Seq<char>, i: int, n: nat) -> Option<
    (Seq<(Seq<char>, Seq<char>, Seq<char>)>, int),
>
    decreases n,
{
    if n == 0 {
        Option::Some((Seq::empty(), i))
    } else {
        match spec_parse_str(s, i) {
            Option::None => Option::None,
            Option::Some((a, j1)) => match spec_parse_str(s, j1) {
                Option::None => Option::None,
                Option::Some((b, j2)) => match spec_parse_str(s, j2) {
                    Option::None => Option::None,
                    Option::Some((c, j3)) => match spec_parse_triples(s, j3, (n - 1) as nat) {
                        Option::None => Option::None,
                        Option::Some((rest, e)) => Option::Some((seq![(a, b, c)] + rest, e)),
                    },
                },
            },
        }
    }
}

/// Reads one task's fields.
pub open spec fn spec_parse_task(s: Seq<char>, i: int) -> Option<(TaskView, int)> {
    match spec_parse_count(s, i) {
        Option::None => Option::None,
        Option::Some((id, j1)) => match spec_parse_str(s, j1) {
            Option::None => Option::None,
            Option::Some((title, j2)) => match spec_parse_str(s, j2) {
                Option::None => Option::None,
                Option::Some((status, j3)) => match spec_parse_count(s, j3) {
                    Option::None => Option::None,
                    Option::Some((n_logs, j4)) => match spec_parse_strs(s, j4, n_logs) {
                        Option::None => Option::None,
                        Option::Some((logs, j5)) => match spec_parse_count(s, j5) {
                            Option::None => Option::None,
                            Option::Some((n_il, j6)) => match spec_parse_triples(s, j6, n_il) {
                                Option::None => Option::None,
                                Option::Some((internal_logs, j7)) => match spec_parse_str(
                                    s,
                                    j7,
                                ) {
                                    Option::None => Option::None,
                                    Option::Some((creator, j8)) => Option::Some(
                                        (
                                            TaskView {
                                                id: id as int,
                                                title,
                                                status,
                                                logs,
                                                internal_logs,
                                                creator,
                                            },
                                            j8,
                                        ),
                                    ),
                                },
                            },
                        },
                    },
                },
            },
        },
    }
}

/// Reads `n` tasks in a row.
pub open spec fn spec_parse_tasks(s: Seq<char>, i: int, n: nat) -> Option<(Seq<TaskView>, int)>
    decreases n,
{
    if n == 0 {
        Option::Some((Seq::empty(), i))
    } else {
        match spec_parse_task(s, i) {
            Option::None => Option::None,
            Option::Some((t, j)) => match spec_parse_tasks(s, j, (n - 1) as nat) {
                Option::None => Option::None,
                Option::Some((rest, e)) => Option::Some((seq![t] + rest, e)),
            },
        }
    }
}

/// Reads `n` rooms in a row: each a room name, a task count, and the tasks.
pub open spec fn spec_parse_rooms(s: Seq<char>, i: int, n: nat) -> Option<(RoomsView, int)>
    decreases n,
{
    if n == 0 {
        Option::Some((Seq::empty(), i))
    } else {
        match spec_parse_str(s, i) {
            Option::None => Option::None,
            Option::Some((room_id, j1)) => match spec_parse_count(s, j1) {
                Option::None => Option::None,
                Option::Some((m, j2)) => match spec_parse_tasks(s, j2, m) {
                    Option::None => Option::None,
                    Option::Some((tasks, j3)) => match spec_parse_rooms(s, j3, (n - 1) as nat) {
                        Option::None => Option::None,
                        Option::Some((rest, e)) => Option::Some(
                            (seq![(room_id, tasks)] + rest, e),
                        ),
                    },
                },
            },
        }
    }
}

/// The lists a snapshot text denotes: the counted rooms, with nothing left
/// over and no room name repeated; any malformed text denotes nothing.
pub open spec fn spec_parse_storage(s: Seq<char>) -> Option<RoomsView> {
    match spec_parse_count(s, 0) {
        Option::None => Option::None,
        Option::Some((n, i)) => match spec_parse_rooms(s, i, n) {
            Option::None => Option::None,
            Option::Some((rooms, e)) => if e == s.len() && (forall|p: int, q: int|
                0 <= p < q < rooms.len() ==> (#[trigger] rooms[p]).0 != (#[trigger] rooms[q]).0) {
                Option::Some(rooms)
            } else {
                Option::None
            },
        },
    }
}

/// Reads a count, exactly as the parsing function says.
fn parse_count_at(s: &str, i: usize) -> (r: Option<(usize, usize)>)
    ensures
        match r {
            Option::Some((n, j)) => spec_parse_count(s@, i as int) == Option::Some(
                (n as nat, j as int),
            ) && i <= j <= s@.len(),
            Option::None => spec_parse_count(s@, i as int) is None,
        },
{
    match parse_field_at(s, i) {
        Option::None => Option::None,
        Option::Some((f, j)) => {
            match digits_value(f.as_str()) {
                Option::None => Option::None,
                Option::Some(n) => Option::Some((n, j)),
            }
        },
    }
}

/// The value of a non-empty all-digit text that fits in usize, or nothing.
#[verifier::loop_isolation(false)]
fn digits_value(f: &str) -> (r: Option<usize>)
    ensures
        match r {
            Option::Some(n) => f@.len() > 0 && all_dec_digits(f@) && digits_val_acc(f@, 0)
                == n as nat,
            Option::None => !(f@.len() > 0 && all_dec_digits(f@) && digits_val_acc(f@, 0)
                <= usize::MAX),
        },
{
    let total = f.unicode_len();
    if total == 0 {
        return Option::None;
    }
    let mut i: usize = 0;
    let mut acc: usize = 0;
    proof {
        assert(f@.subrange(0, total as int) =~= f@);
    }
    while i < total
        invariant
            0 <= i <= total,
            total == f@.len(),
            forall|k: int| 0 <= k < i ==> crate::codec::is_dec_digit(#[trigger] f@[k]),
            digits_val_acc(f@, 0) == digits_val_acc(
                f@.subrange(i as int, total as int),
                acc as nat,
            ),
        decreases total - i,
    {
        let c = f.get_char(i);
        let u = c as u32;
        if u < 48 || u > 57 {
            proof {
                assert(c as int == u as int);
                assert(!crate::codec::is_dec_digit(f@[i as int]));
            }
            return Option::None;
        }
        let d = (u - 48) as usize;
        proof {
            assert(c as int == u as int);
            assert(crate::codec::is_dec_digit(f@[i as int]));
            assert(crate::codec::digit_val(f@[i as int]) == d as nat);
            let rest = f@.subrange(i as int, total as int);
            assert(rest[0] == f@[i as int]);
            assert(rest.drop_first() =~= f@.subrange(i + 1 as int, total as int));
        }
        if acc > (usize::MAX - d) / 10 {
            proof {
                let rest = f@.subrange(i as int, total as int);
                assert(digits_val_acc(rest, acc as nat) == digits_val_acc(
                    rest.drop_first(),
                    acc as nat * 10 + crate::codec::digit_val(rest[0]),
                ));
                crate::codec::lemma_digits_val_acc_lower(
                    rest.drop_first(),
                    acc as nat * 10 + d as nat,
                );
                assert(acc as nat * 10 + d as nat > usize::MAX) by (nonlinear_arith)
                    requires
                        acc > (usize::MAX - d) / 10,
                        d < 10,
                ;
            }
            return Option::None;
        }
        acc = acc * 10 + d;
        i = i + 1;
    }
    proof {
        assert(f@.subrange(total as int, total as int) =~= Seq::<char>::empty());
    }
    Option::Some(acc)
}

/// Reads one task, exactly as the parsing function says.
#[verifier::loop_isolation(false)]
#[verifier::rlimit(100)]
fn decode_task(s: &str, i: usize) -> (r: Option<(Task, usize)>)
    ensures
        match r {
            Option::Some((task, j)) => spec_parse_task(s@, i as int) == Option::Some(
                (task@, j as int),
            ) && i <= j <= s@.len(),
            Option::None => spec_parse_task(s@, i as int) is None,
        },
{
    let (id, j1) = match parse_count_at(s, i) {
        Option::None => { return Option::None; },
        Option::Some(x) => x,
    };
    let (title, j2) = match parse_field_at(s, j1) {
        Option::None => { return Option::None; },
        Option::Some(x) => x,
    };
    let (status, j3) = match parse_field_at(s, j2) {
        Option::None => { return Option::None; },
        Option::Some(x) => x,
    };
    let (n_logs, j4) = match parse_count_at(s, j3) {
        Option::None => { return Option::None; },
        Option::Some(x) => x,
    };
    let mut logs: Vec<String> = Vec::new();
    let mut pos = j4;
    let mut k: usize = 0;
    while k < n_logs
        invariant
            0 <= k <= n_logs,
            j4 <= pos <= s@.len(),
            logs@.len() == k,
            spec_parse_strs(s@, j4 as int, n_logs as nat) == (match spec_parse_strs(
                s@,
                pos as int,
                (n_logs - k) as nat,
            ) {
                Option::None => Option::<(Seq<Seq<char>>, int)>::None,
                Option::Some((rest, e)) => Option::Some(
                    (logs@.map_values(|x: String| x@) + rest, e),
                ),
            }),
        decreases n_logs - k,
    {
        let (f, p) = match parse_field_at(s, pos) {
            Option::None => { return Option::None; },
            Option::Some(x) => x,
        };
        let ghost pre_logs = logs@;
        logs.push(f);
        proof {
            let rest_n = (n_logs - k - 1) as nat;
            match spec_parse_strs(s@, p as int, rest_n) {
                Option::None => {},
                Option::Some((rest, e)) => {
                    assert(logs@.map_values(|x: String| x@) =~= pre_logs.map_values(
                        |x: String| x@,
                    ).push(logs@.last()@));
                    assert(pre_logs.map_values(|x: String| x@) + (seq![logs@.last()@] + rest)
                        =~= logs@.map_values(|x: String| x@) + rest);
                },
            }
        }
        pos = p;
        k = k + 1;
    }
    proof {
        assert(spec_parse_strs(s@, pos as int, 0nat) == Option::<(Seq<Seq<char>>, int)>::Some(
            (Seq::empty(), pos as int),
        ));
        assert(logs@.map_values(|x: String| x@) + Seq::<Seq<char>>::empty() =~= logs@.map_values(
            |x: String| x@,
        ));
    }
    let (n_il, j6) = match parse_count_at(s, pos) {
        Option::None => { return Option::None; },
        Option::Some(x) => x,
    };
    let mut internal_logs: Vec<(String, String, String)> = Vec::new();
    let mut pos2 = j6;
    let mut k2: usize = 0;
    while k2 < n_il
        invariant
            0 <= k2 <= n_il,
            j6 <= pos2 <= s@.len(),
            internal_logs@.len() == k2,
            spec_parse_triples(s@, j6 as int, n_il as nat) == (match spec_parse_triples(
                s@,
                pos2 as int,
                (n_il - k2) as nat,
            ) {
                Option::None => Option::<(Seq<(Seq<char>, Seq<char>, Seq<char>)>, int)>::None,
                Option::Some((rest, e)) => Option::Some(
                    (
                        internal_logs@.map_values(
                            |x: (String, String, String)| (x.0@, x.1@, x.2@),
                        ) + rest,
                        e,
                    ),
                ),
            }),
        decreases n_il - k2,
    {
        let (a, p1) = match parse_field_at(s, pos2) {
            Option::None => { return Option::None; },
            Option::Some(x) => x,
        };
        let (b, p2) = match parse_field_at(s, p1) {
            Option::None => { return Option::None; },
            Option::Some(x) => x,
        };
        let (c, p3) = match parse_field_at(s, p2) {
            Option::None => { return Option::None; },
            Option::Some(x) => x,
        };
        let ghost pre_il = internal_logs@;
        internal_logs.push((a, b, c));
        proof {
            let rest_n = (n_il - k2 - 1) as nat;
            let f = |x: (String, String, String)| (x.0@, x.1@, x.2@);
            match spec_parse_triples(s@, p3 as int, rest_n) {
                Option::None => {},
                Option::Some((rest, e)) => {
                    let last = internal_logs@.last();
                    assert(internal_logs@.map_values(f) =~= pre_il.map_values(f).push(
                        (last.0@, last.1@, last.2@),
                    ));
                    assert(pre_il.map_values(f) + (seq![(last.0@, last.1@, last.2@)] + rest)
                        =~= internal_logs@.map_values(f) + rest);
                },
            }
        }
        pos2 = p3;
        k2 = k2 + 1;
    }
    proof {
        assert(spec_parse_triples(s@, pos2 as int, 0nat) == Option::<
            (Seq<(Seq<char>, Seq<char>, Seq<char>)>, int),
        >::Some((Seq::empty(), pos2 as int)));
        assert(internal_logs@.map_values(|x: (String, String, String)| (x.0@, x.1@, x.2@))
            + Seq::<(Seq<char>, Seq<char>, Seq<char>)>::empty() =~= internal_logs@.map_values(
            |x: (String, String, String)| (x.0@, x.1@, x.2@),
        ));
    }
    let (creator, j8) = match parse_field_at(s, pos2) {
        Option::None => { return Option::None; },
        Option::Some(x) => x,
    };
    let task = Task { id, title, status, logs, internal_logs, creator };
    proof {
        assert(spec_parse_strs(s@, j4 as int, n_logs as nat) == Option::Some(
            (task@.logs, pos as int),
        ));
        assert(spec_parse_triples(s@, j6 as int, n_il as nat) == Option::Some(
            (task@.internal_logs, pos2 as int),
        ));
        assert(spec_parse_task(s@, i as int) == Option::Some((task@, j8 as int)));
    }
    Option::Some((task, j8))
}

/// Reads a whole snapshot back, exactly as the parsing function says, with
/// well-formed lists.
#[verifier::loop_isolation(false)]
#[verifier::rlimit(100)]
pub fn decode_storage(s: &str) -> (r: Option<TodoList>)
    ensures
        match r {
            Option::Some(lists) => spec_parse_storage(s@) == Option::Some(lists@) && lists.wf(),
            Option::None => spec_parse_storage(s@) is None,
        },
{
    let total = s.unicode_len();
    let (n, i0) = match parse_count_at(s, 0) {
        Option::None => { return Option::None; },
        Option::Some(x) => x,
    };
    let mut rooms: Vec<RoomTasks> = Vec::new();
    let mut pos = i0;
    let mut k: usize = 0;
    while k < n
        invariant
            0 <= k <= n,
            i0 <= pos <= s@.len(),
            rooms@.len() == k,
            spec_parse_rooms(s@, i0 as int, n as nat) == (match spec_parse_rooms(
                s@,
                pos as int,
                (n - k) as nat,
            ) {
                Option::None => Option::<(RoomsView, int)>::None,
                Option::Some((rest, e)) => Option::Some(
                    (
                        rooms@.map_values(
                            |r2: RoomTasks| (r2.room_id@, r2.tasks@.map_values(|t: Task| t@)),
                        ) + rest,
                        e,
                    ),
                ),
            }),
        decreases n - k,
    {
        let (room_id, p1) = match parse_field_at(s, pos) {
            Option::None => { return Option::None; },
            Option::Some(x) => x,
        };
        let (m, p2) = match parse_count_at(s, p1) {
            Option::None => { return Option::None; },
            Option::Some(x) => x,
        };
        let mut tasks: Vec<Task> = Vec::new();
        let mut tpos = p2;
        let mut t: usize = 0;
        while t < m
            invariant
                0 <= t <= m,
                p2 <= tpos <= s@.len(),
                tasks@.len() == t,
                spec_parse_tasks(s@, p2 as int, m as nat) == (match spec_parse_tasks(
                    s@,
                    tpos as int,
                    (m - t) as nat,
                ) {
                    Option::None => Option::<(Seq<TaskView>, int)>::None,
                    Option::Some((rest, e)) => Option::Some(
                        (tasks@.map_values(|x: Task| x@) + rest, e),
                    ),
                }),
            decreases m - t,
        {
            let (task, p) = match decode_task(s, tpos) {
                Option::None => { return Option::None; },
                Option::Some(x) => x,
            };
            let ghost pre_tasks = tasks@;
            tasks.push(task);
            proof {
                let rest_n = (m - t - 1) as nat;
                match spec_parse_tasks(s@, p as int, rest_n) {
                    Option::None => {},
                    Option::Some((rest, e)) => {
                        assert(tasks@.map_values(|x: Task| x@) =~= pre_tasks.map_values(
                            |x: Task| x@,
                        ).push(tasks@.last()@));
                        assert(pre_tasks.map_values(|x: Task| x@) + (seq![tasks@.last()@]
                            + rest) =~= tasks@.map_values(|x: Task| x@) + rest);
                    },
                }
            }
            tpos = p;
            t = t + 1;
        }
        proof {
            assert(spec_parse_tasks(s@, tpos as int, 0nat) == Option::<(Seq<TaskView>, int)>::Some(
                (Seq::empty(), tpos as int),
            ));
            assert(tasks@.map_values(|x: Task| x@) + Seq::<TaskView>::empty() =~= tasks@
                .map_values(|x: Task| x@));
        }
        let ghost pre_rooms = rooms@;
        rooms.push(RoomTasks { room_id, tasks });
        proof {
            let f = |r2: RoomTasks| (r2.room_id@, r2.tasks@.map_values(|t2: Task| t2@));
            let rest_n = (n - k - 1) as nat;
            match spec_parse_rooms(s@, tpos as int, rest_n) {
                Option::None => {},
                Option::Some((rest, e)) => {
                    let last = rooms@.last();
                    assert(rooms@.map_values(f) =~= pre_rooms.map_values(f).push(f(last)));
                    assert(pre_rooms.map_values(f) + (seq![f(last)] + rest) =~= rooms@
                        .map_values(f) + rest);
                },
            }
        }
        pos = tpos;
        k = k + 1;
    }
    if pos != total {
        return Option::None;
    }
    let lists = TodoList { rooms };
    proof {
        assert(spec_parse_rooms(s@, pos as int, 0nat) == Option::<(RoomsView, int)>::Some(
            (Seq::empty(), pos as int),
        ));
        assert(lists@ + Seq::<(Seq<char>, Seq<TaskView>)>::empty() =~= lists@);
    }
    // Reject a snapshot that names a room twice: the lists must stay a map.
    let mut p: usize = 0;
    while p < lists.rooms.len()
        invariant
            0 <= p <= lists.rooms@.len(),
            lists@.len() == lists.rooms@.len(),
            forall|a: int, b: int| 0 <= a < b < p ==> (#[trigger] lists@[a]).0 != (
            #[trigger] lists@[b]).0,
        decreases lists.rooms@.len() - p,
    {
        let mut q: usize = 0;
        while q < p
            invariant
                0 <= q <= p < lists.rooms@.len(),
                lists@.len() == lists.rooms@.len(),
                forall|b: int| 0 <= b < q ==> (#[trigger] lists@[b]).0 != lists@[p as int].0,
            decreases p - q,
        {
            if str_eq(lists.rooms[q].room_id.as_str(), lists.rooms[p].room_id.as_str()) {
                proof {
                    assert(lists@[q as int].0 == lists.rooms@[q as int].room_id@);
                    assert(lists@[p as int].0 == lists.rooms@[p as int].room_id@);
                }
                return Option::None;
            }
            proof {
                assert(lists@[q as int].0 == lists.rooms@[q as int].room_id@);
                assert(lists@[p as int].0 == lists.rooms@[p as int].room_id@);
            }
            q = q + 1;
        }
        p = p + 1;
    }
    Option::Some(lists)
}



/// A name written for a well-formed timestamp is itself well-formed: what
/// this session saves, this session's listing and loading accept.
pub proof fn lemma_save_filename_valid(session_id: Seq<char>, stamp: Seq<char>)
    requires
        spec_valid_stamp(stamp),
    ensures
        spec_valid_filename(session_id, spec_save_filename(session_id, stamp)),
{
    reveal_strlit("_");
    reveal_strlit(".json");
    let app = spec_app_name();
    let name = spec_save_filename(session_id, stamp);
    let tail3 = stamp + ".json"@;
    let tail2 = "_"@ + tail3;
    let tail1 = session_id + tail2;
    assert(name =~= app + ("_"@ + tail1));
    assert(name.subrange(0, name.len() as int) =~= name);
    crate::codec::lemma_window_split(name, 0, app, "_"@ + tail1);
    crate::codec::lemma_window_split(name, app.len() as int, "_"@, tail1);
    crate::codec::lemma_window_split(name, app.len() + 1 as int, session_id, tail2);
    let after_session = app.len() + 1 + session_id.len() as int;
    crate::codec::lemma_window_split(name, after_session, "_"@, tail3);
    crate::codec::lemma_window_split(name, after_session + 1, stamp, ".json"@);
    assert(name[app.len() as int] == name.subrange(app.len() as int, app.len() + 1 as int)[0]);
    assert(name[after_session] == name.subrange(after_session, after_session + 1)[0]);
    let prefix_len = app.len() + 1 + session_id.len() + 1 as int;
    assert(name.subrange(prefix_len, prefix_len + 20) == stamp);
}

/// Whether a task's counters fit the machine, as every task built in this
/// crate does.
pub open spec fn task_encodable(t: TaskView) -> bool {
    &&& 0 <= t.id <= usize::MAX
    &&& t.logs.len() <= usize::MAX
    &&& t.internal_logs.len() <= usize::MAX
}

/// Whether all counts in the lists fit the machine.
pub open spec fn rooms_encodable(v: RoomsView) -> bool {
    &&& v.len() <= usize::MAX
    &&& forall|k: int| 0 <= k < v.len() ==> (#[trigger] v[k]).1.len() <= usize::MAX
    &&& forall|k: int, t: int|
        0 <= k < v.len() && 0 <= t < v[k].1.len() ==> task_encodable(#[trigger] v[k].1[t])
}

/// A window holding an encoded count reads back as that count.
proof fn lemma_parse_count_emit(s: Seq<char>, i: int, n: nat)
    requires
        0 <= i,
        n <= usize::MAX,
        i + spec_emit_str(spec_digits(n)).len() <= s.len(),
        s.subrange(i, i + spec_emit_str(spec_digits(n)).len()) == spec_emit_str(spec_digits(n)),
    ensures
        spec_parse_count(s, i) == Option::Some(
            (n, i + spec_emit_str(spec_digits(n)).len()),
        ),
{
    crate::codec::lemma_parse_emit(s, i, spec_digits(n));
    crate::codec::lemma_digits_shape(n);
    crate::codec::lemma_digits_val(n);
}

/// A window holding `ss.len() - k` encoded fields reads back as those fields.
proof fn lemma_parse_strs_emit(s: Seq<char>, i: int, ss: Seq<Seq<char>>, k: int)
    requires
        0 <= k <= ss.len(),
        0 <= i,
        i + spec_encode_strs(ss, k).len() <= s.len(),
        s.subrange(i, i + spec_encode_strs(ss, k).len()) == spec_encode_strs(ss, k),
    ensures
        spec_parse_strs(s, i, (ss.len() - k) as nat) == Option::Some(
            (ss.skip(k), i + spec_encode_strs(ss, k).len()),
        ),
    decreases ss.len() - k,
{
    if k == ss.len() {
        assert(ss.skip(k) =~= Seq::<Seq<char>>::empty());
    } else {
        let head = spec_emit_str(ss[k]);
        let rest = spec_encode_strs(ss, k + 1);
        crate::codec::lemma_window_split(s, i, head, rest);
        crate::codec::lemma_parse_emit(s, i, ss[k]);
        lemma_parse_strs_emit(s, i + head.len(), ss, k + 1);
        assert(seq![ss[k]] + ss.skip(k + 1) =~= ss.skip(k));
    }
}

/// A window holding `es.len() - k` encoded history entries reads back as
/// those entries.
proof fn lemma_parse_triples_emit(
    s: Seq<char>,
    i: int,
    es: Seq<(Seq<char>, Seq<char>, Seq<char>)>,
    k: int,
)
    requires
        0 <= k <= es.len(),
        0 <= i,
        i + spec_encode_triples(es, k).len() <= s.len(),
        s.subrange(i, i + spec_encode_triples(es, k).len()) == spec_encode_triples(es, k),
    ensures
        spec_parse_triples(s, i, (es.len() - k) as nat) == Option::Some(
            (es.skip(k), i + spec_encode_triples(es, k).len()),
        ),
    decreases es.len() - k,
{
    if k == es.len() {
        assert(es.skip(k) =~= Seq::<(Seq<char>, Seq<char>, Seq<char>)>::empty());
    } else {
        let e0 = spec_emit_str(es[k].0);
        let e1 = spec_emit_str(es[k].1);
        let e2 = spec_emit_str(es[k].2);
        let rest = spec_encode_triples(es, k + 1);
        assert(spec_encode_triples(es, k) =~= e0 + (e1 + (e2 + rest)));
        crate::codec::lemma_window_split(s, i, e0, e1 + (e2 + rest));
        crate::codec::lemma_parse_emit(s, i, es[k].0);
        let i1 = i + e0.len();
        crate::codec::lemma_window_split(s, i1, e1, e2 + rest);
        crate::codec::lemma_parse_emit(s, i1, es[k].1);
        let i2 = i1 + e1.len();
        crate::codec::lemma_window_split(s, i2, e2, rest);
        crate::codec::lemma_parse_emit(s, i2, es[k].2);
        let i3 = i2 + e2.len();
        lemma_parse_triples_emit(s, i3, es, k + 1);
        assert((es[k].0, es[k].1, es[k].2) == es[k]);
        assert(seq![es[k]] + es.skip(k + 1) =~= es.skip(k));
    }
}

/// A window holding one encoded task reads back as that task.
#[verifier::rlimit(100)]
proof fn lemma_parse_task_emit(s: Seq<char>, i: int, t: TaskView)
    requires
        task_encodable(t),
        0 <= i,
        i + spec_encode_task(t).len() <= s.len(),
        s.subrange(i, i + spec_encode_task(t).len()) == spec_encode_task(t),
    ensures
        spec_parse_task(s, i) == Option::Some((t, i + spec_encode_task(t).len())),
{
    let e1 = spec_emit_str(spec_digits(t.id as nat));
    let e2 = spec_emit_str(t.title);
    let e3 = spec_emit_str(t.status);
    let e4 = spec_emit_str(spec_digits(t.logs.len()));
    let e5 = spec_encode_strs(t.logs, 0);
    let e6 = spec_emit_str(spec_digits(t.internal_logs.len()));
    let e7 = spec_encode_triples(t.internal_logs, 0);
    let e8 = spec_emit_str(t.creator);
    assert(spec_encode_task(t) =~= e1 + (e2 + (e3 + (e4 + (e5 + (e6 + (e7 + e8)))))));
    crate::codec::lemma_window_split(s, i, e1, e2 + (e3 + (e4 + (e5 + (e6 + (e7 + e8))))));
    lemma_parse_count_emit(s, i, t.id as nat);
    let i1 = i + e1.len();
    crate::codec::lemma_window_split(s, i1, e2, e3 + (e4 + (e5 + (e6 + (e7 + e8)))));
    crate::codec::lemma_parse_emit(s, i1, t.title);
    let i2 = i1 + e2.len();
    crate::codec::lemma_window_split(s, i2, e3, e4 + (e5 + (e6 + (e7 + e8))));
    crate::codec::lemma_parse_emit(s, i2, t.status);
    let i3 = i2 + e3.len();
    crate::codec::lemma_window_split(s, i3, e4, e5 + (e6 + (e7 + e8)));
    lemma_parse_count_emit(s, i3, t.logs.len());
    let i4 = i3 + e4.len();
    crate::codec::lemma_window_split(s, i4, e5, e6 + (e7 + e8));
    lemma_parse_strs_emit(s, i4, t.logs, 0);
    assert(t.logs.skip(0) =~= t.logs);
    let i5 = i4 + e5.len();
    crate::codec::lemma_window_split(s, i5, e6, e7 + e8);
    lemma_parse_count_emit(s, i5, t.internal_logs.len());
    let i6 = i5 + e6.len();
    crate::codec::lemma_window_split(s, i6, e7, e8);
    lemma_parse_triples_emit(s, i6, t.internal_logs, 0);
    assert(t.internal_logs.skip(0) =~= t.internal_logs);
    let i7 = i6 + e7.len();
    crate::codec::lemma_parse_emit(s, i7, t.creator);
    assert(spec_parse_task(s, i) == Option::Some((t, i + spec_encode_task(t).len())));
}

/// A window holding `ts.len() - k` encoded tasks reads back as those tasks.
proof fn lemma_parse_tasks_emit(s: Seq<char>, i: int, ts: Seq<TaskView>, k: int)
    requires
        0 <= k <= ts.len(),
        forall|m: int| 0 <= m < ts.len() ==> task_encodable(#[trigger] ts[m]),
        0 <= i,
        i + spec_encode_tasks(ts, k).len() <= s.len(),
        s.subrange(i, i + spec_encode_tasks(ts, k).len()) == spec_encode_tasks(ts, k),
    ensures
        spec_parse_tasks(s, i, (ts.len() - k) as nat) == Option::Some(
            (ts.skip(k), i + spec_encode_tasks(ts, k).len()),
        ),
    decreases ts.len() - k,
{
    if k == ts.len() {
        assert(ts.skip(k) =~= Seq::<TaskView>::empty());
    } else {
        let head = spec_encode_task(ts[k]);
        let rest = spec_encode_tasks(ts, k + 1);
        crate::codec::lemma_window_split(s, i, head, rest);
        lemma_parse_task_emit(s, i, ts[k]);
        lemma_parse_tasks_emit(s, i + head.len(), ts, k + 1);
        assert(seq![ts[k]] + ts.skip(k + 1) =~= ts.skip(k));
    }
}

/// A window holding `v.len() - k` encoded rooms reads back as those rooms.
#[verifier::rlimit(100)]
proof fn lemma_parse_rooms_emit(s: Seq<char>, i: int, v: RoomsView, k: int)
    requires
        0 <= k <= v.len(),
        rooms_encodable(v),
        0 <= i,
        i + spec_encode_rooms(v, k).len() <= s.len(),
        s.subrange(i, i + spec_encode_rooms(v, k).len()) == spec_encode_rooms(v, k),
    ensures
        spec_parse_rooms(s, i, (v.len() - k) as nat) == Option::Some(
            (v.skip(k), i + spec_encode_rooms(v, k).len()),
        ),
    decreases v.len() - k,
{
    if k == v.len() {
        assert(v.skip(k) =~= Seq::<(Seq<char>, Seq<TaskView>)>::empty());
    } else {
        let e1 = spec_emit_str(v[k].0);
        let e2 = spec_emit_str(spec_digits(v[k].1.len()));
        let e3 = spec_encode_tasks(v[k].1, 0);
        let rest = spec_encode_rooms(v, k + 1);
        assert(spec_encode_rooms(v, k) =~= e1 + (e2 + (e3 + rest)));
        crate::codec::lemma_window_split(s, i, e1, e2 + (e3 + rest));
        crate::codec::lemma_parse_emit(s, i, v[k].0);
        let i1 = i + e1.len();
        crate::codec::lemma_window_split(s, i1, e2, e3 + rest);
        lemma_parse_count_emit(s, i1, v[k].1.len());
        let i2 = i1 + e2.len();
        crate::codec::lemma_window_split(s, i2, e3, rest);
        assert(forall|m: int| 0 <= m < v[k].1.len() ==> task_encodable(#[trigger] v[k].1[m]));
        lemma_parse_tasks_emit(s, i2, v[k].1, 0);
        assert(v[k].1.skip(0) =~= v[k].1);
        let i3 = i2 + e3.len();
        lemma_parse_rooms_emit(s, i3, v, k + 1);
        assert((v[k].0, v[k].1) == v[k]);
        assert(seq![v[k]] + v.skip(k + 1) =~= v.skip(k));
    }
}

/// A snapshot written for any well-formed lists reads back as exactly those
/// lists: the storage encoder and decoder invert each other.
#[verifier::rlimit(100)]
pub proof fn lemma_storage_round_trip(v: RoomsView)
    requires
        rooms_encodable(v),
        forall|p: int, q: int| 0 <= p < q < v.len() ==> (#[trigger] v[p]).0 != (#[trigger] v[q]).0,
    ensures
        spec_parse_storage(spec_encode_storage(v)) == Option::Some(v),
{
    let s = spec_encode_storage(v);
    let e1 = spec_emit_str(spec_digits(v.len()));
    let e2 = spec_encode_rooms(v, 0);
    assert(s.subrange(0, s.len() as int) =~= s);
    crate::codec::lemma_window_split(s, 0, e1, e2);
    lemma_parse_count_emit(s, 0, v.len());
    lemma_parse_rooms_emit(s, e1.len() as int, v, 0);
    assert(v.skip(0) =~= v);
}

} // verus!
