//! The task list: a set of tasks with unique identities, kept sorted by
//! identity, together with the console lines its operations produce.
//!
//! Reading and writing the backing file are the embedding program's work:
//! this module parses file content, applies commands, and renders both the
//! console output and the file content to store.

use vstd::prelude::*;

verus! {

use vstd::string::StringExecFns;
use crate::command::Command;
use crate::printer::LogLevel;
use crate::printer::Printer;
use crate::printer::spec_line;
use crate::task::Task;
use crate::task::TaskId;
use crate::task::TaskStatus;
use crate::task::spec_clean_text;
use crate::task::spec_digits_of;
use crate::task::usize_to_string;
use crate::text;

/// The warning shown when an operation names a task the list does not hold.
pub open spec fn unknown_msg(v: nat) -> Seq<char> {
    "Unknown task with key "@ + spec_digits_of(v)
}

/// The notice shown when a task was created.
pub open spec fn created_msg(v: nat) -> Seq<char> {
    "Task successfully created with id "@ + spec_digits_of(v)
}

/// The notice shown when a task was deleted.
pub open spec fn deleted_msg(v: nat) -> Seq<char> {
    "Task with key "@ + spec_digits_of(v) + " successfully deleted"@
}

/// The identity the next created task gets, read from the sorted
/// identities from position `i` on: one past the first identity whose
/// successor is missing, or one past the last identity.
pub open spec fn spec_gap_from(s: Seq<Task>, i: int) -> int
    decreases s.len() - i,
{
    if i < 0 || i + 1 >= s.len() {
        s[s.len() - 1].spec_id().spec_val() + 1
    } else if s[i + 1].spec_id().spec_val() != s[i].spec_id().spec_val() + 1 {
        s[i].spec_id().spec_val() + 1
    } else {
        spec_gap_from(s, i + 1)
    }
}

/// The identity the next created task gets: one for an empty list, else the
/// first gap in the sorted identities, else one past the largest.
pub open spec fn spec_next_val(s: Seq<Task>) -> int {
    if s.len() == 0 {
        1
    } else {
        spec_gap_from(s, 0)
    }
}

/// What marking the task `id` as `to` leaves behind: with `id` in the list,
/// that one task changes state and nothing is printed; otherwise nothing
/// changes and one warning is printed.
pub open spec fn spec_mark_post(
    pre: Seq<Task>,
    post: Seq<Task>,
    out: Seq<Seq<char>>,
    id: TaskId,
    to: TaskStatus,
) -> bool {
    if exists|k: int| 0 <= k < pre.len() && (#[trigger] pre[k]).spec_id() == id {
        &&& exists|k: int|
            {
                &&& 0 <= k < pre.len()
                &&& (#[trigger] pre[k]).spec_id() == id
                &&& post == pre.update(k, post[k])
                &&& post[k].spec_id() == id
                &&& post[k].spec_status() == to
                &&& post[k].spec_text() == pre[k].spec_text()
            }
        &&& out == Seq::<Seq<char>>::empty()
    } else {
        &&& post == pre
        &&& out == seq![spec_line(LogLevel::Error, unknown_msg(id.spec_val() as nat))]
    }
}

/// What creating a task from `text` leaves behind: a pending task under the
/// next free identity, put at its sorted place, and one notice printed.
pub open spec fn spec_add_post(
    pre: Seq<Task>,
    post: Seq<Task>,
    out: Seq<Seq<char>>,
    text: Seq<char>,
) -> bool {
    &&& exists|k: int|
        {
            &&& 0 <= k <= pre.len()
            &&& post == pre.insert(k, #[trigger] post[k])
            &&& post[k].spec_id().spec_val() == spec_next_val(pre)
            &&& post[k].spec_status() == TaskStatus::Pending
            &&& post[k].spec_text() == spec_clean_text(text)
        }
    &&& out == seq![spec_line(LogLevel::Notice, created_msg(spec_next_val(pre) as nat))]
}

/// What deleting the task `id` leaves behind: with `id` in the list, that
/// one task goes and a notice is printed; otherwise nothing changes and one
/// warning is printed.
pub open spec fn spec_delete_post(
    pre: Seq<Task>,
    post: Seq<Task>,
    out: Seq<Seq<char>>,
    id: TaskId,
) -> bool {
    if exists|k: int| 0 <= k < pre.len() && (#[trigger] pre[k]).spec_id() == id {
        &&& exists|k: int|
            {
                &&& 0 <= k < pre.len()
                &&& (#[trigger] pre[k]).spec_id() == id
                &&& post == pre.remove(k)
            }
        &&& out == seq![spec_line(LogLevel::Notice, deleted_msg(id.spec_val() as nat))]
    } else {
        &&& post == pre
        &&& out == seq![spec_line(LogLevel::Error, unknown_msg(id.spec_val() as nat))]
    }
}

/// What listing prints: one row per task, in identity order.
pub open spec fn spec_rows(tasks: Seq<Task>, out: Seq<Seq<char>>) -> bool {
    &&& out.len() == tasks.len()
    &&& forall|k: int| 0 <= k < tasks.len() ==> out[k] == row_msg(#[trigger] tasks[k])
}

/// The listing row of one task: identity, state and text, tab-separated.
pub open spec fn row_msg(t: Task) -> Seq<char> {
    spec_digits_of(t.spec_id().spec_val() as nat) + "\t"@ + t.spec_status().spec_val()
        + "\t\t"@ + t.spec_text()
}

/// What one stored line means: the identity, state and text it carries,
/// or nothing when it is not three semicolon-separated fields holding a
/// number, a known state and a text.
pub open spec fn spec_line_task(line: Seq<char>) -> Option<(int, TaskStatus, Seq<char>)> {
    let f = text::spec_fields(line);
    if f.len() != 3 {
        None
    } else {
        match text::spec_parse_usize(f[0]) {
            None => None,
            Some(v) => if f[1] == "pending"@ {
                Some((v as int, TaskStatus::Pending, spec_clean_text(f[2])))
            } else if f[1] == "done"@ {
                Some((v as int, TaskStatus::Done, spec_clean_text(f[2])))
            } else {
                None
            },
        }
    }
}

/// The warning shown for a stored line that means no task: the line and the
/// first reason it fails.
pub open spec fn spec_line_warning(line: Seq<char>) -> Seq<char> {
    let f = text::spec_fields(line);
    if f.len() != 3 {
        "Ignoring task '"@ + line + "' due to missmatched parts"@
    } else if text::spec_parse_usize(f[0]) is None {
        "Ignoring task '"@ + line + "' due to invalid id"@
    } else {
        "Ignoring task '"@ + line + "' due to invalid status"@
    }
}

/// Reads one stored line as a task, or says why it is ignored.
pub fn parse_task_line(line: &str) -> (r: Result<Task, String>)
    ensures
        match spec_line_task(line@) {
            Some((v, st, tx)) => {
                &&& r is Ok
                &&& r->Ok_0.spec_id().spec_val() == v
                &&& r->Ok_0.spec_status() == st
                &&& r->Ok_0.spec_text() == tx
            },
            None => r is Err && r->Err_0@ == spec_line_warning(line@),
        },
{
    let pieces = text::split_fields(line);
    if pieces.len() != 3 {
        let mut m = String::from_str("Ignoring task '");
        m.append(line);
        m.append("' due to missmatched parts");
        return Err(m);
    }
    let id: usize = match text::parse_usize(pieces[0].as_str()) {
        Some(v) => v,
        None => {
            let mut m = String::from_str("Ignoring task '");
            m.append(line);
            m.append("' due to invalid id");
            return Err(m);
        },
    };
    let status = if text::str_eq(pieces[1].as_str(), "pending") {
        TaskStatus::Pending
    } else if text::str_eq(pieces[1].as_str(), "done") {
        TaskStatus::Done
    } else {
        let mut m = String::from_str("Ignoring task '");
        m.append(line);
        m.append("' due to invalid status");
        return Err(m);
    };
    Ok(Task::from_parts(TaskId::new(id), status, pieces[2].as_str()))
}

/// The warnings that loading the given stored lines prints, in order: one
/// per line that means no task.
pub open spec fn spec_load_warnings(lines: Seq<Seq<char>>) -> Seq<Seq<char>>
    decreases lines.len(),
{
    if lines.len() == 0 {
        Seq::empty()
    } else {
        let head: Seq<Seq<char>> = if spec_line_task(lines[0]) is None {
            seq![spec_line(LogLevel::Error, spec_line_warning(lines[0]))]
        } else {
            Seq::empty()
        };
        head + spec_load_warnings(lines.drop_first())
    }
}

/// What the stored lines keep under the identity `v`: the state and text of
/// the last line that means a task with that identity, if any.
pub open spec fn spec_stored(lines: Seq<Seq<char>>, v: int) -> Option<(TaskStatus, Seq<char>)>
    decreases lines.len(),
{
    if lines.len() == 0 {
        None
    } else {
        match spec_line_task(lines.last()) {
            Some((w, st, tx)) => if w == v {
                Some((st, tx))
            } else {
                spec_stored(lines.drop_last(), v)
            },
            None => spec_stored(lines.drop_last(), v),
        }
    }
}

/// Whether `tasks` holds, for every identity, exactly what the stored
/// `lines` keep under it.
pub open spec fn spec_loaded(lines: Seq<Seq<char>>, tasks: Seq<Task>) -> bool {
    forall|v: int|
        match #[trigger] spec_stored(lines, v) {
            Some((st, tx)) => exists|k: int|
                {
                    &&& 0 <= k < tasks.len()
                    &&& (#[trigger] tasks[k]).spec_id().spec_val() == v
                    &&& tasks[k].spec_status() == st
                    &&& tasks[k].spec_text() == tx
                },
            None => forall|k: int|
                0 <= k < tasks.len() ==> (#[trigger] tasks[k]).spec_id().spec_val() != v,
        }
}

/// A list of tasks with pairwise distinct identities, sorted ascending.
#[derive(Debug)]
pub struct TaskList {
    printer: Box<Printer>,
    tasks: Vec<Task>,
}

impl TaskList {
    /// The tasks this list holds, sorted by identity.
    pub closed spec fn spec_tasks(&self) -> Seq<Task> {
        self.tasks@
    }

    /// Well-formedness: identities strictly ascend, so each occurs once.
    pub open spec fn wf(&self) -> bool {
        forall|i: int, j: int|
            0 <= i < j < self.spec_tasks().len() ==> (#[trigger] self.spec_tasks()[i]).spec_id()
                .spec_val() < (#[trigger] self.spec_tasks()[j]).spec_id().spec_val()
    }

    /// Whether some task of the list has the given identity.
    pub open spec fn spec_has(&self, id: TaskId) -> bool {
        exists|k: int|
            0 <= k < self.spec_tasks().len() && (#[trigger] self.spec_tasks()[k]).spec_id() == id
    }

    /// An empty list.
    pub fn new(printer: Box<Printer>) -> (r: Self)
        ensures
            r.wf(),
            r.spec_tasks() == Seq::<Task>::empty(),
    {
        Self { printer, tasks: Vec::new() }
    }

    /// Builds a list from stored file content: each well-formed line adds
    /// or replaces the task with its identity, each other line is reported;
    /// the lines printed for them come second.
    #[verifier::loop_isolation(false)]
    pub fn from_content(printer: Box<Printer>, content: &str) -> (r: (Self, Vec<String>))
        ensures
            r.0.wf(),
            spec_loaded(text::spec_lines(content@), r.0.spec_tasks()),
            r.1.deep_view() == spec_load_warnings(text::spec_lines(content@)),
    {
        let ghost all = text::spec_lines(content@);
        let lines = text::split_lines(content);
        let mut list = Self::new(printer);
        let mut warnings: Vec<String> = Vec::new();
        let mut i: usize = 0;
        proof {
            assert(all.subrange(0, 0) =~= Seq::<Seq<char>>::empty());
            assert forall|v: int| #[trigger] spec_stored(all.subrange(0, 0), v) is None by {}
            assert(spec_loaded(all.subrange(0, 0), list.spec_tasks()));
            assert(warnings.deep_view() =~= spec_load_warnings(all.subrange(0, 0)));
            assert(all.subrange(0, all.len() as int) =~= all);
            assert(warnings.deep_view() + spec_load_warnings(all) =~= spec_load_warnings(all));
            assert(spec_load_warnings(all) == warnings.deep_view()
                + spec_load_warnings(all.subrange(i as int, all.len() as int)));
        }
        while i < lines.len()
            invariant
                i <= lines@.len(),
                lines.deep_view() == all,
                list.wf(),
                spec_loaded(all.subrange(0, i as int), list.spec_tasks()),
                spec_load_warnings(all) == warnings.deep_view()
                    + spec_load_warnings(all.subrange(i as int, all.len() as int)),
            decreases lines@.len() - i,
        {
            let ghost done = all.subrange(0, i as int);
            let ghost line = all[i as int];
            let ghost pre = list.spec_tasks();
            proof {
                assert(all.subrange(0, i + 1).drop_last() =~= done);
                assert(all.subrange(0, i + 1).last() == line);
                assert(all.subrange(i as int, all.len() as int)[0] == line);
                assert(all.subrange(i as int, all.len() as int).drop_first()
                    =~= all.subrange(i + 1, all.len() as int));
            }
            match parse_task_line(lines[i].as_str()) {
                Ok(task) => {
                    list.upsert(task);
                    proof {
                        let (w, st, tx) = spec_line_task(line)->Some_0;
                        assert(task.spec_id().spec_val() == w);
                        if exists|k: int|
                            0 <= k < pre.len() && (#[trigger] pre[k]).spec_id()
                                == task.spec_id() {
                            let k = choose|k: int|
                                0 <= k < pre.len() && (#[trigger] pre[k]).spec_id()
                                    == task.spec_id() && list.spec_tasks() == pre.update(k,
                                    task);
                            assert(list.spec_tasks()[k] == task);
                            assert forall|v: int| #[trigger] spec_stored(all.subrange(0, i + 1),
                                v) is Some implies exists|j: int|
                                {
                                    &&& 0 <= j < list.spec_tasks().len()
                                    &&& (#[trigger] list.spec_tasks()[j]).spec_id().spec_val()
                                        == v
                                    &&& list.spec_tasks()[j].spec_status()
                                        == spec_stored(all.subrange(0, i + 1), v)->Some_0.0
                                    &&& list.spec_tasks()[j].spec_text()
                                        == spec_stored(all.subrange(0, i + 1), v)->Some_0.1
                                } by {
                                if v == w {
                                    assert(list.spec_tasks()[k].spec_id().spec_val() == v);
                                } else {
                                    assert(spec_stored(done, v) == spec_stored(all.subrange(0,
                                        i + 1), v));
                                    let j = choose|j: int|
                                        0 <= j < pre.len() && (#[trigger] pre[j]).spec_id()
                                            .spec_val() == v && pre[j].spec_status()
                                            == spec_stored(done, v)->Some_0.0
                                            && pre[j].spec_text()
                                            == spec_stored(done, v)->Some_0.1;
                                    assert(j != k);
                                    assert(list.spec_tasks()[j] == pre[j]);
                                }
                            }
                            assert forall|v: int| #[trigger] spec_stored(all.subrange(0, i + 1),
                                v) is None implies forall|j: int|
                                0 <= j < list.spec_tasks().len()
                                    ==> (#[trigger] list.spec_tasks()[j]).spec_id().spec_val()
                                    != v by {
                                assert(v != w);
                                assert(spec_stored(done, v) is None);
                                assert forall|j: int| 0 <= j < list.spec_tasks().len() implies
                                    (#[trigger] list.spec_tasks()[j]).spec_id().spec_val()
                                        != v by {
                                    if j == k {
                                        assert(list.spec_tasks()[j].spec_id().spec_val() == w);
                                    } else {
                                        assert(list.spec_tasks()[j] == pre[j]);
                                    }
                                }
                            }
                        } else {
                            let k = choose|k: int|
                                0 <= k <= pre.len() && list.spec_tasks() == pre.insert(k,
                                    task);
                            assert(list.spec_tasks()[k] == task);
                            assert forall|v: int| #[trigger] spec_stored(all.subrange(0, i + 1),
                                v) is Some implies exists|j: int|
                                {
                                    &&& 0 <= j < list.spec_tasks().len()
                                    &&& (#[trigger] list.spec_tasks()[j]).spec_id().spec_val()
                                        == v
                                    &&& list.spec_tasks()[j].spec_status()
                                        == spec_stored(all.subrange(0, i + 1), v)->Some_0.0
                                    &&& list.spec_tasks()[j].spec_text()
                                        == spec_stored(all.subrange(0, i + 1), v)->Some_0.1
                                } by {
                                if v == w {
                                    assert(list.spec_tasks()[k].spec_id().spec_val() == v);
                                } else {
                                    assert(spec_stored(done, v) == spec_stored(all.subrange(0,
                                        i + 1), v));
                                    let j = choose|j: int|
                                        0 <= j < pre.len() && (#[trigger] pre[j]).spec_id()
                                            .spec_val() == v && pre[j].spec_status()
                                            == spec_stored(done, v)->Some_0.0
                                            && pre[j].spec_text()
                                            == spec_stored(done, v)->Some_0.1;
                                    if j < k {
                                        assert(list.spec_tasks()[j] == pre[j]);
                                    } else {
                                        assert(list.spec_tasks()[j + 1] == pre[j]);
                                    }
                                }
                            }
                            assert forall|v: int| #[trigger] spec_stored(all.subrange(0, i + 1),
                                v) is None implies forall|j: int|
                                0 <= j < list.spec_tasks().len()
                                    ==> (#[trigger] list.spec_tasks()[j]).spec_id().spec_val()
                                    != v by {
                                assert(v != w);
                                assert(spec_stored(done, v) is None);
                                assert forall|j: int| 0 <= j < list.spec_tasks().len() implies
                                    (#[trigger] list.spec_tasks()[j]).spec_id().spec_val()
                                        != v by {
                                    if j == k {
                                        assert(list.spec_tasks()[j].spec_id().spec_val() == w);
                                    } else if j < k {
                                        assert(list.spec_tasks()[j] == pre[j]);
                                    } else {
                                        assert(list.spec_tasks()[j] == pre[j - 1]);
                                    }
                                }
                            }
                        }
                        assert(spec_load_warnings(all.subrange(i as int, all.len() as int))
                            == spec_load_warnings(all.subrange(i + 1, all.len() as int)));
                    }
                },
                Err(msg) => {
                    let shown = list.printer.warning(msg.as_str());
                    let ghost prevw = warnings.deep_view();
                    warnings.push(shown);
                    proof {
                        assert(warnings.deep_view() =~= prevw.push(shown@));
                        assert forall|v: int| #[trigger] spec_stored(all.subrange(0, i + 1),
                            v) == spec_stored(done, v) by {}
                        assert(spec_load_warnings(all.subrange(i as int, all.len() as int))
                            =~= seq![spec_line(LogLevel::Error, spec_line_warning(line))]
                            + spec_load_warnings(all.subrange(i + 1, all.len() as int)));
                        assert(warnings.deep_view() + spec_load_warnings(all.subrange(i + 1,
                            all.len() as int)) =~= prevw + spec_load_warnings(all.subrange(
                            i as int, all.len() as int)));
                    }
                },
            }
            i = i + 1;
        }
        proof {
            assert(all.subrange(0, all.len() as int) =~= all);
            assert(all.subrange(all.len() as int, all.len() as int)
                =~= Seq::<Seq<char>>::empty());
            assert(warnings.deep_view() + Seq::<Seq<char>>::empty()
                =~= warnings.deep_view());
        }
        (list, warnings)
    }

    /// First position whose task identity is at least `v`; the length when
    /// every identity is smaller.
    #[verifier::loop_isolation(false)]
    fn position(&self, v: usize) -> (r: usize)
        requires
            self.wf(),
        ensures
            r <= self.spec_tasks().len(),
            forall|k: int| 0 <= k < r ==> (#[trigger] self.spec_tasks()[k]).spec_id().spec_val()
                < v,
            forall|k: int| r <= k < self.spec_tasks().len()
                ==> (#[trigger] self.spec_tasks()[k]).spec_id().spec_val() >= v,
    {
        let mut i: usize = 0;
        while i < self.tasks.len()
            invariant
                i <= self.spec_tasks().len(),
                forall|k: int| 0 <= k < i ==> (#[trigger] self.spec_tasks()[k]).spec_id()
                    .spec_val() < v,
            decreases self.spec_tasks().len() - i,
        {
            if self.tasks[i].id().val() >= v {
                proof {
                    assert forall|k: int| i <= k < self.spec_tasks().len() implies
                        (#[trigger] self.spec_tasks()[k]).spec_id().spec_val() >= v by {
                        if k > i {
                            assert(self.spec_tasks()[i as int].spec_id().spec_val()
                                < self.spec_tasks()[k].spec_id().spec_val());
                        }
                    }
                }
                return i;
            }
            i = i + 1;
        }
        i
    }

    /// Puts `task` into the list: replaces the task with the same identity,
    /// or inserts it at its sorted position.
    pub fn upsert(&mut self, task: Task)
        requires
            old(self).wf(),
        ensures
            final(self).wf(),
            old(self).spec_has(task.spec_id()) ==> {
                &&& final(self).spec_tasks().len() == old(self).spec_tasks().len()
                &&& exists|k: int|
                    0 <= k < old(self).spec_tasks().len()
                        && (#[trigger] old(self).spec_tasks()[k]).spec_id() == task.spec_id()
                        && final(self).spec_tasks() == old(self).spec_tasks().update(k, task)
            },
            !old(self).spec_has(task.spec_id()) ==> {
                &&& final(self).spec_tasks().len() == old(self).spec_tasks().len() + 1
                &&& exists|k: int|
                    0 <= k <= old(self).spec_tasks().len() && final(self).spec_tasks()
                        == old(self).spec_tasks().insert(k, task)
            },
            final(self).spec_has(task.spec_id()),
    {
        let v = task.id().val();
        let p = self.position(v);
        let ghost pre = self.spec_tasks();
        let ghost kk = p as int;
        if p < self.tasks.len() && self.tasks[p].id().val() == v {
            proof {
                crate::task::lemma_task_id_eq(pre[kk].spec_id(), task.spec_id());
                assert(pre[kk].spec_id() == task.spec_id());
            }
            self.tasks.set(p, task);
            proof {
                assert(self.spec_tasks() == pre.update(kk, task));
                assert(self.spec_tasks()[kk].spec_id() == task.spec_id());
                assert forall|i: int, j: int|
                    0 <= i < j < self.spec_tasks().len() implies
                    (#[trigger] self.spec_tasks()[i]).spec_id().spec_val()
                    < (#[trigger] self.spec_tasks()[j]).spec_id().spec_val() by {
                    assert(pre[i].spec_id().spec_val() < pre[j].spec_id().spec_val());
                }
                assert(self.spec_has(task.spec_id()));
            }
        } else {
            proof {
                assert forall|k: int| 0 <= k < pre.len() implies
                    (#[trigger] pre[k]).spec_id() != task.spec_id() by {
                    if pre[k].spec_id().spec_val() == v {
                        crate::task::lemma_task_id_eq(pre[k].spec_id(), task.spec_id());
                    }
                    if k < kk {
                        assert(pre[k].spec_id().spec_val() < v);
                    } else {
                        assert(pre[k].spec_id().spec_val() >= v);
                        if p < pre.len() && k == kk {
                            assert(pre[k].spec_id().spec_val() != v);
                        } else if k > kk {
                            assert(pre[kk].spec_id().spec_val() < pre[k].spec_id().spec_val());
                        }
                    }
                }
                assert(!old(self).spec_has(task.spec_id()));
            }
            self.tasks.insert(p, task);
            proof {
                assert(self.spec_tasks() == pre.insert(kk, task));
                assert forall|i: int, j: int|
                    0 <= i < j < self.spec_tasks().len() implies
                    (#[trigger] self.spec_tasks()[i]).spec_id().spec_val()
                    < (#[trigger] self.spec_tasks()[j]).spec_id().spec_val() by {
                    if j < kk {
                        assert(pre[i].spec_id().spec_val() < pre[j].spec_id().spec_val());
                    } else if i < kk && j == kk {
                        assert(pre[i].spec_id().spec_val() < v);
                    } else if i < kk && j > kk {
                        assert(pre[j - 1].spec_id().spec_val() >= v);
                        assert(pre[j - 1].spec_id() != task.spec_id());
                        assert(pre[i].spec_id().spec_val() < v);
                    } else if i == kk && j > kk {
                        assert(pre[j - 1].spec_id().spec_val() >= v);
                        assert(pre[j - 1].spec_id() != task.spec_id());
                    } else {
                        assert(kk < i);
                        assert(pre[i - 1].spec_id().spec_val() < pre[j - 1].spec_id().spec_val());
                    }
                }
                assert(self.spec_tasks()[kk] == task);
                assert(self.spec_tasks()[kk].spec_id() == task.spec_id());
                assert(self.spec_has(task.spec_id()));
            }
        }
    }

    /// Index of the task with the given identity, if the list holds it.
    fn find(&self, id: TaskId) -> (r: Option<usize>)
        requires
            self.wf(),
        ensures
            match r {
                Some(k) => k < self.spec_tasks().len() && self.spec_tasks()[k as int].spec_id()
                    == id,
                None => !self.spec_has(id),
            },
    {
        let p = self.position(id.val());
        if p < self.tasks.len() && self.tasks[p].id().val() == id.val() {
            proof {
                crate::task::lemma_task_id_eq(self.spec_tasks()[p as int].spec_id(), id);
            }
            Some(p)
        } else {
            proof {
                let ts = self.spec_tasks();
                assert forall|k: int| 0 <= k < ts.len() implies (#[trigger] ts[k]).spec_id()
                    != id by {
                    if ts[k].spec_id().spec_val() == id.spec_val() {
                        crate::task::lemma_task_id_eq(ts[k].spec_id(), id);
                    }
                    if k < p {
                        assert(ts[k].spec_id().spec_val() < id.spec_val());
                    } else if p < ts.len() && k > p {
                        assert(ts[p as int].spec_id().spec_val() < ts[k].spec_id().spec_val());
                    }
                }
            }
            None
        }
    }

    /// The console line warning that the list does not hold `id`.
    fn unknown_line(&self, id: TaskId) -> (r: String)
        ensures
            r@ == spec_line(LogLevel::Error, unknown_msg(id.spec_val() as nat)),
    {
        let mut m = String::from_str("Unknown task with key ");
        let d = usize_to_string(id.val());
        m.append(d.as_str());
        self.printer.warning(m.as_str())
    }

    /// The identity the next created task gets: one for an empty list, else
    /// the first gap in the sorted identities, else one past the largest.
    #[verifier::loop_isolation(false)]
    pub fn get_next_task_id(&mut self) -> (r: TaskId)
        requires
            old(self).wf(),
            old(self).spec_tasks().len() == 0 || old(self).spec_tasks().last().spec_id()
                .spec_val() < usize::MAX,
        ensures
            *final(self) == *old(self),
            r.spec_val() == spec_next_val(old(self).spec_tasks()),
            forall|k: int| 0 <= k < old(self).spec_tasks().len()
                ==> (#[trigger] old(self).spec_tasks()[k]).spec_id().spec_val() != r.spec_val(),
    {
        let ghost ts = self.spec_tasks();
        if self.tasks.len() == 0 {
            return TaskId::new(1);
        }
        let mut index: usize = 0;
        while index + 1 < self.tasks.len()
            invariant
                index < ts.len(),
                ts == self.spec_tasks(),
                spec_gap_from(ts, 0) == spec_gap_from(ts, index as int),
            decreases ts.len() - index,
        {
            let a = self.tasks[index].id().val();
            let b = self.tasks[index + 1].id().val();
            proof {
                assert(ts[index as int].spec_id().spec_val()
                    < ts[index + 1].spec_id().spec_val());
            }
            if b != a + 1 {
                let r = TaskId::new(a + 1);
                proof {
                    assert(spec_gap_from(ts, index as int) == a + 1);
                    assert forall|k: int| 0 <= k < ts.len() implies
                        (#[trigger] ts[k]).spec_id().spec_val() != r.spec_val() by {
                        if k < index {
                            assert(ts[k].spec_id().spec_val()
                                < ts[index as int].spec_id().spec_val());
                        } else if k > index {
                            assert(ts[index as int].spec_id().spec_val()
                                < ts[k].spec_id().spec_val());
                            if k > index + 1 {
                                assert(ts[index + 1].spec_id().spec_val()
                                    < ts[k].spec_id().spec_val());
                            }
                        }
                    }
                }
                return r;
            }
            index = index + 1;
        }
        let a = self.tasks[index].id().val();
        proof {
            assert(index + 1 == ts.len());
            assert(ts.last() == ts[index as int]);
            assert(spec_gap_from(ts, index as int) == a + 1);
        }
        let r = TaskId::new(a + 1);
        proof {
            assert forall|k: int| 0 <= k < ts.len() implies (#[trigger] ts[k]).spec_id()
                .spec_val() != r.spec_val() by {
                if k < index {
                    assert(ts[k].spec_id().spec_val() < ts[index as int].spec_id().spec_val());
                }
            }
        }
        r
    }

    /// Creates a pending task from `text` under the next free identity.
    pub fn add_task(&mut self, text: &str) -> (out: Vec<String>)
        requires
            old(self).wf(),
            old(self).spec_tasks().len() == 0 || old(self).spec_tasks().last().spec_id()
                .spec_val() < usize::MAX,
        ensures
            final(self).wf(),
            spec_add_post(old(self).spec_tasks(), final(self).spec_tasks(), out.deep_view(),
                text@),
    {
        let ghost pre = self.spec_tasks();
        let id = self.get_next_task_id();
        let task = Task::new(id, text);
        proof {
            assert forall|k: int| 0 <= k < pre.len() implies (#[trigger] pre[k]).spec_id()
                != task.spec_id() by {
                assert(pre[k].spec_id().spec_val() != id.spec_val());
            }
            assert(!self.spec_has(task.spec_id()));
        }
        self.upsert(task);
        proof {
            let k = choose|k: int|
                0 <= k <= pre.len() && self.spec_tasks() == pre.insert(k, task);
            assert(self.spec_tasks()[k] == task);
        }
        let mut m = String::from_str("Task successfully created with id ");
        let d = usize_to_string(id.val());
        m.append(d.as_str());
        let line = self.printer.notice(m.as_str());
        let mut out: Vec<String> = Vec::new();
        out.push(line);
        proof {
            assert(out.deep_view() =~= seq![
                spec_line(LogLevel::Notice, created_msg(spec_next_val(pre) as nat)),
            ]);
        }
        out
    }

    /// Marks the task `id` done; warns when the list does not hold it.
    pub fn do_task(&mut self, id: TaskId) -> (out: Vec<String>)
        requires
            old(self).wf(),
        ensures
            final(self).wf(),
            spec_mark_post(old(self).spec_tasks(), final(self).spec_tasks(), out.deep_view(),
                id, TaskStatus::Done),
    {
        let ghost pre = self.spec_tasks();
        match self.find(id) {
            Some(k) => {
                let mut t = self.tasks.remove(k);
                t.mark_done();
                self.tasks.insert(k, t);
                proof {
                    assert(self.spec_tasks() =~= pre.update(k as int, t));
                    assert(self.spec_tasks()[k as int] == t);
                    assert forall|i: int, j: int|
                        0 <= i < j < self.spec_tasks().len() implies
                        (#[trigger] self.spec_tasks()[i]).spec_id().spec_val()
                        < (#[trigger] self.spec_tasks()[j]).spec_id().spec_val() by {
                        assert(pre[i].spec_id().spec_val() < pre[j].spec_id().spec_val());
                    }
                }
                let out: Vec<String> = Vec::new();
                proof {
                    assert(out.deep_view() =~= Seq::<Seq<char>>::empty());
                }
                out
            },
            None => {
                let line = self.unknown_line(id);
                let mut out: Vec<String> = Vec::new();
                out.push(line);
                proof {
                    assert(out.deep_view() =~= seq![
                        spec_line(LogLevel::Error, unknown_msg(id.spec_val() as nat)),
                    ]);
                }
                out
            },
        }
    }

    /// Marks the task `id` pending again; warns when the list does not hold
    /// it.
    pub fn undo_task(&mut self, id: TaskId) -> (out: Vec<String>)
        requires
            old(self).wf(),
        ensures
            final(self).wf(),
            spec_mark_post(old(self).spec_tasks(), final(self).spec_tasks(), out.deep_view(),
                id, TaskStatus::Pending),
    {
        let ghost pre = self.spec_tasks();
        match self.find(id) {
            Some(k) => {
                let mut t = self.tasks.remove(k);
                t.undo();
                self.tasks.insert(k, t);
                proof {
                    assert(self.spec_tasks() =~= pre.update(k as int, t));
                    assert(self.spec_tasks()[k as int] == t);
                    assert forall|i: int, j: int|
                        0 <= i < j < self.spec_tasks().len() implies
                        (#[trigger] self.spec_tasks()[i]).spec_id().spec_val()
                        < (#[trigger] self.spec_tasks()[j]).spec_id().spec_val() by {
                        assert(pre[i].spec_id().spec_val() < pre[j].spec_id().spec_val());
                    }
                }
                let out: Vec<String> = Vec::new();
                proof {
                    assert(out.deep_view() =~= Seq::<Seq<char>>::empty());
                }
                out
            },
            None => {
                let line = self.unknown_line(id);
                let mut out: Vec<String> = Vec::new();
                out.push(line);
                proof {
                    assert(out.deep_view() =~= seq![
                        spec_line(LogLevel::Error, unknown_msg(id.spec_val() as nat)),
                    ]);
                }
                out
            },
        }
    }

    /// Deletes the task `id`; warns when the list does not hold it.
    pub fn delete_task(&mut self, id: TaskId) -> (out: Vec<String>)
        requires
            old(self).wf(),
        ensures
            final(self).wf(),
            spec_delete_post(old(self).spec_tasks(), final(self).spec_tasks(), out.deep_view(),
                id),
    {
        let ghost pre = self.spec_tasks();
        match self.find(id) {
            Some(k) => {
                self.tasks.remove(k);
                proof {
                    assert(self.spec_tasks() =~= pre.remove(k as int));
                    assert forall|i: int, j: int|
                        0 <= i < j < self.spec_tasks().len() implies
                        (#[trigger] self.spec_tasks()[i]).spec_id().spec_val()
                        < (#[trigger] self.spec_tasks()[j]).spec_id().spec_val() by {
                        let pi = if i < k { i } else { i + 1 };
                        let pj = if j < k { j } else { j + 1 };
                        assert(pre[pi].spec_id().spec_val() < pre[pj].spec_id().spec_val());
                    }
                }
                let mut m = String::from_str("Task with key ");
                let d = usize_to_string(id.val());
                m.append(d.as_str());
                m.append(" successfully deleted");
                let line = self.printer.notice(m.as_str());
                let mut out: Vec<String> = Vec::new();
                out.push(line);
                proof {
                    assert(out.deep_view() =~= seq![
                        spec_line(LogLevel::Notice, deleted_msg(id.spec_val() as nat)),
                    ]);
                }
                out
            },
            None => {
                let line = self.unknown_line(id);
                let mut out: Vec<String> = Vec::new();
                out.push(line);
                proof {
                    assert(out.deep_view() =~= seq![
                        spec_line(LogLevel::Error, unknown_msg(id.spec_val() as nat)),
                    ]);
                }
                out
            },
        }
    }

    /// The console lines that list every task, one row each, in identity
    /// order.
    #[verifier::loop_isolation(false)]
    pub fn print_tasks(&self) -> (out: Vec<String>)
        ensures
            spec_rows(self.spec_tasks(), out.deep_view()),
    {
        let mut out: Vec<String> = Vec::new();
        let mut k: usize = 0;
        while k < self.tasks.len()
            invariant
                k <= self.spec_tasks().len(),
                out.deep_view().len() == k,
                forall|j: int| 0 <= j < k ==> out.deep_view()[j]
                    == row_msg(#[trigger] self.spec_tasks()[j]),
            decreases self.tasks@.len() - k,
        {
            let t = &self.tasks[k];
            let mut row = usize_to_string(t.id().val());
            row.append("\t");
            let status = t.status().val();
            row.append(status.as_str());
            row.append("\t\t");
            row.append(t.text());
            let line = self.printer.notice(row.as_str());
            let ghost prev = out.deep_view();
            out.push(line);
            proof {
                reveal_strlit("");
                assert(out.deep_view() =~= prev.push(line@));
                assert(out.deep_view()[k as int] == row_msg(self.spec_tasks()[k as int]));
            }
            k = k + 1;
        }
        out
    }

    /// The lines of the stored file: each task's stored form, in identity
    /// order.
    #[verifier::loop_isolation(false)]
    pub fn csv_lines(&self) -> (out: Vec<String>)
        ensures
            out.deep_view().len() == self.spec_tasks().len(),
            forall|k: int| 0 <= k < self.spec_tasks().len() ==> out.deep_view()[k]
                == (#[trigger] self.spec_tasks()[k]).spec_csv(),
    {
        let mut out: Vec<String> = Vec::new();
        let mut k: usize = 0;
        while k < self.tasks.len()
            invariant
                k <= self.spec_tasks().len(),
                out.deep_view().len() == k,
                forall|j: int| 0 <= j < k ==> out.deep_view()[j]
                    == (#[trigger] self.spec_tasks()[j]).spec_csv(),
            decreases self.tasks@.len() - k,
        {
            let line = self.tasks[k].to_csv();
            let ghost prev = out.deep_view();
            out.push(line);
            proof {
                assert(out.deep_view() =~= prev.push(line@));
            }
            k = k + 1;
        }
        out
    }

    /// Applies one command to the list and hands back the console lines it
    /// produces. Exiting is not the list's concern: it changes nothing.
    pub fn execute(&mut self, command: Command) -> (out: Vec<String>)
        requires
            old(self).wf(),
            command matches Command::Add(_) ==> old(self).spec_tasks().len() == 0
                || old(self).spec_tasks().last().spec_id().spec_val() < usize::MAX,
        ensures
            final(self).wf(),
            match command {
                Command::Add(text) => spec_add_post(old(self).spec_tasks(),
                    final(self).spec_tasks(), out.deep_view(), text@),
                Command::Delete(id) => spec_delete_post(old(self).spec_tasks(),
                    final(self).spec_tasks(), out.deep_view(), id),
                Command::Do(id) => spec_mark_post(old(self).spec_tasks(),
                    final(self).spec_tasks(), out.deep_view(), id, TaskStatus::Done),
                Command::UnDo(id) => spec_mark_post(old(self).spec_tasks(),
                    final(self).spec_tasks(), out.deep_view(), id, TaskStatus::Pending),
                Command::List => *final(self) == *old(self)
                    && spec_rows(old(self).spec_tasks(), out.deep_view()),
                Command::Exit => *final(self) == *old(self)
                    && out.deep_view() == Seq::<Seq<char>>::empty(),
            },
    {
        match command {
            Command::Add(text) => self.add_task(text.as_str()),
            Command::Delete(id) => self.delete_task(id),
            Command::Do(id) => self.do_task(id),
            Command::List => self.print_tasks(),
            Command::UnDo(id) => self.undo_task(id),
            Command::Exit => {
                let out: Vec<String> = Vec::new();
                proof {
                    assert(out.deep_view() =~= Seq::<Seq<char>>::empty());
                }
                out
            },
        }
    }
}

} // verus!
