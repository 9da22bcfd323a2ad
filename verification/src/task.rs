//! Tasks of the to-do list: identities, states, and their rendering.

use vstd::prelude::*;

verus! {

use vstd::string::StringExecFns;
use crate::text;

/// State of a task: still to be done, or done.
#[derive(PartialEq, Eq, Structural, Debug, Clone, Copy)]
pub enum TaskStatus {
    Pending,
    Done,
}

impl TaskStatus {
    /// The textual form of this status.
    pub open spec fn spec_val(&self) -> Seq<char> {
        match self {
            TaskStatus::Pending => "pending"@,
            TaskStatus::Done => "done"@,
        }
    }

    /// Renders this status as its textual form.
    pub fn val(&self) -> (r: String)
        ensures
            r@ == self.spec_val(),
    {
        match self {
            TaskStatus::Pending => String::from_str("pending"),
            TaskStatus::Done => String::from_str("done"),
        }
    }
}

/// Identity of a task: a positive position in the list's numbering.
#[derive(PartialEq, Eq, Structural, Debug, Clone, Copy, Hash)]
pub struct TaskId(usize);

impl TaskId {
    /// The number this identity wraps.
    pub closed spec fn spec_val(&self) -> usize {
        self.0
    }

    /// Wraps a number as a task identity.
    pub fn new(id: usize) -> (r: Self)
        ensures
            r.spec_val() == id,
    {
        Self(id)
    }

    /// The number this identity wraps.
    pub fn val(&self) -> (r: usize)
        ensures
            r == self.spec_val(),
    {
        self.0
    }
}

/// Two task identities wrapping the same number are the same identity.
pub proof fn lemma_task_id_eq(a: TaskId, b: TaskId)
    requires
        a.spec_val() == b.spec_val(),
    ensures
        a == b,
{
    let TaskId(x) = a;
    let TaskId(y) = b;
    assert(a == TaskId(x));
    assert(b == TaskId(y));
}

impl PartialOrd for TaskId {
    fn gt(&self, other: &Self) -> (r: bool) {
        self.0 > other.0
    }

    fn ge(&self, other: &Self) -> (r: bool) {
        self.0 >= other.0
    }

    fn lt(&self, other: &Self) -> (r: bool) {
        self.0 < other.0
    }

    fn le(&self, other: &Self) -> (r: bool) {
        self.0 <= other.0
    }

    fn partial_cmp(&self, other: &Self) -> (r: Option<core::cmp::Ordering>) {
        if self.0 > other.0 {
            Some(core::cmp::Ordering::Greater)
        } else if self.0 < other.0 {
            Some(core::cmp::Ordering::Less)
        } else {
            Some(core::cmp::Ordering::Equal)
        }
    }
}

impl vstd::std_specs::cmp::PartialOrdSpecImpl for TaskId {
    open spec fn obeys_partial_cmp_spec() -> bool {
        true
    }

    open spec fn partial_cmp_spec(&self, other: &Self) -> Option<core::cmp::Ordering> {
        if self.spec_val() > other.spec_val() {
            Some(core::cmp::Ordering::Greater)
        } else if self.spec_val() < other.spec_val() {
            Some(core::cmp::Ordering::Less)
        } else {
            Some(core::cmp::Ordering::Equal)
        }
    }
}

/// The decimal rendering of `n`, most significant digit first, no sign and
/// no leading zero except for zero itself.
pub open spec fn spec_digits_of(n: nat) -> Seq<char>
    decreases n,
{
    if n < 10 {
        seq![(((n as u8) + 48) as char)]
    } else {
        spec_digits_of(n / 10).push((((n % 10) as u8 + 48) as char))
    }
}

/// Renders a number in decimal.
pub fn usize_to_string(n: usize) -> (r: String)
    ensures
        r@ == spec_digits_of(n as nat),
    decreases n,
{
    if n < 10 {
        let mut r = String::new();
        text::push_char(&mut r, ((n as u8) + 48) as char);
        proof {
            assert(r@ =~= spec_digits_of(n as nat));
        }
        r
    } else {
        let mut r = usize_to_string(n / 10);
        text::push_char(&mut r, ((n % 10) as u8 + 48) as char);
        r
    }
}

/// The text of a task as stored: the given text with every semicolon
/// removed, so that the text never collides with the field separator.
pub open spec fn spec_clean_text(s: Seq<char>) -> Seq<char> {
    s.filter(|c: char| c != ';')
}

/// Removes every semicolon of `s`.
fn clean_text(s: &str) -> (r: String)
    ensures
        r@ == spec_clean_text(s@),
{
    broadcast use vstd::string::group_string_axioms;

    let n = s.unicode_len();
    let mut r = String::new();
    let mut i: usize = 0;
    proof {
        reveal(Seq::filter);
        assert(s@.subrange(0, 0) =~= Seq::<char>::empty());
        assert(r@ =~= s@.subrange(0, 0).filter(|c: char| c != ';'));
    }
    while i < n
        invariant
            i <= n,
            n == s@.len(),
            r@ == s@.subrange(0, i as int).filter(|c: char| c != ';'),
        decreases n - i,
    {
        let c = s.get_char(i);
        proof {
            reveal(Seq::filter);
            assert(s@.subrange(0, i + 1).drop_last() =~= s@.subrange(0, i as int));
            assert(s@.subrange(0, i + 1).last() == s@[i as int]);
        }
        if c != ';' {
            text::push_char(&mut r, c);
        }
        i = i + 1;
    }
    proof {
        assert(s@.subrange(0, n as int) =~= s@);
    }
    r
}

/// One entry of the to-do list: an identity, a state, and a text free of
/// semicolons.
#[derive(Debug)]
pub struct Task {
    id: TaskId,
    status: TaskStatus,
    text: String,
}

impl Task {
    /// The entry's identity.
    pub closed spec fn spec_id(&self) -> TaskId {
        self.id
    }

    /// The entry's state.
    pub closed spec fn spec_status(&self) -> TaskStatus {
        self.status
    }

    /// The entry's stored text.
    pub closed spec fn spec_text(&self) -> Seq<char> {
        self.text@
    }

    /// Builds a task from all its parts; semicolons are stripped from the
    /// text.
    pub fn from_parts(id: TaskId, status: TaskStatus, text: &str) -> (r: Self)
        ensures
            r.spec_id() == id,
            r.spec_status() == status,
            r.spec_text() == spec_clean_text(text@),
    {
        Self { id, status, text: clean_text(text) }
    }

    /// Builds a pending task; semicolons are stripped from the text.
    pub fn new(id: TaskId, text: &str) -> (r: Self)
        ensures
            r.spec_id() == id,
            r.spec_status() == TaskStatus::Pending,
            r.spec_text() == spec_clean_text(text@),
    {
        Self { id, status: TaskStatus::Pending, text: clean_text(text) }
    }

    /// Marks the entry done.
    pub fn mark_done(&mut self)
        ensures
            final(self).spec_id() == old(self).spec_id(),
            final(self).spec_status() == TaskStatus::Done,
            final(self).spec_text() == old(self).spec_text(),
    {
        self.status = TaskStatus::Done;
    }

    /// Marks the entry pending again.
    pub fn undo(&mut self)
        ensures
            final(self).spec_id() == old(self).spec_id(),
            final(self).spec_status() == TaskStatus::Pending,
            final(self).spec_text() == old(self).spec_text(),
    {
        self.status = TaskStatus::Pending;
    }

    /// The entry's identity.
    pub fn id(&self) -> (r: &TaskId)
        ensures
            *r == self.spec_id(),
    {
        &self.id
    }

    /// The entry's state.
    pub fn status(&self) -> (r: &TaskStatus)
        ensures
            *r == self.spec_status(),
    {
        &self.status
    }

    /// The entry's stored text.
    pub fn text(&self) -> (r: &str)
        ensures
            r@ == self.spec_text(),
    {
        self.text.as_str()
    }

    /// The entry's line in the stored file: identity, state and text,
    /// separated by semicolons.
    pub open spec fn spec_csv(&self) -> Seq<char> {
        spec_digits_of(self.spec_id().spec_val() as nat) + ";"@ + self.spec_status().spec_val()
            + ";"@ + self.spec_text()
    }

    /// Renders the entry as its stored line.
    pub fn to_csv(&self) -> (r: String)
        ensures
            r@ == self.spec_csv(),
    {
        let r = usize_to_string(self.id.val());
        let r = r.concat(";");
        let r = r.concat(self.status.val().as_str());
        let r = r.concat(";");
        let r = r.concat(self.text.as_str());
        r
    }
}

} // verus!
