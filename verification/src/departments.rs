//! A console registry of employees by department, driven by three actions:
//! `Add <employee> to <department>`, `Show <department>`, and `Exit`.

use vstd::prelude::*;

verus! {

use vstd::string::StrSliceExecFns;
use vstd::string::StringExecFns;
use crate::text;

/// An ASCII word character: what the action patterns accept in a name,
/// besides further word characters of other scripts.
pub open spec fn is_ascii_word_char(c: char) -> bool {
    ('0' <= c && c <= '9') || ('a' <= c && c <= 'z') || ('A' <= c && c <= 'Z') || c == '_'
}

/// A non-empty run of ASCII word characters.
pub open spec fn spec_ascii_word(s: Seq<char>) -> bool {
    s.len() > 0 && forall|i: int| 0 <= i < s.len() ==> is_ascii_word_char(#[trigger] s[i])
}

/// A non-empty name as an add or show action yields it: it never holds
/// white space, so the surrounding action text decomposes unambiguously.
pub open spec fn spec_name(s: Seq<char>) -> bool {
    s.len() > 0 && forall|i: int| 0 <= i < s.len() ==> !text::is_space_char(#[trigger] s[i])
}

/// Whether `a` is an add action over ASCII names.
pub open spec fn spec_add_shape(a: Seq<char>) -> bool {
    exists|e: Seq<char>, d: Seq<char>|
        a == "Add "@ + e + " to "@ + d && spec_ascii_word(e) && spec_ascii_word(d)
}

/// Whether `a` is a show action over an ASCII name.
pub open spec fn spec_show_shape(a: Seq<char>) -> bool {
    exists|d: Seq<char>| a == "Show "@ + d && spec_ascii_word(d)
}

/// Whether `a` begins with the exit keyword.
pub open spec fn spec_exit_shape(a: Seq<char>) -> bool {
    a.len() >= 4 && a.subrange(0, 4) == "Exit"@
}

/// Relies on `regex::Regex::captures` with the pattern
/// `^Add (?P<employee>\w+) to (?P<department>\w+)$`: a match hands out two
/// non-empty names free of white space that reassemble the action, and an
/// action of that shape over ASCII word characters always matches.
#[verifier::external_body]
fn match_add(action: &str) -> (r: Option<(String, String)>)
    ensures
        r matches Some(p) ==> action@ == "Add "@ + p.0@ + " to "@ + p.1@ && spec_name(p.0@)
            && spec_name(p.1@),
        spec_add_shape(action@) ==> r is Some,
{
    let re = regex::Regex::new("^Add (?P<employee>\\w+) to (?P<department>\\w+)$").unwrap();
    re.captures(action).map(|c| (c["employee"].to_string(), c["department"].to_string()))
}

/// Relies on `regex::Regex::captures` with the pattern
/// `^Show (?P<department>\w+)$`: a match hands out one non-empty name free
/// of white space that reassembles the action, and an action of that shape
/// over ASCII word characters always matches.
#[verifier::external_body]
fn match_show(action: &str) -> (r: Option<String>)
    ensures
        r matches Some(d) ==> action@ == "Show "@ + d@ && spec_name(d@),
        spec_show_shape(action@) ==> r is Some,
{
    let re = regex::Regex::new("^Show (?P<department>\\w+)$").unwrap();
    re.captures(action).map(|c| c["department"].to_string())
}

/// Relies on `regex::Regex::is_match` with the pattern `^Exit`: it matches
/// exactly the strings that begin with `Exit`.
#[verifier::external_body]
fn match_exit(action: &str) -> (r: bool)
    ensures
        r == spec_exit_shape(action@),
{
    let re = regex::Regex::new("^Exit").unwrap();
    re.is_match(action)
}

/// What recording `employee` under `department` leaves behind: appended to
/// the department's employees, or a new department at the end.
pub open spec fn spec_added(
    pre: Seq<(String, Vec<String>)>,
    post: Seq<(String, Vec<String>)>,
    department: Seq<char>,
    employee: Seq<char>,
) -> bool {
    if exists|k: int| 0 <= k < pre.len() && (#[trigger] pre[k]).0@ == department {
        &&& post.len() == pre.len()
        &&& exists|k: int|
            {
                &&& 0 <= k < pre.len()
                &&& (#[trigger] pre[k]).0@ == department
                &&& post == pre.update(k, post[k])
                &&& post[k].0@ == department
                &&& post[k].1@.len() == pre[k].1@.len() + 1
                &&& post[k].1@ == pre[k].1@.push(post[k].1@.last())
                &&& post[k].1@.last()@ == employee
            }
    } else {
        &&& post.len() == pre.len() + 1
        &&& post == pre.push(post.last())
        &&& post.last().0@ == department
        &&& post.last().1@.len() == 1
        &&& post.last().1@[0]@ == employee
    }
}

/// Employees grouped by department, each department listed once, in the
/// order departments were first added.
pub struct Registry {
    departments: Vec<(String, Vec<String>)>,
}

impl Registry {
    /// The departments and their employees, in insertion order.
    pub closed spec fn spec_departments(&self) -> Seq<(String, Vec<String>)> {
        self.departments@
    }

    /// Well-formedness: department names occur once.
    pub open spec fn wf(&self) -> bool {
        forall|i: int, j: int|
            0 <= i < j < self.spec_departments().len()
                ==> (#[trigger] self.spec_departments()[i]).0@
                != (#[trigger] self.spec_departments()[j]).0@
    }

    /// Whether a department of this name is listed.
    pub open spec fn spec_has(&self, department: Seq<char>) -> bool {
        exists|k: int|
            0 <= k < self.spec_departments().len()
                && (#[trigger] self.spec_departments()[k]).0@ == department
    }

    /// An empty registry.
    pub fn new() -> (r: Self)
        ensures
            r.wf(),
            r.spec_departments() == Seq::<(String, Vec<String>)>::empty(),
    {
        Self { departments: Vec::new() }
    }

    /// Index of the department with the given name, if it is listed.
    #[verifier::loop_isolation(false)]
    fn find(&self, department: &str) -> (r: Option<usize>)
        ensures
            match r {
                Some(k) => k < self.spec_departments().len()
                    && self.spec_departments()[k as int].0@ == department@,
                None => !self.spec_has(department@),
            },
    {
        let mut i: usize = 0;
        while i < self.departments.len()
            invariant
                i <= self.spec_departments().len(),
                forall|k: int| 0 <= k < i ==> (#[trigger] self.spec_departments()[k]).0@
                    != department@,
            decreases self.spec_departments().len() - i,
        {
            if text::str_eq(self.departments[i].0.as_str(), department) {
                return Some(i);
            }
            i = i + 1;
        }
        None
    }

    /// Records `employee` under `department`: appended to the department's
    /// list, which is created at the end when the name is new.
    pub fn add_employee(&mut self, department: &str, employee: &str)
        requires
            old(self).wf(),
        ensures
            final(self).wf(),
            spec_added(old(self).spec_departments(), final(self).spec_departments(),
                department@, employee@),
    {
        let ghost pre = self.spec_departments();
        match self.find(department) {
            Some(k) => {
                let ghost kk = k as int;
                let mut entry = self.departments.remove(k);
                entry.1.push(employee.to_owned());
                self.departments.insert(k, entry);
                proof {
                    assert(self.spec_departments() =~= pre.update(kk,
                        self.spec_departments()[kk]));
                    assert forall|i: int, j: int|
                        0 <= i < j < self.spec_departments().len() implies
                        (#[trigger] self.spec_departments()[i]).0@
                        != (#[trigger] self.spec_departments()[j]).0@ by {
                        assert(pre[i].0@ != pre[j].0@);
                        assert(self.spec_departments()[i].0@ == pre[i].0@);
                        assert(self.spec_departments()[j].0@ == pre[j].0@);
                    }
                }
            },
            None => {
                let mut employees: Vec<String> = Vec::new();
                employees.push(employee.to_owned());
                self.departments.push((department.to_owned(), employees));
                proof {
                    assert(self.spec_departments() =~= pre.push(
                        self.spec_departments().last()));
                    assert forall|i: int, j: int|
                        0 <= i < j < self.spec_departments().len() implies
                        (#[trigger] self.spec_departments()[i]).0@
                        != (#[trigger] self.spec_departments()[j]).0@ by {
                        if j < pre.len() {
                            assert(pre[i].0@ != pre[j].0@);
                        } else {
                            assert(self.spec_departments()[j].0@ == department@);
                            assert(self.spec_departments()[i] == pre[i]);
                        }
                    }
                }
            },
        }
    }

    /// The names recorded under `department`, joined by comma and space, if
    /// the department is listed.
    #[verifier::loop_isolation(false)]
    pub fn employees_joined(&self, department: &str) -> (r: Option<String>)
        ensures
            r is Some <==> self.spec_has(department@),
            r matches Some(s) ==> exists|k: int|
                {
                    &&& 0 <= k < self.spec_departments().len()
                    &&& (#[trigger] self.spec_departments()[k]).0@ == department@
                    &&& s@ == spec_joined(self.spec_departments()[k].1@, 0)
                },
    {
        match self.find(department) {
            Some(k) => {
                let names = &self.departments[k].1;
                let ghost ns = names@;
                let mut s = String::new();
                let mut i: usize = 0;
                while i < names.len()
                    invariant
                        i <= ns.len(),
                        ns == names@,
                        spec_joined(ns, 0) == s@ + spec_joined(ns, i as int),
                    decreases ns.len() - i,
                {
                    let ghost s0 = s@;
                    if i > 0 {
                        s.append(", ");
                    }
                    s.append(names[i].as_str());
                    proof {
                        if i > 0 {
                            assert(s@ =~= s0 + ", "@ + ns[i as int]@);
                            assert(s0 + (", "@ + ns[i as int]@ + spec_joined(ns, i + 1))
                                =~= s@ + spec_joined(ns, i + 1));
                        } else {
                            assert(s0 =~= Seq::<char>::empty());
                            assert(s@ =~= ns[0]@);
                            assert(s0 + (ns[0]@ + spec_joined(ns, 1))
                                =~= s@ + spec_joined(ns, 1));
                        }
                    }
                    i = i + 1;
                }
                proof {
                    assert(spec_joined(ns, i as int) =~= Seq::<char>::empty());
                    assert(s@ + Seq::<char>::empty() =~= s@);
                    assert(self.spec_departments()[k as int].0@ == department@);
                }
                Some(s)
            },
            None => None,
        }
    }
}

/// The names from position `i` on, joined by comma and space, with no
/// separator before the first.
pub open spec fn spec_joined(names: Seq<String>, i: int) -> Seq<char>
    decreases names.len() - i,
{
    if i < 0 || i >= names.len() {
        Seq::empty()
    } else if i == 0 {
        names[0]@ + spec_joined(names, 1)
    } else {
        ", "@ + names[i]@ + spec_joined(names, i + 1)
    }
}

/// What one console turn does: the registry change, the reply to show, and
/// whether the session ends. An action is read as an add, a show, an exit,
/// or nothing, in that order.
pub open spec fn spec_respond(
    pre: Seq<(String, Vec<String>)>,
    post: Seq<(String, Vec<String>)>,
    action: Seq<char>,
    reply: Seq<char>,
    quit: bool,
) -> bool {
    ||| (exists|e: Seq<char>, d: Seq<char>|
        {
            &&& action == "Add "@ + e + " to "@ + d
            &&& spec_name(e)
            &&& spec_name(d)
            &&& spec_added(pre, post, d, e)
            &&& reply == "Employee "@ + e + " added to the "@ + d + " deparment"@
            &&& !quit
        })
    ||| (exists|d: Seq<char>|
        {
            &&& action == "Show "@ + d
            &&& spec_name(d)
            &&& post == pre
            &&& !quit
            &&& if exists|k: int| 0 <= k < pre.len() && (#[trigger] pre[k]).0@ == d {
                exists|k: int|
                    {
                        &&& 0 <= k < pre.len()
                        &&& (#[trigger] pre[k]).0@ == d
                        &&& reply == "The employees of the "@ + d + " department are: "@
                            + spec_joined(pre[k].1@, 0)
                    }
            } else {
                reply == "The department "@ + d + " does not exists!"@
            }
        })
    ||| (spec_exit_shape(action) && post == pre && quit && reply == Seq::<char>::empty())
    ||| (post == pre && reply == "Unknwon action!"@ && !quit)
}

impl Registry {
    /// Performs one console turn: reads the action, changes the registry as
    /// it asks, and hands back the reply and whether the session ends. An
    /// action in one of the three shapes over ASCII names is never read as
    /// unknown.
    pub fn respond(&mut self, action: &str) -> (r: (String, bool))
        requires
            old(self).wf(),
        ensures
            final(self).wf(),
            spec_respond(old(self).spec_departments(), final(self).spec_departments(),
                action@, r.0@, r.1),
            spec_add_shape(action@) ==> !(*final(self) == *old(self) && r.0@
                == "Unknwon action!"@),
            spec_show_shape(action@) ==> *final(self) == *old(self) && !r.1,
    {
        match match_add(action) {
            Some((employee, department)) => {
                self.add_employee(department.as_str(), employee.as_str());
                let mut reply = String::from_str("Employee ");
                reply.append(employee.as_str());
                reply.append(" added to the ");
                reply.append(department.as_str());
                reply.append(" deparment");
                proof {
                    assert(reply@ =~= "Employee "@ + employee@ + " added to the "@
                        + department@ + " deparment"@);
                    reveal_strlit("Add ");
                    reveal_strlit("Show ");
                    if spec_show_shape(action@) {
                        let d2 = choose|d2: Seq<char>|
                            action@ == "Show "@ + d2 && spec_ascii_word(d2);
                        assert(action@ == "Add "@ + employee@ + " to "@ + department@);
                        assert(action@[0] == 'A');
                        assert(action@ == "Show "@ + d2);
                        assert(action@[0] == 'S');
                    }
                }
                return (reply, false);
            },
            None => {},
        }
        match match_show(action) {
            Some(department) => {
                let mut reply;
                match self.employees_joined(department.as_str()) {
                    Some(joined) => {
                        reply = String::from_str("The employees of the ");
                        reply.append(department.as_str());
                        reply.append(" department are: ");
                        reply.append(joined.as_str());
                        proof {
                            assert(reply@ =~= "The employees of the "@ + department@
                                + " department are: "@ + joined@);
                        }
                    },
                    None => {
                        reply = String::from_str("The department ");
                        reply.append(department.as_str());
                        reply.append(" does not exists!");
                        proof {
                            assert(reply@ =~= "The department "@ + department@
                                + " does not exists!"@);
                        }
                    },
                }
                return (reply, false);
            },
            None => {},
        }
        if match_exit(action) {
            return (String::new(), true);
        }
        (String::from_str("Unknwon action!"), false)
    }
}

} // verus!
