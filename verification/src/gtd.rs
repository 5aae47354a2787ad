//! The task-organization data model: Tasks grouped into Projects and Lists,
//! Lists grouped into a File, with derived completion status.

use vstd::prelude::*;

verus! {

/// Completion state of a single Task. A Project's status is never stored;
/// it is derived from its Tasks on every query.
#[derive(Copy, Clone, PartialEq, Eq, Structural, Debug)]
pub enum Status {
    TODO,
    DONE,
}

/// What went wrong: a failed forced lookup, a name collision found by an
/// insertion guard, or unrecognized textual input.
#[derive(Copy, Clone, PartialEq, Eq, Structural, Debug)]
pub enum ErrorKind {
    NotFound,
    AlreadyExists,
    InvalidInput,
}

/// A failure value: a kind plus a message. For `ErrorKind::InvalidInput`
/// the message carries the offending string.
#[derive(Debug)]
pub struct Error {
    pub kind: ErrorKind,
    pub message: String,
}

/// `c` is an ASCII capital letter.
pub open spec fn is_ascii_upper(c: char) -> bool {
    65 <= c as u32 <= 90
}

/// `a` and `b` are the same character up to ASCII case.
pub open spec fn chars_eq_ci(a: char, b: char) -> bool {
    ||| a == b
    ||| (is_ascii_upper(a) && a as u32 + 32 == b as u32)
    ||| (is_ascii_upper(b) && b as u32 + 32 == a as u32)
}

/// `a` and `b` are the same string up to ASCII case.
pub open spec fn str_eq_ci(a: Seq<char>, b: Seq<char>) -> bool {
    a.len() == b.len() && (forall|i: int| 0 <= i < a.len() ==> chars_eq_ci(a[i], b[i]))
}

/// Exact string equality on the character sequences.
pub fn str_eq(a: &str, b: &str) -> (r: bool)
    ensures
        r == (a@ == b@),
{
    let n = a.unicode_len();
    let m = b.unicode_len();
    if n != m {
        proof {
            assert(a@ != b@) by {
                assert(a@.len() != b@.len());
            }
        }
        return false;
    }
    let mut i: usize = 0;
    while i < n
        invariant
            n == a@.len(),
            n == b@.len(),
            i <= n,
            forall|j: int| 0 <= j < i ==> a@[j] == b@[j],
        decreases n - i,
    {
        if a.get_char(i) != b.get_char(i) {
            return false;
        }
        i += 1;
    }
    proof {
        assert(a@ =~= b@);
    }
    true
}

/// String equality up to ASCII case, on the character sequences.
pub fn str_eq_ignore_ascii_case(a: &str, b: &str) -> (r: bool)
    ensures
        r == str_eq_ci(a@, b@),
{
    let n = a.unicode_len();
    let m = b.unicode_len();
    if n != m {
        return false;
    }
    let mut i: usize = 0;
    while i < n
        invariant
            n == a@.len(),
            n == b@.len(),
            i <= n,
            forall|j: int| 0 <= j < i ==> chars_eq_ci(a@[j], b@[j]),
        decreases n - i,
    {
        let x = a.get_char(i) as u32;
        let y = b.get_char(i) as u32;
        let same = x == y || (65 <= x && x <= 90 && x + 32 == y) || (65 <= y && y <= 90 && y + 32 == x);
        if !same {
            return false;
        }
        i += 1;
    }
    true
}

impl Status {
    /// True iff this value is `Status::DONE`.
    pub open spec fn spec_is_done(&self) -> bool {
        *self == Status::DONE
    }

    /// Parses a textual status hint: absence, the empty string, or "done"
    /// (any ASCII case) mean DONE; "todo" (any ASCII case) means TODO; any
    /// other string is invalid input, reported with the offending string.
    pub fn parse(source: &Option<String>) -> (r: Result<Status, Error>)
        ensures
            match source {
                None => r == Ok::<Status, Error>(Status::DONE),
                Some(s) => {
                    &&& (s@.len() == 0 || str_eq_ci(s@, "done"@)) ==> r == Ok::<Status, Error>(
                        Status::DONE,
                    )
                    &&& (s@.len() != 0 && !str_eq_ci(s@, "done"@) && str_eq_ci(s@, "todo"@))
                        ==> r == Ok::<Status, Error>(Status::TODO)
                    &&& (s@.len() != 0 && !str_eq_ci(s@, "done"@) && !str_eq_ci(s@, "todo"@)) ==> {
                        &&& r is Err
                        &&& r->Err_0.kind == ErrorKind::InvalidInput
                        &&& r->Err_0.message@ == s@
                    }
                },
            },
    {
        match source {
            None => Ok(Status::DONE),
            Some(status) => {
                if status.as_str().unicode_len() == 0
                    || str_eq_ignore_ascii_case(status.as_str(), "done") {
                    Ok(Status::DONE)
                } else if str_eq_ignore_ascii_case(status.as_str(), "todo") {
                    Ok(Status::TODO)
                } else {
                    Err(Error { kind: ErrorKind::InvalidInput, message: status.clone() })
                }
            },
        }
    }
}

/// A leaf unit of work: a name, an optional description, an explicit
/// mutable status, and an ordered sequence of context labels.
#[derive(Debug)]
pub struct Task {
    pub name: String,
    pub description: Option<String>,
    pub status: Status,
    pub contexts: Vec<String>,
}

impl Task {
    /// True iff the task's stored status is DONE.
    pub open spec fn spec_done(&self) -> bool {
        self.status.spec_is_done()
    }

    /// A fresh Task always starts in the TODO state, with no contexts.
    pub fn new(name: String, description: Option<String>) -> (t: Task)
        ensures
            t.name == name,
            t.description == description,
            t.status == Status::TODO,
            t.contexts@ == Seq::<String>::empty(),
    {
        Task { name, description, status: Status::TODO, contexts: Vec::new() }
    }

    /// True iff the task's status is DONE.
    pub fn done(&self) -> (r: bool)
        ensures
            r == self.spec_done(),
    {
        matches!(self.status, Status::DONE)
    }
}

/// A newly constructed Task is never done: TODO means pending.
pub proof fn lemma_new_task_pending(t: Task)
    requires
        t.status == Status::TODO,
    ensures
        !t.spec_done(),
{
}

/// Some context label in `s` equals `target` exactly.
pub open spec fn ctx_named(s: Seq<String>, target: Seq<char>) -> bool {
    exists|i: int| 0 <= i < s.len() && s[i]@ == target
}

/// Some Task in `s` is named `name` exactly.
pub open spec fn task_named(s: Seq<Task>, name: Seq<char>) -> bool {
    exists|i: int| 0 <= i < s.len() && s[i].name@ == name
}

/// The number of Tasks in `s` whose status is DONE.
pub open spec fn done_count(s: Seq<Task>) -> nat
    decreases s.len(),
{
    if s.len() == 0 {
        0
    } else {
        done_count(s.drop_last()) + if s.last().spec_done() {
            1nat
        } else {
            0nat
        }
    }
}

/// `s` is non-empty and every Task in it is DONE. An empty Task sequence is
/// deliberately not considered "all done".
pub open spec fn all_done(s: Seq<Task>) -> bool {
    s.len() > 0 && (forall|i: int| 0 <= i < s.len() ==> s[i].spec_done())
}

/// No more Tasks are done than there are Tasks.
pub proof fn lemma_done_count_le(s: Seq<Task>)
    ensures
        done_count(s) <= s.len(),
    decreases s.len(),
{
    if s.len() > 0 {
        lemma_done_count_le(s.drop_last());
    }
}

/// Every Task is done exactly when the done count reaches the length.
pub proof fn lemma_done_count_all(s: Seq<Task>)
    ensures
        (done_count(s) == s.len()) <==> (forall|i: int| 0 <= i < s.len() ==> s[i].spec_done()),
    decreases s.len(),
{
    if s.len() > 0 {
        let d = s.drop_last();
        lemma_done_count_all(d);
        lemma_done_count_le(d);
        assert(forall|i: int| 0 <= i < d.len() ==> d[i] == s[i]);
        if done_count(s) == s.len() {
            assert(s.last().spec_done());
            assert forall|i: int| 0 <= i < s.len() implies s[i].spec_done() by {
                if i < s.len() - 1 {
                    assert(d[i].spec_done());
                } else {
                    assert(s[i] == s.last());
                }
            }
        }
        if forall|i: int| 0 <= i < s.len() ==> s[i].spec_done() {
            assert forall|i: int| 0 <= i < d.len() implies d[i].spec_done() by {
                assert(s[i].spec_done());
            }
            assert(s.last().spec_done());
            assert(done_count(s) == s.len());
        }
    }
}

/// The context-tagging capability: an ordered sequence of free-text labels
/// with membership test and unconditional append. Implemented by Task,
/// Project and List.
pub trait ContextContainer: Sized {
    /// The model of this value's context labels.
    spec fn ctx_seq(&self) -> Seq<String>;

    /// All state of `self` other than the context labels equals that of `other`.
    spec fn eq_except_contexts(&self, other: Self) -> bool;

    fn contexts(&self) -> (r: &Vec<String>)
        ensures
            r@ == self.ctx_seq(),
    ;

    fn contexts_mut(&mut self) -> (r: &mut Vec<String>)
        ensures
            r@ == old(self).ctx_seq(),
            final(self).ctx_seq() == final(r)@,
            old(self).eq_except_contexts(*final(self)),
    ;

    /// True iff some label equals `target` exactly: case-sensitive, no
    /// normalization.
    fn has_context(&self, target: &str) -> (r: bool)
        ensures
            r == ctx_named(self.ctx_seq(), target@),
    {
        let cs = self.contexts();
        let mut i: usize = 0;
        while i < cs.len()
            invariant
                cs@ == self.ctx_seq(),
                i <= cs@.len(),
                forall|j: int| 0 <= j < i ==> cs@[j]@ != target@,
            decreases cs@.len() - i,
        {
            if str_eq(cs[i].as_str(), target) {
                assert(self.ctx_seq()[i as int]@ == target@);
                return true;
            }
            i += 1;
        }
        false
    }

    /// Appends a label: no deduplication, insertion order preserved.
    fn push_context(&mut self, context: String)
        ensures
            final(self).ctx_seq() == old(self).ctx_seq().push(context),
            old(self).eq_except_contexts(*final(self)),
    {
        self.contexts_mut().push(context);
    }
}

/// The Task container capability: positional lookup, name-keyed existence
/// checks, append, positional removal, and completion aggregation.
/// Implemented by Project and List.
pub trait TaskContainer: Sized {
    /// The model of this container: its owned sequence of Tasks.
    spec fn task_seq(&self) -> Seq<Task>;

    /// All state of `self` other than the owned Tasks equals that of `other`.
    spec fn eq_except_tasks(&self, other: Self) -> bool;

    fn tasks(&self) -> (r: &Vec<Task>)
        ensures
            r@ == self.task_seq(),
    ;

    fn tasks_mut(&mut self) -> (r: &mut Vec<Task>)
        ensures
            r@ == old(self).task_seq(),
            final(self).task_seq() == final(r)@,
            old(self).eq_except_tasks(*final(self)),
    ;

    /// Positional access; absent (not an error) when out of bounds.
    fn get_task(&self, index: usize) -> (r: Option<&Task>)
        ensures
            index < self.task_seq().len() ==> r is Some && *r.unwrap() == self.task_seq()[index as int],
            index >= self.task_seq().len() ==> r is None,
    {
        let ts = self.tasks();
        if index < ts.len() {
            Some(&ts[index])
        } else {
            None
        }
    }

    /// Positional mutable access; absent when out of bounds.
    fn get_task_mut(&mut self, index: usize) -> (r: Option<&mut Task>)
        ensures
            index >= old(self).task_seq().len() ==> r is None
                && final(self).task_seq() == old(self).task_seq()
                && old(self).eq_except_tasks(*final(self)),
            index < old(self).task_seq().len() ==> r is Some
                && *r.unwrap() == old(self).task_seq()[index as int]
                && final(self).task_seq()
                    == old(self).task_seq().update(index as int, *final(r.unwrap()))
                && old(self).eq_except_tasks(*final(self)),
    {
        let ts = self.tasks_mut();
        if index < ts.len() {
            Some(&mut ts[index])
        } else {
            None
        }
    }

    /// The same lookup as `get_task`, but an out-of-bounds index is a
    /// NotFound failure instead of an absent result.
    fn get_task_forced(&self, index: usize) -> (r: Result<&Task, Error>)
        ensures
            index < self.task_seq().len() ==> r is Ok && *r->Ok_0 == self.task_seq()[index as int],
            index >= self.task_seq().len() ==> r is Err && r->Err_0.kind == ErrorKind::NotFound
                && r->Err_0.message@ == "Task not found."@,
    {
        match self.get_task(index) {
            Some(task) => Ok(task),
            None => Err(
                Error { kind: ErrorKind::NotFound, message: String::from_str("Task not found.") },
            ),
        }
    }

    /// The same lookup as `get_task_mut`, but an out-of-bounds index is a
    /// NotFound failure instead of an absent result.
    fn get_task_mut_forced(&mut self, index: usize) -> (r: Result<&mut Task, Error>)
        ensures
            index < old(self).task_seq().len() ==> r is Ok
                && *r.unwrap() == old(self).task_seq()[index as int]
                && final(self).task_seq()
                    == old(self).task_seq().update(index as int, *final(r.unwrap()))
                && old(self).eq_except_tasks(*final(self)),
            index >= old(self).task_seq().len() ==> r is Err && r->Err_0.kind == ErrorKind::NotFound
                && r->Err_0.message@ == "Task not found."@
                && final(self).task_seq() == old(self).task_seq()
                && old(self).eq_except_tasks(*final(self)),
    {
        match self.get_task_mut(index) {
            Some(task) => Ok(task),
            None => Err(
                Error { kind: ErrorKind::NotFound, message: String::from_str("Task not found.") },
            ),
        }
    }

    /// True iff some owned Task is named `name` exactly.
    fn task_exists(&self, name: &str) -> (r: bool)
        ensures
            r == task_named(self.task_seq(), name@),
    {
        let ts = self.tasks();
        let mut i: usize = 0;
        while i < ts.len()
            invariant
                ts@ == self.task_seq(),
                i <= ts@.len(),
                forall|j: int| 0 <= j < i ==> ts@[j].name@ != name@,
            decreases ts@.len() - i,
        {
            if str_eq(ts[i].name.as_str(), name) {
                assert(self.task_seq()[i as int].name@ == name@);
                return true;
            }
            i += 1;
        }
        false
    }

    /// Insertion guard with inverted polarity: succeeds (with `true`) only
    /// when no Task named `name` exists; an existing name is an
    /// AlreadyExists failure.
    fn task_exists_forced(&self, name: &str) -> (r: Result<bool, Error>)
        ensures
            !task_named(self.task_seq(), name@) ==> r == Ok::<bool, Error>(true),
            task_named(self.task_seq(), name@) ==> r is Err && r->Err_0.kind
                == ErrorKind::AlreadyExists && r->Err_0.message@ == "Task already exists."@,
    {
        if self.task_exists(name) {
            return Err(
                Error {
                    kind: ErrorKind::AlreadyExists,
                    message: String::from_str("Task already exists."),
                },
            );
        }
        Ok(true)
    }

    /// Appends unconditionally: uniqueness is the caller's concern, via
    /// `task_exists_forced`.
    fn push_task(&mut self, task: Task)
        ensures
            final(self).task_seq() == old(self).task_seq().push(task),
            old(self).eq_except_tasks(*final(self)),
    {
        self.tasks_mut().push(task);
    }

    /// Removes and returns the Task at `index`; later Tasks shift down one
    /// position. An out-of-bounds index is a precondition violation, not a
    /// recoverable failure.
    fn remove_task(&mut self, index: usize) -> (r: Task)
        requires
            index < old(self).task_seq().len(),
        ensures
            r == old(self).task_seq()[index as int],
            final(self).task_seq() == old(self).task_seq().remove(index as int),
            old(self).eq_except_tasks(*final(self)),
    {
        self.tasks_mut().remove(index)
    }

    /// The number of owned Tasks whose status is DONE. Never mutates.
    fn tasks_completed(&self) -> (r: usize)
        ensures
            r == done_count(self.task_seq()),
    {
        let ts = self.tasks();
        let mut count: usize = 0;
        let mut i: usize = 0;
        while i < ts.len()
            invariant
                ts@ == self.task_seq(),
                i <= ts@.len(),
                count <= i,
                count == done_count(ts@.take(i as int)),
            decreases ts@.len() - i,
        {
            proof {
                let t = ts@.take(i + 1 as int);
                assert(t.drop_last() =~= ts@.take(i as int));
                assert(t.last() == ts@[i as int]);
            }
            if ts[i].done() {
                count += 1;
            }
            i += 1;
        }
        proof {
            assert(ts@.take(ts@.len() as int) =~= ts@);
        }
        count
    }

    /// False on an empty container; otherwise true iff every owned Task is
    /// DONE.
    fn all_tasks_done(&self) -> (r: bool)
        ensures
            r == all_done(self.task_seq()),
    {
        let ts = self.tasks();
        if ts.is_empty() {
            false
        } else {
            proof {
                lemma_done_count_all(self.task_seq());
            }
            let completed = self.tasks_completed();
            completed == ts.len()
        }
    }
}

impl ContextContainer for Task {
    open spec fn ctx_seq(&self) -> Seq<String> {
        self.contexts@
    }

    open spec fn eq_except_contexts(&self, other: Self) -> bool {
        self.name == other.name && self.description == other.description && self.status
            == other.status
    }

    fn contexts(&self) -> (r: &Vec<String>) {
        &self.contexts
    }

    fn contexts_mut(&mut self) -> (r: &mut Vec<String>) {
        &mut self.contexts
    }
}

/// A named grouping of Tasks. Its status is derived from its Tasks on every
/// query, never stored.
#[derive(Debug)]
pub struct Project {
    pub name: String,
    pub tasks: Vec<Task>,
    pub contexts: Vec<String>,
}

impl Project {
    /// The derived status: DONE exactly when the Project owns at least one
    /// Task and every owned Task is DONE; otherwise TODO.
    pub open spec fn spec_status(&self) -> Status {
        if all_done(self.tasks@) {
            Status::DONE
        } else {
            Status::TODO
        }
    }

    /// A fresh Project owns no Tasks and no contexts.
    pub fn new(name: String) -> (p: Project)
        ensures
            p.name == name,
            p.tasks@ == Seq::<Task>::empty(),
            p.contexts@ == Seq::<String>::empty(),
    {
        Project { name, tasks: Vec::new(), contexts: Vec::new() }
    }

    /// Computes the derived status from the current Tasks.
    pub fn status(&self) -> (r: Status)
        ensures
            r == self.spec_status(),
    {
        if self.tasks.is_empty() {
            Status::TODO
        } else if self.all_tasks_done() {
            Status::DONE
        } else {
            Status::TODO
        }
    }
}

impl ContextContainer for Project {
    open spec fn ctx_seq(&self) -> Seq<String> {
        self.contexts@
    }

    open spec fn eq_except_contexts(&self, other: Self) -> bool {
        self.name == other.name && self.tasks == other.tasks
    }

    fn contexts(&self) -> (r: &Vec<String>) {
        &self.contexts
    }

    fn contexts_mut(&mut self) -> (r: &mut Vec<String>) {
        &mut self.contexts
    }
}

impl TaskContainer for Project {
    open spec fn task_seq(&self) -> Seq<Task> {
        self.tasks@
    }

    open spec fn eq_except_tasks(&self, other: Self) -> bool {
        self.name == other.name && self.contexts == other.contexts
    }

    fn tasks(&self) -> (r: &Vec<Task>) {
        &self.tasks
    }

    fn tasks_mut(&mut self) -> (r: &mut Vec<Task>) {
        &mut self.tasks
    }
}

/// A Project's status is DONE exactly when it owns at least one Task and
/// every owned Task is DONE; a Project with zero Tasks is TODO.
pub proof fn lemma_project_status_done_iff(p: Project)
    ensures
        (p.spec_status() == Status::DONE) <==> (p.tasks@.len() > 0 && forall|i: int|
            0 <= i < p.tasks@.len() ==> p.tasks@[i].spec_done()),
        p.tasks@.len() == 0 ==> p.spec_status() == Status::TODO,
{
}

/// The Project counts as complete: it owns at least one Task and every one
/// of them is DONE (the same condition under which its derived status is
/// DONE).
pub open spec fn project_done(p: Project) -> bool {
    all_done(p.tasks@)
}

/// A Project counts as complete exactly when its derived status is DONE:
/// the completion counts and the status derivation agree.
pub proof fn lemma_project_done_matches_status(p: Project)
    ensures
        project_done(p) <==> p.spec_status() == Status::DONE,
{
}

/// Some Project in `s` is named `name` exactly.
pub open spec fn project_named(s: Seq<Project>, name: Seq<char>) -> bool {
    exists|i: int| 0 <= i < s.len() && s[i].name@ == name
}

/// The number of Projects in `s` that count as complete.
pub open spec fn projects_done_count(s: Seq<Project>) -> nat
    decreases s.len(),
{
    if s.len() == 0 {
        0
    } else {
        projects_done_count(s.drop_last()) + if project_done(s.last()) {
            1nat
        } else {
            0nat
        }
    }
}

/// Every Project in `s` counts as complete. Unlike `all_done` on Tasks,
/// this holds vacuously of an empty sequence.
pub open spec fn projects_all_done(s: Seq<Project>) -> bool {
    forall|i: int| 0 <= i < s.len() ==> project_done(s[i])
}

/// No more Projects are complete than there are Projects.
pub proof fn lemma_projects_done_count_le(s: Seq<Project>)
    ensures
        projects_done_count(s) <= s.len(),
    decreases s.len(),
{
    if s.len() > 0 {
        lemma_projects_done_count_le(s.drop_last());
    }
}

/// Every Project is complete exactly when the complete count reaches the
/// length.
pub proof fn lemma_projects_done_count_all(s: Seq<Project>)
    ensures
        (projects_done_count(s) == s.len()) <==> projects_all_done(s),
    decreases s.len(),
{
    if s.len() > 0 {
        let d = s.drop_last();
        lemma_projects_done_count_all(d);
        lemma_projects_done_count_le(d);
        assert(forall|i: int| 0 <= i < d.len() ==> d[i] == s[i]);
        if projects_done_count(s) == s.len() {
            assert(project_done(s.last()));
            assert forall|i: int| 0 <= i < s.len() implies project_done(s[i]) by {
                if i < s.len() - 1 {
                    assert(project_done(d[i]));
                } else {
                    assert(s[i] == s.last());
                }
            }
        }
        if projects_all_done(s) {
            assert forall|i: int| 0 <= i < d.len() implies project_done(d[i]) by {
                assert(project_done(s[i]));
            }
            assert(project_done(s.last()));
            assert(projects_done_count(s) == s.len());
        }
    }
}

/// An empty Task container is not "all done", while an empty Project
/// container is: the two empty-container policies deliberately differ.
pub proof fn lemma_empty_rollup_asymmetry()
    ensures
        !all_done(Seq::<Task>::empty()),
        projects_all_done(Seq::<Project>::empty()),
{
}

/// The Project container capability, implemented by List: the Task
/// container contract mirrored at the Project granularity.
pub trait ProjectContainer: Sized {
    /// The model of this container: its owned sequence of Projects.
    spec fn project_seq(&self) -> Seq<Project>;

    /// All state of `self` other than the owned Projects equals that of
    /// `other`.
    spec fn eq_except_projects(&self, other: Self) -> bool;

    fn projects(&self) -> (r: &Vec<Project>)
        ensures
            r@ == self.project_seq(),
    ;

    fn projects_mut(&mut self) -> (r: &mut Vec<Project>)
        ensures
            r@ == old(self).project_seq(),
            final(self).project_seq() == final(r)@,
            old(self).eq_except_projects(*final(self)),
    ;

    /// Positional access; absent (not an error) when out of bounds.
    fn get_project(&self, index: usize) -> (r: Option<&Project>)
        ensures
            index < self.project_seq().len() ==> r is Some && *r.unwrap() == self.project_seq()[index as int],
            index >= self.project_seq().len() ==> r is None,
    {
        let ps = self.projects();
        if index < ps.len() {
            Some(&ps[index])
        } else {
            None
        }
    }

    /// Positional mutable access; absent when out of bounds.
    fn get_project_mut(&mut self, index: usize) -> (r: Option<&mut Project>)
        ensures
            index >= old(self).project_seq().len() ==> r is None
                && final(self).project_seq() == old(self).project_seq()
                && old(self).eq_except_projects(*final(self)),
            index < old(self).project_seq().len() ==> r is Some
                && *r.unwrap() == old(self).project_seq()[index as int]
                && final(self).project_seq()
                    == old(self).project_seq().update(index as int, *final(r.unwrap()))
                && old(self).eq_except_projects(*final(self)),
    {
        let ps = self.projects_mut();
        if index < ps.len() {
            Some(&mut ps[index])
        } else {
            None
        }
    }

    /// The same lookup as `get_project`, but an out-of-bounds index is a
    /// NotFound failure instead of an absent result.
    fn get_project_forced(&self, index: usize) -> (r: Result<&Project, Error>)
        ensures
            index < self.project_seq().len() ==> r is Ok && *r->Ok_0 == self.project_seq()[index as int],
            index >= self.project_seq().len() ==> r is Err && r->Err_0.kind == ErrorKind::NotFound
                && r->Err_0.message@ == "Project not found."@,
    {
        match self.get_project(index) {
            Some(project) => Ok(project),
            None => Err(
                Error {
                    kind: ErrorKind::NotFound,
                    message: String::from_str("Project not found."),
                },
            ),
        }
    }

    /// The same lookup as `get_project_mut`, but an out-of-bounds index is a
    /// NotFound failure instead of an absent result.
    fn get_project_mut_forced(&mut self, index: usize) -> (r: Result<&mut Project, Error>)
        ensures
            index < old(self).project_seq().len() ==> r is Ok
                && *r.unwrap() == old(self).project_seq()[index as int]
                && final(self).project_seq()
                    == old(self).project_seq().update(index as int, *final(r.unwrap()))
                && old(self).eq_except_projects(*final(self)),
            index >= old(self).project_seq().len() ==> r is Err && r->Err_0.kind
                == ErrorKind::NotFound && r->Err_0.message@ == "Project not found."@
                && final(self).project_seq() == old(self).project_seq()
                && old(self).eq_except_projects(*final(self)),
    {
        match self.get_project_mut(index) {
            Some(project) => Ok(project),
            None => Err(
                Error {
                    kind: ErrorKind::NotFound,
                    message: String::from_str("Project not found."),
                },
            ),
        }
    }

    /// True iff some owned Project is named `name` exactly.
    fn project_exists(&self, name: &str) -> (r: bool)
        ensures
            r == project_named(self.project_seq(), name@),
    {
        let ps = self.projects();
        let mut i: usize = 0;
        while i < ps.len()
            invariant
                ps@ == self.project_seq(),
                i <= ps@.len(),
                forall|j: int| 0 <= j < i ==> ps@[j].name@ != name@,
            decreases ps@.len() - i,
        {
            if str_eq(ps[i].name.as_str(), name) {
                assert(self.project_seq()[i as int].name@ == name@);
                return true;
            }
            i += 1;
        }
        false
    }

    /// Insertion guard with inverted polarity: succeeds (with `true`) only
    /// when no Project named `name` exists; an existing name is an
    /// AlreadyExists failure.
    fn project_exists_forced(&self, name: &str) -> (r: Result<bool, Error>)
        ensures
            !project_named(self.project_seq(), name@) ==> r == Ok::<bool, Error>(true),
            project_named(self.project_seq(), name@) ==> r is Err && r->Err_0.kind
                == ErrorKind::AlreadyExists && r->Err_0.message@ == "Project already exists."@,
    {
        if self.project_exists(name) {
            return Err(
                Error {
                    kind: ErrorKind::AlreadyExists,
                    message: String::from_str("Project already exists."),
                },
            );
        }
        Ok(true)
    }

    /// Appends unconditionally: uniqueness is the caller's concern, via
    /// `project_exists_forced`.
    fn push_project(&mut self, project: Project)
        ensures
            final(self).project_seq() == old(self).project_seq().push(project),
            old(self).eq_except_projects(*final(self)),
    {
        self.projects_mut().push(project);
    }

    /// Removes and returns the Project at `index`; later Projects shift
    /// down one position. An out-of-bounds index is a precondition
    /// violation, not a recoverable failure.
    fn remove_project(&mut self, index: usize) -> (r: Project)
        requires
            index < old(self).project_seq().len(),
        ensures
            r == old(self).project_seq()[index as int],
            final(self).project_seq() == old(self).project_seq().remove(index as int),
            old(self).eq_except_projects(*final(self)),
    {
        self.projects_mut().remove(index)
    }

    /// The number of owned Projects that count as complete. Never mutates.
    fn projects_completed(&self) -> (r: usize)
        ensures
            r == projects_done_count(self.project_seq()),
    {
        let ps = self.projects();
        let mut count: usize = 0;
        let mut i: usize = 0;
        while i < ps.len()
            invariant
                ps@ == self.project_seq(),
                i <= ps@.len(),
                count <= i,
                count == projects_done_count(ps@.take(i as int)),
            decreases ps@.len() - i,
        {
            proof {
                let t = ps@.take(i + 1 as int);
                assert(t.drop_last() =~= ps@.take(i as int));
                assert(t.last() == ps@[i as int]);
            }
            if ps[i].all_tasks_done() {
                count += 1;
            }
            i += 1;
        }
        proof {
            assert(ps@.take(ps@.len() as int) =~= ps@);
        }
        count
    }

    /// True iff every owned Project counts as complete. Unlike
    /// `all_tasks_done`, this holds vacuously of a List with zero Projects.
    fn all_projects_done(&self) -> (r: bool)
        ensures
            r == projects_all_done(self.project_seq()),
    {
        proof {
            lemma_projects_done_count_all(self.project_seq());
        }
        let completed = self.projects_completed();
        completed == self.projects().len()
    }
}

/// A top-level named grouping that directly holds Tasks and Projects as
/// siblings, plus its own context labels.
#[derive(Debug)]
pub struct List {
    pub name: String,
    pub tasks: Vec<Task>,
    pub projects: Vec<Project>,
    pub contexts: Vec<String>,
}

impl List {
    /// A fresh List owns no Tasks, no Projects and no contexts.
    pub fn new(name: String) -> (l: List)
        ensures
            l.name == name,
            l.tasks@ == Seq::<Task>::empty(),
            l.projects@ == Seq::<Project>::empty(),
            l.contexts@ == Seq::<String>::empty(),
    {
        List { name, tasks: Vec::new(), projects: Vec::new(), contexts: Vec::new() }
    }
}

impl ContextContainer for List {
    open spec fn ctx_seq(&self) -> Seq<String> {
        self.contexts@
    }

    open spec fn eq_except_contexts(&self, other: Self) -> bool {
        self.name == other.name && self.tasks == other.tasks && self.projects == other.projects
    }

    fn contexts(&self) -> (r: &Vec<String>) {
        &self.contexts
    }

    fn contexts_mut(&mut self) -> (r: &mut Vec<String>) {
        &mut self.contexts
    }
}

impl TaskContainer for List {
    open spec fn task_seq(&self) -> Seq<Task> {
        self.tasks@
    }

    open spec fn eq_except_tasks(&self, other: Self) -> bool {
        self.name == other.name && self.projects == other.projects && self.contexts
            == other.contexts
    }

    fn tasks(&self) -> (r: &Vec<Task>) {
        &self.tasks
    }

    fn tasks_mut(&mut self) -> (r: &mut Vec<Task>) {
        &mut self.tasks
    }
}

impl ProjectContainer for List {
    open spec fn project_seq(&self) -> Seq<Project> {
        self.projects@
    }

    open spec fn eq_except_projects(&self, other: Self) -> bool {
        self.name == other.name && self.tasks == other.tasks && self.contexts == other.contexts
    }

    fn projects(&self) -> (r: &Vec<Project>) {
        &self.projects
    }

    fn projects_mut(&mut self) -> (r: &mut Vec<Project>) {
        &mut self.projects
    }
}

/// Some List in `s` is named `name` exactly.
pub open spec fn list_named(s: Seq<List>, name: Seq<char>) -> bool {
    exists|i: int| 0 <= i < s.len() && s[i].name@ == name
}

/// The List container capability, implemented by File: name-keyed lookup
/// (first match in order), existence guards, and unconditional append.
/// Lists have no positional removal: they are long-lived top-level buckets.
pub trait ListContainer: Sized {
    /// The model of this container: its owned sequence of Lists.
    spec fn list_seq(&self) -> Seq<List>;

    /// All state of `self` other than the owned Lists equals that of
    /// `other`.
    spec fn eq_except_lists(&self, other: Self) -> bool;

    fn lists(&self) -> (r: &Vec<List>)
        ensures
            r@ == self.list_seq(),
    ;

    fn lists_mut(&mut self) -> (r: &mut Vec<List>)
        ensures
            r@ == old(self).list_seq(),
            final(self).list_seq() == final(r)@,
            old(self).eq_except_lists(*final(self)),
    ;

    /// Name-keyed lookup: the first List named `name` in order, absent on a
    /// miss.
    fn get_list(&self, name: &str) -> (r: Option<&List>)
        ensures
            r is Some ==> exists|i: int|
                #![auto]
                0 <= i < self.list_seq().len() && self.list_seq()[i].name@ == name@ && *r.unwrap()
                    == self.list_seq()[i] && (forall|j: int|
                    0 <= j < i ==> self.list_seq()[j].name@ != name@),
            r is None ==> !list_named(self.list_seq(), name@),
            (r is Some) == list_named(self.list_seq(), name@),
    {
        let ls = self.lists();
        let mut i: usize = 0;
        while i < ls.len()
            invariant
                ls@ == self.list_seq(),
                i <= ls@.len(),
                forall|j: int| 0 <= j < i ==> ls@[j].name@ != name@,
            decreases ls@.len() - i,
        {
            if str_eq(ls[i].name.as_str(), name) {
                assert(self.list_seq()[i as int].name@ == name@);
                return Some(&ls[i]);
            }
            i += 1;
        }
        None
    }

    /// Name-keyed mutable lookup: the first List named `name` in order,
    /// absent on a miss.
    fn get_list_mut(&mut self, name: &str) -> (r: Option<&mut List>)
        ensures
            r is None ==> !list_named(old(self).list_seq(), name@) && final(self).list_seq()
                == old(self).list_seq() && old(self).eq_except_lists(*final(self)),
            r is Some ==> (exists|i: int|
                #![auto]
                0 <= i < old(self).list_seq().len() && old(self).list_seq()[i].name@ == name@
                    && (forall|j: int| 0 <= j < i ==> old(self).list_seq()[j].name@ != name@)
                    && *r.unwrap() == old(self).list_seq()[i]
                    && final(self).list_seq()
                        == old(self).list_seq().update(i, *final(r.unwrap())))
                && old(self).eq_except_lists(*final(self)),
            (r is Some) == list_named(old(self).list_seq(), name@),
    ;

    /// The same lookup as `get_list`, but a miss is a NotFound failure
    /// instead of an absent result.
    fn get_list_forced(&mut self, name: &str) -> (r: Result<&List, Error>)
        ensures
            *final(self) == *old(self),
            r is Ok ==> exists|i: int|
                #![auto]
                0 <= i < old(self).list_seq().len() && old(self).list_seq()[i].name@ == name@
                    && *r->Ok_0 == old(self).list_seq()[i] && (forall|j: int|
                    0 <= j < i ==> old(self).list_seq()[j].name@ != name@),
            r is Err ==> !list_named(old(self).list_seq(), name@) && r->Err_0.kind
                == ErrorKind::NotFound && r->Err_0.message@ == "List not found."@,
            (r is Ok) == list_named(old(self).list_seq(), name@),
    {
        match self.get_list(name) {
            Some(list) => Ok(list),
            None => Err(
                Error { kind: ErrorKind::NotFound, message: String::from_str("List not found.") },
            ),
        }
    }

    /// The same lookup as `get_list_mut`, but a miss is a NotFound failure
    /// instead of an absent result.
    fn get_list_mut_forced(&mut self, name: &str) -> (r: Result<&mut List, Error>)
        ensures
            r is Ok ==> (exists|i: int|
                #![auto]
                0 <= i < old(self).list_seq().len() && old(self).list_seq()[i].name@ == name@
                    && (forall|j: int| 0 <= j < i ==> old(self).list_seq()[j].name@ != name@)
                    && *r.unwrap() == old(self).list_seq()[i]
                    && final(self).list_seq()
                        == old(self).list_seq().update(i, *final(r.unwrap())))
                && old(self).eq_except_lists(*final(self)),
            r is Err ==> !list_named(old(self).list_seq(), name@) && r->Err_0.kind
                == ErrorKind::NotFound && r->Err_0.message@ == "List not found."@
                && final(self).list_seq() == old(self).list_seq()
                && old(self).eq_except_lists(*final(self)),
            (r is Ok) == list_named(old(self).list_seq(), name@),
    {
        match self.get_list_mut(name) {
            Some(list) => Ok(list),
            None => Err(
                Error { kind: ErrorKind::NotFound, message: String::from_str("List not found.") },
            ),
        }
    }

    /// True iff some owned List is named `name` exactly.
    fn list_exists(&self, name: &str) -> (r: bool)
        ensures
            r == list_named(self.list_seq(), name@),
    {
        let ls = self.lists();
        let mut i: usize = 0;
        while i < ls.len()
            invariant
                ls@ == self.list_seq(),
                i <= ls@.len(),
                forall|j: int| 0 <= j < i ==> ls@[j].name@ != name@,
            decreases ls@.len() - i,
        {
            if str_eq(ls[i].name.as_str(), name) {
                assert(self.list_seq()[i as int].name@ == name@);
                return true;
            }
            i += 1;
        }
        false
    }

    /// Insertion guard with inverted polarity: succeeds (with `true`) only
    /// when no List named `name` exists; an existing name is an
    /// AlreadyExists failure.
    fn list_exists_forced(&self, name: &str) -> (r: Result<bool, Error>)
        ensures
            !list_named(self.list_seq(), name@) ==> r == Ok::<bool, Error>(true),
            list_named(self.list_seq(), name@) ==> r is Err && r->Err_0.kind
                == ErrorKind::AlreadyExists && r->Err_0.message@ == "List already exists."@,
    {
        if self.list_exists(name) {
            return Err(
                Error {
                    kind: ErrorKind::AlreadyExists,
                    message: String::from_str("List already exists."),
                },
            );
        }
        Ok(true)
    }

    /// Appends unconditionally: uniqueness is the caller's concern, via
    /// `list_exists_forced`.
    fn push_list(&mut self, list: List)
        ensures
            final(self).list_seq() == old(self).list_seq().push(list),
            old(self).eq_except_lists(*final(self)),
    {
        self.lists_mut().push(list);
    }
}

/// The persistence root: an ordered sequence of Lists.
#[derive(Debug)]
pub struct File {
    pub lists: Vec<List>,
}

impl ListContainer for File {
    open spec fn list_seq(&self) -> Seq<List> {
        self.lists@
    }

    open spec fn eq_except_lists(&self, other: Self) -> bool {
        true
    }

    fn lists(&self) -> (r: &Vec<List>) {
        &self.lists
    }

    fn lists_mut(&mut self) -> (r: &mut Vec<List>) {
        &mut self.lists
    }

    fn get_list_mut(&mut self, name: &str) -> (r: Option<&mut List>) {
        let n = self.lists.len();
        let mut i: usize = 0;
        while i < n
            invariant
                n == self.lists@.len(),
                i <= n,
                *self == *old(self),
                forall|j: int| 0 <= j < i ==> self.lists@[j].name@ != name@,
            decreases n - i,
        {
            if str_eq(self.lists[i].name.as_str(), name) {
                assert(old(self).list_seq()[i as int].name@ == name@);
                return Some(&mut self.lists[i]);
            }
            i += 1;
        }
        None
    }
}

} // verus!
