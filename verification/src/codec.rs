//! The persisted shape of a File: a tree of plain records in which a Task's
//! status is a literal "TODO"/"DONE" string and a Project record carries no
//! status field at all (Project status is always derived, never stored).
//! Encoding a model tree to records and decoding records back are verified
//! here; turning records into the on-disk text is left to the surrounding
//! program.

use vstd::prelude::*;

use crate::gtd::Error;
use crate::gtd::ErrorKind;
use crate::gtd::File;
use crate::gtd::List;
use crate::gtd::Project;
use crate::gtd::Status;
use crate::gtd::Task;
use crate::gtd::str_eq;

verus! {

/// The persisted form of a Task: the status is a literal "TODO"/"DONE"
/// string.
#[derive(Debug)]
pub struct TaskRecord {
    pub name: String,
    pub description: Option<String>,
    pub status: String,
    pub contexts: Vec<String>,
}

/// The persisted form of a Project. It has no status field: a Project's
/// status is derived from its Tasks, never stored.
#[derive(Debug)]
pub struct ProjectRecord {
    pub name: String,
    pub tasks: Vec<TaskRecord>,
    pub contexts: Vec<String>,
}

/// The persisted form of a List.
#[derive(Debug)]
pub struct ListRecord {
    pub name: String,
    pub contexts: Vec<String>,
    pub tasks: Vec<TaskRecord>,
    pub projects: Vec<ProjectRecord>,
}

/// The persisted form of a File: the root of the document.
#[derive(Debug)]
pub struct FileRecord {
    pub lists: Vec<ListRecord>,
}

/// The literal text under which a status is persisted.
pub open spec fn status_text(s: Status) -> Seq<char> {
    match s {
        Status::TODO => "TODO"@,
        Status::DONE => "DONE"@,
    }
}

/// `t` is one of the two persisted status literals.
pub open spec fn valid_status_text(t: Seq<char>) -> bool {
    t == "TODO"@ || t == "DONE"@
}

/// The status a valid literal stands for.
pub open spec fn status_of_text(t: Seq<char>) -> Status {
    if t == "DONE"@ {
        Status::DONE
    } else {
        Status::TODO
    }
}

/// The two string sequences have the same length and equal text at every
/// position.
pub open spec fn str_seqs_match(a: Seq<String>, b: Seq<String>) -> bool {
    a.len() == b.len() && (forall|i: int| 0 <= i < a.len() ==> a[i]@ == b[i]@)
}

/// The two optional strings are both absent or hold equal text.
pub open spec fn opt_str_match(a: Option<String>, b: Option<String>) -> bool {
    match (a, b) {
        (None, None) => true,
        (Some(x), Some(y)) => x@ == y@,
        _ => false,
    }
}

/// `r` is the persisted form of Task `t`.
pub open spec fn encodes_task(t: Task, r: TaskRecord) -> bool {
    &&& r.name@ == t.name@
    &&& opt_str_match(r.description, t.description)
    &&& r.status@ == status_text(t.status)
    &&& str_seqs_match(r.contexts@, t.contexts@)
}

/// `t` is the Task that record `r` decodes to.
pub open spec fn decodes_task(r: TaskRecord, t: Task) -> bool {
    &&& valid_status_text(r.status@)
    &&& t.name@ == r.name@
    &&& opt_str_match(t.description, r.description)
    &&& t.status == status_of_text(r.status@)
    &&& str_seqs_match(t.contexts@, r.contexts@)
}

/// Every status literal in the record is recognizable.
pub open spec fn valid_task_record(r: TaskRecord) -> bool {
    valid_status_text(r.status@)
}

/// `r` is the persisted form of Project `p`.
pub open spec fn encodes_project(p: Project, r: ProjectRecord) -> bool {
    &&& r.name@ == p.name@
    &&& str_seqs_match(r.contexts@, p.contexts@)
    &&& r.tasks@.len() == p.tasks@.len()
    &&& forall|i: int| 0 <= i < p.tasks@.len() ==> encodes_task(p.tasks@[i], r.tasks@[i])
}

/// `p` is the Project that record `r` decodes to.
pub open spec fn decodes_project(r: ProjectRecord, p: Project) -> bool {
    &&& p.name@ == r.name@
    &&& str_seqs_match(p.contexts@, r.contexts@)
    &&& p.tasks@.len() == r.tasks@.len()
    &&& forall|i: int| 0 <= i < r.tasks@.len() ==> decodes_task(r.tasks@[i], p.tasks@[i])
}

/// Every status literal in the record tree is recognizable.
pub open spec fn valid_project_record(r: ProjectRecord) -> bool {
    forall|i: int| 0 <= i < r.tasks@.len() ==> valid_task_record(r.tasks@[i])
}

/// `r` is the persisted form of List `l`.
pub open spec fn encodes_list(l: List, r: ListRecord) -> bool {
    &&& r.name@ == l.name@
    &&& str_seqs_match(r.contexts@, l.contexts@)
    &&& r.tasks@.len() == l.tasks@.len()
    &&& (forall|i: int| 0 <= i < l.tasks@.len() ==> encodes_task(l.tasks@[i], r.tasks@[i]))
    &&& r.projects@.len() == l.projects@.len()
    &&& (forall|i: int| 0 <= i < l.projects@.len() ==> encodes_project(l.projects@[i], r.projects@[i]))
}

/// `l` is the List that record `r` decodes to.
pub open spec fn decodes_list(r: ListRecord, l: List) -> bool {
    &&& l.name@ == r.name@
    &&& str_seqs_match(l.contexts@, r.contexts@)
    &&& l.tasks@.len() == r.tasks@.len()
    &&& (forall|i: int| 0 <= i < r.tasks@.len() ==> decodes_task(r.tasks@[i], l.tasks@[i]))
    &&& l.projects@.len() == r.projects@.len()
    &&& (forall|i: int| 0 <= i < r.projects@.len() ==> decodes_project(r.projects@[i], l.projects@[i]))
}

/// Every status literal in the record tree is recognizable.
pub open spec fn valid_list_record(r: ListRecord) -> bool {
    &&& (forall|i: int| 0 <= i < r.tasks@.len() ==> valid_task_record(r.tasks@[i]))
    &&& (forall|i: int| 0 <= i < r.projects@.len() ==> valid_project_record(r.projects@[i]))
}

/// `r` is the persisted form of File `f`.
pub open spec fn encodes_file(f: File, r: FileRecord) -> bool {
    &&& r.lists@.len() == f.lists@.len()
    &&& forall|i: int| 0 <= i < f.lists@.len() ==> encodes_list(f.lists@[i], r.lists@[i])
}

/// `f` is the File that record `r` decodes to.
pub open spec fn decodes_file(r: FileRecord, f: File) -> bool {
    &&& f.lists@.len() == r.lists@.len()
    &&& forall|i: int| 0 <= i < r.lists@.len() ==> decodes_list(r.lists@[i], f.lists@[i])
}

/// Every status literal in the record tree is recognizable.
pub open spec fn valid_file_record(r: FileRecord) -> bool {
    forall|i: int| 0 <= i < r.lists@.len() ==> valid_list_record(r.lists@[i])
}

/// The two Tasks carry the same name, description, status and contexts.
pub open spec fn task_equiv(a: Task, b: Task) -> bool {
    &&& a.name@ == b.name@
    &&& opt_str_match(a.description, b.description)
    &&& a.status == b.status
    &&& str_seqs_match(a.contexts@, b.contexts@)
}

/// The two Projects carry the same name and contexts and equivalent Tasks
/// in the same order.
pub open spec fn project_equiv(a: Project, b: Project) -> bool {
    &&& a.name@ == b.name@
    &&& str_seqs_match(a.contexts@, b.contexts@)
    &&& a.tasks@.len() == b.tasks@.len()
    &&& forall|i: int| 0 <= i < a.tasks@.len() ==> task_equiv(a.tasks@[i], b.tasks@[i])
}

/// The two Lists carry the same name and contexts and equivalent children
/// in the same order.
pub open spec fn list_equiv(a: List, b: List) -> bool {
    &&& a.name@ == b.name@
    &&& str_seqs_match(a.contexts@, b.contexts@)
    &&& a.tasks@.len() == b.tasks@.len()
    &&& (forall|i: int| 0 <= i < a.tasks@.len() ==> task_equiv(a.tasks@[i], b.tasks@[i]))
    &&& a.projects@.len() == b.projects@.len()
    &&& (forall|i: int| 0 <= i < a.projects@.len() ==> project_equiv(a.projects@[i], b.projects@[i]))
}

/// The two Files carry equivalent Lists in the same order.
pub open spec fn file_equiv(a: File, b: File) -> bool {
    &&& a.lists@.len() == b.lists@.len()
    &&& forall|i: int| 0 <= i < a.lists@.len() ==> list_equiv(a.lists@[i], b.lists@[i])
}

/// The two status literals differ, so a persisted status decodes to the
/// status it was encoded from.
pub proof fn lemma_status_round_trip(s: Status)
    ensures
        valid_status_text(status_text(s)),
        status_of_text(status_text(s)) == s,
{
    reveal_strlit("TODO");
    reveal_strlit("DONE");
    assert("TODO"@[0] != "DONE"@[0]);
}

/// Encoding a Task and decoding the record reproduces an equivalent Task.
pub proof fn lemma_task_round_trip(t: Task, r: TaskRecord, t2: Task)
    requires
        encodes_task(t, r),
        decodes_task(r, t2),
    ensures
        task_equiv(t, t2),
{
    lemma_status_round_trip(t.status);
}

/// Encoding a Task always yields a record whose status literal is
/// recognizable.
pub proof fn lemma_encoded_task_valid(t: Task, r: TaskRecord)
    requires
        encodes_task(t, r),
    ensures
        valid_task_record(r),
{
    lemma_status_round_trip(t.status);
}

/// Encoding a Project and decoding the record reproduces an equivalent
/// Project.
pub proof fn lemma_project_round_trip(p: Project, r: ProjectRecord, p2: Project)
    requires
        encodes_project(p, r),
        decodes_project(r, p2),
    ensures
        project_equiv(p, p2),
{
    assert forall|i: int| 0 <= i < p.tasks@.len() implies task_equiv(
        p.tasks@[i],
        p2.tasks@[i],
    ) by {
        lemma_task_round_trip(p.tasks@[i], r.tasks@[i], p2.tasks@[i]);
    }
}

/// Encoding a Project always yields a record whose status literals are
/// recognizable.
pub proof fn lemma_encoded_project_valid(p: Project, r: ProjectRecord)
    requires
        encodes_project(p, r),
    ensures
        valid_project_record(r),
{
    assert forall|i: int| 0 <= i < r.tasks@.len() implies valid_task_record(r.tasks@[i]) by {
        lemma_encoded_task_valid(p.tasks@[i], r.tasks@[i]);
    }
}

/// Encoding a List and decoding the record reproduces an equivalent List.
pub proof fn lemma_list_round_trip(l: List, r: ListRecord, l2: List)
    requires
        encodes_list(l, r),
        decodes_list(r, l2),
    ensures
        list_equiv(l, l2),
{
    assert forall|i: int| 0 <= i < l.tasks@.len() implies task_equiv(
        l.tasks@[i],
        l2.tasks@[i],
    ) by {
        lemma_task_round_trip(l.tasks@[i], r.tasks@[i], l2.tasks@[i]);
    }
    assert forall|i: int| 0 <= i < l.projects@.len() implies project_equiv(
        l.projects@[i],
        l2.projects@[i],
    ) by {
        lemma_project_round_trip(l.projects@[i], r.projects@[i], l2.projects@[i]);
    }
}

/// Encoding a List always yields a record whose status literals are
/// recognizable.
pub proof fn lemma_encoded_list_valid(l: List, r: ListRecord)
    requires
        encodes_list(l, r),
    ensures
        valid_list_record(r),
{
    assert forall|i: int| 0 <= i < r.tasks@.len() implies valid_task_record(r.tasks@[i]) by {
        lemma_encoded_task_valid(l.tasks@[i], r.tasks@[i]);
    }
    assert forall|i: int| 0 <= i < r.projects@.len() implies valid_project_record(
        r.projects@[i],
    ) by {
        lemma_encoded_project_valid(l.projects@[i], r.projects@[i]);
    }
}

/// Round trip at the root: encoding a File and decoding the resulting
/// record tree reproduces an equivalent tree — same List, Project and Task
/// names, statuses, descriptions and context sequences, in the original
/// order.
pub proof fn lemma_file_round_trip(f: File, r: FileRecord, f2: File)
    requires
        encodes_file(f, r),
        decodes_file(r, f2),
    ensures
        file_equiv(f, f2),
{
    assert forall|i: int| 0 <= i < f.lists@.len() implies list_equiv(
        f.lists@[i],
        f2.lists@[i],
    ) by {
        lemma_list_round_trip(f.lists@[i], r.lists@[i], f2.lists@[i]);
    }
}

/// Encoding a File always yields a record tree that decodes successfully.
pub proof fn lemma_encoded_file_valid(f: File, r: FileRecord)
    requires
        encodes_file(f, r),
    ensures
        valid_file_record(r),
{
    assert forall|i: int| 0 <= i < r.lists@.len() implies valid_list_record(r.lists@[i]) by {
        lemma_encoded_list_valid(f.lists@[i], r.lists@[i]);
    }
}

/// A record that decodes to some Task has a recognizable status literal.
proof fn lemma_decodes_task_valid(r: TaskRecord, t: Task)
    requires
        decodes_task(r, t),
    ensures
        valid_task_record(r),
{
}

/// A record that decodes to some Project has only recognizable status
/// literals.
proof fn lemma_decodes_project_valid(r: ProjectRecord, p: Project)
    requires
        decodes_project(r, p),
    ensures
        valid_project_record(r),
{
    assert forall|i: int| 0 <= i < r.tasks@.len() implies valid_task_record(r.tasks@[i]) by {
        lemma_decodes_task_valid(r.tasks@[i], p.tasks@[i]);
    }
}

/// A record that decodes to some List has only recognizable status
/// literals.
proof fn lemma_decodes_list_valid(r: ListRecord, l: List)
    requires
        decodes_list(r, l),
    ensures
        valid_list_record(r),
{
    assert forall|i: int| 0 <= i < r.tasks@.len() implies valid_task_record(r.tasks@[i]) by {
        lemma_decodes_task_valid(r.tasks@[i], l.tasks@[i]);
    }
    assert forall|i: int| 0 <= i < r.projects@.len() implies valid_project_record(
        r.projects@[i],
    ) by {
        lemma_decodes_project_valid(r.projects@[i], l.projects@[i]);
    }
}

/// A record tree that decodes to some File has only recognizable status
/// literals.
proof fn lemma_decodes_file_valid(r: FileRecord, f: File)
    requires
        decodes_file(r, f),
    ensures
        valid_file_record(r),
{
    assert forall|i: int| 0 <= i < r.lists@.len() implies valid_list_record(r.lists@[i]) by {
        lemma_decodes_list_valid(r.lists@[i], f.lists@[i]);
    }
}

/// The literal a status is persisted under.
pub fn encode_status(s: Status) -> (r: String)
    ensures
        r@ == status_text(s),
{
    match s {
        Status::TODO => String::from_str("TODO"),
        Status::DONE => String::from_str("DONE"),
    }
}

/// Recognizes the persisted status literals "TODO" and "DONE" exactly; any
/// other text is invalid input, reported with the offending string.
pub fn decode_status(s: &str) -> (r: Result<Status, Error>)
    ensures
        r is Ok ==> valid_status_text(s@) && r->Ok_0 == status_of_text(s@),
        r is Err ==> !valid_status_text(s@) && r->Err_0.kind == ErrorKind::InvalidInput
            && r->Err_0.message@ == s@,
{
    if str_eq(s, "TODO") {
        proof {
            lemma_status_round_trip(Status::TODO);
        }
        Ok(Status::TODO)
    } else if str_eq(s, "DONE") {
        Ok(Status::DONE)
    } else {
        Err(Error { kind: ErrorKind::InvalidInput, message: String::from_str(s) })
    }
}

/// Copies a sequence of context labels.
fn clone_string_vec(v: &Vec<String>) -> (r: Vec<String>)
    ensures
        str_seqs_match(r@, v@),
{
    let mut r: Vec<String> = Vec::new();
    let mut i: usize = 0;
    while i < v.len()
        invariant
            i <= v@.len(),
            r@.len() == i,
            forall|j: int| 0 <= j < i ==> r@[j]@ == v@[j]@,
        decreases v@.len() - i,
    {
        r.push(v[i].clone());
        i += 1;
    }
    r
}

/// Copies an optional description.
fn clone_opt_string(v: &Option<String>) -> (r: Option<String>)
    ensures
        opt_str_match(r, *v),
{
    match v {
        None => None,
        Some(s) => Some(s.clone()),
    }
}

impl Task {
    /// Builds the record of a single Task.
    pub fn to_record(&self) -> (r: TaskRecord)
        ensures
            encodes_task(*self, r),
    {
        TaskRecord {
            name: self.name.clone(),
            description: clone_opt_string(&self.description),
            status: encode_status(self.status),
            contexts: clone_string_vec(&self.contexts),
        }
    }
}

impl TaskRecord {
    /// Rebuilds the Task this record stands for; an unrecognized status
    /// literal is an InvalidInput failure.
    pub fn to_task(&self) -> (r: Result<Task, Error>)
        ensures
            r is Ok ==> decodes_task(*self, r->Ok_0),
            r is Err ==> !valid_task_record(*self) && r->Err_0.kind == ErrorKind::InvalidInput,
            (r is Ok) == valid_task_record(*self),
    {
        let status = match decode_status(self.status.as_str()) {
            Ok(s) => s,
            Err(e) => {
                return Err(e);
            },
        };
        Ok(
            Task {
                name: self.name.clone(),
                description: clone_opt_string(&self.description),
                status,
                contexts: clone_string_vec(&self.contexts),
            },
        )
    }
}

impl Project {
    /// Encodes this Project as a record: no status field, only Tasks.
    pub fn to_record(&self) -> (r: ProjectRecord)
        ensures
            encodes_project(*self, r),
    {
        let mut tasks: Vec<TaskRecord> = Vec::new();
        let mut i: usize = 0;
        while i < self.tasks.len()
            invariant
                i <= self.tasks@.len(),
                tasks@.len() == i,
                forall|j: int| 0 <= j < i ==> encodes_task(self.tasks@[j], tasks@[j]),
            decreases self.tasks@.len() - i,
        {
            let rec = self.tasks[i].to_record();
            tasks.push(rec);
            i += 1;
        }
        ProjectRecord {
            name: self.name.clone(),
            tasks,
            contexts: clone_string_vec(&self.contexts),
        }
    }
}

impl ProjectRecord {
    /// Rebuilds the Project this record stands for; the first unrecognized
    /// status literal is an InvalidInput failure.
    pub fn to_project(&self) -> (r: Result<Project, Error>)
        ensures
            r is Ok ==> decodes_project(*self, r->Ok_0),
            r is Err ==> !valid_project_record(*self) && r->Err_0.kind == ErrorKind::InvalidInput,
            (r is Ok) == valid_project_record(*self),
    {
        let mut tasks: Vec<Task> = Vec::new();
        let mut i: usize = 0;
        while i < self.tasks.len()
            invariant
                i <= self.tasks@.len(),
                tasks@.len() == i,
                forall|j: int| 0 <= j < i ==> decodes_task(self.tasks@[j], tasks@[j]),
            decreases self.tasks@.len() - i,
        {
            match self.tasks[i].to_task() {
                Ok(t) => {
                    tasks.push(t);
                },
                Err(e) => {
                    assert(!valid_task_record(self.tasks@[i as int]));
                    return Err(e);
                },
            }
            i += 1;
        }
        let p = Project {
            name: self.name.clone(),
            tasks,
            contexts: clone_string_vec(&self.contexts),
        };
        proof {
            lemma_decodes_project_valid(*self, p);
        }
        Ok(p)
    }
}

impl List {
    /// Encodes this List as a record.
    pub fn to_record(&self) -> (r: ListRecord)
        ensures
            encodes_list(*self, r),
    {
        let mut tasks: Vec<TaskRecord> = Vec::new();
        let mut i: usize = 0;
        while i < self.tasks.len()
            invariant
                i <= self.tasks@.len(),
                tasks@.len() == i,
                forall|j: int| 0 <= j < i ==> encodes_task(self.tasks@[j], tasks@[j]),
            decreases self.tasks@.len() - i,
        {
            let rec = self.tasks[i].to_record();
            tasks.push(rec);
            i += 1;
        }
        let mut projects: Vec<ProjectRecord> = Vec::new();
        let mut k: usize = 0;
        while k < self.projects.len()
            invariant
                k <= self.projects@.len(),
                projects@.len() == k,
                forall|j: int| 0 <= j < k ==> encodes_project(self.projects@[j], projects@[j]),
            decreases self.projects@.len() - k,
        {
            let rec = self.projects[k].to_record();
            projects.push(rec);
            k += 1;
        }
        ListRecord {
            name: self.name.clone(),
            contexts: clone_string_vec(&self.contexts),
            tasks,
            projects,
        }
    }
}

impl ListRecord {
    /// Rebuilds the List this record stands for; the first unrecognized
    /// status literal is an InvalidInput failure.
    pub fn to_list(&self) -> (r: Result<List, Error>)
        ensures
            r is Ok ==> decodes_list(*self, r->Ok_0),
            r is Err ==> !valid_list_record(*self) && r->Err_0.kind == ErrorKind::InvalidInput,
            (r is Ok) == valid_list_record(*self),
    {
        let mut tasks: Vec<Task> = Vec::new();
        let mut i: usize = 0;
        while i < self.tasks.len()
            invariant
                i <= self.tasks@.len(),
                tasks@.len() == i,
                forall|j: int| 0 <= j < i ==> decodes_task(self.tasks@[j], tasks@[j]),
            decreases self.tasks@.len() - i,
        {
            match self.tasks[i].to_task() {
                Ok(t) => {
                    tasks.push(t);
                },
                Err(e) => {
                    assert(!valid_task_record(self.tasks@[i as int]));
                    return Err(e);
                },
            }
            i += 1;
        }
        let mut projects: Vec<Project> = Vec::new();
        let mut k: usize = 0;
        while k < self.projects.len()
            invariant
                k <= self.projects@.len(),
                projects@.len() == k,
                forall|j: int| 0 <= j < k ==> decodes_project(self.projects@[j], projects@[j]),
            decreases self.projects@.len() - k,
        {
            match self.projects[k].to_project() {
                Ok(p) => {
                    projects.push(p);
                },
                Err(e) => {
                    assert(!valid_project_record(self.projects@[k as int]));
                    return Err(e);
                },
            }
            k += 1;
        }
        let l = List {
            name: self.name.clone(),
            tasks,
            projects,
            contexts: clone_string_vec(&self.contexts),
        };
        proof {
            lemma_decodes_list_valid(*self, l);
        }
        Ok(l)
    }
}

impl File {
    /// Encodes this File as the full record tree: Lists with their
    /// contexts, Tasks and Projects.
    pub fn to_record(&self) -> (r: FileRecord)
        ensures
            encodes_file(*self, r),
    {
        let mut lists: Vec<ListRecord> = Vec::new();
        let mut i: usize = 0;
        while i < self.lists.len()
            invariant
                i <= self.lists@.len(),
                lists@.len() == i,
                forall|j: int| 0 <= j < i ==> encodes_list(self.lists@[j], lists@[j]),
            decreases self.lists@.len() - i,
        {
            let rec = self.lists[i].to_record();
            lists.push(rec);
            i += 1;
        }
        FileRecord { lists }
    }
}

impl FileRecord {
    /// Rebuilds the File this record tree stands for; the first
    /// unrecognized status literal is an InvalidInput failure.
    pub fn to_file(&self) -> (r: Result<File, Error>)
        ensures
            r is Ok ==> decodes_file(*self, r->Ok_0),
            r is Err ==> !valid_file_record(*self) && r->Err_0.kind == ErrorKind::InvalidInput,
            (r is Ok) == valid_file_record(*self),
    {
        let mut lists: Vec<List> = Vec::new();
        let mut i: usize = 0;
        while i < self.lists.len()
            invariant
                i <= self.lists@.len(),
                lists@.len() == i,
                forall|j: int| 0 <= j < i ==> decodes_list(self.lists@[j], lists@[j]),
            decreases self.lists@.len() - i,
        {
            match self.lists[i].to_list() {
                Ok(l) => {
                    lists.push(l);
                },
                Err(e) => {
                    assert(!valid_list_record(self.lists@[i as int]));
                    return Err(e);
                },
            }
            i += 1;
        }
        let f = File { lists };
        proof {
            lemma_decodes_file_valid(*self, f);
        }
        Ok(f)
    }
}

} // verus!
