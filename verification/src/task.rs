//! Tasks, their projects, target files and one-shot actions.
//!
//! A task names a set of projects to patch, the stray files its actions
//! move, copy, delete or unzip, and where its output goes.  The collection
//! here is pure bookkeeping; loading and saving the task store is the
//! caller's concern.

use vstd::prelude::*;
use crate::strutil::{after_last_sep, scan_last_sep, str_eq, substr};
use crate::vcs::VcsKind;

verus! {

/// Spec-level target file.
pub struct TargetFileV {
    pub name: Seq<char>,
    pub path: Seq<char>,
}

/// One registered file, by display name and full path.
#[derive(Debug)]
pub struct TargetFile {
    pub name: String,
    pub path: String,
}

impl View for TargetFile {
    type V = TargetFileV;

    open spec fn view(&self) -> TargetFileV {
        TargetFileV { name: self.name@, path: self.path@ }
    }
}

impl DeepView for TargetFile {
    type V = TargetFileV;

    open spec fn deep_view(&self) -> TargetFileV {
        self@
    }
}

impl Clone for TargetFile {
    fn clone(&self) -> (r: Self)
        ensures
            r@ == self@,
    {
        TargetFile { name: self.name.clone(), path: self.path.clone() }
    }
}

/// What a one-shot action does to its target file.
#[derive(Clone, Copy, Debug, PartialEq, Eq, Structural)]
pub enum Command {
    Move,
    Copy,
    Delete,
    Unzip,
}

/// Spec-level action.
pub struct ActionV {
    pub target_file: TargetFileV,
    pub destination: Option<Seq<char>>,
    pub command: Command,
}

/// One queued file operation of a task.
#[derive(Debug)]
pub struct Action {
    pub target_file: TargetFile,
    pub destination: Option<String>,
    pub command: Command,
}

impl View for Action {
    type V = ActionV;

    open spec fn view(&self) -> ActionV {
        ActionV {
            target_file: self.target_file@,
            destination: self.destination.deep_view(),
            command: self.command,
        }
    }
}

impl DeepView for Action {
    type V = ActionV;

    open spec fn deep_view(&self) -> ActionV {
        self@
    }
}

impl Action {
    /// An action that deletes the given file.
    pub fn delete_action(target_file: &TargetFile) -> (r: Self)
        ensures
            r@.target_file == target_file@,
            r@.destination is None,
            r@.command == Command::Delete,
    {
        Action {
            target_file: TargetFile {
                name: target_file.name.clone(),
                path: target_file.path.clone(),
            },
            destination: None,
            command: Command::Delete,
        }
    }

    /// An action that copies the given file.
    pub fn copy_action(target_file: &TargetFile) -> (r: Self)
        ensures
            r@.target_file == target_file@,
            r@.destination is None,
            r@.command == Command::Copy,
    {
        Action { target_file: target_file.clone(), destination: None, command: Command::Copy }
    }

    /// An action that moves the given file to `destination`.
    pub fn move_action(target_file: &TargetFile, destination: String) -> (r: Self)
        ensures
            r@.target_file == target_file@,
            r@.destination == Some(destination@),
            r@.command == Command::Move,
    {
        Action {
            target_file: target_file.clone(),
            destination: Some(destination),
            command: Command::Move,
        }
    }

    /// An action that unzips the given file.
    pub fn unzip_action(target_file: &TargetFile) -> (r: Self)
        ensures
            r@.target_file == target_file@,
            r@.destination is None,
            r@.command == Command::Unzip,
    {
        Action { target_file: target_file.clone(), destination: None, command: Command::Unzip }
    }
}

/// Spec-level project.
pub struct ProjectV {
    pub path: Seq<char>,
    pub vcs_type: VcsKind,
    pub build_file_path: Option<Seq<char>>,
}

/// One working copy a task patches: its path, its detected system, and its
/// build artifact if one is set.
#[derive(Debug)]
pub struct Project {
    pub path: String,
    pub vcs_type: VcsKind,
    pub build_file_path: Option<String>,
}

impl View for Project {
    type V = ProjectV;

    open spec fn view(&self) -> ProjectV {
        ProjectV {
            path: self.path@,
            vcs_type: self.vcs_type,
            build_file_path: self.build_file_path.deep_view(),
        }
    }
}

impl DeepView for Project {
    type V = ProjectV;

    open spec fn deep_view(&self) -> ProjectV {
        self@
    }
}

/// Spec-level task.
pub struct TaskV {
    pub name: Seq<char>,
    pub target_files: Seq<TargetFileV>,
    pub actions: Seq<ActionV>,
    pub projects: Seq<ProjectV>,
    pub output_dir: Option<Seq<char>>,
}

/// One named unit of work: projects, registered files, queued actions, and
/// the output directory its runs write under.
#[derive(Debug)]
pub struct Task {
    pub name: String,
    pub target_files: Vec<TargetFile>,
    pub actions: Vec<Action>,
    pub projects: Vec<Project>,
    pub output_dir: Option<String>,
}

impl View for Task {
    type V = TaskV;

    open spec fn view(&self) -> TaskV {
        TaskV {
            name: self.name@,
            target_files: self.target_files.deep_view(),
            actions: self.actions.deep_view(),
            projects: self.projects.deep_view(),
            output_dir: self.output_dir.deep_view(),
        }
    }
}

impl DeepView for Task {
    type V = TaskV;

    open spec fn deep_view(&self) -> TaskV {
        self@
    }
}

impl Task {
    /// A fresh, empty task.
    pub fn new(name: String) -> (r: Self)
        ensures
            r@.name == name@,
            r@.target_files =~= Seq::<TargetFileV>::empty(),
            r@.actions =~= Seq::<ActionV>::empty(),
            r@.projects =~= Seq::<ProjectV>::empty(),
            r@.output_dir is None,
    {
        let r = Task {
            name,
            target_files: Vec::new(),
            actions: Vec::new(),
            projects: Vec::new(),
            output_dir: None,
        };
        proof {
            assert(r@.target_files =~= Seq::<TargetFileV>::empty());
            assert(r@.actions =~= Seq::<ActionV>::empty());
            assert(r@.projects =~= Seq::<ProjectV>::empty());
        }
        r
    }
}

/// Index of the first task so named, or `s.len()` if none is.
pub open spec fn find_task(s: Seq<TaskV>, name: Seq<char>) -> int
    decreases s.len(),
{
    if s.len() == 0 {
        0
    } else if s[0].name == name {
        0
    } else {
        1 + find_task(s.drop_first(), name)
    }
}

pub proof fn lemma_find_task(s: Seq<TaskV>, name: Seq<char>)
    ensures
        0 <= find_task(s, name) <= s.len(),
        forall|j: int| 0 <= j < find_task(s, name) ==> s[j].name != name,
        find_task(s, name) < s.len() ==> s[find_task(s, name)].name == name,
    decreases s.len(),
{
    if s.len() != 0 && s[0].name != name {
        lemma_find_task(s.drop_first(), name);
        assert forall|j: int| 0 <= j < find_task(s, name) implies s[j].name != name by {
            if j > 0 {
                assert(s.drop_first()[j - 1] == s[j]);
            }
        }
    }
}

pub proof fn lemma_find_task_at(s: Seq<TaskV>, name: Seq<char>, k: int)
    requires
        0 <= k <= s.len(),
        forall|j: int| 0 <= j < k ==> s[j].name != name,
        k < s.len() ==> s[k].name == name,
    ensures
        find_task(s, name) == k,
    decreases s.len(),
{
    if s.len() != 0 && s[0].name != name {
        lemma_find_task_at(s.drop_first(), name, k - 1);
    }
}

/// Why a task could not be added.
#[derive(Debug)]
pub enum TaskError {
    /// A task with the same name already exists.
    DuplicateName,
}

/// The persisted store of tasks.
#[derive(Debug)]
pub struct AppConfig {
    pub tasks: Vec<Task>,
}

impl View for AppConfig {
    type V = Seq<TaskV>;

    open spec fn view(&self) -> Seq<TaskV> {
        self.tasks.deep_view()
    }
}

impl AppConfig {
    /// An empty store.
    pub fn new() -> (r: AppConfig)
        ensures
            r@ =~= Seq::<TaskV>::empty(),
    {
        let r = AppConfig { tasks: Vec::new() };
        proof {
            assert(r@ =~= Seq::<TaskV>::empty());
        }
        r
    }

    /// The first task so named, if any is.
    pub fn get_task(&self, task_name: &str) -> (r: Option<&Task>)
        ensures
            match r {
                Some(t) => find_task(self@, task_name@) < self@.len() && t@ == self@[find_task(
                    self@,
                    task_name@,
                )],
                None => find_task(self@, task_name@) == self@.len(),
            },
    {
        let n = self.tasks.len();
        let mut i: usize = 0;
        while i < n
            invariant
                i <= n,
                n == self@.len(),
                forall|j: int| 0 <= j < i ==> self@[j].name != task_name@,
            decreases n - i,
        {
            if str_eq(self.tasks[i].name.as_str(), task_name) {
                proof {
                    assert(self@[i as int].name == task_name@);
                    lemma_find_task_at(self@, task_name@, i as int);
                }
                return Some(&self.tasks[i]);
            }
            i = i + 1;
        }
        proof {
            lemma_find_task_at(self@, task_name@, n as int);
        }
        None
    }

    /// The index of the first task so named, for updating it in place.
    pub fn get_task_mut(&self, task_name: &str) -> (r: Option<usize>)
        ensures
            match r {
                Some(i) => i == find_task(self@, task_name@) && i < self@.len()
                    && self@[i as int].name == task_name@,
                None => find_task(self@, task_name@) == self@.len(),
            },
    {
        let n = self.tasks.len();
        let mut i: usize = 0;
        while i < n
            invariant
                i <= n,
                n == self@.len(),
                forall|j: int| 0 <= j < i ==> self@[j].name != task_name@,
            decreases n - i,
        {
            if str_eq(self.tasks[i].name.as_str(), task_name) {
                proof {
                    assert(self@[i as int].name == task_name@);
                    lemma_find_task_at(self@, task_name@, i as int);
                }
                return Some(i);
            }
            i = i + 1;
        }
        proof {
            lemma_find_task_at(self@, task_name@, n as int);
        }
        None
    }

    /// Adds a fresh task so named; a name already taken is refused with the
    /// store unchanged.
    pub fn add_task(&mut self, task_name: &str) -> (r: Result<(), TaskError>)
        ensures
            match r {
                Ok(()) => {
                    &&& find_task(old(self)@, task_name@) == old(self)@.len()
                    &&& final(self)@.len() == old(self)@.len() + 1
                    &&& final(self)@.take(old(self)@.len() as int) == old(self)@
                    &&& final(self)@.last().name == task_name@
                    &&& final(self)@.last().projects =~= Seq::<ProjectV>::empty()
                },
                Err(e) => {
                    &&& e is DuplicateName
                    &&& find_task(old(self)@, task_name@) < old(self)@.len()
                    &&& final(self)@ == old(self)@
                },
            },
    {
        match self.get_task(task_name) {
            Some(_) => Err(TaskError::DuplicateName),
            None => {
                let t = Task::new(String::from_str(task_name));
                let ghost before = self@;
                self.tasks.push(t);
                proof {
                    assert(self@ =~= before.push(t@));
                    assert(self@.take(before.len() as int) =~= before);
                }
                Ok(())
            },
        }
    }

    /// Removes every task so named, keeping the rest in order and
    /// untouched; an unknown name removes nothing.  A store loaded from
    /// disk may hold several tasks of one name, and one removal clears
    /// them all.
    pub fn remove_task(&mut self, task_name: &str)
        ensures
            final(self)@ == tasks_without(old(self)@, task_name@),
    {
        let ghost orig = self@;
        let mut i: usize = 0;
        proof {
            assert(orig.take(0) =~= Seq::<TaskV>::empty());
            assert(orig.skip(0) =~= orig);
            assert(self@ =~= tasks_without(orig.take(0), task_name@) + orig.skip(0));
        }
        let ghost mut j_exec: int = 0;
        while i < self.tasks.len()
            invariant
                0 <= j_exec <= orig.len(),
                i == tasks_without(orig.take(j_exec), task_name@).len(),
                self@ == tasks_without(orig.take(j_exec), task_name@) + orig.skip(j_exec),
            decreases orig.len() - j_exec,
        {
            let ghost prefix = tasks_without(orig.take(j_exec), task_name@);
            proof {
                assert(self@.len() == prefix.len() + (orig.len() - j_exec));
                assert(j_exec < orig.len());
                assert(self@[i as int] == orig.skip(j_exec)[0]);
                assert(orig.skip(j_exec)[0] == orig[j_exec]);
                assert(orig.take(j_exec + 1).drop_last() =~= orig.take(j_exec));
                assert(orig.take(j_exec + 1).last() == orig[j_exec]);
            }
            if str_eq(self.tasks[i].name.as_str(), task_name) {
                let ghost before = self@;
                self.tasks.remove(i);
                proof {
                    assert(self@ =~= before.remove(i as int));
                    assert(self@ =~= tasks_without(orig.take(j_exec + 1), task_name@) + orig.skip(
                        j_exec + 1,
                    ));
                }
            } else {
                proof {
                    assert(tasks_without(orig.take(j_exec + 1), task_name@) =~= prefix.push(
                        orig[j_exec],
                    ));
                    assert(self@ =~= tasks_without(orig.take(j_exec + 1), task_name@) + orig.skip(
                        j_exec + 1,
                    ));
                }
                i = i + 1;
            }
            proof {
                j_exec = j_exec + 1;
            }
        }
        proof {
            assert(j_exec == orig.len());
            assert(orig.take(j_exec) =~= orig);
            assert(orig.skip(j_exec) =~= Seq::<TaskV>::empty());
            assert(self@ =~= tasks_without(orig, task_name@));
        }
    }
}

/// `s` with every task so named removed; the rest keep their order and
/// contents.
pub open spec fn tasks_without(s: Seq<TaskV>, name: Seq<char>) -> Seq<TaskV>
    decreases s.len(),
{
    if s.len() == 0 {
        seq![]
    } else {
        tasks_without(s.drop_last(), name) + (if s.last().name == name {
            seq![]
        } else {
            seq![s.last()]
        })
    }
}

/// The first registered file so named, if any is.
pub fn find_target_file<'a>(files: &'a Vec<TargetFile>, name: &str) -> (r: Option<&'a TargetFile>)
    ensures
        match r {
            Some(f) => exists|i: int|
                0 <= i < files.deep_view().len() && #[trigger] files.deep_view()[i].name == name@
                    && f@ == files.deep_view()[i],
            None => forall|i: int|
                0 <= i < files.deep_view().len() ==> #[trigger] files.deep_view()[i].name != name@,
        },
{
    let n = files.len();
    let mut i: usize = 0;
    while i < n
        invariant
            i <= n,
            n == files.deep_view().len(),
            forall|j: int| 0 <= j < i ==> #[trigger] files.deep_view()[j].name != name@,
        decreases n - i,
    {
        if str_eq(files[i].name.as_str(), name) {
            proof {
                assert(files.deep_view()[i as int].name == name@);
            }
            return Some(&files[i]);
        }
        i = i + 1;
    }
    None
}

/// The file-name component of a path: everything after its last separator,
/// forward slash or backslash.
pub fn file_name_of(path: &str) -> (r: String)
    ensures
        r@ == path@.skip(after_last_sep(path@)),
{
    let k = scan_last_sep(path);
    let n = path.unicode_len();
    proof {
        crate::strutil::lemma_after_last_sep(path@);
    }
    let r = substr(path, k, n);
    proof {
        assert(r@ =~= path@.skip(after_last_sep(path@)));
    }
    r
}

} // verus!
