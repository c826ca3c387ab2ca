use vstd::prelude::*;
use crate::aggregate::SourceError;
use crate::text::same_text;

verus! {

/// Address of the task manager's service.
pub const URL_BASE: &'static str = "https://api.todoist.com/";

/// Path of the project list, under `URL_BASE`.
pub const PROJECTS_PATH: &'static str = "rest/v1/projects";

/// Path of the task list, under `URL_BASE`.
pub const TASKS_PATH: &'static str = "rest/v1/tasks";

/// A project: the task manager's named collection of tasks.
#[derive(Clone, Debug)]
pub struct Project {
    pub comment_count: usize,
    pub id: usize,
    pub name: String,
    pub color: usize,
    pub shared: bool,
}

/// A task as the task manager describes it.
#[derive(Clone, Debug)]
pub struct Task {
    pub id: usize,
    pub project_id: usize,
    pub section_id: usize,
    pub content: String,
    pub completed: bool,
    pub label_ids: Vec<usize>,
    pub parent: Option<usize>,
    pub order: Option<usize>,
    pub priority: usize,
    pub due: Option<TodoistDate>,
    pub url: String,
}

/// A task's due date as the task manager gives it.
#[derive(Clone, Debug)]
pub struct TodoistDate {
    /// The due date as the user wrote it.
    pub string: String,
    /// `YYYY-MM-DD`, in the user's time zone.
    pub date: String,
    /// An RFC 3339 instant in UTC, when a time of day is set.
    pub datetime: Option<String>,
    /// The user's time zone, when a time of day is set.
    pub timezone: Option<String>,
}

/// Access to the task manager: its projects, and the tasks of a named one.
pub trait TodoistClient {
    fn projects(&mut self) -> Result<Vec<Project>, SourceError>;

    fn tasks(&mut self, project: &str) -> Result<Vec<Task>, SourceError>;
}

/// The state of one client of the task manager: its credential and the
/// projects it has already fetched. The fetching itself is done by the
/// caller, which hands the results in.
pub struct TodoistRestClient {
    token: String,
    projects: Vec<Project>,
}

/// Index of the first project named `name`.
pub open spec fn first_named(s: Seq<Project>, name: Seq<char>) -> Option<int> {
    if exists|k: int| 0 <= k < s.len() && (#[trigger] s[k]).name@ == name {
        Some(choose|k: int| 0 <= k < s.len() && s[k].name@ == name && forall|j: int|
            0 <= j < k ==> (#[trigger] s[j]).name@ != name)
    } else {
        None
    }
}

/// The tasks of `s` that belong to the project `project_id`, in order.
pub open spec fn tasks_in_project(s: Seq<Task>, project_id: usize) -> Seq<Task>
    decreases s.len(),
{
    if s.len() == 0 {
        Seq::empty()
    } else if s.last().project_id == project_id {
        tasks_in_project(s.drop_last(), project_id).push(s.last())
    } else {
        tasks_in_project(s.drop_last(), project_id)
    }
}

/// Finds the id of the first project named `name`.
pub fn find_project(projects: &Vec<Project>, name: &str) -> (r: Option<usize>)
    ensures
        r is None <==> first_named(projects@, name@) is None,
        r is Some ==> r->0 == projects@[first_named(projects@, name@)->0].id,
{
    let mut k: usize = 0;
    while k < projects.len()
        invariant
            k <= projects@.len(),
            forall|j: int| 0 <= j < k ==> (#[trigger] projects@[j]).name@ != name@,
        decreases projects@.len() - k,
    {
        if same_text(projects[k].name.as_str(), name) {
            proof {
                let c = choose|c: int| 0 <= c < projects@.len() && projects@[c].name@ == name@
                    && forall|j: int| 0 <= j < c ==> (#[trigger] projects@[j]).name@ != name@;
                assert(0 <= k < projects@.len() && projects@[k as int].name@ == name@);
                if c < k {
                    assert(projects@[c].name@ != name@);
                } else if c > k {
                    assert(projects@[k as int].name@ != name@);
                }
            }
            return Some(projects[k].id);
        }
        k = k + 1;
    }
    None
}

/// Keeps the tasks that belong to the project `project_id`, in order.
pub fn select_tasks(tasks: Vec<Task>, project_id: usize) -> (r: Vec<Task>)
    ensures
        r@ == tasks_in_project(tasks@, project_id),
{
    let ghost orig = tasks@;
    let n = tasks.len();
    let mut rest = tasks;
    let mut out: Vec<Task> = Vec::new();
    let mut j: usize = 0;
    while j < n
        invariant
            n == orig.len(),
            j <= n,
            rest@ == orig.subrange(j as int, n as int),
            out@ == tasks_in_project(orig.subrange(0, j as int), project_id),
        decreases n - j,
    {
        let t = rest.remove(0);
        proof {
            assert(orig.subrange(0, j + 1).drop_last() =~= orig.subrange(0, j as int));
            assert(orig.subrange(0, j + 1).last() == t);
        }
        if t.project_id == project_id {
            out.push(t);
        }
        j = j + 1;
    }
    proof {
        assert(orig.subrange(0, n as int) =~= orig);
    }
    out
}

impl TodoistRestClient {
    pub closed spec fn token_spec(&self) -> Seq<char> {
        self.token@
    }

    /// The projects fetched so far; empty until the first fetch.
    pub closed spec fn cached(&self) -> Seq<Project> {
        self.projects@
    }

    pub fn new(token: String) -> (r: TodoistRestClient)
        ensures
            r.token_spec() == token@,
            r.cached().len() == 0,
    {
        TodoistRestClient { token, projects: Vec::new() }
    }

    /// The value of the `Authorization` header: `Bearer ` and the token.
    pub fn authorization(&self) -> (r: String)
        ensures
            r@ == "Bearer "@ + self.token_spec(),
    {
        String::from_str("Bearer ").concat(self.token.as_str())
    }

    /// Whether the project list has yet to be fetched.
    pub fn needs_projects(&self) -> (r: bool)
        ensures
            r == (self.cached().len() == 0),
    {
        self.projects.len() == 0
    }

    /// Keeps the fetched project list for later lookups.
    pub fn store_projects(&mut self, fetched: Vec<Project>)
        ensures
            final(self).cached() == fetched@,
            final(self).token_spec() == old(self).token_spec(),
    {
        self.projects = fetched;
    }

    pub fn cached_projects(&self) -> (r: &Vec<Project>)
        ensures
            r@ == self.cached(),
    {
        &self.projects
    }

    /// The id of the project named `name` among the fetched ones;
    /// `NotFound` naming it when there is none.
    pub fn resolve_project(&self, name: &str) -> (r: Result<usize, SourceError>)
        ensures
            r is Ok <==> first_named(self.cached(), name@) is Some,
            r is Ok ==> r->Ok_0 == self.cached()[first_named(self.cached(), name@)->0].id,
            r is Err ==> (r->Err_0 matches SourceError::NotFound { collection } && collection@
                == name@),
    {
        match find_project(&self.projects, name) {
            Some(id) => Ok(id),
            None => Err(SourceError::NotFound { collection: String::from_str(name) }),
        }
    }
}

} // verus!
