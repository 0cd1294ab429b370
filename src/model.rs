use vstd::prelude::*;

verus! {

/// A command line: the command word and its first argument (empty if none).
pub struct CLI {
    pub command: String,
    pub arg1: String,
}

pub struct Task {
    pub id: i32,
    pub content: String,
    pub resolved: bool,
    pub project: String,
    pub group: String,
}

pub struct Project {
    pub name: String,
    pub tag: String,
    pub description: String,
}

/// The whole store: tasks in creation order, the distinct group labels in
/// first-seen order, and projects in creation order.
pub struct Data {
    pub tasks: Vec<Task>,
    pub groups: Vec<String>,
    pub projects: Vec<Project>,
}

pub struct TaskView {
    pub id: i32,
    pub content: Seq<char>,
    pub resolved: bool,
    pub project: Seq<char>,
    pub group: Seq<char>,
}

pub struct ProjectView {
    pub name: Seq<char>,
    pub tag: Seq<char>,
    pub description: Seq<char>,
}

pub struct DataView {
    pub tasks: Seq<TaskView>,
    pub groups: Seq<Seq<char>>,
    pub projects: Seq<ProjectView>,
}

impl View for Task {
    type V = TaskView;

    open spec fn view(&self) -> TaskView {
        TaskView {
            id: self.id,
            content: self.content@,
            resolved: self.resolved,
            project: self.project@,
            group: self.group@,
        }
    }
}

impl View for Project {
    type V = ProjectView;

    open spec fn view(&self) -> ProjectView {
        ProjectView { name: self.name@, tag: self.tag@, description: self.description@ }
    }
}

impl View for Data {
    type V = DataView;

    open spec fn view(&self) -> DataView {
        DataView {
            tasks: self.tasks@.map_values(|t: Task| t@),
            groups: self.groups@.map_values(|g: String| g@),
            projects: self.projects@.map_values(|p: Project| p@),
        }
    }
}

/// The store with no tasks, groups or projects.
pub open spec fn empty_data() -> DataView {
    DataView { tasks: Seq::empty(), groups: Seq::empty(), projects: Seq::empty() }
}

impl Data {
    pub fn new() -> (d: Data)
        ensures
            d@ == empty_data(),
    {
        let d = Data { tasks: Vec::new(), groups: Vec::new(), projects: Vec::new() };
        assert(d@.tasks =~= Seq::empty());
        assert(d@.groups =~= Seq::empty());
        assert(d@.projects =~= Seq::empty());
        d
    }
}

impl Task {
    /// A copy of the task, field for field.
    pub fn duplicate(&self) -> (r: Task)
        ensures
            r@ == self@,
    {
        Task {
            id: self.id,
            content: self.content.clone(),
            resolved: self.resolved,
            project: self.project.clone(),
            group: self.group.clone(),
        }
    }
}

} // verus!
