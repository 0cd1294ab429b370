use vstd::prelude::*;
use crate::model::{CLI, Data, DataView, Project, Task, TaskView};
use crate::text::{parse_i32, parsed_i32};

verus! {

/// Why a store operation did not take place.
#[derive(Clone, Copy, Debug, PartialEq, Eq, Structural)]
pub enum TaskError {
    /// The next task id would not fit in an `i32`.
    IdOverflow,
    /// The argument of `resolve` is not a decimal `i32`.
    InvalidTaskId,
}

/// The id that the next task gets: one past the last task's id, or zero.
pub open spec fn next_id(tasks: Seq<TaskView>) -> int {
    if tasks.len() == 0 {
        0
    } else {
        tasks.last().id + 1
    }
}

/// The group labels once a task with label `g` is added: a new non-empty
/// label goes to the end, anything else leaves them as they are.
pub open spec fn groups_with(groups: Seq<Seq<char>>, g: Seq<char>) -> Seq<Seq<char>> {
    if g.len() > 0 && !groups.contains(g) {
        groups.push(g)
    } else {
        groups
    }
}

/// The store after a task is added (when its id fits in an `i32`).
pub open spec fn with_task(
    d: DataView,
    content: Seq<char>,
    project: Seq<char>,
    group: Seq<char>,
) -> DataView {
    DataView {
        tasks: d.tasks.push(
            TaskView {
                id: next_id(d.tasks) as i32,
                content: content,
                resolved: false,
                project: project,
                group: group,
            },
        ),
        groups: groups_with(d.groups, group),
        projects: d.projects,
    }
}

/// `k` is the position of the first task whose id is `id`.
pub open spec fn is_first_match(tasks: Seq<TaskView>, id: i32, k: int) -> bool {
    &&& 0 <= k < tasks.len()
    &&& tasks[k].id == id
    &&& forall|j: int| 0 <= j < k ==> tasks[j].id != id
}

/// The store after resolving `id`: the first task with that id is marked
/// resolved; without such a task nothing changes.
pub open spec fn resolved(d: DataView, id: i32) -> DataView {
    if exists|k: int| is_first_match(d.tasks, id, k) {
        let k = choose|k: int| is_first_match(d.tasks, id, k);
        DataView { tasks: d.tasks.update(k, TaskView { resolved: true, ..d.tasks[k] }), ..d }
    } else {
        d
    }
}

/// The store after all tasks are removed.
pub open spec fn cleared(d: DataView) -> DataView {
    DataView { tasks: Seq::empty(), ..d }
}

/// The store after a project is added.
pub open spec fn with_project(
    d: DataView,
    name: Seq<char>,
    tag: Seq<char>,
    description: Seq<char>,
) -> DataView {
    DataView {
        projects: d.projects.push(
            crate::model::ProjectView { name: name, tag: tag, description: description },
        ),
        ..d
    }
}

/// Whether `label` is among `groups`.
pub fn contains_label(groups: &Vec<String>, label: &String) -> (r: bool)
    ensures
        r == groups@.map_values(|g: String| g@).contains(label@),
{
    let ghost labels = groups@.map_values(|g: String| g@);
    let mut i: usize = 0;
    while i < groups.len()
        invariant
            0 <= i <= groups.len(),
            labels == groups@.map_values(|g: String| g@),
            forall|j: int| 0 <= j < i ==> labels[j] != label@,
        decreases groups.len() - i,
    {
        if groups[i] == *label {
            assert(labels[i as int] == label@);
            return true;
        }
        i = i + 1;
    }
    assert(!labels.contains(label@));
    false
}

/// Adds a task with the given content, project and group label (each may be
/// empty) and returns its id: one past the last task's id, or zero in an
/// empty store. A new non-empty label is appended to the groups. Fails,
/// changing nothing, when that id would not fit in an `i32`.
pub fn add_task(data: &mut Data, content: String, project: String, group: String) -> (r: Result<
    i32,
    TaskError,
>)
    ensures
        r is Err <==> next_id(old(data)@.tasks) > i32::MAX,
        r matches Ok(id) ==> id == next_id(old(data)@.tasks) && final(data)@ == with_task(
            old(data)@,
            content@,
            project@,
            group@,
        ),
        r matches Err(e) ==> e is IdOverflow && final(data)@ == old(data)@,
{
    let n = data.tasks.len();
    let id: i32 = if n == 0 {
        0
    } else {
        let last = data.tasks[n - 1].id;
        if last == i32::MAX {
            return Err(TaskError::IdOverflow);
        }
        last + 1
    };
    let ghost d0 = data@;
    if !group.as_str().is_empty() && !contains_label(&data.groups, &group) {
        data.groups.push(group.clone());
    }
    data.tasks.push(Task { id, content, resolved: false, project, group });
    proof {
        let d1 = with_task(d0, content@, project@, group@);
        assert(data@.tasks =~= d1.tasks);
        assert(data@.groups =~= d1.groups);
        assert(data@.projects =~= d1.projects);
    }
    Ok(id)
}

/// Adds a project with the given name, tag and description.
pub fn add_project(data: &mut Data, name: String, tag: String, description: String)
    ensures
        final(data)@ == with_project(old(data)@, name@, tag@, description@),
{
    let ghost d0 = data@;
    data.projects.push(Project { name, tag, description });
    proof {
        let d1 = with_project(d0, name@, tag@, description@);
        assert(data@.tasks =~= d1.tasks);
        assert(data@.groups =~= d1.groups);
        assert(data@.projects =~= d1.projects);
    }
}

/// Removes every task; groups and projects stay.
pub fn clear_tasks(data: &mut Data)
    ensures
        final(data)@ == cleared(old(data)@),
{
    let ghost d0 = data@;
    data.tasks.clear();
    proof {
        assert(data@.tasks =~= cleared(d0).tasks);
        assert(data@.groups =~= d0.groups);
        assert(data@.projects =~= d0.projects);
    }
}

/// Marks the first task whose id is `id` resolved; a no-op when there is none.
pub fn resolve_task_id(data: &mut Data, id: i32)
    ensures
        final(data)@ == resolved(old(data)@, id),
{
    let ghost d0 = data@;
    let mut i: usize = 0;
    while i < data.tasks.len()
        invariant
            0 <= i <= data.tasks.len(),
            data@ == d0,
            d0 == old(data)@,
            forall|j: int| 0 <= j < i ==> d0.tasks[j].id != id,
        decreases data.tasks.len() - i,
    {
        if data.tasks[i].id == id {
            assert(is_first_match(d0.tasks, id, i as int));
            let ghost k = choose|k: int| is_first_match(d0.tasks, id, k);
            assert(k == i);
            data.tasks[i].resolved = true;
            proof {
                let d1 = resolved(d0, id);
                assert(data@.tasks =~= d1.tasks);
                assert(data@.groups =~= d1.groups);
                assert(data@.projects =~= d1.projects);
            }
            return;
        }
        i = i + 1;
    }
    assert(!exists|k: int| is_first_match(d0.tasks, id, k));
}

/// Carries out `resolve <task_id>`: with an empty argument nothing happens;
/// an argument that is not a decimal `i32` is refused, changing nothing;
/// otherwise the first task with that id is marked resolved.
pub fn resolve_task(data: &mut Data, cli: &CLI) -> (r: Result<(), TaskError>)
    ensures
        cli.arg1@.len() == 0 ==> r is Ok && final(data)@ == old(data)@,
        cli.arg1@.len() > 0 ==> match parsed_i32(cli.arg1@) {
            Some(id) => r is Ok && final(data)@ == resolved(old(data)@, id),
            None => r matches Err(e) && e is InvalidTaskId && final(data)@ == old(data)@,
        },
{
    if cli.arg1.as_str().is_empty() {
        return Ok(());
    }
    match parse_i32(cli.arg1.as_str()) {
        Some(id) => {
            resolve_task_id(data, id);
            Ok(())
        },
        None => Err(TaskError::InvalidTaskId),
    }
}

} // verus!
