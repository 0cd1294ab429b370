use tasklist::command::{command_of, store_from_decoded, Command};
use tasklist::listing::list_tasks;
use tasklist::model::{Data, Project, Task, CLI};
use tasklist::store::{
    add_project, add_task, clear_tasks, resolve_task, resolve_task_id, TaskError,
};

fn s(x: &str) -> String {
    x.to_string()
}

fn cli(command: &str, arg1: &str) -> CLI {
    CLI { command: s(command), arg1: s(arg1) }
}

fn add(d: &mut Data, content: &str, project: &str, group: &str) -> i32 {
    add_task(d, s(content), s(project), s(group)).unwrap()
}

fn same_task(a: &Task, b: &Task) -> bool {
    a.id == b.id
        && a.content == b.content
        && a.resolved == b.resolved
        && a.project == b.project
        && a.group == b.group
}

fn same_data(a: &Data, b: &Data) -> bool {
    a.tasks.len() == b.tasks.len()
        && a.tasks.iter().zip(b.tasks.iter()).all(|(x, y)| same_task(x, y))
        && a.groups == b.groups
        && a.projects.len() == b.projects.len()
        && a.projects.iter().zip(b.projects.iter()).all(|(x, y)| {
            x.name == y.name && x.tag == y.tag && x.description == y.description
        })
}

#[test]
fn scenario_add_resolve_list() {
    let mut d = Data::new();
    assert_eq!(add(&mut d, "Buy milk", "", "home"), 0);
    assert_eq!(d.groups, vec![s("home")]);
    assert_eq!(add(&mut d, "Ship release", "core", "work"), 1);
    assert_eq!(d.groups, vec![s("home"), s("work")]);
    assert_eq!(resolve_task(&mut d, &cli("resolve", "0")), Ok(()));
    assert!(d.tasks[0].resolved);
    assert!(!d.tasks[1].resolved);
    assert_eq!(
        list_tasks(&d),
        "home\n└[x]- 0   - Buy milk   \n\nwork\n└[ ]- 1   - Ship release - core      \n\nNo Groupings\n"
    );
}

#[test]
fn resolve_twice_equals_once() {
    let mut once = Data::new();
    add(&mut once, "a", "", "g");
    add(&mut once, "b", "p", "");
    let mut twice = Data::new();
    add(&mut twice, "a", "", "g");
    add(&mut twice, "b", "p", "");
    resolve_task_id(&mut once, 1);
    resolve_task_id(&mut twice, 1);
    resolve_task_id(&mut twice, 1);
    assert!(same_data(&once, &twice));
    assert!(twice.tasks[1].resolved);
    assert!(!twice.tasks[0].resolved);
}

#[test]
fn resolve_marks_first_match_only() {
    let mut d = Data::new();
    d.tasks.push(Task { id: 7, content: s("x"), resolved: false, project: s(""), group: s("") });
    d.tasks.push(Task { id: 7, content: s("y"), resolved: false, project: s(""), group: s("") });
    resolve_task_id(&mut d, 7);
    assert!(d.tasks[0].resolved);
    assert!(!d.tasks[1].resolved);
}

#[test]
fn resolve_missing_id_is_no_op() {
    let mut d = Data::new();
    add(&mut d, "a", "", "");
    assert_eq!(resolve_task(&mut d, &cli("resolve", "5")), Ok(()));
    assert!(!d.tasks[0].resolved);
}

#[test]
fn resolve_with_empty_argument_changes_nothing() {
    let mut d = Data::new();
    add(&mut d, "a", "", "");
    assert_eq!(resolve_task(&mut d, &cli("resolve", "")), Ok(()));
    assert!(!d.tasks[0].resolved);
}

#[test]
fn resolve_with_bad_id_is_refused() {
    let mut d = Data::new();
    add(&mut d, "a", "", "");
    assert_eq!(resolve_task(&mut d, &cli("resolve", "abc")), Err(TaskError::InvalidTaskId));
    assert_eq!(resolve_task(&mut d, &cli("resolve", "-")), Err(TaskError::InvalidTaskId));
    assert_eq!(
        resolve_task(&mut d, &cli("resolve", "2147483648")),
        Err(TaskError::InvalidTaskId)
    );
    assert!(!d.tasks[0].resolved);
}

#[test]
fn resolve_accepts_signed_ids() {
    let mut d = Data::new();
    add(&mut d, "a", "", "");
    assert_eq!(resolve_task(&mut d, &cli("resolve", "+0")), Ok(()));
    assert!(d.tasks[0].resolved);
}

#[test]
fn ids_count_up_from_zero() {
    let mut d = Data::new();
    for n in 0..20 {
        assert_eq!(add(&mut d, "t", "", ""), n);
    }
    let ids: Vec<i32> = d.tasks.iter().map(|t| t.id).collect();
    assert_eq!(ids, (0..20).collect::<Vec<i32>>());
}

#[test]
fn next_id_follows_last_task() {
    let mut d = Data::new();
    d.tasks.push(Task { id: 41, content: s("x"), resolved: true, project: s(""), group: s("") });
    assert_eq!(add(&mut d, "y", "", ""), 42);
    assert!(!d.tasks[1].resolved);
}

#[test]
fn id_overflow_is_refused() {
    let mut d = Data::new();
    d.tasks.push(Task {
        id: i32::MAX,
        content: s("x"),
        resolved: false,
        project: s(""),
        group: s(""),
    });
    let r = add_task(&mut d, s("y"), s(""), s("new"));
    assert_eq!(r, Err(TaskError::IdOverflow));
    assert_eq!(d.tasks.len(), 1);
    assert!(d.groups.is_empty());
}

#[test]
fn same_group_recorded_once() {
    let mut d = Data::new();
    add(&mut d, "a", "", "home");
    add(&mut d, "b", "", "work");
    add(&mut d, "c", "", "home");
    assert_eq!(d.groups, vec![s("home"), s("work")]);
}

#[test]
fn empty_group_label_not_recorded() {
    let mut d = Data::new();
    add(&mut d, "a", "", "");
    assert!(d.groups.is_empty());
    assert_eq!(d.tasks[0].group, "");
}

#[test]
fn clear_keeps_groups_and_projects() {
    let mut d = Data::new();
    add(&mut d, "a", "", "home");
    add(&mut d, "b", "", "");
    add_project(&mut d, s("Core"), s("core"), s("the core"));
    clear_tasks(&mut d);
    assert!(d.tasks.is_empty());
    assert_eq!(d.groups, vec![s("home")]);
    assert_eq!(d.projects.len(), 1);
    assert_eq!(list_tasks(&d), "home\n\nNo Groupings\n");
}

#[test]
fn ids_not_reused_after_clear_then_add() {
    let mut d = Data::new();
    add(&mut d, "a", "", "");
    clear_tasks(&mut d);
    assert_eq!(add(&mut d, "b", "", ""), 0);
}

#[test]
fn add_project_appends() {
    let mut d = Data::new();
    add_project(&mut d, s("A"), s("a"), s("first"));
    add_project(&mut d, s("A"), s("a"), s("again"));
    assert_eq!(d.projects.len(), 2);
    assert_eq!(d.projects[1].description, "again");
    assert_eq!(d.projects[0].name, "A");
}

#[test]
fn missing_store_lists_nothing() {
    let d = store_from_decoded(None);
    assert!(d.tasks.is_empty() && d.groups.is_empty() && d.projects.is_empty());
    assert_eq!(list_tasks(&d), "No Groupings\n");
}

#[test]
fn decoded_store_is_kept() {
    let mut d = Data::new();
    d.projects.push(Project { name: s("n"), tag: s("t"), description: s("d") });
    let kept = store_from_decoded(Some(d));
    assert_eq!(kept.projects.len(), 1);
}

#[test]
fn block_connectors_and_padding() {
    let mut d = Data::new();
    add(&mut d, "first", "", "g");
    add(&mut d, "a long content", "proj", "g");
    assert_eq!(
        list_tasks(&d),
        "g\n├[ ]- 0   - first      \n└[ ]- 1   - a long content - proj      \n\nNo Groupings\n"
    );
}

#[test]
fn wide_and_negative_ids() {
    let mut d = Data::new();
    d.tasks.push(Task { id: -5, content: s("n"), resolved: false, project: s(""), group: s("") });
    d.tasks.push(Task { id: 12345, content: s("w"), resolved: true, project: s(""), group: s("") });
    assert_eq!(
        list_tasks(&d),
        "No Groupings\n├[ ]- -5  - n          \n└[x]- 12345 - w          \n"
    );
}

#[test]
fn unknown_label_is_listed_as_ungrouped() {
    let mut d = Data::new();
    d.tasks.push(Task { id: 0, content: s("x"), resolved: false, project: s(""), group: s("lost") });
    assert_eq!(list_tasks(&d), "No Groupings\n└[ ]- 0   - x          \n");
}

#[test]
fn commands_are_recognised() {
    assert_eq!(command_of(&cli("list", "")), Command::ListTasks);
    assert_eq!(command_of(&cli("add", "task")), Command::AddTask);
    assert_eq!(command_of(&cli("add", "project")), Command::AddProject);
    assert_eq!(command_of(&cli("add", "other")), Command::Nothing);
    assert_eq!(command_of(&cli("resolve", "3")), Command::ResolveTask);
    assert_eq!(command_of(&cli("clear", "")), Command::ClearTasks);
    assert_eq!(command_of(&cli("remove", "")), Command::Invalid);
}
