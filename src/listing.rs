use vstd::prelude::*;
use vstd::string::*;
use crate::model::{Data, DataView, Task, TaskView};
use crate::text::{decimal, i32_text, padded, push_padded};

verus! {

/// The tasks of `s` that satisfy `p`, in their order.
pub open spec fn select(s: Seq<TaskView>, p: spec_fn(TaskView) -> bool) -> Seq<TaskView>
    decreases s.len(),
{
    if s.len() == 0 {
        Seq::empty()
    } else {
        let r = select(s.drop_last(), p);
        if p(s.last()) {
            r.push(s.last())
        } else {
            r
        }
    }
}

/// The tasks shown under the heading `label`.
pub open spec fn members(tasks: Seq<TaskView>, label: Seq<char>) -> Seq<TaskView> {
    select(tasks, |t: TaskView| t.group == label)
}

/// The tasks shown under the closing heading: those without a group label,
/// and those whose label is not among `groups` (so no task goes unshown).
pub open spec fn ungrouped(tasks: Seq<TaskView>, groups: Seq<Seq<char>>) -> Seq<TaskView> {
    select(tasks, |t: TaskView| t.group.len() == 0 || !groups.contains(t.group))
}

/// One line of a block: a connector (`└` for the block's last task, `├`
/// otherwise), the resolved mark, the id and the content, and the project
/// when there is one.
pub open spec fn task_line(t: TaskView, last: bool) -> Seq<char> {
    (if last {
        "└"@
    } else {
        "├"@
    }) + (if t.resolved {
        "[x]"@
    } else {
        "[ ]"@
    }) + "- "@ + padded(decimal(t.id as int), 3) + " - "@ + padded(t.content, 10) + " "@ + (
    if t.project.len() > 0 {
        "- "@ + padded(t.project, 10)
    } else {
        Seq::empty()
    }) + "\n"@
}

/// The first `n` lines of the block of `s`.
pub open spec fn lines(s: Seq<TaskView>, n: nat) -> Seq<char>
    decreases n,
{
    if n == 0 {
        Seq::empty()
    } else {
        lines(s, (n - 1) as nat) + task_line(s[n - 1], n == s.len())
    }
}

/// The lines of all tasks in `s`.
pub open spec fn block(s: Seq<TaskView>) -> Seq<char> {
    lines(s, s.len())
}

/// A group's heading line, its block, and an empty line.
pub open spec fn section(tasks: Seq<TaskView>, label: Seq<char>) -> Seq<char> {
    label + "\n"@ + block(members(tasks, label)) + "\n"@
}

/// The sections of the first `n` group labels.
pub open spec fn sections(d: DataView, n: nat) -> Seq<char>
    decreases n,
{
    if n == 0 {
        Seq::empty()
    } else {
        sections(d, (n - 1) as nat) + section(d.tasks, d.groups[n - 1])
    }
}

/// The whole listing: a section per group label in order, then the closing
/// heading and the block of ungrouped tasks.
pub open spec fn listing(d: DataView) -> Seq<char> {
    sections(d, d.groups.len()) + "No Groupings\n"@ + block(ungrouped(d.tasks, d.groups))
}

/// Appends the line of `t` to `out`.
pub fn push_task_line(out: &mut String, t: &Task, last: bool)
    ensures
        final(out)@ == old(out)@ + task_line(t@, last),
{
    let ghost start = out@;
    let ghost conn = if last {
        "└"@
    } else {
        "├"@
    };
    let ghost mark = if t.resolved {
        "[x]"@
    } else {
        "[ ]"@
    };
    if last {
        out.append("└");
    } else {
        out.append("├");
    }
    if t.resolved {
        out.append("[x]");
    } else {
        out.append("[ ]");
    }
    out.append("- ");
    let ghost head = conn + mark + "- "@;
    assert(out@ =~= start + head);
    let id = i32_text(t.id);
    push_padded(out, id.as_str(), 3);
    out.append(" - ");
    let ghost upto_content = head + padded(decimal(t.id as int), 3) + " - "@;
    assert(out@ =~= start + upto_content);
    push_padded(out, t.content.as_str(), 10);
    out.append(" ");
    let ghost upto_project = upto_content + padded(t.content@, 10) + " "@;
    assert(out@ =~= start + upto_project);
    let ghost proj = if t.project@.len() > 0 {
        "- "@ + padded(t.project@, 10)
    } else {
        Seq::empty()
    };
    if !t.project.as_str().is_empty() {
        out.append("- ");
        push_padded(out, t.project.as_str(), 10);
    }
    assert(out@ =~= start + (upto_project + proj));
    out.append("\n");
    assert(out@ =~= start + task_line(t@, last));
}

/// Appends the block of `s` to `out`.
pub fn push_block(out: &mut String, s: &Vec<Task>)
    ensures
        final(out)@ == old(out)@ + block(s@.map_values(|t: Task| t@)),
{
    let ghost start = out@;
    let ghost v = s@.map_values(|t: Task| t@);
    let mut i: usize = 0;
    while i < s.len()
        invariant
            0 <= i <= s.len(),
            v == s@.map_values(|t: Task| t@),
            out@ == start + lines(v, i as nat),
        decreases s.len() - i,
    {
        push_task_line(out, &s[i], i + 1 == s.len());
        i = i + 1;
        assert(out@ =~= start + lines(v, i as nat));
    }
}

proof fn lemma_select_step(s: Seq<TaskView>, p: spec_fn(TaskView) -> bool, i: int)
    requires
        0 <= i < s.len(),
    ensures
        select(s.take(i + 1), p) == if p(s[i]) {
            select(s.take(i), p).push(s[i])
        } else {
            select(s.take(i), p)
        },
{
    assert(s.take(i + 1).drop_last() =~= s.take(i));
}

/// The tasks carrying the group label `label`, in order.
pub fn group_members(tasks: &Vec<Task>, label: &String) -> (r: Vec<Task>)
    ensures
        r@.map_values(|t: Task| t@) == members(tasks@.map_values(|t: Task| t@), label@),
{
    let ghost tv = tasks@.map_values(|t: Task| t@);
    let ghost p = |t: TaskView| t.group == label@;
    let mut r: Vec<Task> = Vec::new();
    let mut i: usize = 0;
    while i < tasks.len()
        invariant
            0 <= i <= tasks.len(),
            tv == tasks@.map_values(|t: Task| t@),
            p == (|t: TaskView| t.group == label@),
            r@.map_values(|t: Task| t@) == select(tv.take(i as int), p),
        decreases tasks.len() - i,
    {
        proof {
            lemma_select_step(tv, p, i as int);
        }
        if tasks[i].group == *label {
            r.push(tasks[i].duplicate());
        }
        i = i + 1;
        assert(r@.map_values(|t: Task| t@) =~= select(tv.take(i as int), p));
    }
    assert(tv.take(tasks.len() as int) =~= tv);
    r
}

/// The tasks shown under the closing heading, in order.
pub fn ungrouped_tasks(tasks: &Vec<Task>, groups: &Vec<String>) -> (r: Vec<Task>)
    ensures
        r@.map_values(|t: Task| t@) == ungrouped(
            tasks@.map_values(|t: Task| t@),
            groups@.map_values(|g: String| g@),
        ),
{
    let ghost tv = tasks@.map_values(|t: Task| t@);
    let ghost gv = groups@.map_values(|g: String| g@);
    let ghost p = |t: TaskView| t.group.len() == 0 || !gv.contains(t.group);
    let mut r: Vec<Task> = Vec::new();
    let mut i: usize = 0;
    while i < tasks.len()
        invariant
            0 <= i <= tasks.len(),
            tv == tasks@.map_values(|t: Task| t@),
            gv == groups@.map_values(|g: String| g@),
            p == (|t: TaskView| t.group.len() == 0 || !gv.contains(t.group)),
            r@.map_values(|t: Task| t@) == select(tv.take(i as int), p),
        decreases tasks.len() - i,
    {
        proof {
            lemma_select_step(tv, p, i as int);
        }
        if tasks[i].group.as_str().is_empty() || !crate::store::contains_label(
            groups,
            &tasks[i].group,
        ) {
            r.push(tasks[i].duplicate());
        }
        i = i + 1;
        assert(r@.map_values(|t: Task| t@) =~= select(tv.take(i as int), p));
    }
    assert(tv.take(tasks.len() as int) =~= tv);
    r
}

/// The grouped listing of the store: for each group label in first-seen
/// order a heading and its tasks, then the tasks without a known label under
/// a closing heading.
pub fn list_tasks(data: &Data) -> (r: String)
    ensures
        r@ == listing(data@),
{
    let ghost d = data@;
    let mut out = String::new();
    let mut i: usize = 0;
    while i < data.groups.len()
        invariant
            0 <= i <= data.groups.len(),
            d == data@,
            out@ == sections(d, i as nat),
        decreases data.groups.len() - i,
    {
        let ghost before = out@;
        out.append(data.groups[i].as_str());
        out.append("\n");
        let sel = group_members(&data.tasks, &data.groups[i]);
        push_block(&mut out, &sel);
        out.append("\n");
        i = i + 1;
        assert(out@ =~= sections(d, i as nat));
    }
    out.append("No Groupings\n");
    let rest = ungrouped_tasks(&data.tasks, &data.groups);
    push_block(&mut out, &rest);
    out
}

} // verus!
