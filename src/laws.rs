use vstd::prelude::*;
use crate::listing::{block, listing, members, sections, select, ungrouped};
use crate::model::{empty_data, DataView, TaskView};
use crate::store::{
    cleared, groups_with, is_first_match, next_id, resolved, with_project, with_task,
};

verus! {

/// Resolving the same id twice leaves the store as resolving it once does.
pub proof fn lemma_resolve_idempotent(d: DataView, id: i32)
    ensures
        resolved(resolved(d, id), id) == resolved(d, id),
{
    if exists|k: int| is_first_match(d.tasks, id, k) {
        let k = choose|k: int| is_first_match(d.tasks, id, k);
        let d1 = resolved(d, id);
        assert(is_first_match(d1.tasks, id, k));
        let k1 = choose|k1: int| is_first_match(d1.tasks, id, k1);
        assert(k1 == k) by {
            if k1 < k {
                assert(d1.tasks[k1].id == d.tasks[k1].id);
            } else if k < k1 {
                assert(d1.tasks[k].id == id);
            }
        }
        assert(d1.tasks.update(k, TaskView { resolved: true, ..d1.tasks[k] }) =~= d1.tasks);
    }
}

/// The store after adding tasks from the (content, project, group) triples
/// of `inputs`, in order, starting from `d`.
pub open spec fn after_adds(d: DataView, inputs: Seq<(Seq<char>, Seq<char>, Seq<char>)>) -> DataView
    decreases inputs.len(),
{
    if inputs.len() == 0 {
        d
    } else {
        let prev = after_adds(d, inputs.drop_last());
        with_task(prev, inputs.last().0, inputs.last().1, inputs.last().2)
    }
}

/// Starting from the empty store, every one of `n` adds succeeds while
/// `n - 1` fits in an `i32`, and the tasks get the ids `0, 1, ..., n - 1`
/// in creation order.
pub proof fn lemma_ids_count_up(inputs: Seq<(Seq<char>, Seq<char>, Seq<char>)>)
    requires
        inputs.len() <= i32::MAX + 1,
    ensures
        forall|k: int|
            0 <= k < inputs.len() ==> next_id(#[trigger] after_adds(empty_data(), inputs.take(k)).tasks)
                == k,
        after_adds(empty_data(), inputs).tasks.len() == inputs.len(),
        forall|i: int|
            0 <= i < inputs.len() ==> #[trigger] after_adds(empty_data(), inputs).tasks[i].id == i,
    decreases inputs.len(),
{
    if inputs.len() > 0 {
        let front = inputs.drop_last();
        lemma_ids_count_up(front);
        let prev = after_adds(empty_data(), front);
        assert(next_id(prev.tasks) == front.len());
        assert forall|k: int| 0 <= k < inputs.len() implies next_id(
            #[trigger] after_adds(empty_data(), inputs.take(k)).tasks,
        ) == k by {
            if k < front.len() {
                assert(inputs.take(k) =~= front.take(k));
            } else {
                assert(inputs.take(k) =~= front);
            }
        }
    }
}

/// Adding two tasks with the same non-empty label records that label once:
/// where it already stood, or else at the end after the first add.
pub proof fn lemma_group_recorded_once(
    d: DataView,
    content1: Seq<char>,
    project1: Seq<char>,
    content2: Seq<char>,
    project2: Seq<char>,
    g: Seq<char>,
)
    requires
        g.len() > 0,
    ensures
        with_task(with_task(d, content1, project1, g), content2, project2, g).groups == groups_with(d.groups, g),
        groups_with(d.groups, g) == if d.groups.contains(g) {
            d.groups
        } else {
            d.groups.push(g)
        },
        with_task(with_task(d, content1, project1, g), content2, project2, g).groups.contains(g),
        d.groups.no_duplicates() ==> with_task(
            with_task(d, content1, project1, g),
            content2,
            project2,
            g,
        ).groups.no_duplicates(),
{
    let gs = groups_with(d.groups, g);
    if !d.groups.contains(g) {
        assert(gs.last() == g);
        assert(gs.contains(g));
    }
    lemma_groups_stay_distinct(d.groups, g);
}

/// Recording a label keeps the labels distinct.
pub proof fn lemma_groups_stay_distinct(groups: Seq<Seq<char>>, g: Seq<char>)
    ensures
        groups.no_duplicates() ==> groups_with(groups, g).no_duplicates(),
{
    if groups.no_duplicates() && g.len() > 0 && !groups.contains(g) {
        let gs = groups.push(g);
        assert forall|i: int, j: int| 0 <= i < gs.len() && 0 <= j < gs.len() && i != j implies gs[i]
            != gs[j] by {
            if i == groups.len() {
                assert(groups.contains(gs[j]));
            } else if j == groups.len() {
                assert(groups.contains(gs[i]));
            }
        }
    }
}

proof fn lemma_select_empty(p: spec_fn(TaskView) -> bool)
    ensures
        select(Seq::empty(), p) == Seq::<TaskView>::empty(),
{
}

/// After clearing, every group block and the closing block are empty, and
/// the group labels and projects are those from before.
pub proof fn lemma_clear_lists_no_task(d: DataView)
    ensures
        cleared(d).groups == d.groups,
        cleared(d).projects == d.projects,
        forall|label: Seq<char>| #[trigger] members(cleared(d).tasks, label).len() == 0,
        forall|label: Seq<char>|
            #[trigger] block(members(cleared(d).tasks, label)) == Seq::<char>::empty(),
        ungrouped(cleared(d).tasks, cleared(d).groups).len() == 0,
        block(ungrouped(cleared(d).tasks, cleared(d).groups)) == Seq::<char>::empty(),
{
    let e = cleared(d);
    assert forall|label: Seq<char>| #[trigger] members(e.tasks, label).len() == 0 by {
        lemma_select_empty(|t: TaskView| t.group == label);
    }
    assert forall|label: Seq<char>|
        #[trigger] block(members(e.tasks, label)) == Seq::<char>::empty() by {
        lemma_select_empty(|t: TaskView| t.group == label);
    }
    lemma_select_empty(|t: TaskView| t.group.len() == 0 || !e.groups.contains(t.group));
}

/// The empty store lists nothing but the closing heading.
pub proof fn lemma_empty_store_listing()
    ensures
        listing(empty_data()) == "No Groupings\n"@,
{
    let e = empty_data();
    lemma_select_empty(|t: TaskView| t.group.len() == 0 || !e.groups.contains(t.group));
    assert(sections(e, 0) == Seq::<char>::empty());
    assert(listing(e) =~= "No Groupings\n"@);
}

/// A store as the operations keep it: the group labels are distinct and
/// task ids strictly increase in creation order.
pub open spec fn well_formed(d: DataView) -> bool {
    &&& d.groups.no_duplicates()
    &&& forall|i: int, j: int| 0 <= i < j < d.tasks.len() ==> d.tasks[i].id < d.tasks[j].id
}

/// The empty store is well formed, and each operation keeps a store well
/// formed (an add only when it succeeds, that is when the new id fits).
pub proof fn lemma_operations_keep_well_formed(
    d: DataView,
    content: Seq<char>,
    project: Seq<char>,
    group: Seq<char>,
    id: i32,
)
    ensures
        well_formed(empty_data()),
        well_formed(d) && next_id(d.tasks) <= i32::MAX ==> well_formed(
            with_task(d, content, project, group),
        ),
        well_formed(d) ==> well_formed(resolved(d, id)),
        well_formed(d) ==> well_formed(cleared(d)),
        well_formed(d) ==> well_formed(with_project(d, content, project, group)),
{
    lemma_groups_stay_distinct(d.groups, group);
    if well_formed(d) && next_id(d.tasks) <= i32::MAX {
        let d1 = with_task(d, content, project, group);
        assert forall|i: int, j: int| 0 <= i < j < d1.tasks.len() implies d1.tasks[i].id
            < d1.tasks[j].id by {
            if j == d.tasks.len() && i < j - 1 {
                assert(d.tasks[i].id < d.tasks[j - 1].id);
            }
        }
    }
    if well_formed(d) && exists|k: int| is_first_match(d.tasks, id, k) {
        let k = choose|k: int| is_first_match(d.tasks, id, k);
        let d1 = resolved(d, id);
        assert forall|i: int, j: int| 0 <= i < j < d1.tasks.len() implies d1.tasks[i].id
            < d1.tasks[j].id by {
            assert(d1.tasks[i].id == d.tasks[i].id);
            assert(d1.tasks[j].id == d.tasks[j].id);
        }
    }
}

} // verus!
