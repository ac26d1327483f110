//! The divide-and-compute cycle: each task goes to the agent it names, is
//! counted as specialist work or not, and gets a fresh tile identifier. The
//! quality of each tile is computed by the caller from these assignments.

use vstd::prelude::*;
use crate::agents::{first_agent_index, has_id, is_first_match};
use crate::tile::{fresh_tile_id, tile_id_text};

verus! {

/// A unit of work handed to one agent.
#[derive(Debug, Clone)]
pub struct DCSTask {
    pub id: String,
    pub description: String,
    pub assigned_to: String,
    pub is_specialist_work: bool,
}

/// A task as placed in a cycle: which agent of the roster takes it (if the
/// roster has one with the id it names) and the tile it produces.
#[derive(Debug, Clone)]
pub struct TaskAssignment {
    pub task_id: String,
    pub agent_id: String,
    pub tile_id: String,
    pub content: String,
    pub agent_index: Option<usize>,
    pub is_specialist: bool,
}

/// The placement of a whole batch of tasks.
#[derive(Debug, Clone)]
pub struct CyclePlan {
    pub assignments: Vec<TaskAssignment>,
    pub specialist_count: usize,
    pub total_tasks: usize,
}

/// `a` is the placement of task `t` on the roster `agent_ids`: it copies the
/// task's id, agent id, description and specialist flag, names the first agent
/// of the roster with the task's agent id (none if there is none), and carries a
/// tile identifier for the task at some clock reading.
pub open spec fn placement_of(a: TaskAssignment, t: DCSTask, agent_ids: Seq<String>) -> bool {
    &&& a.task_id@ == t.id@
    &&& a.agent_id@ == t.assigned_to@
    &&& a.content@ == t.description@
    &&& a.is_specialist == t.is_specialist_work
    &&& exists|nanos: u64| a.tile_id@ == tile_id_text(t.id@, nanos)
    &&& match a.agent_index {
        Some(i) => is_first_match(agent_ids, t.assigned_to@, i as int),
        None => !has_id(agent_ids, t.assigned_to@),
    }
}

/// How many tasks of `tasks` are specialist work.
pub open spec fn specialist_work_count(tasks: Seq<DCSTask>) -> nat
    decreases tasks.len(),
{
    if tasks.len() == 0 {
        0
    } else {
        specialist_work_count(tasks.drop_last()) + if tasks.last().is_specialist_work { 1nat } else { 0nat }
    }
}

/// How many entries of `flags` are `true`.
pub open spec fn true_count(flags: Seq<bool>) -> nat
    decreases flags.len(),
{
    if flags.len() == 0 {
        0
    } else {
        true_count(flags.drop_last()) + if flags.last() { 1nat } else { 0nat }
    }
}

/// The specialist count of a batch with one more task `t` at the end, wherever
/// the batch stands, is the count of the batch plus one exactly when `t` is
/// specialist work; an empty batch has none.
pub proof fn lemma_specialist_work_count_push(tasks: Seq<DCSTask>, t: DCSTask)
    ensures
        specialist_work_count(Seq::<DCSTask>::empty()) == 0,
        specialist_work_count(tasks.push(t)) == specialist_work_count(tasks) + if t.is_specialist_work { 1nat } else { 0nat },
{
    assert(tasks.push(t).drop_last() =~= tasks);
}

/// The specialist count of a batch is the number of its tasks that are
/// specialist work.
pub proof fn lemma_specialist_work_count_is_filter(tasks: Seq<DCSTask>)
    ensures
        specialist_work_count(tasks) == tasks.filter(|t: DCSTask| t.is_specialist_work).len(),
    decreases tasks.len(),
{
    reveal_with_fuel(Seq::filter, 1);
    if tasks.len() > 0 {
        lemma_specialist_work_count_is_filter(tasks.drop_last());
    }
}

/// The number of set flags after appending a flag `b`, wherever the flags stand,
/// is the number before plus one exactly when `b` is set; no flags, none set.
pub proof fn lemma_true_count_push(flags: Seq<bool>, b: bool)
    ensures
        true_count(Seq::<bool>::empty()) == 0,
        true_count(flags.push(b)) == true_count(flags) + if b { 1nat } else { 0nat },
{
    assert(flags.push(b).drop_last() =~= flags);
}

/// The number of set flags is the number of positions holding `true`.
pub proof fn lemma_true_count_is_filter(flags: Seq<bool>)
    ensures
        true_count(flags) == flags.filter(|b: bool| b).len(),
    decreases flags.len(),
{
    reveal_with_fuel(Seq::filter, 1);
    if flags.len() > 0 {
        lemma_true_count_is_filter(flags.drop_last());
    }
}

/// Places each task of `tasks`, in order, on the roster `agent_ids`, and counts
/// the tasks and the specialist tasks.
pub fn plan_cycle(agent_ids: &Vec<String>, tasks: Vec<DCSTask>) -> (p: CyclePlan)
    ensures
        p.total_tasks == tasks@.len(),
        p.assignments@.len() == tasks@.len(),
        forall|i: int| 0 <= i < tasks@.len() ==> placement_of(#[trigger] p.assignments@[i], tasks@[i], agent_ids@),
        p.specialist_count == specialist_work_count(tasks@),
        p.specialist_count == tasks@.filter(|t: DCSTask| t.is_specialist_work).len(),
        p.specialist_count <= p.total_tasks,
{
    let n: usize = tasks.len();
    let mut assignments: Vec<TaskAssignment> = Vec::new();
    let mut specialist_count: usize = 0;
    let mut i: usize = 0;
    while i < n
        invariant
            n == tasks@.len(),
            0 <= i <= n,
            assignments@.len() == i,
            forall|j: int| 0 <= j < i ==> placement_of(#[trigger] assignments@[j], tasks@[j], agent_ids@),
            specialist_count == specialist_work_count(tasks@.take(i as int)),
            specialist_count <= i,
        decreases n - i,
    {
        let task: &DCSTask = &tasks[i];
        let agent_index: Option<usize> = first_agent_index(agent_ids, &task.assigned_to);
        let is_spec: bool = task.is_specialist_work;
        proof {
            assert(tasks@.take(i + 1).drop_last() =~= tasks@.take(i as int));
        }
        if is_spec {
            specialist_count = specialist_count + 1;
        }
        let tile_id: String = fresh_tile_id(&task.id);
        let a = TaskAssignment {
            task_id: task.id.clone(),
            agent_id: task.assigned_to.clone(),
            tile_id,
            content: task.description.clone(),
            agent_index,
            is_specialist: is_spec,
        };
        assignments.push(a);
        i = i + 1;
    }
    proof {
        assert(tasks@.take(n as int) =~= tasks@);
        lemma_specialist_work_count_is_filter(tasks@);
    }
    CyclePlan { assignments, specialist_count, total_tasks: n }
}

/// How many tiles passed verification, given one flag per tile.
pub fn count_verified(verified: &Vec<bool>) -> (count: usize)
    ensures
        count == true_count(verified@),
        count == verified@.filter(|b: bool| b).len(),
        count <= verified@.len(),
{
    let n: usize = verified.len();
    let mut count: usize = 0;
    let mut i: usize = 0;
    while i < n
        invariant
            n == verified@.len(),
            0 <= i <= n,
            count == true_count(verified@.take(i as int)),
            count <= i,
        decreases n - i,
    {
        proof {
            assert(verified@.take(i + 1).drop_last() =~= verified@.take(i as int));
        }
        if verified[i] {
            count = count + 1;
        }
        i = i + 1;
    }
    proof {
        assert(verified@.take(n as int) =~= verified@);
        lemma_true_count_is_filter(verified@);
    }
    count
}

} // verus!
