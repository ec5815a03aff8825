use vstd::prelude::*;
use crate::key::{format_group_key, group_key_spec};
use crate::model::Verify;

verus! {

/// Tasks that share one dispatch key, in the order they arrived.
#[derive(Debug)]
pub struct TaskGroup {
    pub key: String,
    pub tasks: Vec<Verify>,
}

/// The dispatch key of a task.
pub open spec fn task_key(t: Verify) -> Seq<char> {
    group_key_spec(t.media_id, t.cate@)
}

/// The decoded messages whose key is `k`, in arrival order. A message that
/// failed to decode is `None` and belongs to no key.
pub open spec fn tasks_under(msgs: Seq<Option<Verify>>, k: Seq<char>) -> Seq<Verify>
    decreases msgs.len(),
{
    if msgs.len() == 0 {
        Seq::empty()
    } else {
        let before = tasks_under(msgs.drop_last(), k);
        match msgs.last() {
            Some(t) => if task_key(t) == k {
                before.push(t)
            } else {
                before
            },
            None => before,
        }
    }
}

/// Number of messages that decoded.
pub open spec fn decoded_count(msgs: Seq<Option<Verify>>) -> nat
    decreases msgs.len(),
{
    if msgs.len() == 0 {
        0
    } else {
        decoded_count(msgs.drop_last()) + if msgs.last() is Some {
            1nat
        } else {
            0nat
        }
    }
}

/// Number of tasks over all groups.
pub open spec fn grouped_count(gs: Seq<TaskGroup>) -> nat
    decreases gs.len(),
{
    if gs.len() == 0 {
        0
    } else {
        grouped_count(gs.drop_last()) + gs.last().tasks@.len()
    }
}

/// `gs` groups the messages `msgs`: one group per key that some decoded
/// message has, each holding exactly the decoded messages of that key.
pub open spec fn is_grouping_of(msgs: Seq<Option<Verify>>, gs: Seq<TaskGroup>) -> bool {
    &&& forall|i: int, j: int| 0 <= i < j < gs.len() ==> gs[i].key@ != gs[j].key@
    &&& forall|i: int|
        0 <= i < gs.len() ==> (#[trigger] gs[i]).tasks@ == tasks_under(msgs, gs[i].key@)
            && gs[i].tasks@.len() > 0
    &&& forall|j: int|
        0 <= j < msgs.len() && (#[trigger] msgs[j]) is Some ==> exists|i: int|
            0 <= i < gs.len() && (#[trigger] gs[i].key@) == task_key(msgs[j]->0)
    &&& grouped_count(gs) == decoded_count(msgs)
}

proof fn lemma_tasks_under_keys(msgs: Seq<Option<Verify>>, k: Seq<char>)
    ensures
        forall|x: int|
            0 <= x < tasks_under(msgs, k).len() ==> task_key(#[trigger] tasks_under(msgs, k)[x])
                == k,
    decreases msgs.len(),
{
    if msgs.len() > 0 {
        let before = tasks_under(msgs.drop_last(), k);
        lemma_tasks_under_keys(msgs.drop_last(), k);
        let r = tasks_under(msgs, k);
        assert forall|x: int| 0 <= x < r.len() implies task_key(#[trigger] r[x]) == k by {
            if x < before.len() {
                assert(r[x] == before[x]);
            }
        }
    }
}

/// Every key that no group carries has no decoded message.
pub open spec fn absent_keys_empty(msgs: Seq<Option<Verify>>, gs: Seq<TaskGroup>) -> bool {
    forall|k: Seq<char>|
        (forall|i: int| 0 <= i < gs.len() ==> gs[i].key@ != k) ==> #[trigger] tasks_under(
            msgs,
            k,
        ).len() == 0
}

proof fn lemma_step_none(pre: Seq<Option<Verify>>, gs: Seq<TaskGroup>)
    requires
        is_grouping_of(pre, gs),
        absent_keys_empty(pre, gs),
    ensures
        is_grouping_of(pre.push(None), gs),
        absent_keys_empty(pre.push(None), gs),
{
    let post = pre.push(None);
    assert(post.drop_last() =~= pre);
    assert forall|j: int| 0 <= j < post.len() && (#[trigger] post[j]) is Some implies exists|i: int|
        0 <= i < gs.len() && (#[trigger] gs[i].key@) == task_key(post[j]->0) by {
        assert(post[j] == pre[j]);
    }
    assert forall|k: Seq<char>|
        (forall|x: int| 0 <= x < gs.len() ==> gs[x].key@ != k) implies #[trigger] tasks_under(
        post,
        k,
    ).len() == 0 by {
        assert(tasks_under(post, k) == tasks_under(pre, k));
    }
}

proof fn lemma_step_found(
    pre: Seq<Option<Verify>>,
    gs: Seq<TaskGroup>,
    i: int,
    t: Verify,
    g: TaskGroup,
)
    requires
        is_grouping_of(pre, gs),
        absent_keys_empty(pre, gs),
        0 <= i < gs.len(),
        gs[i].key@ == task_key(t),
        g.key@ == gs[i].key@,
        g.tasks@ == gs[i].tasks@.push(t),
    ensures
        is_grouping_of(pre.push(Some(t)), gs.update(i, g)),
        absent_keys_empty(pre.push(Some(t)), gs.update(i, g)),
{
    let post = pre.push(Some(t));
    let u = gs.update(i, g);
    assert(post.drop_last() =~= pre);
    lemma_grouped_count_grows(gs, i, g);
    assert forall|x: int| 0 <= x < u.len() implies (#[trigger] u[x]).tasks@ == tasks_under(
        post,
        u[x].key@,
    ) && u[x].tasks@.len() > 0 by {
        if x < i {
            assert(gs[x].key@ != gs[i].key@);
        } else if x > i {
            assert(gs[i].key@ != gs[x].key@);
        }
    }
    assert forall|j: int| 0 <= j < post.len() && (#[trigger] post[j]) is Some implies exists|x: int|
        0 <= x < u.len() && (#[trigger] u[x].key@) == task_key(post[j]->0) by {
        if j < pre.len() {
            assert(post[j] == pre[j]);
            let x = choose|x: int| 0 <= x < gs.len() && (#[trigger] gs[x].key@) == task_key(pre[j]->0);
            assert(u[x].key@ == gs[x].key@);
        } else {
            assert(u[i].key@ == task_key(t));
        }
    }
    assert forall|k: Seq<char>|
        (forall|x: int| 0 <= x < u.len() ==> u[x].key@ != k) implies #[trigger] tasks_under(
        post,
        k,
    ).len() == 0 by {
        assert forall|x: int| 0 <= x < gs.len() implies gs[x].key@ != k by {
            assert(u[x].key@ == gs[x].key@);
        }
        assert(u[i].key@ != k);
        assert(tasks_under(post, k) == tasks_under(pre, k));
    }
}

proof fn lemma_step_new(pre: Seq<Option<Verify>>, gs: Seq<TaskGroup>, t: Verify, g: TaskGroup)
    requires
        is_grouping_of(pre, gs),
        absent_keys_empty(pre, gs),
        forall|x: int| 0 <= x < gs.len() ==> gs[x].key@ != task_key(t),
        g.key@ == task_key(t),
        g.tasks@ == seq![t],
    ensures
        is_grouping_of(pre.push(Some(t)), gs.push(g)),
        absent_keys_empty(pre.push(Some(t)), gs.push(g)),
{
    let post = pre.push(Some(t));
    let u = gs.push(g);
    assert(post.drop_last() =~= pre);
    assert(u.drop_last() =~= gs);
    assert(tasks_under(pre, task_key(t)).len() == 0);
    assert(tasks_under(post, task_key(t)) =~= seq![t]);
    assert forall|x: int| 0 <= x < u.len() implies (#[trigger] u[x]).tasks@ == tasks_under(
        post,
        u[x].key@,
    ) && u[x].tasks@.len() > 0 by {
        if x < gs.len() {
            assert(u[x] == gs[x]);
        }
    }
    assert forall|a: int, b: int| 0 <= a < b < u.len() implies u[a].key@ != u[b].key@ by {
        if b < gs.len() {
            assert(u[a] == gs[a] && u[b] == gs[b]);
        } else {
            assert(u[a] == gs[a]);
        }
    }
    assert forall|j: int| 0 <= j < post.len() && (#[trigger] post[j]) is Some implies exists|x: int|
        0 <= x < u.len() && (#[trigger] u[x].key@) == task_key(post[j]->0) by {
        if j < pre.len() {
            assert(post[j] == pre[j]);
            let x = choose|x: int| 0 <= x < gs.len() && (#[trigger] gs[x].key@) == task_key(pre[j]->0);
            assert(u[x] == gs[x]);
        } else {
            assert(u[gs.len() as int].key@ == task_key(t));
        }
    }
    assert forall|k: Seq<char>|
        (forall|x: int| 0 <= x < u.len() ==> u[x].key@ != k) implies #[trigger] tasks_under(
        post,
        k,
    ).len() == 0 by {
        assert forall|x: int| 0 <= x < gs.len() implies gs[x].key@ != k by {
            assert(u[x] == gs[x]);
        }
        assert(u[gs.len() as int].key@ != k);
        assert(tasks_under(post, k) == tasks_under(pre, k));
    }
}

proof fn lemma_tasks_under_holds(msgs: Seq<Option<Verify>>, j: int)
    requires
        0 <= j < msgs.len(),
        msgs[j] is Some,
    ensures
        tasks_under(msgs, task_key(msgs[j]->0)).contains(msgs[j]->0),
    decreases msgs.len(),
{
    let k = task_key(msgs[j]->0);
    if j == msgs.len() - 1 {
        let r = tasks_under(msgs, k);
        assert(r[r.len() - 1] == msgs[j]->0);
    } else {
        let p = msgs.drop_last();
        assert(p[j] == msgs[j]);
        lemma_tasks_under_holds(p, j);
        let before = tasks_under(p, k);
        let x = choose|x: int| 0 <= x < before.len() && before[x] == msgs[j]->0;
        assert(tasks_under(msgs, k)[x] == msgs[j]->0);
    }
}

proof fn lemma_grouped_count_grows(gs: Seq<TaskGroup>, i: int, g: TaskGroup)
    requires
        0 <= i < gs.len(),
        g.tasks@.len() == gs[i].tasks@.len() + 1,
    ensures
        grouped_count(gs.update(i, g)) == grouped_count(gs) + 1,
    decreases gs.len(),
{
    let u = gs.update(i, g);
    if i == gs.len() - 1 {
        assert(u.drop_last() =~= gs.drop_last());
    } else {
        lemma_grouped_count_grows(gs.drop_last(), i, g);
        assert(u.drop_last() =~= gs.drop_last().update(i, g));
    }
}

/// Groups decoded queue messages by their dispatch key
/// `"{media_id}:{cate}"`. Messages that failed to decode (`None`) are
/// dropped. Groups come in the order their keys first appear; within a
/// group, tasks keep their arrival order.
pub fn group(verifies: Vec<Option<Verify>>) -> (r: Vec<TaskGroup>)
    ensures
        is_grouping_of(verifies@, r@),
{
    let ghost msgs = verifies@;
    let mut groups: Vec<TaskGroup> = Vec::new();
    for m in it: verifies.into_iter()
        invariant
            it.seq() == msgs,
            is_grouping_of(msgs.subrange(0, it.index() as int), groups@),
            absent_keys_empty(msgs.subrange(0, it.index() as int), groups@),
    {
        let ghost pre = msgs.subrange(0, it.index() as int);
        assert(msgs.subrange(0, it.index() + 1) =~= pre.push(m));
        let ghost old_groups = groups@;
        match m {
            None => {
                proof {
                    lemma_step_none(pre, old_groups);
                }
            },
            Some(t) => {
                let key = format_group_key(t.media_id, t.cate.as_str());
                let mut i: usize = 0;
                while i < groups.len() && !(groups[i].key == key)
                    invariant
                        i <= groups.len(),
                        groups@ == old_groups,
                        forall|x: int| 0 <= x < i ==> groups@[x].key@ != key@,
                    decreases groups.len() - i,
                {
                    i = i + 1;
                }
                let ghost tt = t;
                if i < groups.len() {
                    groups[i].tasks.push(t);
                    proof {
                        lemma_step_found(pre, old_groups, i as int, tt, groups@[i as int]);
                        assert(groups@ =~= old_groups.update(i as int, groups@[i as int]));
                    }
                } else {
                    let mut tasks: Vec<Verify> = Vec::new();
                    tasks.push(t);
                    let g = TaskGroup { key, tasks };
                    proof {
                        assert(g.tasks@ =~= seq![tt]);
                        lemma_step_new(pre, old_groups, tt, g);
                    }
                    groups.push(g);
                }
            },
        }
    }
    assert(msgs.subrange(0, msgs.len() as int) =~= msgs);
    groups
}

/// Grouping partitions the decoded messages: each decoded message lies in
/// the group of its own key, in no group of another key, and keys are
/// distinct, so it lies in exactly one group; the groups hold as many tasks
/// as there were decoded messages, so a message that failed to decode lies
/// in none.
pub proof fn lemma_grouping_partitions(msgs: Seq<Option<Verify>>, gs: Seq<TaskGroup>, j: int)
    requires
        is_grouping_of(msgs, gs),
        0 <= j < msgs.len(),
        msgs[j] is Some,
    ensures
        exists|i: int|
            0 <= i < gs.len() && gs[i].key@ == task_key(msgs[j]->0) && (#[trigger] gs[i].tasks@).contains(
                msgs[j]->0,
            ),
        forall|i: int|
            0 <= i < gs.len() && (#[trigger] gs[i].tasks@).contains(msgs[j]->0) ==> gs[i].key@
                == task_key(msgs[j]->0),
        forall|a: int, b: int|
            0 <= a < gs.len() && 0 <= b < gs.len() && (#[trigger] gs[a].tasks@).contains(msgs[j]->0)
                && (#[trigger] gs[b].tasks@).contains(msgs[j]->0) ==> a == b,
        grouped_count(gs) == decoded_count(msgs),
{
    let t = msgs[j]->0;
    let i = choose|i: int| 0 <= i < gs.len() && (#[trigger] gs[i].key@) == task_key(msgs[j]->0);
    assert(gs[i].tasks@ == tasks_under(msgs, gs[i].key@));
    lemma_tasks_under_holds(msgs, j);
    assert forall|x: int| 0 <= x < gs.len() && (#[trigger] gs[x].tasks@).contains(t) implies gs[x].key@
        == task_key(t) by {
        lemma_tasks_under_keys(msgs, gs[x].key@);
        let y = choose|y: int| 0 <= y < gs[x].tasks@.len() && gs[x].tasks@[y] == t;
        assert(gs[x].tasks@ == tasks_under(msgs, gs[x].key@));
        assert(task_key(tasks_under(msgs, gs[x].key@)[y]) == gs[x].key@);
    }
    assert forall|a: int, b: int|
        0 <= a < gs.len() && 0 <= b < gs.len() && (#[trigger] gs[a].tasks@).contains(t)
            && (#[trigger] gs[b].tasks@).contains(t) implies a == b by {
        if a < b {
            assert(gs[a].key@ != gs[b].key@);
        } else if b < a {
            assert(gs[b].key@ != gs[a].key@);
        }
    }
}

} // verus!
