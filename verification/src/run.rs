//! Whole runs: the steps of `session`, taken one after the other against a
//! world that answers, and what they make of the store.

use vstd::prelude::*;
use crate::format::{decoded, encoded};
use crate::record::WindowView;
use crate::roundtrip::decode_inverts_encode;
use crate::session::{
    asking, capture_step, command_step, pick_step, restoring, store_step, workspace_query,
    AfterStoreView, CommandOutputView, EffectView, NextView, StepView,
};
use crate::store::{keys_of, without_key};

verus! {

/// The outside world, as far as a run can tell: what the control program
/// reports when it is run with given arguments, whether a thumbnail can be
/// made, and what the picker answers.
pub struct World {
    pub reports: spec_fn(Seq<Seq<char>>) -> CommandOutputView,
    pub preview: bool,
    pub answer: Result<Seq<char>, Seq<char>>,
}

/// The text of the store once the driver has done `effects`, in their
/// order: the text written last, or `content` where none was written.
pub open spec fn written(content: Seq<char>, effects: Seq<EffectView>) -> Seq<char>
    decreases effects.len(),
{
    if effects.len() == 0 {
        content
    } else {
        match effects.last() {
            EffectView::WriteStore(text) => text,
            _ => written(content, effects.drop_last()),
        }
    }
}

/// The text of the store at the end of the run that goes on with `step`,
/// where the store holds `content` before the step. `None` where the run
/// does not end within `limit` answers of the world.
pub open spec fn run(step: StepView, content: Seq<char>, world: World, limit: nat) -> Option<
    Seq<char>,
>
    decreases limit,
{
    let now = written(content, step.effects);
    if step.next is Done {
        Some(now)
    } else if limit == 0 {
        None
    } else {
        let answered = match step.next {
            NextView::Run { arguments, then } => command_step(then, (world.reports)(arguments)),
            NextView::Capture { plan, then } => capture_step(then, world.preview),
            NextView::Pick { input, then } => pick_step(then, world.answer),
            NextView::ReadStore { then } => store_step(then, now),
            NextView::Done => step,
        };
        run(answered, now, world, (limit - 1) as nat)
    }
}

/// The store without the records of all the keys of `queue`.
pub open spec fn without_keys(store: Seq<WindowView>, queue: Seq<Seq<char>>) -> Seq<WindowView>
    decreases queue.len(),
{
    if queue.len() == 0 {
        store
    } else {
        without_keys(without_key(store, queue[0]), queue.drop_first())
    }
}

/// The text of the store after the records of the keys of `queue` were
/// removed from it one key after the other, the store being read and
/// written for each.
pub open spec fn rewritten(content: Seq<char>, queue: Seq<Seq<char>>) -> Seq<char>
    decreases queue.len(),
{
    if queue.len() == 0 {
        content
    } else {
        rewritten(encoded(without_key(decoded(content), queue[0])), queue.drop_first())
    }
}

/// Reading and writing the store for each key removes what removing the
/// keys from the records removes.
pub proof fn lemma_rewritten(content: Seq<char>, queue: Seq<Seq<char>>)
    ensures
        decoded(rewritten(content, queue)) == without_keys(decoded(content), queue),
    decreases queue.len(),
{
    if queue.len() > 0 {
        let kept = without_key(decoded(content), queue[0]);
        decode_inverts_encode(kept);
        lemma_rewritten(encoded(kept), queue.drop_first());
    }
}

/// A store is empty once the keys of all its records were removed.
pub proof fn lemma_without_all_keys(store: Seq<WindowView>, queue: Seq<Seq<char>>)
    requires
        forall|i: int| 0 <= i < store.len() ==> queue.contains(#[trigger] store[i].key),
    ensures
        without_keys(store, queue).len() == 0,
    decreases queue.len(),
{
    if queue.len() == 0 {
        if store.len() > 0 {
            assert(queue.contains(store[0].key));
        }
    } else {
        let keep = |w: WindowView| w.key != queue[0];
        let kept = store.filter(keep);
        let rest = queue.drop_first();
        assert forall|i: int| 0 <= i < kept.len() implies rest.contains(#[trigger] kept[i].key) by {
            store.lemma_filter_pred(keep, i);
            assert(kept.contains(kept[i]));
            store.lemma_filter_contains_rev(keep, kept[i]);
            let j = choose|j: int| 0 <= j < store.len() && store[j] == kept[i];
            assert(queue.contains(store[j].key));
            let k = choose|k: int| 0 <= k < queue.len() && queue[k] == kept[i].key;
            assert(rest[k - 1] == kept[i].key);
        }
        lemma_without_all_keys(kept, rest);
    }
}

/// The run that restores the windows of `queue`, in a world in which the
/// active workspace can be asked for, ends after four answers for each
/// window, whatever the moving and the focusing report, and has removed
/// the records of all of them.
pub proof fn lemma_run_of_restoring(
    effects: Seq<EffectView>,
    queue: Seq<Seq<char>>,
    content: Seq<char>,
    world: World,
    limit: nat,
)
    requires
        (world.reports)(workspace_query()).success,
        limit >= 4 * queue.len(),
    ensures
        run(StepView { effects, next: restoring(queue) }, content, world, limit) == Some(
            rewritten(written(content, effects), queue),
        ),
    decreases queue.len(),
{
    if queue.len() > 0 {
        reveal_with_fuel(run, 5);
        reveal_with_fuel(written, 2);
        let now = written(content, effects);
        let key = queue[0];
        let text = encoded(without_key(decoded(now), key));
        let write = seq![EffectView::WriteStore(text)];
        assert(written(now, write) == text);
        lemma_run_of_restoring(write, queue.drop_first(), now, world, (limit - 4) as nat);
    }
}

/// Restoring one window removes its records: in a world in which the
/// active workspace can be asked for, the run ends within four answers, and
/// the store is left without the records of the key.
pub proof fn restore_removes_the_key(
    key: Seq<char>,
    content: Seq<char>,
    world: World,
    limit: nat,
)
    requires
        (world.reports)(workspace_query()).success,
        limit >= 4,
    ensures
        run(asking(restoring(seq![key])), content, world, limit) == Some(
            encoded(without_key(decoded(content), key)),
        ),
{
    reveal_with_fuel(rewritten, 2);
    lemma_run_of_restoring(Seq::empty(), seq![key], content, world, limit);
}

/// Restoring the window that was minimized last removes the records of its
/// key, and no others: in a world in which the active workspace can be
/// asked for, the run ends within five answers.
pub proof fn restore_last_removes_the_last(content: Seq<char>, world: World, limit: nat)
    requires
        (world.reports)(workspace_query()).success,
        limit >= 5,
        decoded(content).len() > 0,
    ensures
        run(asking(NextView::ReadStore { then: AfterStoreView::Last }), content, world, limit)
            == Some(encoded(without_key(decoded(content), decoded(content).last().key))),
{
    reveal_with_fuel(run, 2);
    restore_removes_the_key(decoded(content).last().key, content, world, (limit - 1) as nat);
}

/// Restoring all windows empties the store: in a world in which the active
/// workspace can be asked for, the run ends, and the text that it leaves
/// stands for no record. One answer is needed to read the store, and four
/// for each of its records.
pub proof fn restore_all_empties_the_store(content: Seq<char>, world: World, limit: nat)
    requires
        (world.reports)(workspace_query()).success,
        limit >= 4 * decoded(content).len() + 1,
    ensures
        run(asking(NextView::ReadStore { then: AfterStoreView::All }), content, world, limit)
            matches Some(text) && decoded(text).len() == 0,
{
    let store = decoded(content);
    let queue = keys_of(store);
    reveal_with_fuel(run, 2);
    lemma_run_of_restoring(Seq::empty(), queue, content, world, (limit - 1) as nat);
    lemma_rewritten(content, queue);
    assert forall|i: int| 0 <= i < store.len() implies queue.contains(#[trigger] store[i].key) by {
        assert(queue[i] == store[i].key);
    }
    lemma_without_all_keys(store, queue);
}

} // verus!
