//! What becomes of the root documents that come to a place, over a run of everything that happens
//! there: a root document is put exactly once all that it depends on is there.

use crate::clockument::{
    nothing_retained_means_all_there, ref_views, retained, step_after, truthful, waiting_after,
    Insertion, RefView, ResolveEvent, ResolveStep,
};
use vstd::prelude::*;

verus! {

/// What was answered in a walk over the waiting documents, and for which place in the list.
pub struct WalkStep {
    pub i: int,
    pub event: ResolveEvent,
}

/// What root documents depend on, and which of them came from a place that is gone.
#[verifier::reject_recursive_types(D)]
pub struct Roots<D> {
    pub deps: spec_fn(Insertion<D>) -> Set<RefView>,
    pub gone: spec_fn(Insertion<D>) -> bool,
}

/// The documents that wait after the steps of a walk.
pub open spec fn walked<D>(
    waiting: Seq<(Insertion<D>, Seq<RefView>)>,
    id: Seq<u8>,
    steps: Seq<WalkStep>,
) -> Seq<(Insertion<D>, Seq<RefView>)>
    decreases steps.len(),
{
    if steps.len() == 0 {
        waiting
    } else {
        waiting_after(
            walked(waiting, id, steps.drop_last()),
            steps.last().i,
            id,
            steps.last().event,
        )
    }
}

/// What is needed after the steps of a walk.
pub open spec fn asked<D>(
    waiting: Seq<(Insertion<D>, Seq<RefView>)>,
    id: Seq<u8>,
    steps: Seq<WalkStep>,
) -> ResolveStep<D> {
    step_after(
        walked(waiting, id, steps.drop_last()),
        steps.last().i,
        id,
        steps.last().event,
    )
}

/// The documents that were put in the steps of a walk.
pub open spec fn put_by<D>(
    waiting: Seq<(Insertion<D>, Seq<RefView>)>,
    id: Seq<u8>,
    steps: Seq<WalkStep>,
) -> Set<Insertion<D>>
    decreases steps.len(),
{
    if steps.len() == 0 {
        Set::empty()
    } else {
        let before = put_by(waiting, id, steps.drop_last());
        match asked(waiting, id, steps) {
            ResolveStep::Put(_, insertion) => before.insert(insertion),
            _ => before,
        }
    }
}

/// The answers say truly what the place holds of a document.
pub open spec fn truthful_of(
    held: Set<RefView>,
    id: Seq<u8>,
    deps: Seq<RefView>,
    there: Seq<bool>,
) -> bool {
    there.len() == deps.len() && forall|i: int|
        0 <= i < deps.len() && deps[i].0 == id ==> #[trigger] there[i] == held.contains(deps[i])
}

/// The step answers what was asked, and says truly what the place holds.
pub open spec fn replies<D>(
    roots: Roots<D>,
    held: Set<RefView>,
    waiting: Seq<(Insertion<D>, Seq<RefView>)>,
    id: Seq<u8>,
    ask: ResolveStep<D>,
    step: WalkStep,
) -> bool {
    match ask {
        ResolveStep::AskWaits(i) => step.i == i && (step.event matches ResolveEvent::Waits(there)
            && truthful_of(held, id, waiting[step.i].1, there@)),
        ResolveStep::AskDepends(i) => step.i == i && (step.event matches ResolveEvent::Depends(
            deps,
            there,
        ) && ref_views(deps@).to_set() == (roots.deps)(waiting[step.i].0) && truthful(
            held,
            ref_views(deps@),
            there@,
        )),
        ResolveStep::AskCancelled(i) => step.i == i && (
        step.event matches ResolveEvent::Cancelled(cancelled) && (cancelled ==> (roots.gone)(
            waiting[step.i].0,
        ))),
        ResolveStep::Put(i, _) => step.i == i && step.event is GoOn,
        ResolveStep::Done => false,
    }
}

/// The steps are a walk, or its beginning: it starts with the first waiting document, and each
/// step answers what was asked.
pub open spec fn is_walk<D>(
    roots: Roots<D>,
    held: Set<RefView>,
    waiting: Seq<(Insertion<D>, Seq<RefView>)>,
    id: Seq<u8>,
    steps: Seq<WalkStep>,
) -> bool
    decreases steps.len(),
{
    if steps.len() <= 1 {
        steps.len() == 1 && steps[0].i == 0 && steps[0].event is GoOn
    } else {
        let before = steps.drop_last();
        is_walk(roots, held, waiting, id, before) && replies(
            roots,
            held,
            walked(waiting, id, before),
            id,
            asked(waiting, id, before),
            steps.last(),
        )
    }
}

/// What one place holds, the root documents that came to it, those that wait, and those that were
/// put.
#[verifier::reject_recursive_types(D)]
pub struct RootState<D> {
    pub held: Set<RefView>,
    pub came: Set<Insertion<D>>,
    pub waiting: Seq<(Insertion<D>, Seq<RefView>)>,
    pub put: Set<Insertion<D>>,
}

/// One thing that happens to a place. Each happens as a whole: nothing else is persisted while the
/// waiting documents are walked over, or while it is looked up what a root document depends on.
pub enum RootEvent<D> {
    /// The document was persisted there, which is then there at the given heads, and the waiting
    /// documents were walked over.
    Persisted(Seq<u8>, Set<RefView>, Seq<WalkStep>),
    /// A root document came in. What it depends on was looked up, and what of that is there.
    Came(Insertion<D>, Seq<RefView>, Seq<bool>),
}

/// What an event makes of a place.
pub open spec fn state_after<D>(state: RootState<D>, event: RootEvent<D>) -> RootState<D> {
    match event {
        RootEvent::Persisted(id, refs, steps) => RootState {
            held: state.held.union(refs),
            came: state.came,
            waiting: walked(state.waiting, id, steps),
            put: state.put.union(put_by(state.waiting, id, steps)),
        },
        RootEvent::Came(insertion, deps, there) => {
            let left = retained(deps, None, there);
            RootState {
                held: state.held,
                came: state.came.insert(insertion),
                waiting: if left.len() == 0 {
                    state.waiting
                } else {
                    state.waiting.push((insertion, left))
                },
                put: if left.len() == 0 {
                    state.put.insert(insertion)
                } else {
                    state.put
                },
            }
        },
    }
}

/// The event can happen to the place: a walk goes to its end, and answers are true. The list of
/// the waiting documents has room for one more.
pub open spec fn can_happen<D>(
    roots: Roots<D>,
    state: RootState<D>,
    event: RootEvent<D>,
) -> bool {
    match event {
        RootEvent::Persisted(id, refs, steps) => {
            &&& forall|r: RefView| #[trigger] refs.contains(r) ==> r.0 == id
            &&& is_walk(roots, state.held.union(refs), state.waiting, id, steps)
            &&& asked(state.waiting, id, steps) is Done
        },
        RootEvent::Came(insertion, deps, there) => {
            &&& state.waiting.len() < usize::MAX
            &&& deps.to_set() == (roots.deps)(insertion)
            &&& truthful(state.held, deps, there)
        },
    }
}

/// What a run of events makes of a place.
pub open spec fn state_after_all<D>(
    state: RootState<D>,
    events: Seq<RootEvent<D>>,
) -> RootState<D>
    decreases events.len(),
{
    if events.len() == 0 {
        state
    } else {
        state_after(state_after_all(state, events.drop_last()), events.last())
    }
}

/// The events can happen to the place, one after the other.
pub open spec fn all_can_happen<D>(
    roots: Roots<D>,
    state: RootState<D>,
    events: Seq<RootEvent<D>>,
) -> bool
    decreases events.len(),
{
    if events.len() == 0 {
        true
    } else {
        all_can_happen(roots, state, events.drop_last()) && can_happen(
            roots,
            state_after_all(state, events.drop_last()),
            events.last(),
        )
    }
}

/// A place to which no root document came yet.
pub open spec fn fresh<D>(held: Set<RefView>) -> RootState<D> {
    RootState { held, came: Set::empty(), waiting: Seq::empty(), put: Set::empty() }
}

/// The document waits.
pub open spec fn waits_in<D>(
    waiting: Seq<(Insertion<D>, Seq<RefView>)>,
    insertion: Insertion<D>,
) -> bool {
    exists|k: int| 0 <= k < waiting.len() && (#[trigger] waiting[k]).0 == insertion
}

/// All that the document depends on is there.
pub open spec fn all_there<D>(
    roots: Roots<D>,
    held: Set<RefView>,
    insertion: Insertion<D>,
) -> bool {
    (roots.deps)(insertion).subset_of(held)
}

/// The document waits for something that it depends on, and for nothing that is there, but for what
/// is there of the document `id`.
spec fn waits_for<D>(
    roots: Roots<D>,
    held: Set<RefView>,
    id: Option<Seq<u8>>,
    entry: (Insertion<D>, Seq<RefView>),
) -> bool {
    entry.1.len() > 0 && forall|k: int|
        0 <= k < entry.1.len() ==> (roots.deps)(entry.0).contains(#[trigger] entry.1[k]) && (
        held.contains(entry.1[k]) ==> id == Some(entry.1[k].0))
}

/// One of the first `n` dependencies is `r`, and is not there or belongs to a document that is not
/// looked at.
spec fn is_left(
    deps: Seq<RefView>,
    scope: Option<Seq<u8>>,
    there: Seq<bool>,
    n: int,
    r: RefView,
) -> bool {
    exists|k: int|
        0 <= k < n && #[trigger] deps[k] == r && ((scope matches Some(id) && r.0 != id)
            || !there[k])
}

/// What is still waited for was waited for before, and is not there or belongs to a document that
/// was not looked at.
proof fn lemma_retained(deps: Seq<RefView>, scope: Option<Seq<u8>>, there: Seq<bool>, n: int)
    requires
        0 <= n <= deps.len(),
    ensures
        forall|x: int|
            0 <= x < retained(deps.take(n), scope, there).len() ==> is_left(
                deps,
                scope,
                there,
                n,
                #[trigger] retained(deps.take(n), scope, there)[x],
            ),
    decreases n,
{
    if n > 0 {
        lemma_retained(deps, scope, there, n - 1);
        let before = retained(deps.take(n - 1), scope, there);
        let now = retained(deps.take(n), scope, there);
        assert(deps.take(n).drop_last() == deps.take(n - 1));
        assert forall|x: int| 0 <= x < now.len() implies is_left(
            deps,
            scope,
            there,
            n,
            #[trigger] now[x],
        ) by {
            if x < before.len() {
                assert(now[x] == before[x]);
                assert(is_left(deps, scope, there, n - 1, before[x]));
            } else {
                assert(deps[n - 1] == now[x]);
            }
        }
    }
}

/// The documents before place `n` were looked at in the walk.
spec fn looked_at<D>(
    roots: Roots<D>,
    held: Set<RefView>,
    waiting: Seq<(Insertion<D>, Seq<RefView>)>,
    n: int,
) -> bool {
    forall|k: int|
        0 <= k < n && k < waiting.len() ==> waits_for(roots, held, None, #[trigger] waiting[k])
}

/// The documents from place `n` on have yet to be looked at in the walk for the document `id`.
spec fn to_look_at<D>(
    roots: Roots<D>,
    held: Set<RefView>,
    id: Seq<u8>,
    waiting: Seq<(Insertion<D>, Seq<RefView>)>,
    n: int,
) -> bool {
    forall|k: int|
        0 <= n <= k < waiting.len() ==> waits_for(roots, held, Some(id), #[trigger] waiting[k])
}

/// How far a walk has come, by what is asked.
spec fn walk_stands<D>(
    roots: Roots<D>,
    held: Set<RefView>,
    id: Seq<u8>,
    now: Seq<(Insertion<D>, Seq<RefView>)>,
    ask: ResolveStep<D>,
) -> bool {
    match ask {
        ResolveStep::AskWaits(i) => i < now.len() && looked_at(roots, held, now, i as int)
            && to_look_at(roots, held, id, now, i as int),
        ResolveStep::AskDepends(i) => i < now.len() && looked_at(roots, held, now, i as int)
            && to_look_at(roots, held, id, now, i + 1),
        ResolveStep::AskCancelled(i) => i < now.len() && looked_at(roots, held, now, i + 1)
            && to_look_at(roots, held, id, now, i + 1),
        ResolveStep::Put(i, insertion) => i <= now.len() && looked_at(roots, held, now, i as int)
            && to_look_at(roots, held, id, now, i as int) && all_there(roots, held, insertion),
        ResolveStep::Done => looked_at(roots, held, now, now.len() as int),
    }
}

/// The documents that wait after the walk are those that waited before, but for those that were
/// put or came from a place that is gone.
spec fn none_lost<D>(
    roots: Roots<D>,
    start: Seq<(Insertion<D>, Seq<RefView>)>,
    now: Seq<(Insertion<D>, Seq<RefView>)>,
    put: Set<Insertion<D>>,
) -> bool {
    forall|insertion: Insertion<D>| #[trigger]
        waits_in(start, insertion) && !(roots.gone)(insertion) ==> waits_in(now, insertion)
            || put.contains(insertion)
}

/// One step of a walk: where the walk stood before it, it stands after it.
proof fn lemma_step<D>(
    roots: Roots<D>,
    held: Set<RefView>,
    id: Seq<u8>,
    before: Seq<(Insertion<D>, Seq<RefView>)>,
    ask: ResolveStep<D>,
    step: WalkStep,
)
    requires
        before.len() <= usize::MAX,
        walk_stands(roots, held, id, before, ask),
        replies(roots, held, before, id, ask, step),
    ensures
        waiting_after(before, step.i, id, step.event).len() <= before.len(),
        walk_stands(
            roots,
            held,
            id,
            waiting_after(before, step.i, id, step.event),
            step_after(before, step.i, id, step.event),
        ),
{
    let i = step.i;
    let now = waiting_after(before, i, id, step.event);
    match step.event {
        ResolveEvent::GoOn => {},
        ResolveEvent::Waits(there) => {
            let waits = before[i].1;
            lemma_retained(waits, Some(id), there@, waits.len() as int);
            assert(waits.take(waits.len() as int) == waits);
            assert(waits_for(roots, held, Some(id), before[i]));
            let left = retained(waits, Some(id), there@);
            assert forall|x: int| 0 <= x < left.len() implies (roots.deps)(before[i].0).contains(
                #[trigger] left[x],
            ) && !held.contains(left[x]) by {
                assert(is_left(waits, Some(id), there@, waits.len() as int, left[x]));
            }
        },
        ResolveEvent::Depends(deps, there) => {
            let all = ref_views(deps@);
            lemma_retained(all, None, there@, all.len() as int);
            nothing_retained_means_all_there(all, there@);
            assert(all.take(all.len() as int) == all);
            let left = retained(all, None, there@);
            if left.len() == 0 {
                assert forall|r: RefView| (roots.deps)(before[i].0).contains(
                    r,
                ) implies #[trigger] held.contains(r) by {
                    assert(all.to_set().contains(r));
                    let k = choose|k: int| 0 <= k < all.len() && all[k] == r;
                    assert(there@[k]);
                }
                assert forall|k: int| i <= k < now.len() implies waits_for(
                    roots,
                    held,
                    Some(id),
                    #[trigger] now[k],
                ) by {
                    assert(now[k] == before[k + 1]);
                }
            } else {
                assert forall|x: int| 0 <= x < left.len() implies (roots.deps)(
                    before[i].0,
                ).contains(#[trigger] left[x]) && !held.contains(left[x]) by {
                    assert(is_left(all, None, there@, all.len() as int, left[x]));
                    let k = choose|k: int| 0 <= k < all.len() && all[k] == left[x] && !there@[k];
                    assert(all.to_set().contains(all[k]));
                }
                assert(waits_for(roots, held, None, now[i]));
            }
        },
        ResolveEvent::Cancelled(cancelled) => {
            if cancelled {
                assert forall|k: int| i <= k < now.len() implies waits_for(
                    roots,
                    held,
                    Some(id),
                    #[trigger] now[k],
                ) by {
                    assert(now[k] == before[k + 1]);
                }
            }
        },
    }
}

/// One step of a walk loses no document.
proof fn lemma_step_loses_none<D>(
    roots: Roots<D>,
    held: Set<RefView>,
    id: Seq<u8>,
    before: Seq<(Insertion<D>, Seq<RefView>)>,
    ask: ResolveStep<D>,
    step: WalkStep,
    insertion: Insertion<D>,
)
    requires
        before.len() <= usize::MAX,
        walk_stands(roots, held, id, before, ask),
        replies(roots, held, before, id, ask, step),
        waits_in(before, insertion),
        !(roots.gone)(insertion),
    ensures
        waits_in(waiting_after(before, step.i, id, step.event), insertion) || (step_after(
            before,
            step.i,
            id,
            step.event,
        ) matches ResolveStep::Put(_, kept) && kept == insertion),
{
    let i = step.i;
    let now = waiting_after(before, i, id, step.event);
    let k = choose|k: int| 0 <= k < before.len() && (#[trigger] before[k]).0 == insertion;
    if now.len() < before.len() {
        if k < i {
            assert(now[k] == before[k]);
        } else if k > i {
            assert(now[k - 1] == before[k]);
        }
    } else {
        assert(now[k].0 == before[k].0);
    }
}

/// A walk, or its beginning, stands where it should, loses no document, and puts only documents
/// that depend on nothing which is not there.
proof fn lemma_walk<D>(
    roots: Roots<D>,
    held: Set<RefView>,
    waiting: Seq<(Insertion<D>, Seq<RefView>)>,
    id: Seq<u8>,
    steps: Seq<WalkStep>,
)
    requires
        waiting.len() <= usize::MAX,
        to_look_at(roots, held, id, waiting, 0),
        is_walk(roots, held, waiting, id, steps),
    ensures
        walked(waiting, id, steps).len() <= waiting.len(),
        walk_stands(roots, held, id, walked(waiting, id, steps), asked(waiting, id, steps)),
        none_lost(roots, waiting, walked(waiting, id, steps), put_by(waiting, id, steps)),
        forall|insertion: Insertion<D>| #[trigger]
            put_by(waiting, id, steps).contains(insertion) ==> all_there(roots, held, insertion),
    decreases steps.len(),
{
    let first = steps.drop_last();
    if steps.len() == 1 {
        assert(first.len() == 0);
        assert(walked(waiting, id, first) == waiting);
        assert(put_by(waiting, id, first) == Set::<Insertion<D>>::empty());
    } else {
        lemma_walk(roots, held, waiting, id, first);
        let before = walked(waiting, id, first);
        let ask = asked(waiting, id, first);
        lemma_step(roots, held, id, before, ask, steps.last());
        let now = walked(waiting, id, steps);
        let put = put_by(waiting, id, steps);
        assert forall|insertion: Insertion<D>| #[trigger]
            waits_in(waiting, insertion) && !(roots.gone)(insertion) implies waits_in(
            now,
            insertion,
        ) || put.contains(insertion) by {
            if waits_in(before, insertion) {
                lemma_step_loses_none(
                    roots,
                    held,
                    id,
                    before,
                    ask,
                    steps.last(),
                    insertion,
                );
            }
        }
    }
}

/// What holds of a place at all times: a document that waits does so for something that it depends
/// on and that is not there, a root document that came in waits or was put, and all that a root
/// document depends on which was put is there.
spec fn in_order<D>(roots: Roots<D>, state: RootState<D>) -> bool {
    &&& state.waiting.len() <= usize::MAX
    &&& looked_at(roots, state.held, state.waiting, state.waiting.len() as int)
    &&& forall|insertion: Insertion<D>| #[trigger]
        state.came.contains(insertion) && !(roots.gone)(insertion) ==> waits_in(
            state.waiting,
            insertion,
        ) || state.put.contains(insertion)
    &&& forall|insertion: Insertion<D>| #[trigger]
        state.put.contains(insertion) ==> all_there(roots, state.held, insertion)
}

proof fn lemma_event<D>(roots: Roots<D>, state: RootState<D>, event: RootEvent<D>)
    requires
        in_order(roots, state),
        can_happen(roots, state, event),
    ensures
        in_order(roots, state_after(state, event)),
{
    let now = state_after(state, event);
    match event {
        RootEvent::Persisted(id, refs, steps) => {
            let held = now.held;
            assert forall|k: int| 0 <= k < state.waiting.len() implies waits_for(
                roots,
                held,
                Some(id),
                #[trigger] state.waiting[k],
            ) by {
                assert(waits_for(roots, state.held, None, state.waiting[k]));
            }
            lemma_walk(roots, held, state.waiting, id, steps);
            assert forall|insertion: Insertion<D>| #[trigger]
                now.put.contains(insertion) implies all_there(roots, held, insertion) by {
                if state.put.contains(insertion) {
                    assert(all_there(roots, state.held, insertion));
                }
            }
        },
        RootEvent::Came(insertion, deps, there) => {
            let left = retained(deps, None, there);
            lemma_retained(deps, None, there, deps.len() as int);
            nothing_retained_means_all_there(deps, there);
            assert(deps.take(deps.len() as int) == deps);
            if left.len() == 0 {
                assert forall|r: RefView| (roots.deps)(insertion).contains(
                    r,
                ) implies #[trigger] state.held.contains(r) by {
                    assert(deps.to_set().contains(r));
                    let k = choose|k: int| 0 <= k < deps.len() && deps[k] == r;
                    assert(there[k]);
                }
            } else {
                let n = state.waiting.len() as int;
                assert forall|x: int| 0 <= x < left.len() implies (roots.deps)(insertion).contains(
                    #[trigger] left[x],
                ) && !state.held.contains(left[x]) by {
                    assert(is_left(deps, None, there, deps.len() as int, left[x]));
                    let k = choose|k: int| 0 <= k < deps.len() && deps[k] == left[x] && !there[k];
                    assert(deps.to_set().contains(deps[k]));
                }
                assert(waits_for(roots, state.held, None, (insertion, left)));
                assert(now.waiting[n] == (insertion, left));
                assert forall|other: Insertion<D>| #[trigger]
                    now.came.contains(other) && !(roots.gone)(other) implies waits_in(
                    now.waiting,
                    other,
                ) || now.put.contains(other) by {
                    if other != insertion && waits_in(state.waiting, other) {
                        let k = choose|k: int|
                            0 <= k < n && (#[trigger] state.waiting[k]).0 == other;
                        assert(now.waiting[k] == state.waiting[k]);
                    }
                }
            }
        },
    }
}

proof fn lemma_run<D>(roots: Roots<D>, held: Set<RefView>, events: Seq<RootEvent<D>>)
    requires
        all_can_happen(roots, fresh(held), events),
    ensures
        in_order(roots, state_after_all(fresh(held), events)),
    decreases events.len(),
{
    if events.len() > 0 {
        lemma_run(roots, held, events.drop_last());
        lemma_event(roots, state_after_all(fresh(held), events.drop_last()), events.last());
    }
}

/// Whatever comes to a place and is persisted there, in whatever order: a root document that came
/// in is put exactly once all that it depends on is there. With the last missing document that is
/// persisted it is put, and it waits until then.
pub proof fn root_is_put_once_all_is_there<D>(
    roots: Roots<D>,
    held: Set<RefView>,
    events: Seq<RootEvent<D>>,
    insertion: Insertion<D>,
)
    requires
        all_can_happen(roots, fresh(held), events),
        state_after_all(fresh(held), events).came.contains(insertion),
        !(roots.gone)(insertion),
    ensures
        state_after_all(fresh(held), events).put.contains(insertion) <==> all_there(
            roots,
            state_after_all(fresh(held), events).held,
            insertion,
        ),
        state_after_all(fresh(held), events).put.contains(insertion) || waits_in(
            state_after_all(fresh(held), events).waiting,
            insertion,
        ),
{
    lemma_run(roots, held, events);
    let state = state_after_all(fresh(held), events);
    if waits_in(state.waiting, insertion) {
        let k = choose|k: int|
            0 <= k < state.waiting.len() && (#[trigger] state.waiting[k]).0 == insertion;
        assert(waits_for(roots, state.held, None, state.waiting[k]));
        assert((roots.deps)(insertion).contains(state.waiting[k].1[0]));
        assert(!state.held.contains(state.waiting[k].1[0]));
    }
}

} // verus!
