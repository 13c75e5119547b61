//! Documents that depend on others, and how they are kept in several places at once: the root
//! document reaches a place only after all that it depends on.

use crate::history::{hash_text, hashes_shown, ChangeHash, Heads};
use crate::text::{decimal, decimal_text, joined, joined3};
use vstd::multiset::*;
use vstd::prelude::*;

verus! {

/// The id of a document.
#[derive(Clone, Copy, Debug, PartialEq, Eq)]
pub struct SedimentreeId {
    pub bytes: [u8; 32],
}

impl View for SedimentreeId {
    type V = Seq<u8>;

    open spec fn view(&self) -> Seq<u8> {
        self.bytes@
    }
}

impl SedimentreeId {
    /// The text of the id: two hex digits for each byte.
    pub fn to_text(&self) -> (r: String)
        ensures
            r@ == hash_text(self@),
    {
        ChangeHash { bytes: self.bytes }.to_text()
    }

    /// Whether two ids are the same.
    pub fn same(&self, other: &SedimentreeId) -> (r: bool)
        ensures
            r == (self@ == other@),
    {
        let mut i: usize = 0;
        while i < 32
            invariant
                i <= 32,
                forall|j: int| 0 <= j < i ==> self.bytes@[j] == other.bytes@[j],
            decreases 32 - i,
        {
            if self.bytes[i] != other.bytes[i] {
                assert(self.bytes@[i as int] != other.bytes@[i as int]);
                return false;
            }
            i = i + 1;
        }
        assert(self.bytes@ == other.bytes@);
        true
    }
}

/// A document at given heads.
#[derive(Debug)]
pub struct DocumentRef {
    pub id: SedimentreeId,
    pub heads: Heads,
}

/// What a reference to a document means: the order of the heads makes no difference.
pub type RefView = (Seq<u8>, Multiset<ChangeHash>);

impl View for DocumentRef {
    type V = RefView;

    open spec fn view(&self) -> RefView {
        (self.id@, self.heads@.to_multiset())
    }
}

impl Clone for DocumentRef {
    fn clone(&self) -> (r: DocumentRef)
        ensures
            r@ == self@,
    {
        DocumentRef { id: self.id, heads: self.heads.clone() }
    }
}

impl DocumentRef {
    /// Whether two references mean the same.
    pub fn same(&self, other: &DocumentRef) -> (r: bool)
        ensures
            r == (self@ == other@),
    {
        self.id.same(&other.id) && self.heads.same(&other.heads)
    }
}

/// What the references in a list mean.
pub open spec fn ref_views(refs: Seq<DocumentRef>) -> Seq<RefView> {
    refs.map_values(|r: DocumentRef| r@)
}

/// The number of a place where documents are kept.
#[derive(Clone, Copy, Debug, PartialEq, Eq, Structural)]
pub struct PersistenceId(pub u64);

/// A document that is to be kept, with what was said of it.
#[derive(Debug)]
pub struct Insertion<D> {
    pub id: SedimentreeId,
    pub doc: D,
}

/// A root document that waits for others.
#[derive(Debug)]
pub struct PendingInsertion<D> {
    pub insertion: Insertion<D>,
    pub remaining_deps: Vec<DocumentRef>,
}

/// A document was put somewhere.
#[derive(Debug)]
pub struct PutResult {
    pub doc_ref: DocumentRef,
    pub source: PersistenceId,
}

/// The dependencies that are still waited for. Where a single document was put, only the
/// dependencies on that document are looked at: the others stay. `there` says of each dependency
/// whether it is there.
pub open spec fn retained(
    deps: Seq<RefView>,
    scope_to_id: Option<Seq<u8>>,
    there: Seq<bool>,
) -> Seq<RefView>
    decreases deps.len(),
{
    if deps.len() == 0 {
        Seq::empty()
    } else {
        let n = deps.len() - 1;
        let before = retained(deps.drop_last(), scope_to_id, there);
        if (scope_to_id matches Some(id) && deps[n].0 != id) || !there[n] {
            before.push(deps[n])
        } else {
            before
        }
    }
}

/// The bytes of an id, where there is one.
pub open spec fn id_view(id: Option<SedimentreeId>) -> Option<Seq<u8>> {
    match id {
        Some(i) => Some(i@),
        None => None,
    }
}

/// The dependencies that are still waited for.
pub fn retain_pending_deps(
    deps: &Vec<DocumentRef>,
    scope_to_id: Option<SedimentreeId>,
    there: &Vec<bool>,
) -> (r: Vec<DocumentRef>)
    requires
        there.len() == deps.len(),
    ensures
        ref_views(r@) == retained(ref_views(deps@), id_view(scope_to_id), there@),
{
    let ghost all = ref_views(deps@);
    let mut remaining: Vec<DocumentRef> = Vec::new();
    let mut i: usize = 0;
    assert(all.take(0) == Seq::<RefView>::empty());
    assert(ref_views(remaining@) == Seq::<RefView>::empty());
    while i < deps.len()
        invariant
            i <= deps.len(),
            there.len() == deps.len(),
            all == ref_views(deps@),
            ref_views(remaining@) == retained(all.take(i as int), id_view(scope_to_id), there@),
        decreases deps.len() - i,
    {
        assert(all.take(i + 1).drop_last() == all.take(i as int));
        assert(all.take(i + 1)[i as int] == deps@[i as int]@);
        let elsewhere = match &scope_to_id {
            Some(id) => !deps[i].id.same(id),
            None => false,
        };
        if elsewhere || !there[i] {
            let ghost before = ref_views(remaining@);
            remaining.push(deps[i].clone());
            assert(ref_views(remaining@) == before.push(deps@[i as int]@));
        }
        i = i + 1;
    }
    assert(all.take(all.len() as int) == all);
    remaining
}

/// Without a scope, nothing is waited for exactly where everything is there.
pub proof fn nothing_retained_means_all_there(deps: Seq<RefView>, there: Seq<bool>)
    requires
        there.len() == deps.len(),
    ensures
        retained(deps, None, there).len() == 0 <==> forall|i: int|
            0 <= i < deps.len() ==> #[trigger] there[i],
{
    lemma_none_retained(deps, there, deps.len() as int);
    assert(deps.take(deps.len() as int) == deps);
}

proof fn lemma_none_retained(deps: Seq<RefView>, there: Seq<bool>, n: int)
    requires
        0 <= n <= deps.len(),
        there.len() == deps.len(),
    ensures
        retained(deps.take(n), None, there).len() == 0 <==> forall|i: int|
            0 <= i < n ==> #[trigger] there[i],
    decreases n,
{
    if n > 0 {
        lemma_none_retained(deps, there, n - 1);
        assert(deps.take(n).drop_last() == deps.take(n - 1));
    }
}

/// A pending document, by what it still waits for.
pub open spec fn pending_views<D>(pending: Seq<PendingInsertion<D>>) -> Seq<
    (Insertion<D>, Seq<RefView>),
> {
    pending.map_values(|p: PendingInsertion<D>| (p.insertion, ref_views(p.remaining_deps@)))
}

/// What to do with a document that came in.
#[derive(Debug)]
pub enum InsertStep<D> {
    /// Keep it at once.
    Put(Insertion<D>),
    /// It is the root document: ask what it depends on, and what of that is there.
    CheckDeps(Insertion<D>),
}

/// Decides what is kept in one place.
pub struct PersistenceWorker<D> {
    root: SedimentreeId,
    pending: Vec<PendingInsertion<D>>,
}

impl<D> PersistenceWorker<D> {
    /// The id of the root document.
    pub closed spec fn root(self) -> Seq<u8> {
        self.root@
    }

    /// The root documents that wait, and what each waits for.
    pub closed spec fn waiting(self) -> Seq<(Insertion<D>, Seq<RefView>)> {
        pending_views(self.pending@)
    }

    pub fn new(root: SedimentreeId) -> (r: Self)
        ensures
            r.root() == root@,
            r.waiting() == Seq::<(Insertion<D>, Seq<RefView>)>::empty(),
    {
        let pending: Vec<PendingInsertion<D>> = Vec::new();
        assert(pending_views(pending@) == Seq::<(Insertion<D>, Seq<RefView>)>::empty());
        PersistenceWorker { root, pending }
    }

    /// What to do with a document that came in: any but the root document is kept at once.
    pub fn try_insert(&self, insertion: Insertion<D>) -> (r: InsertStep<D>)
        ensures
            r == if insertion.id@ == self.root() {
                InsertStep::CheckDeps(insertion)
            } else {
                InsertStep::Put(insertion)
            },
    {
        if insertion.id.same(&self.root) {
            InsertStep::CheckDeps(insertion)
        } else {
            InsertStep::Put(insertion)
        }
    }

    /// The root document came in. It is given back to be kept where all that it depends on is
    /// there; else it waits.
    pub fn try_insert_root(
        &mut self,
        insertion: Insertion<D>,
        deps: &Vec<DocumentRef>,
        there: &Vec<bool>,
    ) -> (r: Option<Insertion<D>>)
        requires
            there.len() == deps.len(),
        ensures
            final(self).root() == old(self).root(),
            r == if retained(ref_views(deps@), None, there@).len() == 0 {
                Some(insertion)
            } else {
                None
            },
            final(self).waiting() == if retained(ref_views(deps@), None, there@).len() == 0 {
                old(self).waiting()
            } else {
                old(self).waiting().push((insertion, retained(ref_views(deps@), None, there@)))
            },
    {
        let remaining_deps = retain_pending_deps(deps, None, there);
        assert(ref_views(remaining_deps@).len() == remaining_deps.len());
        if remaining_deps.len() == 0 {
            return Some(insertion);
        }
        let ghost before = self.pending@;
        self.pending.push(PendingInsertion { insertion, remaining_deps });
        assert(pending_views(self.pending@) == pending_views(before).push(
            (insertion, ref_views(remaining_deps@)),
        ));
        None
    }

    /// How many root documents wait.
    pub fn pending_count(&self) -> (n: usize)
        ensures
            n == self.waiting().len(),
    {
        self.pending.len()
    }

    /// The root document that waits at a place, with what it waits for.
    pub fn pending_at(&self, i: usize) -> (r: &PendingInsertion<D>)
        requires
            i < self.waiting().len(),
        ensures
            self.waiting()[i as int] == (r.insertion, ref_views(r.remaining_deps@)),
    {
        &self.pending[i]
    }

    /// A document was put. Of what the waiting document at a place waits for, the references to
    /// that document which are there are struck off. Gives whether nothing is left.
    pub fn settle(&mut self, i: usize, persisted_id: SedimentreeId, there: &Vec<bool>) -> (r: bool)
        requires
            i < old(self).waiting().len(),
            there.len() == old(self).waiting()[i as int].1.len(),
        ensures
            final(self).root() == old(self).root(),
            final(self).waiting() == old(self).waiting().update(
                i as int,
                (
                    old(self).waiting()[i as int].0,
                    retained(old(self).waiting()[i as int].1, Some(persisted_id@), there@),
                ),
            ),
            r == (final(self).waiting()[i as int].1.len() == 0),
    {
        let ghost deps = ref_views(self.pending@[i as int].remaining_deps@);
        let ghost before = self.pending@;
        let remaining = retain_pending_deps(
            &self.pending[i].remaining_deps,
            Some(persisted_id),
            there,
        );
        let empty = remaining.len() == 0;
        self.pending[i].remaining_deps = remaining;
        assert(pending_views(self.pending@) == pending_views(before).update(
            i as int,
            (before[i as int].insertion, retained(deps, Some(persisted_id@), there@)),
        ));
        assert(retained(deps, Some(persisted_id@), there@) == ref_views(
            self.pending@[i as int].remaining_deps@,
        ));
        empty
    }

    /// The waiting document at a place waits for nothing any more. What it depends on is looked at
    /// once more, since that may have changed with what was put. It is given back to be kept where
    /// all of that is there; else it goes on waiting.
    pub fn recheck(&mut self, i: usize, deps: &Vec<DocumentRef>, there: &Vec<bool>) -> (r: Option<
        Insertion<D>,
    >)
        requires
            i < old(self).waiting().len(),
            there.len() == deps.len(),
        ensures
            final(self).root() == old(self).root(),
            retained(ref_views(deps@), None, there@).len() == 0 ==> r == Some(old(self).waiting()[i as int].0)
                && final(self).waiting() == old(self).waiting().remove(i as int),
            retained(ref_views(deps@), None, there@).len() > 0 ==> r is None && final(self).waiting() == old(
                self,
            ).waiting().update(
                i as int,
                (old(self).waiting()[i as int].0, retained(ref_views(deps@), None, there@)),
            ),
    {
        let ghost before = self.pending@;
        let remaining = retain_pending_deps(deps, None, there);
        assert(ref_views(remaining@).len() == remaining.len());
        if remaining.len() == 0 {
            let pending = self.pending.remove(i);
            assert(pending_views(self.pending@) == pending_views(before).remove(i as int));
            return Some(pending.insertion);
        }
        self.pending[i].remaining_deps = remaining;
        assert(pending_views(self.pending@) == pending_views(before).update(
            i as int,
            (before[i as int].insertion, retained(ref_views(deps@), None, there@)),
        ));
        None
    }

    /// The waiting document at a place is given up where the place that it came from is gone.
    /// Gives whether it was.
    pub fn give_up(&mut self, i: usize, cancelled: bool) -> (r: bool)
        requires
            i < old(self).waiting().len(),
        ensures
            r == cancelled,
            final(self).root() == old(self).root(),
            final(self).waiting() == if cancelled {
                old(self).waiting().remove(i as int)
            } else {
                old(self).waiting()
            },
    {
        if cancelled {
            let ghost before = self.pending@;
            let _ = self.pending.remove(i);
            assert(pending_views(self.pending@) == pending_views(before).remove(i as int));
        }
        cancelled
    }
}

/// What was found out for `try_resolve_pending`.
#[derive(Debug)]
pub enum ResolveEvent {
    /// The walk begins, or a document was kept.
    GoOn,
    /// Which of what the document waits for is there.
    Waits(Vec<bool>),
    /// What the document depends on, and which of that is there.
    Depends(Vec<DocumentRef>, Vec<bool>),
    /// Whether the place that the document came from is gone.
    Cancelled(bool),
}

/// What `try_resolve_pending` needs next, always for the document at the given place.
#[derive(Debug)]
pub enum ResolveStep<D> {
    /// Find out which of what the document waits for is there.
    AskWaits(usize),
    /// Find out what the document depends on, and which of that is there.
    AskDepends(usize),
    /// Find out whether the place that the document came from is gone.
    AskCancelled(usize),
    /// Keep the document, which waits no longer.
    Put(usize, Insertion<D>),
    /// All waiting documents were looked at.
    Done,
}

/// The answer can be an answer for the document at a place.
pub open spec fn answers<D>(
    waiting: Seq<(Insertion<D>, Seq<RefView>)>,
    i: int,
    event: ResolveEvent,
) -> bool {
    match event {
        ResolveEvent::GoOn => true,
        ResolveEvent::Waits(there) => i < waiting.len() && there.len() == waiting[i].1.len(),
        ResolveEvent::Depends(deps, there) => i < waiting.len() && there.len() == deps.len(),
        ResolveEvent::Cancelled(_) => i < waiting.len(),
    }
}

/// The documents that wait after an answer for the document at a place.
pub open spec fn waiting_after<D>(
    waiting: Seq<(Insertion<D>, Seq<RefView>)>,
    i: int,
    id: Seq<u8>,
    event: ResolveEvent,
) -> Seq<(Insertion<D>, Seq<RefView>)> {
    match event {
        ResolveEvent::GoOn => waiting,
        ResolveEvent::Waits(there) => waiting.update(
            i,
            (waiting[i].0, retained(waiting[i].1, Some(id), there@)),
        ),
        ResolveEvent::Depends(deps, there) => {
            let left = retained(ref_views(deps@), None, there@);
            if left.len() == 0 {
                waiting.remove(i)
            } else {
                waiting.update(i, (waiting[i].0, left))
            }
        },
        ResolveEvent::Cancelled(cancelled) => if cancelled {
            waiting.remove(i)
        } else {
            waiting
        },
    }
}

/// What is needed for the document at a place: nothing where there is none.
pub open spec fn step_at<D>(waiting: Seq<(Insertion<D>, Seq<RefView>)>, i: int) -> ResolveStep<D> {
    if i < waiting.len() {
        ResolveStep::AskWaits(i as usize)
    } else {
        ResolveStep::Done
    }
}

/// What is needed after an answer for the document at a place.
pub open spec fn step_after<D>(
    waiting: Seq<(Insertion<D>, Seq<RefView>)>,
    i: int,
    id: Seq<u8>,
    event: ResolveEvent,
) -> ResolveStep<D> {
    let now = waiting_after(waiting, i, id, event);
    match event {
        ResolveEvent::GoOn => step_at(now, i),
        ResolveEvent::Waits(_) => if now[i].1.len() == 0 {
            ResolveStep::AskDepends(i as usize)
        } else {
            ResolveStep::AskCancelled(i as usize)
        },
        ResolveEvent::Depends(deps, there) => if retained(ref_views(deps@), None, there@).len()
            == 0 {
            ResolveStep::Put(i as usize, waiting[i].0)
        } else {
            ResolveStep::AskCancelled(i as usize)
        },
        ResolveEvent::Cancelled(cancelled) => if cancelled {
            step_at(now, i)
        } else {
            step_at(now, i + 1)
        },
    }
}

impl<D> PersistenceWorker<D> {
    /// A document was put: the waiting documents are looked at one after the other. `event` is
    /// what was found out for the document at place `i`, and the result is what is needed next.
    pub fn try_resolve_pending(
        &mut self,
        persisted_id: SedimentreeId,
        i: usize,
        event: ResolveEvent,
    ) -> (r: ResolveStep<D>)
        requires
            answers(old(self).waiting(), i as int, event),
        ensures
            final(self).root() == old(self).root(),
            final(self).waiting() == waiting_after(
                old(self).waiting(),
                i as int,
                persisted_id@,
                event,
            ),
            r == step_after(old(self).waiting(), i as int, persisted_id@, event),
    {
        match event {
            ResolveEvent::GoOn => self.step_at(i),
            ResolveEvent::Waits(there) => {
                if self.settle(i, persisted_id, &there) {
                    ResolveStep::AskDepends(i)
                } else {
                    ResolveStep::AskCancelled(i)
                }
            },
            ResolveEvent::Depends(deps, there) => match self.recheck(i, &deps, &there) {
                Some(insertion) => ResolveStep::Put(i, insertion),
                None => ResolveStep::AskCancelled(i),
            },
            ResolveEvent::Cancelled(cancelled) => {
                let _n: usize = self.pending.len();
                if self.give_up(i, cancelled) {
                    self.step_at(i)
                } else {
                    self.step_at(i + 1)
                }
            },
        }
    }

    /// What is needed for the document at a place.
    fn step_at(&self, i: usize) -> (r: ResolveStep<D>)
        ensures
            r == step_at(self.waiting(), i as int),
    {
        if i < self.pending.len() {
            ResolveStep::AskWaits(i)
        } else {
            ResolveStep::Done
        }
    }
}

/// A walk over the waiting documents comes to an end: with every document that is kept, given up
/// or passed over, fewer remain to be looked at.
pub proof fn walk_ends<D>(
    waiting: Seq<(Insertion<D>, Seq<RefView>)>,
    i: int,
    id: Seq<u8>,
    event: ResolveEvent,
)
    requires
        0 <= i < waiting.len() <= usize::MAX,
        answers(waiting, i, event),
    ensures
        waiting_after(waiting, i, id, event).len() <= waiting.len(),
        (match step_after(waiting, i, id, event) {
            ResolveStep::AskWaits(j) => event is GoOn || waiting_after(waiting, i, id, event).len()
                - j < waiting.len() - i,
            ResolveStep::AskDepends(_) => event is Waits,
            ResolveStep::AskCancelled(_) => event is Waits || event is Depends,
            ResolveStep::Put(j, _) => event is Depends && waiting_after(
                waiting,
                i,
                id,
                event,
            ).len() - j < waiting.len() - i,
            ResolveStep::Done => event is Cancelled,
        }),
{
}

/// No document is lost in a walk: what is kept waited before, and the others wait on or were given
/// up.
pub proof fn only_the_kept_leave<D>(
    waiting: Seq<(Insertion<D>, Seq<RefView>)>,
    i: int,
    id: Seq<u8>,
    event: ResolveEvent,
)
    requires
        0 <= i < waiting.len(),
        answers(waiting, i, event),
    ensures
        waiting_after(waiting, i, id, event).len() < waiting.len() ==> (step_after(
            waiting,
            i,
            id,
            event,
        ) matches ResolveStep::Put(_, kept) && kept == waiting[i].0) || event
            == ResolveEvent::Cancelled(true),
        forall|j: int|
            0 <= j < waiting.len() && j != i ==> waiting_after(waiting, i, id, event).contains(
                #[trigger] waiting[j],
            ),
{
    let now = waiting_after(waiting, i, id, event);
    assert forall|j: int| 0 <= j < waiting.len() && j != i implies now.contains(
        #[trigger] waiting[j],
    ) by {
        if now.len() < waiting.len() && j > i {
            assert(now[j - 1] == waiting[j]);
        } else {
            assert(now[j] == waiting[j]);
        }
    }
}

/// What one place holds, over time: the documents at their heads, and the dependencies of each
/// root document that was put there.
#[verifier::ext_equal]
pub struct Place {
    pub held: Set<RefView>,
    pub roots: Set<Seq<RefView>>,
}

/// One thing that happens to a place.
pub enum PlaceEvent {
    /// A document other than the root is kept.
    Keep(RefView),
    /// The root document came in, or is looked at once more, with these dependencies.
    Root(Seq<RefView>, Seq<bool>),
}

/// The answers say truly what a place holds.
pub open spec fn truthful(held: Set<RefView>, deps: Seq<RefView>, there: Seq<bool>) -> bool {
    there.len() == deps.len() && forall|i: int|
        0 <= i < deps.len() ==> #[trigger] there[i] == held.contains(deps[i])
}

/// What an event makes of a place: nothing that is held is lost, and the root document is put only
/// where nothing is waited for.
pub open spec fn after(place: Place, event: PlaceEvent) -> Place {
    match event {
        PlaceEvent::Keep(r) => (Place { held: place.held.insert(r), roots: place.roots }),
        PlaceEvent::Root(deps, there) => if retained(deps, None, there).len() == 0 {
            (Place { held: place.held, roots: place.roots.insert(deps) })
        } else {
            place
        },
    }
}

/// What a run of events makes of a place.
pub open spec fn after_all(place: Place, events: Seq<PlaceEvent>) -> Place
    decreases events.len(),
{
    if events.len() == 0 {
        place
    } else {
        after(after_all(place, events.drop_last()), events.last())
    }
}

/// In a run of events every answer was true when it was given.
pub open spec fn all_truthful(place: Place, events: Seq<PlaceEvent>) -> bool
    decreases events.len(),
{
    if events.len() == 0 {
        true
    } else {
        all_truthful(place, events.drop_last()) && match events.last() {
            PlaceEvent::Keep(_) => true,
            PlaceEvent::Root(deps, there) => truthful(
                after_all(place, events.drop_last()).held,
                deps,
                there,
            ),
        }
    }
}

/// All that the root documents of a place depend on is held there.
pub open spec fn complete(place: Place) -> bool {
    forall|deps: Seq<RefView>, i: int|
        place.roots.contains(deps) && 0 <= i < deps.len() ==> place.held.contains(
            #[trigger] deps[i],
        )
}

/// A root document is never in a place before all that it depends on is there too: whatever comes
/// in, in whatever order, every place stays complete.
pub proof fn root_waits_for_dependencies(place: Place, events: Seq<PlaceEvent>)
    requires
        complete(place),
        all_truthful(place, events),
    ensures
        complete(after_all(place, events)),
    decreases events.len(),
{
    if events.len() > 0 {
        let before = after_all(place, events.drop_last());
        root_waits_for_dependencies(place, events.drop_last());
        match events.last() {
            PlaceEvent::Keep(_) => {},
            PlaceEvent::Root(deps, there) => {
                if retained(deps, None, there).len() == 0 {
                    nothing_retained_means_all_there(deps, there);
                    let now = after(before, events.last());
                    assert forall|d: Seq<RefView>, i: int|
                        now.roots.contains(d) && 0 <= i < d.len() implies now.held.contains(
                        #[trigger] d[i],
                    ) by {
                        if !before.roots.contains(d) {
                            assert(d == deps);
                            assert(there[i]);
                        }
                    }
                }
            },
        }
    }
}

/// A document that can be kept in several places, with documents that it depends on.
#[derive(Clone, Copy, Debug)]
pub struct Clockument {
    pub id: SedimentreeId,
}

impl Clockument {
    pub fn new(id: SedimentreeId) -> (r: Clockument)
        ensures
            r == (Clockument { id }),
    {
        Clockument { id }
    }

    pub fn id(&self) -> (r: SedimentreeId)
        ensures
            r == self.id,
    {
        self.id
    }
}

/// Why something could not be done with a clockument.
#[derive(Debug)]
pub enum ClockumentError {
    NoSuchTarget(PersistenceId),
    NoSuchDocument(SedimentreeId),
    NoSuchHeads(Heads),
    NoHeadsReady,
    TargetRemoved,
    Persist(String),
}

impl ClockumentError {
    /// The error as the user reads it.
    pub fn to_text(&self) -> (r: String)
        ensures
            r@ == match *self {
                ClockumentError::NoSuchTarget(id) =>
                    "the clockument didn't have an added persistence of ID PersistenceId("@
                    + decimal(id.0 as nat) + ")"@,
                ClockumentError::NoSuchDocument(id) => "no document was found matching the ID "@
                    + hash_text(id@),
                ClockumentError::NoSuchHeads(heads) => "no heads "@ + ("Heads(["@ + hashes_shown(
                    heads@,
                ) + "])"@) + " were found on the document"@,
                ClockumentError::NoHeadsReady => "the document did not have any heads ready"@,
                ClockumentError::TargetRemoved => "the target was removed"@,
                ClockumentError::Persist(e) => "there was an error in persistence: "@ + e@,
            },
    {
        match self {
            ClockumentError::NoSuchTarget(id) => {
                let number = decimal_text(id.0);
                joined3(
                    "the clockument didn't have an added persistence of ID PersistenceId(",
                    number.as_str(),
                    ")",
                )
            },
            ClockumentError::NoSuchDocument(id) => {
                let text = id.to_text();
                joined("no document was found matching the ID ", text.as_str())
            },
            ClockumentError::NoSuchHeads(heads) => {
                let text = heads.shown();
                joined3("no heads ", text.as_str(), " were found on the document")
            },
            ClockumentError::NoHeadsReady =>
                "the document did not have any heads ready".to_owned(),
            ClockumentError::TargetRemoved => "the target was removed".to_owned(),
            ClockumentError::Persist(e) => joined(
                "there was an error in persistence: ",
                e.as_str(),
            ),
        }
    }
}

/// The places but the given one, in order.
pub open spec fn other_places(
    places: Seq<PersistenceId>,
    source: PersistenceId,
) -> Seq<PersistenceId> {
    places.filter(|id: PersistenceId| id != source)
}

/// Keeps several places in step with each other.
pub struct ClockumentCoordinator {
    clockument: Clockument,
    last_persistence_id: u64,
    workers: Vec<PersistenceId>,
}

impl ClockumentCoordinator {
    /// The root document.
    pub closed spec fn root(self) -> Seq<u8> {
        self.clockument.id@
    }

    /// The places, in the order in which they were added.
    pub closed spec fn places(self) -> Seq<PersistenceId> {
        self.workers@
    }

    /// The number of the next place.
    pub closed spec fn next(self) -> u64 {
        self.last_persistence_id
    }

    /// Every place got a number of its own.
    pub open spec fn wf(self) -> bool {
        &&& self.places().no_duplicates()
        &&& forall|i: int| 0 <= i < self.places().len() ==> (#[trigger] self.places()[i]).0
            < self.next()
    }

    pub fn new(clockument: Clockument) -> (r: Self)
        ensures
            r.root() == clockument.id@,
            r.places() == Seq::<PersistenceId>::empty(),
            r.next() == 0,
            r.wf(),
    {
        ClockumentCoordinator { clockument, last_persistence_id: 0, workers: Vec::new() }
    }

    /// Adds a place, and gives its number. After that every place tells the others once more what
    /// it holds.
    pub fn add_persistence(&mut self) -> (r: PersistenceId)
        requires
            old(self).wf(),
            old(self).next() < u64::MAX,
        ensures
            r == PersistenceId(old(self).next()),
            final(self).next() == old(self).next() + 1,
            final(self).places() == old(self).places().push(r),
            final(self).root() == old(self).root(),
            final(self).wf(),
    {
        let id = PersistenceId(self.last_persistence_id);
        self.last_persistence_id = self.last_persistence_id + 1;
        let ghost before = self.workers@;
        self.workers.push(id);
        assert forall|i: int, j: int| 0 <= i < self.workers@.len() && 0 <= j < self.workers@.len()
            && i != j implies self.workers@[i] != self.workers@[j] by {
            if i < before.len() && j < before.len() {
                assert(before[i] != before[j]);
            }
        }
        id
    }

    /// The place of a number among the places.
    fn find(&self, id: PersistenceId) -> (r: Option<usize>)
        ensures
            match r {
                Some(i) => i < self.places().len() && self.places()[i as int] == id,
                None => !self.places().contains(id),
            },
    {
        let mut i: usize = 0;
        while i < self.workers.len()
            invariant
                i <= self.workers.len(),
                forall|j: int| 0 <= j < i ==> self.workers@[j] != id,
            decreases self.workers.len() - i,
        {
            if self.workers[i] == id {
                return Some(i);
            }
            i = i + 1;
        }
        None
    }

    /// Removes a place.
    pub fn remove_persistence(&mut self, id: PersistenceId) -> (r: Result<(), ClockumentError>)
        requires
            old(self).wf(),
        ensures
            final(self).wf(),
            final(self).root() == old(self).root(),
            final(self).next() == old(self).next(),
            old(self).places().contains(id) ==> r is Ok && final(self).places() == old(
                self,
            ).places().remove(old(self).places().index_of(id)),
            !old(self).places().contains(id) ==> r == Err::<(), _>(
                ClockumentError::NoSuchTarget(id),
            ) && final(self).places() == old(self).places(),
            !final(self).places().contains(id),
    {
        match self.find(id) {
            Some(i) => {
                let ghost before = self.workers@;
                let _ = self.workers.remove(i);
                proof {
                    assert(before.contains(id)) by {
                        assert(before[i as int] == id);
                    }
                    let at = before.index_of(id);
                    assert(0 <= at < before.len() && before[at] == id);
                    assert(at == i);
                    let now = self.workers@;
                    assert forall|x: int, y: int| 0 <= x < now.len() && 0 <= y < now.len() && x
                        != y implies now[x] != now[y] by {
                        let p = if x < i { x } else { x + 1 };
                        let q = if y < i { y } else { y + 1 };
                        assert(now[x] == before[p] && now[y] == before[q]);
                    }
                    assert forall|x: int| 0 <= x < now.len() implies (#[trigger] now[x]).0
                        < self.next() && now[x] != id by {
                        let p = if x < i { x } else { x + 1 };
                        assert(now[x] == before[p]);
                        assert(before[p] == old(self).places()[p]);
                    }
                }
                Ok(())
            },
            None => Err(ClockumentError::NoSuchTarget(id)),
        }
    }

    /// Whether there is such a place.
    pub fn target(&self, persistence: PersistenceId) -> (r: Result<(), ClockumentError>)
        ensures
            r == if self.places().contains(persistence) {
                Ok(())
            } else {
                Err(ClockumentError::NoSuchTarget(persistence))
            },
    {
        match self.find(persistence) {
            Some(_) => Ok(()),
            None => Err(ClockumentError::NoSuchTarget(persistence)),
        }
    }

    /// Whether a document that was put is the root document, for which others may wait.
    pub fn is_root(&self, put: &PutResult) -> (r: bool)
        ensures
            r == (put.doc_ref.id@ == self.root()),
    {
        put.doc_ref.id.same(&self.clockument.id)
    }

    /// The places that a document goes to which was put in one of them: all others. None where
    /// the place that it was put in is gone.
    pub fn driver_loop(&self, put: &PutResult) -> (r: Option<Vec<PersistenceId>>)
        ensures
            r is Some <==> self.places().contains(put.source),
            r matches Some(targets) ==> targets@ == other_places(self.places(), put.source),
    {
        if self.find(put.source).is_none() {
            return None;
        }
        let mut targets: Vec<PersistenceId> = Vec::new();
        let mut i: usize = 0;
        proof {
            assert(self.workers@.take(0) == Seq::<PersistenceId>::empty());
            reveal(Seq::filter);
        }
        while i < self.workers.len()
            invariant
                i <= self.workers.len(),
                targets@ == other_places(self.workers@.take(i as int), put.source),
            decreases self.workers.len() - i,
        {
            proof {
                reveal(Seq::filter);
                assert(self.workers@.take(i + 1).drop_last() == self.workers@.take(i as int));
                assert(self.workers@.take(i + 1).last() == self.workers@[i as int]);
            }
            if self.workers[i] != put.source {
                targets.push(self.workers[i]);
            }
            i = i + 1;
        }
        assert(self.workers@.take(self.workers@.len() as int) == self.workers@);
        Some(targets)
    }

    /// The places that a document goes to which comes from outside: all of them.
    pub fn insert(&self) -> (r: Vec<PersistenceId>)
        ensures
            r@ == self.places(),
    {
        let targets = self.workers.clone();
        assert(targets@ == self.workers@);
        targets
    }

    /// What a place tells the others of what it holds: each dependency of the root document, then
    /// the root document at its heads. Nothing where it does not hold the root document.
    pub fn notify_rebroadcast(
        &self,
        source: PersistenceId,
        held: Option<(Vec<DocumentRef>, Heads)>,
    ) -> (r: Vec<PutResult>)
        ensures
            held is None ==> r.len() == 0,
            held matches Some(h) ==> r@.map_values(|p: PutResult| p.doc_ref@) == ref_views(
                h.0@,
            ).push((self.root(), h.1@.to_multiset())),
            forall|i: int| 0 <= i < r.len() ==> (#[trigger] r@[i]).source == source,
    {
        let (deps, heads) = match held {
            Some(h) => h,
            None => {
                return Vec::new();
            },
        };
        let mut told: Vec<PutResult> = Vec::new();
        let mut i: usize = 0;
        while i < deps.len()
            invariant
                i <= deps.len(),
                told.len() == i,
                forall|j: int|
                    0 <= j < i ==> (#[trigger] told@[j]).doc_ref@ == deps@[j]@ && told@[j].source
                        == source,
            decreases deps.len() - i,
        {
            told.push(PutResult { doc_ref: deps[i].clone(), source });
            i = i + 1;
        }
        told.push(PutResult { doc_ref: DocumentRef { id: self.clockument.id, heads }, source });
        assert(told@.map_values(|p: PutResult| p.doc_ref@) == ref_views(deps@).push(
            (self.root(), heads@.to_multiset()),
        ));
        told
    }

    /// Whether a transaction changed the document: its heads moved.
    pub fn transact(before: &Vec<ChangeHash>, after: &Vec<ChangeHash>) -> (r: bool)
        ensures
            r == (before@ != after@),
    {
        if before.len() != after.len() {
            return true;
        }
        let mut i: usize = 0;
        while i < before.len()
            invariant
                i <= before.len(),
                before.len() == after.len(),
                forall|j: int| 0 <= j < i ==> before@[j] == after@[j],
            decreases before.len() - i,
        {
            if !before[i].same(&after[i]) {
                assert(before@[i as int] != after@[i as int]);
                return true;
            }
            i = i + 1;
        }
        assert(before@ == after@);
        false
    }

    /// Whether waiting for heads is over, and how. `there` is whether the place holds the root
    /// document at those heads, where it could be asked.
    pub fn heads_ready(event: ReadyEvent) -> (r: Option<Result<(), ClockumentError>>)
        ensures
            r == match event {
                ReadyEvent::Removed => Some(Err::<(), _>(ClockumentError::TargetRemoved)),
                ReadyEvent::Asked(Ok(true)) => Some(Ok(())),
                ReadyEvent::Asked(Ok(false)) => None,
                ReadyEvent::Asked(Err(e)) => Some(Err(ClockumentError::Persist(e))),
            },
    {
        match event {
            ReadyEvent::Removed => Some(Err(ClockumentError::TargetRemoved)),
            ReadyEvent::Asked(Ok(true)) => Some(Ok(())),
            ReadyEvent::Asked(Ok(false)) => None,
            ReadyEvent::Asked(Err(e)) => Some(Err(ClockumentError::Persist(e))),
        }
    }
}

/// What happens while heads are waited for.
#[derive(Debug)]
pub enum ReadyEvent {
    /// The place is gone, or no news can come any more.
    Removed,
    /// The place was asked whether it holds the root document at the heads.
    Asked(Result<bool, String>),
}


/// One more dependency is waited for where it is not there, or where it belongs to another document
/// than the one that was put; the others stay as they are, in their order.
pub proof fn dependencies_are_looked_at_one_by_one(
    deps: Seq<RefView>,
    scope: Option<Seq<u8>>,
    there: Seq<bool>,
    dep: RefView,
    is_there: bool,
)
    requires
        there.len() == deps.len(),
    ensures
        retained(Seq::empty(), scope, there) == Seq::<RefView>::empty(),
        !is_there ==> retained(deps.push(dep), scope, there.push(is_there)) == retained(
            deps,
            scope,
            there,
        ).push(dep),
        is_there && (scope is None || scope == Some(dep.0)) ==> retained(
            deps.push(dep),
            scope,
            there.push(is_there),
        ) == retained(deps, scope, there),
        is_there && scope is Some && scope != Some(dep.0) ==> retained(
            deps.push(dep),
            scope,
            there.push(is_there),
        ) == retained(deps, scope, there).push(dep),
{
    assert(deps.push(dep).drop_last() == deps);
    lemma_later_answers(deps, scope, there, there.push(is_there));
}

proof fn lemma_later_answers(
    deps: Seq<RefView>,
    scope: Option<Seq<u8>>,
    a: Seq<bool>,
    b: Seq<bool>,
)
    requires
        forall|i: int| 0 <= i < deps.len() ==> #[trigger] a[i] == b[i],
    ensures
        retained(deps, scope, a) == retained(deps, scope, b),
    decreases deps.len(),
{
    if deps.len() > 0 {
        lemma_later_answers(deps.drop_last(), scope, a, b);
        assert(a[deps.len() - 1] == b[deps.len() - 1]);
    }
}

/// A document that was put in one place goes to every other place, and not back to its own.
pub proof fn documents_go_to_the_other_places(
    places: Seq<PersistenceId>,
    source: PersistenceId,
    place: PersistenceId,
)
    ensures
        other_places(places, source).contains(place) <==> places.contains(place) && place != source,
    decreases places.len(),
{
    reveal(Seq::filter);
    if places.len() > 0 {
        let front = places.drop_last();
        let kept = other_places(front, source);
        let last = places.last();
        documents_go_to_the_other_places(front, source, place);
        assert(places == front.push(last));
        if kept.contains(place) {
            let i = choose|i: int| 0 <= i < kept.len() && kept[i] == place;
            assert(kept.push(last)[i] == place);
        }
        if front.contains(place) {
            let i = choose|i: int| 0 <= i < front.len() && front[i] == place;
            assert(places[i] == place);
        }
        if places.contains(place) && place != last {
            let i = choose|i: int| 0 <= i < places.len() && places[i] == place;
            assert(front[i] == place);
        }
        assert(kept.push(last)[kept.len() as int] == last);
        assert(places[places.len() - 1] == last);
        if kept.push(last).contains(place) && place != last {
            let i = choose|i: int| 0 <= i < kept.push(last).len() && kept.push(last)[i] == place;
            assert(kept[i] == place);
        }
    }
}

} // verus!
