use vstd::prelude::*;
use crate::budget::RequestBudget;
use crate::domain::{domains_match, verify_domains_match};
use crate::errors::{FetchError, ReceiveError};
use crate::resolve::{
    resolve_model, unresolved_chain, OutcomeV, RawComment, RawV, ScriptedFetcher,
};
use crate::store::{
    has_url, index_of_url, spec_upsert, store_wf, thread_participants, CommentV, LocalStore,
};

verus! {

/// The operation tag carried by a notification event.
#[derive(Clone, Copy, Debug, PartialEq, Eq, Structural)]
pub enum CrudOp {
    EditComment,
}

/// One fan-out event for the local subscriber bus: the affected comment,
/// the interested local actors, and the operation applied.  Exactly one
/// such event accompanies every successfully applied activity, also when
/// the application was an observable no-op.
#[derive(Debug)]
pub struct Notification {
    pub comment_id: usize,
    pub recipients: Vec<u64>,
    pub op: CrudOp,
}

/// The result of a successfully applied activity: the affected comment and
/// the single notification event to publish.
#[derive(Debug)]
pub struct Applied {
    pub comment_id: usize,
    pub notification: Notification,
}

/// Mathematical view of a Remove activity payload.
pub struct RemoveV {
    pub actor: Seq<char>,
    pub to: Seq<Seq<char>>,
    pub object: Seq<char>,
    pub cc: Seq<Seq<char>>,
}

/// A Remove activity: the actor asks that the comment published under the
/// `object` URL be marked removed.
pub struct RemoveComment {
    pub actor: String,
    pub to: Vec<String>,
    pub object: String,
    pub cc: Vec<String>,
}

impl View for RemoveComment {
    type V = RemoveV;

    open spec fn view(&self) -> RemoveV {
        RemoveV {
            actor: self.actor@,
            to: self.to@.map_values(|s: String| s@),
            object: self.object@,
            cc: self.cc@.map_values(|s: String| s@),
        }
    }
}

/// Mathematical view of an Update activity payload.
pub struct UpdateV {
    pub actor: Seq<char>,
    pub to: Seq<Seq<char>>,
    pub object: RawV,
}

/// An Update activity: the actor submits an embedded representation of the
/// comment to replace the locally stored content.
pub struct UpdateComment {
    pub actor: String,
    pub to: Vec<String>,
    pub object: RawComment,
}

impl View for UpdateComment {
    type V = UpdateV;

    open spec fn view(&self) -> UpdateV {
        UpdateV {
            actor: self.actor@,
            to: self.to@.map_values(|s: String| s@),
            object: self.object@,
        }
    }
}

/// Mathematical view of an activity payload.
pub enum PayloadV {
    Remove(RemoveV),
    Update(UpdateV),
    Unrecognized,
}

/// The closed union of activity kinds this pipeline handles.  A delivery
/// whose kind tag matched none of them decodes to `Unrecognized` and is
/// acknowledged without effect.
pub enum ActivityPayload {
    Remove(RemoveComment),
    Update(UpdateComment),
    Unrecognized,
}

impl View for ActivityPayload {
    type V = PayloadV;

    open spec fn view(&self) -> PayloadV {
        match self {
            ActivityPayload::Remove(rm) => PayloadV::Remove(rm@),
            ActivityPayload::Update(up) => PayloadV::Update(up@),
            ActivityPayload::Unrecognized => PayloadV::Unrecognized,
        }
    }
}

/// Mathematical view of one delivered activity.
pub struct ActivityV {
    pub id: Seq<char>,
    pub payload: PayloadV,
}

/// One decoded activity as delivered to the inbox: its own id URL and the
/// kind-specific payload.
pub struct Activity {
    pub id: String,
    pub payload: ActivityPayload,
}

impl View for Activity {
    type V = ActivityV;

    open spec fn view(&self) -> ActivityV {
        ActivityV { id: self.id@, payload: self.payload@ }
    }
}

/// Outcome of processing one activity against the model: the result (the
/// affected comment's id, or the failure kind), the resulting store, and
/// the number of fetches issued.
pub struct ProcessV {
    pub result: Result<usize, ReceiveError>,
    pub store: Seq<CommentV>,
    pub used: nat,
}

/// The model of a Remove: the actor's authority must match the object's
/// origin, the object must already be known locally (removal never fetches),
/// and then the removed flag is set.  Setting a flag that is already set
/// succeeds without error and leaves the store observably unchanged.
pub open spec fn spec_remove(
    actor: Seq<char>,
    object: Seq<char>,
    store: Seq<CommentV>,
) -> ProcessV {
    if !domains_match(actor, object) {
        ProcessV { result: Err(ReceiveError::DomainMismatch), store, used: 0 }
    } else if !has_url(store, object) {
        ProcessV { result: Err(ReceiveError::ObjectNotFound), store, used: 0 }
    } else {
        let i = index_of_url(store, object);
        ProcessV {
            result: Ok(i as usize),
            store: store.update(
                i,
                CommentV {
                    id: store[i].id,
                    origin: store[i].origin,
                    content: store[i].content,
                    creator: store[i].creator,
                    removed: true,
                    parent: store[i].parent,
                },
            ),
            used: 0,
        }
    }
}

/// The model of an Update: the actor's authority must match both the
/// activity's own id and the embedded object's stated origin; the parent
/// chain, if any, is resolved (fetching on a miss); and the embedded
/// content is upserted under the object's origin URL.  Any failure leaves
/// the store unchanged.
pub open spec fn spec_update(
    actor: Seq<char>,
    activity_id: Seq<char>,
    raw: RawV,
    store: Seq<CommentV>,
    net: Seq<(Seq<char>, OutcomeV)>,
    budget: nat,
) -> ProcessV {
    if !(domains_match(actor, activity_id) && domains_match(actor, raw.origin)) {
        ProcessV { result: Err(ReceiveError::DomainMismatch), store, used: 0 }
    } else {
        match raw.parent {
            None => {
                let u = spec_upsert(store, raw.origin, raw.content, raw.creator, None);
                ProcessV { result: Ok(u.1), store: u.0, used: 0 }
            },
            Some(p) => {
                let m = resolve_model(store, net, p, budget);
                match m.result {
                    Ok(pid) => {
                        let u = spec_upsert(m.store, raw.origin, raw.content, raw.creator,
                        Some(pid));
                        ProcessV { result: Ok(u.1), store: u.0, used: m.used }
                    },
                    Err(e) => ProcessV {
                        result: Err(ReceiveError::Fetch(e)),
                        store,
                        used: m.used,
                    },
                }
            },
        }
    }
}

/// The model of one delivery: dispatch on the activity's kind; an
/// unrecognized kind is rejected with `UnsupportedActivity` and no effect.
pub open spec fn spec_receive(
    a: ActivityV,
    store: Seq<CommentV>,
    net: Seq<(Seq<char>, OutcomeV)>,
    budget: nat,
) -> ProcessV {
    match a.payload {
        PayloadV::Remove(rm) => spec_remove(rm.actor, rm.object, store),
        PayloadV::Update(up) => spec_update(up.actor, a.id, up.object, store, net, budget),
        PayloadV::Unrecognized => ProcessV {
            result: Err(ReceiveError::UnsupportedActivity),
            store,
            used: 0,
        },
    }
}

/// Whether an exec result and a model outcome agree: same failure, or same
/// affected comment with exactly one notification event, addressed to the
/// thread participants computed on the resulting store.
pub open spec fn result_matches(
    r: Result<Applied, ReceiveError>,
    m: ProcessV,
) -> bool {
    match (r, m.result) {
        (Ok(a), Ok(id)) => {
            &&& a.comment_id == id
            &&& a.notification.comment_id == id
            &&& a.notification.recipients@ == thread_participants(m.store, id as int)
            &&& a.notification.op == CrudOp::EditComment
        },
        (Err(e1), Err(e2)) => e1 == e2,
        _ => false,
    }
}

impl RemoveComment {
    /// Apply a Remove activity: verify the actor's authority over the
    /// object's origin, resolve the target strictly by existing local
    /// identity (no fetch on a miss), set the removed flag, and compute the
    /// single notification event.
    pub fn apply(&self, store: &mut LocalStore) -> (r: Result<Applied, ReceiveError>)
        requires
            old(store).wf(),
        ensures
            final(store).wf(),
            final(store)@ == spec_remove(self@.actor, self@.object, old(store)@).store,
            result_matches(r, spec_remove(self@.actor, self@.object, old(store)@)),
    {
        match verify_domains_match(self.actor.as_str(), self.object.as_str()) {
            Err(e) => Err(e),
            Ok(()) => {
                match store.find_by_url(&self.object) {
                    None => Err(ReceiveError::ObjectNotFound),
                    Some(i) => {
                        store.update_removed(i, true);
                        let recipients = store.notif_recipients(i);
                        Ok(
                            Applied {
                                comment_id: i,
                                notification: Notification {
                                    comment_id: i,
                                    recipients,
                                    op: CrudOp::EditComment,
                                },
                            },
                        )
                    },
                }
            },
        }
    }
}

impl UpdateComment {
    /// Apply an Update activity: verify the actor's authority over both the
    /// activity's declared id and the embedded object's stated origin,
    /// resolve the parent chain (fetching on a miss is legitimate here: a
    /// first-seen edit may arrive before its create was observed), upsert
    /// the embedded content, and compute the single notification event.
    pub fn apply(
        &self,
        activity_id: &String,
        store: &mut LocalStore,
        budget: &mut RequestBudget,
        net: &ScriptedFetcher,
    ) -> (r: Result<Applied, ReceiveError>)
        requires
            old(store).wf(),
            old(store)@.len() + old(budget).spec_remaining() < usize::MAX,
        ensures
            final(store).wf(),
            final(budget).spec_remaining() <= old(budget).spec_remaining(),
            ({
                let m = spec_update(
                    self@.actor,
                    activity_id@,
                    self@.object,
                    old(store)@,
                    net@,
                    old(budget).spec_remaining(),
                );
                &&& final(store)@ == m.store
                &&& old(budget).spec_remaining() - final(budget).spec_remaining() == m.used
                &&& result_matches(r, m)
            }),
    {
        match verify_domains_match(self.actor.as_str(), activity_id.as_str()) {
            Err(e) => {
                return Err(e);
            },
            Ok(()) => {},
        }
        match verify_domains_match(self.actor.as_str(), self.object.origin.as_str()) {
            Err(e) => {
                return Err(e);
            },
            Ok(()) => {},
        }
        let parent_id: Option<usize> = match &self.object.parent {
            None => None,
            Some(p) => {
                match crate::resolve::resolve_or_fetch(store, budget, p, net) {
                    Ok(pid) => Some(pid),
                    Err(e) => {
                        return Err(ReceiveError::Fetch(e));
                    },
                }
            },
        };
        proof {
            assert(store@.len() + budget.spec_remaining() <= old(store)@.len() + old(
                budget,
            ).spec_remaining());
        }
        let id = store.upsert(
            &self.object.origin,
            &self.object.content,
            self.object.creator,
            parent_id,
        );
        let recipients = store.notif_recipients(id);
        Ok(
            Applied {
                comment_id: id,
                notification: Notification {
                    comment_id: id,
                    recipients,
                    op: CrudOp::EditComment,
                },
            },
        )
    }
}

impl Activity {
    /// Process one delivered activity: authority verification, then
    /// resolution of missing referenced objects, then the mutation, then
    /// the notification event -- in that order, so that no local state is
    /// mutated on behalf of an activity that fails verification or
    /// resolution.  A rejected activity leaves the store unchanged.
    pub fn receive(
        &self,
        store: &mut LocalStore,
        budget: &mut RequestBudget,
        net: &ScriptedFetcher,
    ) -> (r: Result<Applied, ReceiveError>)
        requires
            old(store).wf(),
            old(store)@.len() + old(budget).spec_remaining() < usize::MAX,
        ensures
            final(store).wf(),
            final(budget).spec_remaining() <= old(budget).spec_remaining(),
            ({
                let m = spec_receive(self@, old(store)@, net@, old(budget).spec_remaining());
                &&& final(store)@ == m.store
                &&& old(budget).spec_remaining() - final(budget).spec_remaining() == m.used
                &&& result_matches(r, m)
            }),
    {
        match &self.payload {
            ActivityPayload::Remove(rm) => rm.apply(store),
            ActivityPayload::Update(up) => up.apply(&self.id, store, budget, net),
            ActivityPayload::Unrecognized => Err(ReceiveError::UnsupportedActivity),
        }
    }
}

/// Removal is idempotent.  A Remove whose actor's authority matches the
/// origin of a locally known object sets the object's removed flag; the
/// identical activity delivered again succeeds with the same result and
/// leaves the store exactly as it was after the first delivery, the flag
/// still set.
pub proof fn lemma_remove_idempotent(actor: Seq<char>, object: Seq<char>, store: Seq<CommentV>)
    requires
        store_wf(store),
        domains_match(actor, object),
        has_url(store, object),
    ensures
        ({
            let m1 = spec_remove(actor, object, store);
            let m2 = spec_remove(actor, object, m1.store);
            &&& m1.result is Ok
            &&& m1.store[m1.result->Ok_0 as int].removed
            &&& m2.result == m1.result
            &&& m2.store == m1.store
        }),
{
    let i = index_of_url(store, object);
    assert(0 <= i < store.len() && store[i].origin == object);
    let m1 = spec_remove(actor, object, store);
    let s1 = m1.store;
    assert(s1[i].origin == object);
    assert(has_url(s1, object));
    let w = index_of_url(s1, object);
    assert(0 <= w < s1.len() && s1[w].origin == object);
    if w != i {
        if w < i {
            assert(store[w].origin != store[i].origin);
            assert(s1[w].origin == store[w].origin);
        } else {
            assert(store[i].origin != store[w].origin);
            assert(s1[w].origin == store[w].origin);
        }
        assert(false);
    }
    let m2 = spec_remove(actor, object, s1);
    assert(m2.store =~= s1);
}

/// A Remove that references an object unknown locally is rejected with
/// `ObjectNotFound` and creates no row as a side effect: removal never
/// fetches on a miss.
pub proof fn lemma_remove_unknown_rejected(
    actor: Seq<char>,
    object: Seq<char>,
    store: Seq<CommentV>,
)
    requires
        domains_match(actor, object),
        !has_url(store, object),
    ensures
        ({
            let m = spec_remove(actor, object, store);
            &&& m.result == Err::<usize, ReceiveError>(ReceiveError::ObjectNotFound)
            &&& m.store == store
        }),
{
}

/// An Update whose actor's authority differs from the embedded object's
/// stated origin, or from the activity's own declared id, is rejected with
/// `DomainMismatch` before any resolution or mutation: the store is
/// unchanged and no fetch is issued.
pub proof fn lemma_update_domain_mismatch(
    actor: Seq<char>,
    activity_id: Seq<char>,
    raw: RawV,
    store: Seq<CommentV>,
    net: Seq<(Seq<char>, OutcomeV)>,
    budget: nat,
)
    requires
        !domains_match(actor, raw.origin) || !domains_match(actor, activity_id),
    ensures
        ({
            let m = spec_update(actor, activity_id, raw, store, net, budget);
            &&& m.result == Err::<usize, ReceiveError>(ReceiveError::DomainMismatch)
            &&& m.store == store
            &&& m.used == 0
        }),
{
}

/// Budget bounds an Update's resolution fan-out.  When the embedded
/// object's parent heads an unresolved chain that still requires more
/// fetches than the budget allows, the delivery fails with
/// `BudgetExceeded` after exactly `budget` fetches, and the store is
/// unchanged: the payloads fetched so far are not inserted.
pub proof fn lemma_update_budget_exhaustion(
    actor: Seq<char>,
    activity_id: Seq<char>,
    raw: RawV,
    store: Seq<CommentV>,
    net: Seq<(Seq<char>, OutcomeV)>,
    urls: Seq<Seq<char>>,
    budget: nat,
)
    requires
        domains_match(actor, activity_id),
        domains_match(actor, raw.origin),
        raw.parent == Some(urls[0]),
        unresolved_chain(store, net, urls),
        urls.len() > budget,
    ensures
        ({
            let m = spec_update(actor, activity_id, raw, store, net, budget);
            &&& m.result == Err::<usize, ReceiveError>(
                ReceiveError::Fetch(FetchError::BudgetExceeded),
            )
            &&& m.store == store
            &&& m.used == budget
        }),
{
    crate::resolve::lemma_resolution_budget(store, net, urls, budget);
}

} // verus!
