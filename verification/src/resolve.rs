use vstd::prelude::*;
use crate::budget::RequestBudget;
use crate::errors::FetchError;
use crate::store::{
    has_url, index_of_url, spec_insert, store_wf, CommentV, LocalStore,
};

verus! {

/// Mathematical view of a fetched remote comment representation.
pub struct RawV {
    pub origin: Seq<char>,
    pub content: Seq<char>,
    pub creator: u64,
    pub parent: Option<Seq<char>>,
}

/// The parsed payload of one remote comment, as a fetch delivers it:
/// the URL under which the remote server publishes it, its content, its
/// creator's actor id, and the URL of its parent comment, if any.
pub struct RawComment {
    pub origin: String,
    pub content: String,
    pub creator: u64,
    pub parent: Option<String>,
}

impl View for RawComment {
    type V = RawV;

    open spec fn view(&self) -> RawV {
        RawV {
            origin: self.origin@,
            content: self.content@,
            creator: self.creator,
            parent: match self.parent {
                Some(ref p) => Some(p@),
                None => None,
            },
        }
    }
}

/// Mathematical view of one fetch outcome.
pub enum OutcomeV {
    Fetched(RawV),
    NetworkError,
    NotFound,
    ParseError,
}

/// What one outbound fetch of a URL produced: a parsed payload, or one of
/// the transport and payload failure kinds.
pub enum FetchOutcome {
    Fetched(RawComment),
    NetworkError,
    NotFound,
    ParseError,
}

impl View for FetchOutcome {
    type V = OutcomeV;

    open spec fn view(&self) -> OutcomeV {
        match self {
            FetchOutcome::Fetched(raw) => OutcomeV::Fetched(raw@),
            FetchOutcome::NetworkError => OutcomeV::NetworkError,
            FetchOutcome::NotFound => OutcomeV::NotFound,
            FetchOutcome::ParseError => OutcomeV::ParseError,
        }
    }
}

/// One scripted response: what fetching `url` yields.
pub struct ScriptEntry {
    pub url: String,
    pub outcome: FetchOutcome,
}

/// The view of a fetch script: url/outcome pairs, earlier entries shadowing
/// later ones.
pub open spec fn net_lookup(net: Seq<(Seq<char>, OutcomeV)>, url: Seq<char>) -> OutcomeV
    decreases net.len(),
{
    if net.len() == 0 {
        OutcomeV::NetworkError
    } else if net[0].0 == url {
        net[0].1
    } else {
        net_lookup(net.drop_first(), url)
    }
}

/// A deterministic stand-in for the outbound-fetch collaborator: a finite
/// script mapping URLs to outcomes.  A URL outside the script behaves as a
/// transport failure.  The resolution logic is verified against the script's
/// contents alone, so it holds for every behaviour a real transport could
/// exhibit.
pub struct ScriptedFetcher {
    entries: Vec<ScriptEntry>,
}

impl View for ScriptedFetcher {
    type V = Seq<(Seq<char>, OutcomeV)>;

    closed spec fn view(&self) -> Seq<(Seq<char>, OutcomeV)> {
        self.entries@.map_values(|e: ScriptEntry| (e.url@, e.outcome@))
    }
}

impl ScriptedFetcher {
    pub fn new() -> (r: ScriptedFetcher)
        ensures
            r@ == Seq::<(Seq<char>, OutcomeV)>::empty(),
    {
        let r = ScriptedFetcher { entries: Vec::new() };
        proof {
            assert(r@ =~= Seq::<(Seq<char>, OutcomeV)>::empty());
        }
        r
    }

    /// Append one scripted response.
    pub fn script(&mut self, url: String, outcome: FetchOutcome)
        ensures
            final(self)@ == old(self)@.push((url@, outcome@)),
    {
        let ghost prev = self@;
        let ghost entry = (url@, outcome@);
        self.entries.push(ScriptEntry { url, outcome });
        proof {
            assert(self@ =~= prev.push(entry));
        }
    }

    /// Fetch a URL against the script.
    pub fn fetch(&self, url: &String) -> (r: FetchOutcome)
        ensures
            r@ == net_lookup(self@, url@),
    {
        let n = self.entries.len();
        let mut i: usize = 0;
        proof {
            assert(self@.skip(0) =~= self@);
        }
        while i < n
            invariant
                n == self@.len(),
                i <= n,
                net_lookup(self@, url@) == net_lookup(self@.skip(i as int), url@),
            decreases n - i,
        {
            proof {
                assert(self@[i as int] == (self.entries@[i as int].url@,
                self.entries@[i as int].outcome@));
                assert(self@.skip(i as int)[0] == self@[i as int]);
            }
            if self.entries[i].url == *url {
                let r = match &self.entries[i].outcome {
                    FetchOutcome::Fetched(raw) => FetchOutcome::Fetched(
                        RawComment {
                            origin: raw.origin.clone(),
                            content: raw.content.clone(),
                            creator: raw.creator,
                            parent: match &raw.parent {
                                Some(p) => Some(p.clone()),
                                None => None,
                            },
                        },
                    ),
                    FetchOutcome::NetworkError => FetchOutcome::NetworkError,
                    FetchOutcome::NotFound => FetchOutcome::NotFound,
                    FetchOutcome::ParseError => FetchOutcome::ParseError,
                };
                proof {
                    assert(r@ == self.entries@[i as int].outcome@);
                    assert(net_lookup(self@.skip(i as int), url@) == self@[i as int].1);
                }
                return r;
            }
            proof {
                assert(self@.skip(i as int).drop_first() =~= self@.skip(i as int + 1));
                assert(net_lookup(self@.skip(i as int), url@) == net_lookup(
                    self@.skip(i as int + 1),
                    url@,
                ));
            }
            i = i + 1;
        }
        proof {
            assert(self@.skip(n as int) =~= Seq::<(Seq<char>, OutcomeV)>::empty());
        }
        FetchOutcome::NetworkError
    }
}

/// The view of a sequence of fetched payloads.
pub open spec fn raws_view(s: Seq<RawComment>) -> Seq<RawV> {
    s.map_values(|r: RawComment| r@)
}

/// Whether some payload of `acc` claims the URL `url` as its origin.
pub open spec fn chain_has_origin(acc: Seq<RawV>, url: Seq<char>) -> bool {
    exists|i: int| 0 <= i < acc.len() && (#[trigger] acc[i]).origin == url
}

/// Result of walking one resolution chain: the payloads collected, child
/// first, or the failure that ended the walk.
pub enum ChainOutcome {
    Complete(Seq<RawV>),
    Failed(FetchError),
}

/// The walk of one resolution chain, and the number of fetches it issues.
///
/// Starting from an unknown `target` with `budget` fetches left and the
/// payloads `acc` already collected: each step consumes one budget unit (or
/// fails `BudgetExceeded` with the allowance exhausted), fetches `target`,
/// rejects a payload that does not identify itself as `target`, and follows
/// the parent link while it names a URL that is neither stored locally nor
/// already collected; a parent already collected is a remote reference cycle
/// and rejects the payload.
pub open spec fn chain_spec(
    store: Seq<CommentV>,
    net: Seq<(Seq<char>, OutcomeV)>,
    target: Seq<char>,
    budget: nat,
    acc: Seq<RawV>,
) -> (ChainOutcome, nat)
    decreases budget,
{
    if budget == 0 {
        (ChainOutcome::Failed(FetchError::BudgetExceeded), 0)
    } else {
        match net_lookup(net, target) {
            OutcomeV::Fetched(raw) => {
                if raw.origin != target {
                    (ChainOutcome::Failed(FetchError::ParseError), 1)
                } else {
                    let acc2 = acc.push(raw);
                    match raw.parent {
                        None => (ChainOutcome::Complete(acc2), 1),
                        Some(p) => if has_url(store, p) {
                            (ChainOutcome::Complete(acc2), 1)
                        } else if chain_has_origin(acc2, p) {
                            (ChainOutcome::Failed(FetchError::ParseError), 1)
                        } else {
                            let rec = chain_spec(store, net, p, (budget - 1) as nat, acc2);
                            (rec.0, rec.1 + 1)
                        },
                    }
                }
            },
            OutcomeV::NetworkError => (ChainOutcome::Failed(FetchError::NetworkError), 1),
            OutcomeV::NotFound => (ChainOutcome::Failed(FetchError::NotFound), 1),
            OutcomeV::ParseError => (ChainOutcome::Failed(FetchError::ParseError), 1),
        }
    }
}

/// Insertion of a collected chain, parents first: the last payload's parent
/// is the stored row it referenced (or none), every earlier payload's parent
/// is the row just inserted for its successor.  Yields the resulting store
/// and the id of the row for the first payload.
pub open spec fn insert_chain(store: Seq<CommentV>, chain: Seq<RawV>) -> (Seq<CommentV>, usize)
    decreases chain.len(),
{
    if chain.len() == 0 {
        (store, 0)
    } else if chain.len() == 1 {
        let parent = match chain[0].parent {
            Some(p) => if has_url(store, p) {
                Some(index_of_url(store, p) as usize)
            } else {
                None
            },
            None => None,
        };
        spec_insert(store, chain[0].origin, chain[0].content, chain[0].creator, parent)
    } else {
        let rec = insert_chain(store, chain.drop_first());
        spec_insert(rec.0, chain[0].origin, chain[0].content, chain[0].creator, Some(rec.1))
    }
}

/// Outcome of one `resolve_or_fetch`: its result, the resulting store, and
/// the number of fetches issued.
pub struct ResolutionV {
    pub result: Result<usize, FetchError>,
    pub store: Seq<CommentV>,
    pub used: nat,
}

/// The model of `resolve_or_fetch`: a stored URL resolves to its existing
/// row without a fetch; an unknown URL is resolved by walking its chain and,
/// only when the walk completes, inserting the collected payloads.  A failed
/// walk leaves the store unchanged: no partial write is observable.
pub open spec fn resolve_model(
    store: Seq<CommentV>,
    net: Seq<(Seq<char>, OutcomeV)>,
    url: Seq<char>,
    budget: nat,
) -> ResolutionV {
    if has_url(store, url) {
        ResolutionV { result: Ok(index_of_url(store, url) as usize), store, used: 0 }
    } else {
        let walk = chain_spec(store, net, url, budget, Seq::<RawV>::empty());
        match walk.0 {
            ChainOutcome::Complete(chain) => {
                let ins = insert_chain(store, chain);
                ResolutionV { result: Ok(ins.1), store: ins.0, used: walk.1 }
            },
            ChainOutcome::Failed(e) => ResolutionV { result: Err(e), store, used: walk.1 },
        }
    }
}

fn acc_contains_origin(acc: &Vec<RawComment>, url: &String) -> (r: bool)
    ensures
        r == chain_has_origin(raws_view(acc@), url@),
{
    let n = acc.len();
    let mut i: usize = 0;
    while i < n
        invariant
            n == acc@.len(),
            i <= n,
            forall|j: int| 0 <= j < i ==> (#[trigger] raws_view(acc@)[j]).origin != url@,
        decreases n - i,
    {
        proof {
            assert(raws_view(acc@)[i as int] == acc@[i as int]@);
        }
        if acc[i].origin == *url {
            proof {
                assert(raws_view(acc@)[i as int].origin == url@);
            }
            return true;
        }
        i = i + 1;
    }
    false
}

/// Walk the resolution chain of `url` against the fetch script, consuming
/// budget, and collect the payloads child first.  The store is only read.
#[verifier::loop_isolation(false)]
fn collect_chain(
    store: &LocalStore,
    budget: &mut RequestBudget,
    url: &String,
    net: &ScriptedFetcher,
) -> (r: Result<Vec<RawComment>, FetchError>)
    requires
        store.wf(),
    ensures
        final(budget).spec_remaining() <= old(budget).spec_remaining(),
        ({
            let walk = chain_spec(
                store@,
                net@,
                url@,
                old(budget).spec_remaining(),
                Seq::<RawV>::empty(),
            );
            &&& old(budget).spec_remaining() - final(budget).spec_remaining() == walk.1
            &&& match r {
                Ok(acc) => {
                    &&& walk.0 == ChainOutcome::Complete(raws_view(acc@))
                    &&& acc@.len() > 0
                    &&& raws_view(acc@)[0].origin == url@
                    &&& acc@.len() <= walk.1
                },
                Err(e) => walk.0 == ChainOutcome::Failed(e),
            }
        }),
{
    let ghost b0 = budget.spec_remaining();
    let mut acc: Vec<RawComment> = Vec::new();
    let mut target: String = url.clone();
    proof {
        assert(raws_view(acc@) =~= Seq::<RawV>::empty());
    }
    loop
        invariant
            store.wf(),
            budget.spec_remaining() <= b0,
            acc@.len() <= b0 - budget.spec_remaining(),
            acc@.len() > 0 ==> raws_view(acc@)[0].origin == url@,
            acc@.len() == 0 ==> target@ == url@,
            ({
                let here = chain_spec(
                    store@,
                    net@,
                    target@,
                    budget.spec_remaining(),
                    raws_view(acc@),
                );
                chain_spec(store@, net@, url@, b0, Seq::<RawV>::empty()) == (
                here.0,
                (here.1 + b0 - budget.spec_remaining()) as nat,
                )
            }),
        decreases budget.spec_remaining(),
    {
        let ghost rem = budget.spec_remaining();
        let ghost accv = raws_view(acc@);
        if !budget.try_consume() {
            proof {
                assert(rem == 0);
                assert(chain_spec(store@, net@, target@, rem, accv) == (
                ChainOutcome::Failed(FetchError::BudgetExceeded),
                0nat,
                ));
            }
            return Err(FetchError::BudgetExceeded);
        }
        let outcome = net.fetch(&target);
        let ghost step = chain_spec(store@, net@, target@, rem, accv);
        match outcome {
            FetchOutcome::Fetched(raw) => {
                if !(raw.origin == target) {
                    proof {
                        assert(step == (ChainOutcome::Failed(FetchError::ParseError), 1nat));
                    }
                    return Err(FetchError::ParseError);
                }
                let parent = match &raw.parent {
                    Some(p) => Some(p.clone()),
                    None => None,
                };
                let ghost rawv = raw@;
                acc.push(raw);
                proof {
                    assert(raws_view(acc@) =~= accv.push(rawv));
                    if accv.len() == 0 {
                        assert(raws_view(acc@)[0] == rawv);
                    }
                }
                match parent {
                    None => {
                        proof {
                            assert(rawv.parent is None);
                            assert(step == (ChainOutcome::Complete(accv.push(rawv)), 1nat));
                        }
                        return Ok(acc);
                    },
                    Some(p) => {
                        proof {
                            assert(rawv.parent == Some(p@));
                        }
                        let cached = store.find_by_url(&p);
                        match cached {
                            Some(_) => {
                                proof {
                                    assert(has_url(store@, p@));
                                    assert(step == (ChainOutcome::Complete(accv.push(rawv)), 1nat));
                                }
                                return Ok(acc);
                            },
                            None => {
                                if acc_contains_origin(&acc, &p) {
                                    proof {
                                        assert(chain_has_origin(accv.push(rawv), p@));
                                        assert(step == (
                                        ChainOutcome::Failed(FetchError::ParseError),
                                        1nat,
                                        ));
                                    }
                                    return Err(FetchError::ParseError);
                                }
                                proof {
                                    assert(!has_url(store@, p@));
                                    assert(!chain_has_origin(accv.push(rawv), p@));
                                    let rec = chain_spec(
                                        store@,
                                        net@,
                                        p@,
                                        (rem - 1) as nat,
                                        accv.push(rawv),
                                    );
                                    assert(step == (rec.0, (rec.1 + 1) as nat));
                                }
                                target = p;
                            },
                        }
                    },
                }
            },
            FetchOutcome::NetworkError => {
                proof {
                    assert(step == (ChainOutcome::Failed(FetchError::NetworkError), 1nat));
                }
                return Err(FetchError::NetworkError);
            },
            FetchOutcome::NotFound => {
                proof {
                    assert(step == (ChainOutcome::Failed(FetchError::NotFound), 1nat));
                }
                return Err(FetchError::NotFound);
            },
            FetchOutcome::ParseError => {
                proof {
                    assert(step == (ChainOutcome::Failed(FetchError::ParseError), 1nat));
                }
                return Err(FetchError::ParseError);
            },
        }
    }
}

/// Idempotent get-or-fetch for a remote entity referenced by URL.
///
/// A URL already stored resolves to its existing row, consuming no budget.
/// An unknown URL costs one budget unit per fetch along its parent chain;
/// the collected payloads are inserted, parents first, only once the whole
/// chain has resolved, so a failed resolution leaves the store unchanged.
/// Each insertion is create-or-get, so resolution converges with any
/// concurrent resolution of the same URL.
#[verifier::loop_isolation(false)]
pub fn resolve_or_fetch(
    store: &mut LocalStore,
    budget: &mut RequestBudget,
    url: &String,
    net: &ScriptedFetcher,
) -> (r: Result<usize, FetchError>)
    requires
        old(store).wf(),
        old(store)@.len() + old(budget).spec_remaining() < usize::MAX,
    ensures
        final(store).wf(),
        final(budget).spec_remaining() <= old(budget).spec_remaining(),
        final(store)@.len() + final(budget).spec_remaining() <= old(store)@.len() + old(
            budget,
        ).spec_remaining(),
        ({
            let m = resolve_model(old(store)@, net@, url@, old(budget).spec_remaining());
            &&& final(store)@ == m.store
            &&& r == m.result
            &&& old(budget).spec_remaining() - final(budget).spec_remaining() == m.used
        }),
        match r {
            Ok(id) => (id as int) < final(store)@.len() && final(store)@[id as int].origin
                == url@,
            Err(_) => final(store)@ == old(store)@,
        },
{
    let ghost store0 = store@;
    let ghost b0 = budget.spec_remaining();
    match store.find_by_url(url) {
        Some(i) => Ok(i),
        None => {
            match collect_chain(store, budget, url, net) {
                Err(e) => Err(e),
                Ok(acc) => {
                    let ghost chain = raws_view(acc@);
                    let n = acc.len();
                    proof {
                        assert(acc@.len() <= b0);
                    }
                    let bottom_parent: Option<usize> = match &acc[n - 1].parent {
                        Some(p) => store.find_by_url(p),
                        None => None,
                    };
                    proof {
                        assert(chain[n - 1] == acc@[n - 1]@);
                        assert(chain.skip(n - 1) =~= seq![chain[n - 1]]);
                    }
                    let mut cur = store.create_or_get(
                        &acc[n - 1].origin,
                        &acc[n - 1].content,
                        acc[n - 1].creator,
                        bottom_parent,
                    );
                    proof {
                        assert(insert_chain(store0, chain.skip(n - 1)) == (store@, cur));
                    }
                    let mut k: usize = n - 1;
                    while k > 0
                        invariant
                            store.wf(),
                            k < n,
                            n == acc@.len(),
                            chain == raws_view(acc@),
                            store0.len() + b0 < usize::MAX,
                            chain.len() <= b0,
                            store@.len() <= store0.len() + (n - k),
                            (cur as int) < store@.len(),
                            insert_chain(store0, chain.skip(k as int)) == (store@, cur),
                        decreases k,
                    {
                        k = k - 1;
                        let ghost prev_store = store@;
                        let ghost prev_cur = cur;
                        proof {
                            assert(chain[k as int] == acc@[k as int]@);
                        }
                        cur = store.create_or_get(
                            &acc[k].origin,
                            &acc[k].content,
                            acc[k].creator,
                            Some(cur),
                        );
                        proof {
                            assert(chain.skip(k as int).drop_first() =~= chain.skip(k as int + 1));
                            assert(chain.skip(k as int)[0] == chain[k as int]);
                            assert(insert_chain(store0, chain.skip(k as int)) == (store@, cur));
                        }
                    }
                    proof {
                        assert(chain.skip(0) =~= chain);
                        assert(insert_chain(store0, chain) == (store@, cur));
                        assert(raws_view(acc@)[0].origin == url@);
                    }
                    Ok(cur)
                },
            }
        },
    }
}

/// Resolution converges: once some resolution has stored the row for a
/// URL -- its own fetch, or a concurrent one that won the insertion race --
/// every later resolution of that URL answers with the same local id,
/// issues no fetch, and leaves the store unchanged.  Together with the
/// create-or-get insertion step, duplicate resolutions of one unseen URL
/// end in exactly one stored row that both observe.
pub proof fn lemma_resolution_converges(
    store: Seq<CommentV>,
    net: Seq<(Seq<char>, OutcomeV)>,
    url: Seq<char>,
    id: usize,
    budget: nat,
)
    requires
        store_wf(store),
        (id as int) < store.len(),
        store[id as int].origin == url,
    ensures
        ({
            let m = resolve_model(store, net, url, budget);
            &&& m.result == Ok::<usize, FetchError>(id)
            &&& m.store == store
            &&& m.used == 0
        }),
{
    assert(has_url(store, url));
    let w = index_of_url(store, url);
    assert(0 <= w < store.len() && store[w].origin == url);
    if w < id as int {
        assert(store[w].origin != store[id as int].origin);
        assert(false);
    } else if w > id as int {
        assert(store[id as int].origin != store[w].origin);
        assert(false);
    }
}

/// An unresolved chain in the script: pairwise-distinct URLs, none stored
/// locally, each fetching to a payload that identifies itself and whose
/// parent is the next URL of the chain.
pub open spec fn unresolved_chain(
    store: Seq<CommentV>,
    net: Seq<(Seq<char>, OutcomeV)>,
    urls: Seq<Seq<char>>,
) -> bool {
    &&& forall|i: int| 0 <= i < urls.len() ==> !has_url(store, #[trigger] urls[i])
    &&& forall|i: int, j: int| 0 <= i < j < urls.len() ==> urls[i] != urls[j]
    &&& forall|i: int|
        0 <= i < urls.len() ==> match #[trigger] net_lookup(net, urls[i]) {
            OutcomeV::Fetched(raw) => raw.origin == urls[i] && (i < urls.len() - 1
                ==> raw.parent == Some(urls[i + 1])),
            _ => false,
        }
}

proof fn lemma_chain_walk_exhausts(
    store: Seq<CommentV>,
    net: Seq<(Seq<char>, OutcomeV)>,
    urls: Seq<Seq<char>>,
    budget: nat,
    acc: Seq<RawV>,
)
    requires
        unresolved_chain(store, net, urls),
        urls.len() > budget,
        forall|i: int, j: int|
            0 <= i < acc.len() && 0 <= j < urls.len() ==> (#[trigger] acc[i]).origin != (
            #[trigger] urls[j]),
    ensures
        chain_spec(store, net, urls[0], budget, acc) == (
        ChainOutcome::Failed(FetchError::BudgetExceeded),
        budget,
        ),
    decreases budget,
{
    if budget == 0 {
    } else {
        let raw = match net_lookup(net, urls[0]) {
            OutcomeV::Fetched(raw) => raw,
            _ => arbitrary(),
        };
        assert(match net_lookup(net, urls[0]) {
            OutcomeV::Fetched(r) => r.origin == urls[0] && (0 < urls.len() - 1 ==> r.parent
                == Some(urls[1])),
            _ => false,
        });
        assert(urls.len() >= 2);
        assert(raw.parent == Some(urls[1]));
        let acc2 = acc.push(raw);
        assert(!has_url(store, urls[1]));
        assert(!chain_has_origin(acc2, urls[1])) by {
            if chain_has_origin(acc2, urls[1]) {
                let w = choose|i: int|
                    0 <= i < acc2.len() && (#[trigger] acc2[i]).origin == urls[1];
                if w < acc.len() {
                    assert(acc[w].origin != urls[1]);
                } else {
                    assert(acc2[w] == raw);
                    assert(urls[0] != urls[1]);
                }
            }
        }
        let rest = urls.drop_first();
        assert(unresolved_chain(store, net, rest)) by {
            assert forall|i: int| 0 <= i < rest.len() implies !has_url(
                store,
                #[trigger] rest[i],
            ) by {
                assert(rest[i] == urls[i + 1]);
            }
            assert forall|i: int, j: int| 0 <= i < j < rest.len() implies rest[i] != rest[j] by {
                assert(rest[i] == urls[i + 1]);
                assert(rest[j] == urls[j + 1]);
            }
            assert forall|i: int| 0 <= i < rest.len() implies match #[trigger] net_lookup(
                net,
                rest[i],
            ) {
                OutcomeV::Fetched(r) => r.origin == rest[i] && (i < rest.len() - 1 ==> r.parent
                    == Some(rest[i + 1])),
                _ => false,
            } by {
                assert(rest[i] == urls[i + 1]);
                assert(match net_lookup(net, urls[i + 1]) {
                    OutcomeV::Fetched(r) => r.origin == urls[i + 1] && (i + 1 < urls.len() - 1
                        ==> r.parent == Some(urls[i + 2])),
                    _ => false,
                });
                if i < rest.len() - 1 {
                    assert(rest[i + 1] == urls[i + 2]);
                }
            }
        }
        assert forall|i: int, j: int|
            0 <= i < acc2.len() && 0 <= j < rest.len() implies (#[trigger] acc2[i]).origin != (
        #[trigger] rest[j]) by {
            assert(rest[j] == urls[j + 1]);
            if i < acc.len() {
                assert(acc[i].origin != urls[j + 1]);
            } else {
                assert(acc2[i] == raw);
                assert(urls[0] != urls[j + 1]);
            }
        }
        lemma_chain_walk_exhausts(store, net, rest, (budget - 1) as nat, acc2);
        assert(rest[0] == urls[1]);
        assert(chain_spec(store, net, urls[1], (budget - 1) as nat, acc2) == (
        ChainOutcome::Failed(FetchError::BudgetExceeded),
        (budget - 1) as nat,
        ));
    }
}

/// Budget bounds the fan-out of resolution: with `budget` fetches left, an
/// activity whose resolution chain still requires more than `budget` fetches
/// fails with `BudgetExceeded` after exactly `budget` fetches have been
/// issued, and the store is left unchanged.
pub proof fn lemma_resolution_budget(
    store: Seq<CommentV>,
    net: Seq<(Seq<char>, OutcomeV)>,
    urls: Seq<Seq<char>>,
    budget: nat,
)
    requires
        unresolved_chain(store, net, urls),
        urls.len() > budget,
    ensures
        ({
            let m = resolve_model(store, net, urls[0], budget);
            &&& m.result == Err::<usize, FetchError>(FetchError::BudgetExceeded)
            &&& m.store == store
            &&& m.used == budget
        }),
{
    assert(!has_url(store, urls[0]));
    lemma_chain_walk_exhausts(store, net, urls, budget, Seq::<RawV>::empty());
}

} // verus!
