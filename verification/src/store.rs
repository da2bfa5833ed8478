use vstd::prelude::*;
use vstd::pervasive::VecAdditionalExecFns;

verus! {

/// Mathematical view of one locally stored comment row.
pub struct CommentV {
    pub id: usize,
    pub origin: Seq<char>,
    pub content: Seq<char>,
    pub creator: u64,
    pub removed: bool,
    pub parent: Option<usize>,
}

/// A locally stored comment.  `origin` is the remote URL under which the
/// comment is known across the federation; it acts as a globally unique
/// identity key.  `parent` is the local id of the parent comment in the
/// thread tree, if any.
pub struct Comment {
    pub id: usize,
    pub origin: String,
    pub content: String,
    pub creator: u64,
    pub removed: bool,
    pub parent: Option<usize>,
}

impl View for Comment {
    type V = CommentV;

    open spec fn view(&self) -> CommentV {
        CommentV {
            id: self.id,
            origin: self.origin@,
            content: self.content@,
            creator: self.creator,
            removed: self.removed,
            parent: self.parent,
        }
    }
}

/// Whether some row of `s` carries the remote URL `url`.
pub open spec fn has_url(s: Seq<CommentV>, url: Seq<char>) -> bool {
    exists|i: int| 0 <= i < s.len() && (#[trigger] s[i]).origin == url
}

/// The index of the row carrying `url` (meaningful when `has_url` holds and
/// rows carry distinct URLs).
pub open spec fn index_of_url(s: Seq<CommentV>, url: Seq<char>) -> int {
    choose|i: int| 0 <= i < s.len() && (#[trigger] s[i]).origin == url
}

/// Well-formedness of the comment store: every row's id is its position,
/// every parent link points strictly earlier (so threads form a forest),
/// and remote URLs are unique.
pub open spec fn store_wf(s: Seq<CommentV>) -> bool {
    &&& forall|i: int|
        0 <= i < s.len() ==> {
            &&& (#[trigger] s[i]).id as int == i
            &&& match s[i].parent {
                Some(p) => (p as int) < i,
                None => true,
            }
        }
    &&& forall|i: int, j: int|
        0 <= i < j < s.len() ==> (#[trigger] s[i]).origin != (#[trigger] s[j]).origin
}

/// Create-or-get: the row for `origin` if one exists, else a fresh row at
/// the end.  Yields the resulting store and the id of the row for `origin`.
pub open spec fn spec_insert(
    s: Seq<CommentV>,
    origin: Seq<char>,
    content: Seq<char>,
    creator: u64,
    parent: Option<usize>,
) -> (Seq<CommentV>, usize) {
    if has_url(s, origin) {
        (s, index_of_url(s, origin) as usize)
    } else {
        (
            s.push(
                CommentV {
                    id: s.len() as usize,
                    origin,
                    content,
                    creator,
                    removed: false,
                    parent,
                },
            ),
            s.len() as usize,
        )
    }
}

/// Upsert: replace the content of the existing row for `origin`, keeping its
/// other fields, or insert a fresh row when none exists.
pub open spec fn spec_upsert(
    s: Seq<CommentV>,
    origin: Seq<char>,
    content: Seq<char>,
    creator: u64,
    parent: Option<usize>,
) -> (Seq<CommentV>, usize) {
    if has_url(s, origin) {
        let i = index_of_url(s, origin);
        (
            s.update(
                i,
                CommentV {
                    id: s[i].id,
                    origin: s[i].origin,
                    content,
                    creator: s[i].creator,
                    removed: s[i].removed,
                    parent: s[i].parent,
                },
            ),
            i as usize,
        )
    } else {
        spec_insert(s, origin, content, creator, parent)
    }
}

/// The local actor ids with an interest in the thread of comment `i`: the
/// creators of its ancestor chain, nearest first.
pub open spec fn thread_participants(s: Seq<CommentV>, i: int) -> Seq<u64>
    decreases i,
{
    if 0 <= i < s.len() {
        match s[i].parent {
            Some(p) => if (p as int) < i {
                seq![s[p as int].creator] + thread_participants(s, p as int)
            } else {
                seq![]
            },
            None => seq![],
        }
    } else {
        seq![]
    }
}

/// The local comment store.  Rows are only ever appended or updated in
/// place, so local ids are stable; a remote URL maps to at most one row.
pub struct LocalStore {
    comments: Vec<Comment>,
}

impl View for LocalStore {
    type V = Seq<CommentV>;

    closed spec fn view(&self) -> Seq<CommentV> {
        self.comments@.map_values(|c: Comment| c@)
    }
}

impl LocalStore {
    pub open spec fn wf(&self) -> bool {
        store_wf(self@)
    }

    pub fn new() -> (r: LocalStore)
        ensures
            r.wf(),
            r@ == Seq::<CommentV>::empty(),
    {
        let r = LocalStore { comments: Vec::new() };
        proof {
            assert(r@ =~= Seq::<CommentV>::empty());
        }
        r
    }

    pub fn len(&self) -> (n: usize)
        ensures
            n == self@.len(),
    {
        self.comments.len()
    }

    /// Read the row with local id `id`.
    pub fn read(&self, id: usize) -> (r: &Comment)
        requires
            (id as int) < self@.len(),
        ensures
            r@ == self@[id as int],
    {
        let r = &self.comments[id];
        proof {
            assert(self@[id as int] == self.comments@[id as int]@);
        }
        r
    }

    /// Look a remote URL up in the store; `None` when it is unknown locally.
    pub fn find_by_url(&self, url: &String) -> (r: Option<usize>)
        requires
            self.wf(),
        ensures
            match r {
                Some(i) => {
                    &&& (i as int) < self@.len()
                    &&& self@[i as int].origin == url@
                    &&& has_url(self@, url@)
                    &&& i as int == index_of_url(self@, url@)
                },
                None => !has_url(self@, url@),
            },
    {
        let n = self.comments.len();
        let mut i: usize = 0;
        while i < n
            invariant
                self.wf(),
                n == self@.len(),
                i <= n,
                forall|j: int| 0 <= j < i ==> (#[trigger] self@[j]).origin != url@,
            decreases n - i,
        {
            if self.comments[i].origin == *url {
                proof {
                    assert(self@[i as int] == self.comments@[i as int]@);
                    assert(self@[i as int].origin == url@);
                    assert(has_url(self@, url@));
                    let w = index_of_url(self@, url@);
                    assert(0 <= w < self@.len() && self@[w].origin == url@);
                    if w < i as int {
                        assert(self@[w].origin != self@[i as int].origin);
                        assert(false);
                    } else if w > i as int {
                        assert(self@[i as int].origin != self@[w].origin);
                        assert(false);
                    }
                }
                return Some(i);
            }
            proof {
                assert(self@[i as int] == self.comments@[i as int]@);
            }
            i = i + 1;
        }
        None
    }

    /// Insert a row for `origin`, or return the existing one: the
    /// create-or-get step of resolution.  When a row for the URL is already
    /// present -- for instance because a concurrent resolution raced this one
    /// to the uniqueness constraint -- the store is left unchanged and the
    /// winning row's id is returned.
    pub fn create_or_get(
        &mut self,
        origin: &String,
        content: &String,
        creator: u64,
        parent: Option<usize>,
    ) -> (r: usize)
        requires
            old(self).wf(),
            old(self)@.len() < usize::MAX,
            match parent {
                Some(p) => (p as int) < old(self)@.len(),
                None => true,
            },
        ensures
            final(self).wf(),
            final(self)@ == spec_insert(old(self)@, origin@, content@, creator, parent).0,
            r == spec_insert(old(self)@, origin@, content@, creator, parent).1,
            (r as int) < final(self)@.len(),
            final(self)@[r as int].origin == origin@,
    {
        match self.find_by_url(origin) {
            Some(i) => i,
            None => {
                let id = self.comments.len();
                let c = Comment {
                    id,
                    origin: origin.clone(),
                    content: content.clone(),
                    creator,
                    removed: false,
                    parent,
                };
                let ghost prev = self@;
                let ghost cv = c@;
                self.comments.push(c);
                proof {
                    assert(self@ =~= prev.push(cv));
                    assert(cv.origin == origin@);
                    let s2 = self@;
                    assert forall|a: int, b: int| 0 <= a < b < s2.len() implies (
                    #[trigger] s2[a]).origin != (#[trigger] s2[b]).origin by {
                        if b == s2.len() - 1 {
                            assert(s2[a] == prev[a]);
                            assert(!(0 <= a < prev.len() && prev[a].origin == origin@));
                        } else {
                            assert(s2[a] == prev[a]);
                            assert(s2[b] == prev[b]);
                        }
                    }
                    assert(store_wf(s2));
                    assert(s2[id as int].origin == origin@);
                }
                id
            },
        }
    }

    /// Replace the content of the row for `origin`, or insert it when the URL
    /// is unknown locally.
    pub fn upsert(
        &mut self,
        origin: &String,
        content: &String,
        creator: u64,
        parent: Option<usize>,
    ) -> (r: usize)
        requires
            old(self).wf(),
            old(self)@.len() < usize::MAX,
            match parent {
                Some(p) => (p as int) < old(self)@.len(),
                None => true,
            },
        ensures
            final(self).wf(),
            final(self)@ == spec_upsert(old(self)@, origin@, content@, creator, parent).0,
            r == spec_upsert(old(self)@, origin@, content@, creator, parent).1,
            (r as int) < final(self)@.len(),
            final(self)@[r as int].origin == origin@,
            final(self)@[r as int].content == content@,
    {
        match self.find_by_url(origin) {
            Some(i) => {
                let ghost prev = self@;
                let c = &self.comments[i];
                let updated = Comment {
                    id: c.id,
                    origin: c.origin.clone(),
                    content: content.clone(),
                    creator: c.creator,
                    removed: c.removed,
                    parent: c.parent,
                };
                proof {
                    assert(prev[i as int] == self.comments@[i as int]@);
                    assert(updated@ == CommentV {
                        id: prev[i as int].id,
                        origin: prev[i as int].origin,
                        content: content@,
                        creator: prev[i as int].creator,
                        removed: prev[i as int].removed,
                        parent: prev[i as int].parent,
                    });
                }
                let ghost uv = updated@;
                self.comments.set(i, updated);
                proof {
                    assert(self@ =~= prev.update(i as int, uv));
                    let s2 = self@;
                    assert forall|a: int, b: int| 0 <= a < b < s2.len() implies (
                    #[trigger] s2[a]).origin != (#[trigger] s2[b]).origin by {
                        assert(prev[a].origin != prev[b].origin);
                        assert(s2[a].origin == prev[a].origin);
                        assert(s2[b].origin == prev[b].origin);
                    }
                    assert(store_wf(s2));
                }
                i
            },
            None => self.create_or_get(origin, content, creator, parent),
        }
    }

    /// Set or clear the removed flag of the row with local id `id`, leaving
    /// every other field and row unchanged.  Setting a flag that is already
    /// set is a no-op on the observable state.
    pub fn update_removed(&mut self, id: usize, removed: bool)
        requires
            old(self).wf(),
            (id as int) < old(self)@.len(),
        ensures
            final(self).wf(),
            final(self)@ == old(self)@.update(
                id as int,
                CommentV {
                    id: old(self)@[id as int].id,
                    origin: old(self)@[id as int].origin,
                    content: old(self)@[id as int].content,
                    creator: old(self)@[id as int].creator,
                    removed,
                    parent: old(self)@[id as int].parent,
                },
            ),
    {
        let ghost prev = self@;
        let c = &self.comments[id];
        let updated = Comment {
            id: c.id,
            origin: c.origin.clone(),
            content: c.content.clone(),
            creator: c.creator,
            removed,
            parent: c.parent,
        };
        proof {
            assert(prev[id as int] == self.comments@[id as int]@);
        }
        let ghost uv = updated@;
        self.comments.set(id, updated);
        proof {
            assert(self@ =~= prev.update(id as int, uv));
            let s2 = self@;
            assert forall|a: int, b: int| 0 <= a < b < s2.len() implies (#[trigger] s2[a]).origin
                != (#[trigger] s2[b]).origin by {
                assert(prev[a].origin != prev[b].origin);
                assert(s2[a].origin == prev[a].origin);
                assert(s2[b].origin == prev[b].origin);
            }
            assert(store_wf(s2));
        }
    }

    /// The ids of the local actors with an interest in the thread of comment
    /// `id`: the creators of its ancestors, nearest first.
    pub fn notif_recipients(&self, id: usize) -> (r: Vec<u64>)
        requires
            self.wf(),
            (id as int) < self@.len(),
        ensures
            r@ == thread_participants(self@, id as int),
    {
        let mut out: Vec<u64> = Vec::new();
        let mut cur: usize = id;
        loop
            invariant
                self.wf(),
                (cur as int) < self@.len(),
                out@ + thread_participants(self@, cur as int) == thread_participants(
                    self@,
                    id as int,
                ),
            decreases cur,
        {
            proof {
                assert(self@[cur as int] == self.comments@[cur as int]@);
            }
            match self.comments[cur].parent {
                None => {
                    proof {
                        assert(thread_participants(self@, cur as int) =~= Seq::<u64>::empty());
                        assert(out@ + Seq::<u64>::empty() =~= out@);
                    }
                    return out;
                },
                Some(p) => {
                    let ghost prev_out = out@;
                    let ghost prev_cur = cur as int;
                    proof {
                        assert(self@[p as int] == self.comments@[p as int]@);
                    }
                    out.push(self.comments[p].creator);
                    proof {
                        let c = self@[p as int].creator;
                        assert(thread_participants(self@, prev_cur) == seq![c]
                            + thread_participants(self@, p as int));
                        assert(prev_out + (seq![c] + thread_participants(self@, p as int)) =~= (
                        prev_out + seq![c]) + thread_participants(self@, p as int));
                        assert(out@ =~= prev_out + seq![c]);
                    }
                    cur = p;
                },
            }
        }
    }
}

/// Create-or-get converges under duplicate insertion: once one resolution
/// has inserted the row for a URL, a later insertion attempt for the same
/// URL -- the loser of a concurrent race, whatever payload it fetched --
/// leaves the store unchanged and observes the same local id.
pub proof fn lemma_create_or_get_converges(
    s: Seq<CommentV>,
    origin: Seq<char>,
    content1: Seq<char>,
    creator1: u64,
    parent1: Option<usize>,
    content2: Seq<char>,
    creator2: u64,
    parent2: Option<usize>,
)
    requires
        store_wf(s),
        s.len() < usize::MAX,
    ensures
        ({
            let (s1, id1) = spec_insert(s, origin, content1, creator1, parent1);
            let (s2, id2) = spec_insert(s1, origin, content2, creator2, parent2);
            s2 == s1 && id2 == id1
        }),
{
    let (s1, id1) = spec_insert(s, origin, content1, creator1, parent1);
    if has_url(s, origin) {
        assert(s1 == s);
    } else {
        assert(s1 == s.push(
            CommentV {
                id: s.len() as usize,
                origin,
                content: content1,
                creator: creator1,
                removed: false,
                parent: parent1,
            },
        ));
        assert(s1[s.len() as int].origin == origin);
        assert(has_url(s1, origin));
        let w = index_of_url(s1, origin);
        assert(0 <= w < s1.len() && s1[w].origin == origin);
        if w < s.len() {
            assert(s[w] == s1[w]);
            assert(has_url(s, origin));
            assert(false);
        }
        assert(w == s.len() as int);
        assert(index_of_url(s1, origin) as usize == id1);
    }
}

} // verus!
