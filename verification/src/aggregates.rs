use vstd::prelude::*;
use crate::errors::DbError;

verus! {

/// The aggregate counters kept for one comment: its score, the up and down
/// votes behind it, and the publication timestamp (seconds since the UNIX
/// epoch).  The counters themselves are maintained by the store layer;
/// this module only reads them.
#[derive(Clone, Copy, Debug, PartialEq, Eq, Structural)]
pub struct CommentAggregates {
    pub id: i32,
    pub comment_id: usize,
    pub score: i64,
    pub upvotes: i64,
    pub downvotes: i64,
    pub published: i64,
}

/// The first aggregate row for `comment_id`, if any.
pub open spec fn first_aggregate(
    s: Seq<CommentAggregates>,
    comment_id: usize,
) -> Option<CommentAggregates>
    decreases s.len(),
{
    if s.len() == 0 {
        None
    } else if s[0].comment_id == comment_id {
        Some(s[0])
    } else {
        first_aggregate(s.drop_first(), comment_id)
    }
}

/// The local store of aggregate rows.
pub struct AggregateStore {
    rows: Vec<CommentAggregates>,
}

impl View for AggregateStore {
    type V = Seq<CommentAggregates>;

    closed spec fn view(&self) -> Seq<CommentAggregates> {
        self.rows@
    }
}

impl AggregateStore {
    pub fn new() -> (r: AggregateStore)
        ensures
            r@ == Seq::<CommentAggregates>::empty(),
    {
        AggregateStore { rows: Vec::new() }
    }

    /// Append one aggregate row.
    pub fn insert(&mut self, row: CommentAggregates)
        ensures
            final(self)@ == old(self)@.push(row),
    {
        self.rows.push(row);
    }
}

impl CommentAggregates {
    /// Read the first aggregate row of `comment_id`, failing `NotFound`
    /// when the store holds none -- as after the comment's post was
    /// deleted and its rows cascaded away.
    #[verifier::loop_isolation(false)]
    pub fn read(store: &AggregateStore, comment_id: usize) -> (r: Result<
        CommentAggregates,
        DbError,
    >)
        ensures
            r == match first_aggregate(store@, comment_id) {
                Some(a) => Ok::<CommentAggregates, DbError>(a),
                None => Err::<CommentAggregates, DbError>(DbError::NotFound),
            },
    {
        let n = store.rows.len();
        let mut i: usize = 0;
        proof {
            assert(store@.skip(0) =~= store@);
        }
        while i < n
            invariant
                n == store@.len(),
                i <= n,
                first_aggregate(store@, comment_id) == first_aggregate(
                    store@.skip(i as int),
                    comment_id,
                ),
            decreases n - i,
        {
            proof {
                assert(store@.skip(i as int)[0] == store@[i as int]);
            }
            if store.rows[i].comment_id == comment_id {
                return Ok(store.rows[i]);
            }
            proof {
                assert(store@.skip(i as int).drop_first() =~= store@.skip(i as int + 1));
            }
            i = i + 1;
        }
        proof {
            assert(store@.skip(n as int) =~= Seq::<CommentAggregates>::empty());
        }
        Err(DbError::NotFound)
    }
}

} // verus!
