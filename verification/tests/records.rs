use fed_receive::aggregates::{AggregateStore, CommentAggregates};
use fed_receive::errors::DbError;
use fed_receive::federation::{FederationLimitedList, FederationLimitedListForm, InstanceId};

#[test]
fn aggregate_read_returns_first_match() {
    let mut store = AggregateStore::new();
    store.insert(CommentAggregates {
        id: 1,
        comment_id: 5,
        score: 1,
        upvotes: 1,
        downvotes: 0,
        published: 1700000000,
    });
    store.insert(CommentAggregates {
        id: 2,
        comment_id: 9,
        score: 0,
        upvotes: 1,
        downvotes: 1,
        published: 1700000010,
    });
    store.insert(CommentAggregates {
        id: 3,
        comment_id: 5,
        score: -1,
        upvotes: 0,
        downvotes: 1,
        published: 1700000020,
    });

    let row = CommentAggregates::read(&store, 5).unwrap();
    assert_eq!(row.id, 1);
    assert_eq!(row.score, 1);
    assert_eq!(row.upvotes, 1);
    assert_eq!(row.downvotes, 0);

    let row = CommentAggregates::read(&store, 9).unwrap();
    assert_eq!(row.score, 0);
    assert_eq!(row.downvotes, 1);

    // With the later state first, a read reports it.
    let mut store2 = AggregateStore::new();
    store2.insert(CommentAggregates {
        id: 3,
        comment_id: 5,
        score: -1,
        upvotes: 0,
        downvotes: 1,
        published: 1700000020,
    });
    let row = CommentAggregates::read(&store2, 5).unwrap();
    assert_eq!(row.score, -1);
    assert_eq!(row.upvotes, 0);
    assert_eq!(row.downvotes, 1);
}

#[test]
fn aggregate_read_missing_fails_not_found() {
    let store = AggregateStore::new();
    assert_eq!(CommentAggregates::read(&store, 1).unwrap_err(), DbError::NotFound);
}

#[test]
fn limited_list_rows_hold_their_fields() {
    let row = FederationLimitedList {
        id: 4,
        instance_id: InstanceId(11),
        published: 1700000000,
        updated: Some(1700000500),
    };
    assert_eq!(row.instance_id, InstanceId(11));
    assert_eq!(row.updated, Some(1700000500));

    let form = FederationLimitedListForm::default();
    assert_eq!(form.instance_id, InstanceId(0));
    assert_eq!(form.updated, None);
}
