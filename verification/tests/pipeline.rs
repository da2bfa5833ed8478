use fed_receive::activity::{Activity, ActivityPayload, CrudOp, RemoveComment, UpdateComment};
use fed_receive::budget::RequestBudget;
use fed_receive::errors::{FetchError, ReceiveError};
use fed_receive::resolve::{resolve_or_fetch, FetchOutcome, RawComment, ScriptedFetcher};
use fed_receive::store::LocalStore;

fn url(s: &str) -> String {
    String::from(s)
}

fn seed_comment(store: &mut LocalStore, origin: &str, content: &str, creator: u64) -> usize {
    store.create_or_get(&url(origin), &url(content), creator, None)
}

fn remove_activity(actor: &str, object: &str) -> Activity {
    Activity {
        id: url("https://a.example/activities/remove/1"),
        payload: ActivityPayload::Remove(RemoveComment {
            actor: url(actor),
            to: vec![url("https://www.w3.org/ns/activitystreams#Public")],
            object: url(object),
            cc: vec![],
        }),
    }
}

#[test]
fn remove_marks_removed_and_is_idempotent() {
    let mut store = LocalStore::new();
    let id = seed_comment(&mut store, "https://a.example/comment/1", "hello", 10);
    let mut budget = RequestBudget::new(3);
    let net = ScriptedFetcher::new();

    let act = remove_activity("https://a.example/u/mod", "https://a.example/comment/1");
    let applied = act.receive(&mut store, &mut budget, &net).unwrap();
    assert_eq!(applied.comment_id, id);
    assert!(store.read(id).removed);
    assert_eq!(budget.remaining(), 3);

    // Redelivering the identical activity succeeds again and changes nothing.
    let applied2 = act.receive(&mut store, &mut budget, &net).unwrap();
    assert_eq!(applied2.comment_id, id);
    assert!(store.read(id).removed);
    assert_eq!(store.len(), 1);
}

#[test]
fn remove_unknown_fails_object_not_found() {
    let mut store = LocalStore::new();
    let mut budget = RequestBudget::new(3);
    let net = ScriptedFetcher::new();

    let act = remove_activity("https://a.example/u/mod", "https://a.example/comment/404");
    let r = act.receive(&mut store, &mut budget, &net);
    assert_eq!(r.unwrap_err(), ReceiveError::ObjectNotFound);
    // No row is created as a side effect: removal never fetches on a miss.
    assert_eq!(store.len(), 0);
    assert_eq!(budget.remaining(), 3);
}

#[test]
fn remove_foreign_domain_rejected() {
    let mut store = LocalStore::new();
    seed_comment(&mut store, "https://b.example/comment/1", "hello", 10);
    let mut budget = RequestBudget::new(3);
    let net = ScriptedFetcher::new();

    let act = remove_activity("https://a.example/u/mod", "https://b.example/comment/1");
    let r = act.receive(&mut store, &mut budget, &net);
    assert_eq!(r.unwrap_err(), ReceiveError::DomainMismatch);
    assert!(!store.read(0).removed);
}

#[test]
fn update_domain_mismatch_store_unchanged() {
    let mut store = LocalStore::new();
    seed_comment(&mut store, "https://a.example/comment/1", "hello", 10);
    let mut budget = RequestBudget::new(3);
    let net = ScriptedFetcher::new();

    // Actor authority a.example; embedded object claims origin b.example.
    let act = Activity {
        id: url("https://a.example/activities/update/1"),
        payload: ActivityPayload::Update(UpdateComment {
            actor: url("https://a.example/u/eve"),
            to: vec![],
            object: RawComment {
                origin: url("https://b.example/comment/9"),
                content: url("forged"),
                creator: 66,
                parent: None,
            },
        }),
    };
    let before_len = store.len();
    let r = act.receive(&mut store, &mut budget, &net);
    assert_eq!(r.unwrap_err(), ReceiveError::DomainMismatch);
    assert_eq!(store.len(), before_len);
    assert_eq!(store.read(0).content, "hello");
    assert_eq!(budget.remaining(), 3);
}

#[test]
fn update_activity_id_mismatch_rejected() {
    let mut store = LocalStore::new();
    let mut budget = RequestBudget::new(3);
    let net = ScriptedFetcher::new();

    // The activity's own id lives on another authority than the actor.
    let act = Activity {
        id: url("https://c.example/activities/update/1"),
        payload: ActivityPayload::Update(UpdateComment {
            actor: url("https://a.example/u/alice"),
            to: vec![],
            object: RawComment {
                origin: url("https://a.example/comment/1"),
                content: url("new text"),
                creator: 10,
                parent: None,
            },
        }),
    };
    let r = act.receive(&mut store, &mut budget, &net);
    assert_eq!(r.unwrap_err(), ReceiveError::DomainMismatch);
    assert_eq!(store.len(), 0);
}

#[test]
fn update_upserts_and_fetches_missing_parent() {
    let mut store = LocalStore::new();
    let mut budget = RequestBudget::new(5);
    let mut net = ScriptedFetcher::new();
    net.script(
        url("https://a.example/comment/parent"),
        FetchOutcome::Fetched(RawComment {
            origin: url("https://a.example/comment/parent"),
            content: url("parent text"),
            creator: 42,
            parent: None,
        }),
    );

    let act = Activity {
        id: url("https://a.example/activities/update/7"),
        payload: ActivityPayload::Update(UpdateComment {
            actor: url("https://a.example/u/alice"),
            to: vec![],
            object: RawComment {
                origin: url("https://a.example/comment/child"),
                content: url("edited text"),
                creator: 10,
                parent: Some(url("https://a.example/comment/parent")),
            },
        }),
    };
    let applied = act.receive(&mut store, &mut budget, &net).unwrap();
    assert_eq!(store.len(), 2);
    assert_eq!(budget.remaining(), 4);
    let child = store.read(applied.comment_id);
    assert_eq!(child.content, "edited text");
    assert_eq!(child.parent, Some(0));
    // The thread participants are the ancestors' creators.
    assert_eq!(applied.notification.recipients, vec![42]);
    assert_eq!(applied.notification.op, CrudOp::EditComment);
}

#[test]
fn update_existing_comment_keeps_removed_flag() {
    let mut store = LocalStore::new();
    let id = seed_comment(&mut store, "https://a.example/comment/1", "hello", 10);
    store.update_removed(id, true);
    let mut budget = RequestBudget::new(3);
    let net = ScriptedFetcher::new();

    let act = Activity {
        id: url("https://a.example/activities/update/2"),
        payload: ActivityPayload::Update(UpdateComment {
            actor: url("https://a.example/u/alice"),
            to: vec![],
            object: RawComment {
                origin: url("https://a.example/comment/1"),
                content: url("revised"),
                creator: 10,
                parent: None,
            },
        }),
    };
    let applied = act.receive(&mut store, &mut budget, &net).unwrap();
    assert_eq!(applied.comment_id, id);
    assert_eq!(store.len(), 1);
    assert_eq!(store.read(id).content, "revised");
    assert!(store.read(id).removed);
}

#[test]
fn unsupported_kind_is_rejected_without_effect() {
    let mut store = LocalStore::new();
    seed_comment(&mut store, "https://a.example/comment/1", "hello", 10);
    let mut budget = RequestBudget::new(3);
    let net = ScriptedFetcher::new();

    let act = Activity {
        id: url("https://a.example/activities/like/1"),
        payload: ActivityPayload::Unrecognized,
    };
    let r = act.receive(&mut store, &mut budget, &net);
    assert_eq!(r.unwrap_err(), ReceiveError::UnsupportedActivity);
    assert_eq!(store.len(), 1);
    assert_eq!(budget.remaining(), 3);
}

#[test]
fn remove_notifies_thread_participants() {
    let mut store = LocalStore::new();
    let root = store.create_or_get(&url("https://a.example/comment/root"), &url("top"), 7, None);
    let mid = store.create_or_get(
        &url("https://a.example/comment/mid"),
        &url("middle"),
        8,
        Some(root),
    );
    store.create_or_get(&url("https://a.example/comment/leaf"), &url("leaf"), 9, Some(mid));

    let mut budget = RequestBudget::new(3);
    let net = ScriptedFetcher::new();
    let act = remove_activity("https://a.example/u/mod", "https://a.example/comment/leaf");
    let applied = act.receive(&mut store, &mut budget, &net).unwrap();
    // Nearest ancestor first: the mid comment's creator, then the root's.
    assert_eq!(applied.notification.recipients, vec![8, 7]);
}

#[test]
fn resolution_converges_for_duplicate_requests() {
    let mut store = LocalStore::new();
    let mut net = ScriptedFetcher::new();
    let target = url("https://b.example/comment/77");
    net.script(
        target.clone(),
        FetchOutcome::Fetched(RawComment {
            origin: target.clone(),
            content: url("body"),
            creator: 7,
            parent: None,
        }),
    );

    let mut budget1 = RequestBudget::new(2);
    let mut budget2 = RequestBudget::new(2);
    let id1 = resolve_or_fetch(&mut store, &mut budget1, &target, &net).unwrap();
    let id2 = resolve_or_fetch(&mut store, &mut budget2, &target, &net).unwrap();
    // Both requests observe the same local identifier and one stored row.
    assert_eq!(id1, id2);
    assert_eq!(store.len(), 1);
    // The second request was answered from the store without a fetch.
    assert_eq!(budget1.remaining(), 1);
    assert_eq!(budget2.remaining(), 2);
}

#[test]
fn budget_exhaustion_after_exactly_n_fetches() {
    let mut store = LocalStore::new();
    let mut net = ScriptedFetcher::new();
    let u0 = url("https://b.example/comment/c0");
    let u1 = url("https://b.example/comment/c1");
    let u2 = url("https://b.example/comment/c2");
    net.script(
        u0.clone(),
        FetchOutcome::Fetched(RawComment {
            origin: u0.clone(),
            content: url("c0"),
            creator: 1,
            parent: Some(u1.clone()),
        }),
    );
    net.script(
        u1.clone(),
        FetchOutcome::Fetched(RawComment {
            origin: u1.clone(),
            content: url("c1"),
            creator: 2,
            parent: Some(u2.clone()),
        }),
    );
    net.script(
        u2.clone(),
        FetchOutcome::Fetched(RawComment {
            origin: u2.clone(),
            content: url("c2"),
            creator: 3,
            parent: None,
        }),
    );

    // The chain requires three fetches; the budget allows two.
    let mut budget = RequestBudget::new(2);
    let r = resolve_or_fetch(&mut store, &mut budget, &u0, &net);
    assert_eq!(r.unwrap_err(), FetchError::BudgetExceeded);
    // Exactly two fetches succeeded before the failure.
    assert_eq!(budget.remaining(), 0);
    // No partial write is observable.
    assert_eq!(store.len(), 0);

    // With one more unit the same chain resolves completely.
    let mut budget3 = RequestBudget::new(3);
    let id = resolve_or_fetch(&mut store, &mut budget3, &u0, &net).unwrap();
    assert_eq!(budget3.remaining(), 0);
    assert_eq!(store.len(), 3);
    assert_eq!(store.read(id).origin, "https://b.example/comment/c0");
}

#[test]
fn resolution_failures_propagate() {
    let mut store = LocalStore::new();
    let mut net = ScriptedFetcher::new();
    net.script(url("https://b.example/missing"), FetchOutcome::NotFound);
    net.script(url("https://b.example/bad"), FetchOutcome::ParseError);
    net.script(
        url("https://b.example/liar"),
        FetchOutcome::Fetched(RawComment {
            origin: url("https://b.example/other"),
            content: url("x"),
            creator: 1,
            parent: None,
        }),
    );

    let mut budget = RequestBudget::new(9);
    let r = resolve_or_fetch(&mut store, &mut budget, &url("https://b.example/missing"), &net);
    assert_eq!(r.unwrap_err(), FetchError::NotFound);
    let r = resolve_or_fetch(&mut store, &mut budget, &url("https://b.example/bad"), &net);
    assert_eq!(r.unwrap_err(), FetchError::ParseError);
    // A payload that does not identify itself as the requested URL is malformed.
    let r = resolve_or_fetch(&mut store, &mut budget, &url("https://b.example/liar"), &net);
    assert_eq!(r.unwrap_err(), FetchError::ParseError);
    // An unscripted URL behaves as a transport failure.
    let r = resolve_or_fetch(&mut store, &mut budget, &url("https://b.example/unknown"), &net);
    assert_eq!(r.unwrap_err(), FetchError::NetworkError);
    assert_eq!(store.len(), 0);
}

#[test]
fn scenario_redeliver_remove_of_comment_42() {
    let mut store = LocalStore::new();
    for i in 0..43usize {
        let origin = format!("https://a.example/comment/{}", i);
        let content = format!("comment number {}", i);
        let id = store.create_or_get(&origin, &content, 100 + i as u64, None);
        assert_eq!(id, i);
    }
    store.update_removed(42, true);

    let mut budget = RequestBudget::new(3);
    let net = ScriptedFetcher::new();
    let act = remove_activity("https://a.example/u/mod", "https://a.example/comment/42");
    let applied = act.receive(&mut store, &mut budget, &net).unwrap();
    // The flag stays set, no error is raised, and exactly one notification
    // event is produced for the delivery.
    assert_eq!(applied.comment_id, 42);
    assert!(store.read(42).removed);
    assert_eq!(applied.notification.comment_id, 42);
    assert_eq!(applied.notification.op, CrudOp::EditComment);
    assert_eq!(store.len(), 43);
}
