use bobaclaw::scope_gate::ScopeBook;

#[test]
fn background_jobs_same_scope_run_sequentially() {
    let mut book = ScopeBook::new();
    let mut ids = Vec::new();
    for _ in 0..3 {
        let (id, cancelled) = book.register("session:1", false);
        assert!(cancelled.is_empty(), "background job must not be cancelled");
        ids.push(id);
    }
    assert_eq!(ids, vec![0, 1, 2]);
    for id in ids {
        book.mark_running("session:1", id);
        assert!(book.is_busy("session:1"));
        book.release("session:1", id);
    }
    assert!(!book.is_busy("session:1"));
    assert_eq!(book.tracked_scopes(), 0);
}

#[test]
fn user_preempts_in_flight_background_does_not() {
    let mut book = ScopeBook::new();
    let (running, cancelled) = book.register("session:1", true);
    assert!(cancelled.is_empty());
    book.mark_running("session:1", running);

    // A background arrival cancels nothing; it queues.
    let (bg, cancelled) = book.register("session:1", false);
    assert!(cancelled.is_empty());
    assert!(book.is_busy("session:1"));

    // A user arrival cancels the running turn, not the queued background entry.
    let (user, cancelled) = book.register("session:1", true);
    assert_eq!(cancelled, vec![running]);
    book.release("session:1", running);

    book.mark_running("session:1", bg);
    book.release("session:1", bg);
    book.mark_running("session:1", user);
    assert!(book.interrupt("session:1") == vec![user]);
    book.release("session:1", user);
    assert!(!book.is_busy("session:1"));
    assert_eq!(book.tracked_scopes(), 0);
}

#[test]
fn newest_user_message_wins_over_queued_ones() {
    let mut book = ScopeBook::new();
    let (first, _) = book.register("session:1", true);
    book.mark_running("session:1", first);
    let (second, cancelled) = book.register("session:1", true);
    assert_eq!(cancelled, vec![first]);
    let (third, cancelled) = book.register("session:1", true);
    // The superseded queued message is cancelled with the running one.
    assert_eq!(cancelled, vec![first, second]);
    book.release("session:1", first);
    book.mark_running("session:1", second);
    book.release("session:1", second);
    book.mark_running("session:1", third);
    book.release("session:1", third);
    assert_eq!(book.tracked_scopes(), 0);
}

#[test]
fn interrupt_cancels_running_turn() {
    let mut book = ScopeBook::new();
    assert!(book.interrupt("session:1").is_empty());
    let (turn, _) = book.register("session:1", false);
    book.mark_running("session:1", turn);
    assert_eq!(book.interrupt("session:1"), vec![turn]);
    assert!(book.interrupt("session:2").is_empty());
}

#[test]
fn different_scopes_are_tracked_apart() {
    let mut book = ScopeBook::new();
    let (a, _) = book.register("session:a", true);
    book.mark_running("session:a", a);
    let (b, cancelled) = book.register("session:b", true);
    assert!(cancelled.is_empty(), "another scope is never preempted");
    book.mark_running("session:b", b);
    assert_eq!(book.tracked_scopes(), 2);
    assert_eq!(book.interrupt("session:a"), vec![a]);
    assert_eq!(book.interrupt("session:b"), vec![b]);
    book.release("session:a", a);
    assert!(!book.is_busy("session:a"));
    assert!(book.is_busy("session:b"));
    book.release("session:b", b);
    assert_eq!(book.tracked_scopes(), 0);
}

#[test]
fn lock_map_cleaned_up_including_abandoned_waiters() {
    let mut book = ScopeBook::new();
    for i in 0..50 {
        let scope = format!("session:{i}");
        let (id, _) = book.register(&scope, i % 2 == 0);
        book.mark_running(&scope, id);
        book.release(&scope, id);
    }
    assert_eq!(book.tracked_scopes(), 0);

    // A waiter that gives up while queued is released without ever running.
    let (turn, _) = book.register("session:x", false);
    book.mark_running("session:x", turn);
    let (waiter, cancelled) = book.register("session:x", true);
    assert_eq!(cancelled, vec![turn]);
    book.release("session:x", waiter);
    assert!(book.is_busy("session:x"));
    assert_eq!(book.interrupt("session:x"), vec![turn]);
    book.release("session:x", turn);
    assert!(!book.is_busy("session:x"));
    assert_eq!(book.tracked_scopes(), 0);
}
