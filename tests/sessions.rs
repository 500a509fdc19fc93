use better_than_basic::sessions::Sessions;

fn alphanumeric(s: &str) -> bool {
    s.chars().all(|c| c.is_ascii_alphanumeric())
}

#[test]
fn tokens_are_fifty_alphanumeric_characters() {
    let mut sessions = Sessions::new().unwrap();
    let token = sessions.create_session();
    assert_eq!(token.chars().count(), 50);
    assert!(alphanumeric(&token));
}

#[test]
fn issued_token_is_live() {
    let mut sessions = Sessions::new().unwrap();
    let token = sessions.create_session();
    assert!(sessions.check_session(&token));
    assert!(sessions.check_session(&token));
}

#[test]
fn unknown_token_is_not_live() {
    let mut sessions = Sessions::new().unwrap();
    sessions.create_session();
    assert!(!sessions.check_session("not-a-token"));
    assert!(!sessions.check_session(""));
    assert!(!sessions.check_session(&"a".repeat(50)));
}

#[test]
fn capacity_plus_one_evicts_the_oldest() {
    let capacity = 5;
    let mut sessions = Sessions::with_capacity(capacity).unwrap();
    let tokens: Vec<String> = (0..capacity + 1).map(|_| sessions.create_session()).collect();
    assert!(!sessions.check_session(&tokens[0]));
    for t in &tokens[1..] {
        assert!(sessions.check_session(t));
    }
}

#[test]
fn default_capacity_holds_one_hundred() {
    let mut sessions = Sessions::new().unwrap();
    let tokens: Vec<String> = (0..101).map(|_| sessions.create_session()).collect();
    assert!(!sessions.check_session(&tokens[0]));
    for t in &tokens[1..] {
        assert!(sessions.check_session(t));
    }
}

#[test]
fn capacity_two_scenario() {
    let mut sessions = Sessions::with_capacity(2).unwrap();
    let t1 = sessions.create_session();
    let t2 = sessions.create_session();
    let t3 = sessions.create_session();
    assert!(!sessions.check_session(&t1));
    assert!(sessions.check_session(&t2));
    assert!(sessions.check_session(&t3));
}

#[test]
fn checking_refreshes_recency() {
    let mut sessions = Sessions::with_capacity(2).unwrap();
    let t1 = sessions.create_session();
    let t2 = sessions.create_session();
    assert!(sessions.check_session(&t1));
    let t3 = sessions.create_session();
    assert!(!sessions.check_session(&t2));
    assert!(sessions.check_session(&t1));
    assert!(sessions.check_session(&t3));
}

#[test]
fn zero_capacity_keeps_nothing() {
    let mut sessions = Sessions::with_capacity(0).unwrap();
    let t = sessions.create_session();
    assert!(!sessions.check_session(&t));
}

#[test]
fn tokens_do_not_collide() {
    let mut sessions = Sessions::with_capacity(10).unwrap();
    let mut seen = std::collections::HashSet::new();
    for _ in 0..10000 {
        assert!(seen.insert(sessions.create_session()));
    }
}
