use picoml::array::{Array, ArrayImpl, Dim, Shape};
use picoml::error::Error;
use picoml::graph::{Ref, Shared};
use picoml::identity::{Identity, Registry, Session};

#[test]
fn a_session_issues_each_token_once() {
    let mut s = Session::new();
    assert_eq!(s.issued(), 0);
    assert_eq!(s.issue(7), Some(Identity(7)));
    assert_eq!(s.issue(9), Some(Identity(9)));
    assert_eq!(s.issue(7), None);
    assert_eq!(s.issued(), 2);
    assert!(s.holds(Identity(7)));
    assert!(s.holds(Identity(9)));
    assert!(!s.holds(Identity(8)));
}

#[test]
fn fresh_tokens_are_distinct_within_a_session() {
    let mut s = Session::new();
    let mut seen: Vec<Identity> = Vec::new();
    for _ in 0..64 {
        if let Some(id) = s.fresh() {
            assert!(!seen.contains(&id));
            assert!(s.holds(id));
            seen.push(id);
        }
    }
    assert_eq!(s.issued(), seen.len());
    assert!(!seen.is_empty());
}

#[test]
fn fresh_draws_bits_that_issue_would_refuse_afterwards() {
    let mut s = Session::new();
    let id = s.fresh().expect("an empty session refuses no token");
    assert_eq!(s.issue(id.0), None);
    assert_eq!(s.issued(), 1);
}

#[test]
fn a_registry_binds_a_token_to_one_target() {
    let mut r = Registry::new();
    assert_eq!(r.target_of(5), None);
    assert_eq!(r.resolve(5, 0), Ok(true));
    assert_eq!(r.resolve(6, 1), Ok(true));
    assert_eq!(r.resolve(5, 0), Ok(false));
    assert_eq!(r.target_of(5), Some(0));
    assert_eq!(r.target_of(6), Some(1));
    assert_eq!(r.len(), 2);
}

#[test]
fn a_token_met_with_another_target_is_a_violation() {
    let mut r = Registry::new();
    assert_eq!(r.resolve(5, 0), Ok(true));
    assert_eq!(r.resolve(5, 3), Err(Error::IdentityReuseViolation { token: 5 }));
    assert_eq!(r.target_of(5), Some(0));
    assert_eq!(r.len(), 1);
}

#[test]
fn a_shared_reference_lends_its_target_and_names_its_token() {
    let value = Array::new(ArrayImpl::U8(vec![1, 2, 3]), Shape(vec![Dim::Fixed(3)])).unwrap();
    let a = Shared::new(Identity(11), &value);
    let b = a.share();
    assert_eq!(a.borrow(), &value);
    assert_eq!(b.borrow(), &value);
    assert_eq!(a.id(), Identity(11));
    assert_eq!(b.id(), Identity(11));
}

#[test]
fn two_references_to_one_value_come_back_as_one_value_in_a_session() {
    // The graph: two references to one array, under a token of the writing session.
    let value = Array::new(ArrayImpl::U8(vec![1, 2, 3]), Shape(vec![Dim::Fixed(3)])).unwrap();
    let mut writing = Session::new();
    let token = writing.fresh().expect("an empty session refuses no token");
    let first = Shared::new(token, &value);
    let second = first.share();

    // Writing: the target goes out at the first sight of a token only.
    let mut emitted = Session::new();
    let mut stream: Vec<(u128, Option<Array>)> = Vec::new();
    for r in [first, second] {
        let copy = r.borrow().duplicate();
        let token = r.id();
        let payload = emitted.issue(token.0).map(|_| copy);
        stream.push((token.0, payload));
    }
    assert!(stream[0].1.is_some());
    assert!(stream[1].1.is_none());

    // Reading, twice and independently.
    let mut tokens_of_runs: Vec<Vec<Identity>> = Vec::new();
    for _ in 0..2 {
        let mut session = Session::new();
        let mut registry = Registry::new();
        let mut arena: Vec<Array> = Vec::new();
        let mut rebuilt: Vec<(Identity, usize)> = Vec::new();
        let mut local: Vec<(u128, Identity)> = Vec::new();
        for (token, payload) in stream.iter() {
            let slot = match registry.target_of(*token) {
                Some(slot) => slot,
                None => {
                    arena.push(payload.as_ref().expect("first sight carries the target").duplicate());
                    arena.len() - 1
                }
            };
            let is_new = registry.resolve(*token, slot).unwrap();
            let id = if is_new {
                let id = session.fresh().expect("a fresh token");
                local.push((*token, id));
                id
            } else {
                local.iter().find(|(t, _)| t == token).unwrap().1
            };
            rebuilt.push((id, slot));
        }
        assert_eq!(arena.len(), 1);
        let a = Shared::new(rebuilt[0].0, &arena[rebuilt[0].1]);
        let b = Shared::new(rebuilt[1].0, &arena[rebuilt[1].1]);
        assert_eq!(a.borrow(), b.borrow());
        assert_eq!(a.borrow(), &value);
        assert_eq!(rebuilt[0].0, rebuilt[1].0);
        assert_eq!(session.issued(), 1);
        tokens_of_runs.push(rebuilt.iter().map(|(id, _)| *id).collect());
    }
    // Each run is consistent in itself; nothing is asked of the tokens across runs.
    assert_eq!(tokens_of_runs[0][0], tokens_of_runs[0][1]);
    assert_eq!(tokens_of_runs[1][0], tokens_of_runs[1][1]);
}

#[test]
fn references_made_in_one_session_have_tokens_of_their_own() {
    let a = 1u8;
    let b = 2u8;
    let mut session = Session::new();
    let first = Shared::fresh(&mut session, &a).expect("an empty session refuses no token");
    let second = loop {
        if let Some(r) = Shared::fresh(&mut session, &b) {
            break r;
        }
    };
    assert_eq!(first.borrow(), &1);
    assert_eq!(second.borrow(), &2);
    let again = first.share();
    let (one, two, three) = (first.id(), second.id(), again.id());
    assert_ne!(one, two);
    assert_eq!(one, three);
    assert!(session.holds(one));
    assert!(session.holds(two));
    assert_eq!(session.issued(), 2);
}
