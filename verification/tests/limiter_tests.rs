use central_repository::error::CoreError;
use central_repository::limiter::LimitController;

#[test]
fn grants_beyond_the_cap_are_rejected() {
    let mut controller = LimitController::new(2);
    let key = "alice".to_string();
    let _first = controller.new_grant_for_key(&key).expect("first grant");
    let _second = controller.new_grant_for_key(&key).expect("second grant");
    match controller.new_grant_for_key(&key) {
        Err(CoreError::GrantError(k, held)) => {
            assert_eq!(k, "alice");
            assert_eq!(held, 2);
        }
        other => panic!("expected the cap to reject the third grant, got {:?}", other),
    }
}

#[test]
fn releasing_a_grant_reopens_a_slot() {
    let mut controller = LimitController::new(1);
    let key = "alice".to_string();
    let grant = controller.new_grant_for_key(&key).expect("first grant");
    assert!(controller.new_grant_for_key(&key).is_err());
    controller.release_grant(grant);
    assert!(controller.new_grant_for_key(&key).is_ok());
}

#[test]
fn keys_are_limited_independently() {
    let mut controller = LimitController::new(1);
    let alice = "alice".to_string();
    let bob = "bob".to_string();
    let _a = controller.new_grant_for_key(&alice).expect("alice's grant");
    let _b = controller.new_grant_for_key(&bob).expect("bob's grant");
    assert!(controller.new_grant_for_key(&alice).is_err());
    assert!(controller.new_grant_for_key(&bob).is_err());
}

#[test]
fn releasing_the_last_grant_clears_the_entry() {
    let mut controller = LimitController::new(3);
    let key = "alice".to_string();
    let g1 = controller.new_grant_for_key(&key).expect("grant");
    let g2 = controller.new_grant_for_key(&key).expect("grant");
    controller.release_grant(g1);
    controller.release_grant(g2);
    assert!(controller.inner.state.is_empty());
}
