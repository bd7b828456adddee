use shrimp::context::ContextBudget;
use shrimp::context::ContextEngine;

#[test]
fn budget_takes_what_fits() {
    let mut b = ContextBudget::new(10);
    assert!(b.try_add(6));
    assert_eq!(b.remaining(), 4);
    assert!(!b.try_add(5));
    assert_eq!(b.used_tokens, 6);
    assert!(b.try_add(4));
    assert_eq!(b.remaining(), 0);
}

#[test]
fn token_estimate_is_a_quarter_plus_one() {
    assert_eq!(ContextBudget::estimate_tokens(""), 1);
    assert_eq!(ContextBudget::estimate_tokens("abcdefgh"), 3);
}

#[test]
fn engine_keeps_history_and_resets_budget() {
    let mut e = ContextEngine::new(100);
    e.add_history("user", "hi");
    assert_eq!(e.history().len(), 1);
    assert_eq!(e.history()[0].0, "user");
    e.reset_budget();
    assert_eq!(e.budget().used_tokens, 0);
    assert_eq!(e.budget().max_tokens, 100);
}
