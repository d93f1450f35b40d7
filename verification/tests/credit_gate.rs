use chatstream::credit::{default_price_table, CreditError, PriceTable};

fn b(s: &str) -> Vec<u8> {
    s.as_bytes().to_vec()
}

#[test]
fn approves_when_price_within_balance() {
    let t = default_price_table();
    let a = t.check(b"gpt-4o", 100).unwrap();
    assert_eq!(a.cost, 15);
    assert_eq!(a.remaining, 85);
}

#[test]
fn approves_at_exact_balance() {
    let t = default_price_table();
    let a = t.check(b"gpt-4o", 15).unwrap();
    assert_eq!(a.cost, 15);
    assert_eq!(a.remaining, 0);
}

#[test]
fn rejects_when_price_exceeds_balance() {
    let t = default_price_table();
    let e = t.check(b"gpt-4o", 14).unwrap_err();
    assert_eq!(e, CreditError::InsufficientCredit);
}

#[test]
fn unknown_model_is_invalid_not_free() {
    let t = default_price_table();
    let e = t.check(b"gpt-3.5-turbo", 1_000_000).unwrap_err();
    assert_eq!(e, CreditError::InvalidModel);
    // zero balance changes nothing: still the same hard rejection
    let e = t.check(b"gpt-3.5-turbo", 0).unwrap_err();
    assert_eq!(e, CreditError::InvalidModel);
}

#[test]
fn mini_model_costs_one() {
    let t = default_price_table();
    let a = t.check(b"gpt-4o-mini", 1).unwrap();
    assert_eq!(a.cost, 1);
    assert_eq!(a.remaining, 0);
    let e = t.check(b"gpt-4o-mini", 0).unwrap_err();
    assert_eq!(e, CreditError::InsufficientCredit);
}

#[test]
fn dated_models_share_the_flagship_price() {
    let t = default_price_table();
    assert_eq!(t.check(b"gpt-4o-2024-05-13", 20).unwrap().remaining, 5);
    assert_eq!(t.check(b"gpt-4o-2024-08-06", 20).unwrap().remaining, 5);
}

#[test]
fn injected_table_first_match_wins() {
    let mut t = PriceTable::new();
    t.add(b("m"), 3);
    t.add(b("m"), 9);
    let a = t.check(b"m", 10).unwrap();
    assert_eq!(a.cost, 3);
    assert_eq!(a.remaining, 7);
}

#[test]
fn empty_table_knows_no_model() {
    let t = PriceTable::new();
    assert_eq!(t.check(b"gpt-4o", 100).unwrap_err(), CreditError::InvalidModel);
}
