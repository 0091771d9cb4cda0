use router_core::conditions::Condition;
use router_core::conditions::I64Selector as TestSelector;
use router_core::conditions::SelectorOrValue;

#[test]
fn test_condition_eq() {
    assert!(Condition::<TestSelector>::Eq([
        SelectorOrValue::Value(1i64.into()),
        SelectorOrValue::Value(1i64.into()),
    ])
    .evaluate(&None, &None));
    assert!(!Condition::<TestSelector>::Eq([
        SelectorOrValue::Value(1i64.into()),
        SelectorOrValue::Value(2i64.into()),
    ])
    .evaluate(&None, &None));
}

#[test]
fn test_condition_eq_selector() {
    assert!(Condition::<TestSelector>::Eq([
        SelectorOrValue::Selector(TestSelector),
        SelectorOrValue::Value(1i64.into()),
    ])
    .evaluate(&Some(1i64), &None));
    assert!(Condition::<TestSelector>::Eq([
        SelectorOrValue::Value(1i64.into()),
        SelectorOrValue::Selector(TestSelector),
    ])
    .evaluate(&Some(1i64), &None));

    assert!(Condition::<TestSelector>::Eq([
        SelectorOrValue::Selector(TestSelector),
        SelectorOrValue::Value(2i64.into()),
    ])
    .evaluate(&None, &Some(2i64)));
    assert!(Condition::<TestSelector>::Eq([
        SelectorOrValue::Value(2i64.into()),
        SelectorOrValue::Selector(TestSelector),
    ])
    .evaluate(&None, &Some(2i64)));

    assert!(!Condition::<TestSelector>::Eq([
        SelectorOrValue::Selector(TestSelector),
        SelectorOrValue::Value(3i64.into()),
    ])
    .evaluate(&None, &None));
    assert!(!Condition::<TestSelector>::Eq([
        SelectorOrValue::Value(3i64.into()),
        SelectorOrValue::Selector(TestSelector),
    ])
    .evaluate(&None, &None));
}

#[test]
fn test_condition_not() {
    assert!(Condition::<TestSelector>::Not(Box::new(Condition::Eq([
        SelectorOrValue::Value(1i64.into()),
        SelectorOrValue::Value(2i64.into()),
    ])))
    .evaluate(&None, &None));

    assert!(!Condition::<TestSelector>::Not(Box::new(Condition::Eq([
        SelectorOrValue::Value(1i64.into()),
        SelectorOrValue::Value(1i64.into()),
    ])))
    .evaluate(&None, &None));
}

#[test]
fn test_condition_all() {
    assert!(Condition::<TestSelector>::All(vec![
        Condition::Eq([
            SelectorOrValue::Value(1i64.into()),
            SelectorOrValue::Value(1i64.into()),
        ]),
        Condition::Eq([
            SelectorOrValue::Value(2i64.into()),
            SelectorOrValue::Value(2i64.into()),
        ])
    ])
    .evaluate(&None, &None));

    assert!(!Condition::<TestSelector>::All(vec![
        Condition::Eq([
            SelectorOrValue::Value(1i64.into()),
            SelectorOrValue::Value(1i64.into()),
        ]),
        Condition::Eq([
            SelectorOrValue::Value(1i64.into()),
            SelectorOrValue::Value(2i64.into()),
        ])
    ])
    .evaluate(&None, &None));
}

#[test]
fn test_condition_any() {
    assert!(Condition::<TestSelector>::Any(vec![
        Condition::Eq([
            SelectorOrValue::Value(1i64.into()),
            SelectorOrValue::Value(1i64.into()),
        ]),
        Condition::Eq([
            SelectorOrValue::Value(1i64.into()),
            SelectorOrValue::Value(2i64.into()),
        ])
    ])
    .evaluate(&None, &None));

    assert!(!Condition::<TestSelector>::All(vec![
        Condition::Eq([
            SelectorOrValue::Value(1i64.into()),
            SelectorOrValue::Value(2i64.into()),
        ]),
        Condition::Eq([
            SelectorOrValue::Value(1i64.into()),
            SelectorOrValue::Value(2i64.into()),
        ])
    ])
    .evaluate(&None, &None));
}

#[test]
fn test_condition_empty_is_true() {
    let c: Condition<TestSelector> = Condition::empty::<TestSelector>();
    assert!(c.evaluate(&None, &None));
    assert!(matches!(c, Condition::True));
}

#[test]
fn test_evaluate_request_partial() {
    // Both sides readable from the request: decided immediately, and a
    // positive comparison caches itself as the static true condition.
    let mut c = Condition::<TestSelector>::Eq([
        SelectorOrValue::Selector(TestSelector),
        SelectorOrValue::Value(7i64.into()),
    ]);
    assert_eq!(c.evaluate_request(&Some(7i64)), Some(true));
    assert!(matches!(c, Condition::True));

    let mut c = Condition::<TestSelector>::Eq([
        SelectorOrValue::Selector(TestSelector),
        SelectorOrValue::Value(7i64.into()),
    ]);
    assert_eq!(c.evaluate_request(&Some(8i64)), Some(false));

    // The selector side is not readable yet: undecided, and the readable
    // side is cached as a constant for the response phase.
    let mut c = Condition::<TestSelector>::Eq([
        SelectorOrValue::Selector(TestSelector),
        SelectorOrValue::Value(7i64.into()),
    ]);
    assert_eq!(c.evaluate_request(&None), None);
    assert!(c.evaluate_response(&Some(7i64)));
    assert!(!c.evaluate_response(&Some(8i64)));
}

#[test]
fn test_evaluate_request_all_any_not() {
    let mut c = Condition::<TestSelector>::All(vec![]);
    assert_eq!(c.evaluate_request(&None), Some(true));

    let mut c = Condition::<TestSelector>::Any(vec![]);
    assert_eq!(c.evaluate_request(&None), Some(true));

    let mut c = Condition::<TestSelector>::Not(Box::new(Condition::Eq([
        SelectorOrValue::Value(1i64.into()),
        SelectorOrValue::Value(2i64.into()),
    ])));
    assert_eq!(c.evaluate_request(&None), Some(true));

    // One undecided branch makes the whole conjunction undecided.
    let mut c = Condition::<TestSelector>::All(vec![
        Condition::Eq([
            SelectorOrValue::Value(1i64.into()),
            SelectorOrValue::Value(1i64.into()),
        ]),
        Condition::Eq([
            SelectorOrValue::Selector(TestSelector),
            SelectorOrValue::Value(2i64.into()),
        ]),
    ]);
    assert_eq!(c.evaluate_request(&None), None);
}

#[test]
fn test_evaluate_response_only() {
    let c = Condition::<TestSelector>::Eq([
        SelectorOrValue::Selector(TestSelector),
        SelectorOrValue::Value(5i64.into()),
    ]);
    assert!(c.evaluate_response(&Some(5i64)));
    assert!(!c.evaluate_response(&Some(6i64)));
    assert!(!c.evaluate_response(&None));
}
