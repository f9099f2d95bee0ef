//! Usage of tokens and money.
use aw_watcher_agent::usage::{
    add_optional, aggregate_model_usage, merge_cost_usage, merge_optional_max, optional_at_least,
    usage_covers, Cost, CostUsage, ModelUsage, TokenUsage,
};
use serde_json::Value;

fn cost(amount: f64) -> Cost {
    Cost { bits: amount.to_bits(), number: Value::from(amount) }
}

fn tokens(input: Option<u64>, output: Option<u64>, total: Option<u64>) -> TokenUsage {
    TokenUsage { input, output, total, ..Default::default() }
}

#[test]
fn token_total_uses_explicit_total_before_summing_parts() {
    let explicit = TokenUsage {
        input: Some(10),
        output: Some(5),
        total: Some(99),
        ..Default::default()
    };
    assert_eq!(explicit.total_or_sum(), Some(99));

    let summed = TokenUsage {
        input: Some(10),
        output: Some(5),
        cache_read: Some(3),
        ..Default::default()
    };
    assert_eq!(summed.total_or_sum(), Some(18));

    assert_eq!(TokenUsage::default().total_or_sum(), None);
}

#[test]
fn token_sum_of_zero_is_no_total_and_large_sums_saturate() {
    assert_eq!(tokens(Some(0), Some(0), None).total_or_sum(), None);
    assert_eq!(tokens(Some(0), None, Some(0)).total_or_sum(), Some(0));
    assert_eq!(tokens(Some(u64::MAX), Some(1), None).total_or_sum(), Some(u64::MAX));
}

#[test]
fn counts_merge_to_the_larger_one() {
    let mut target = TokenUsage {
        input: Some(5),
        output: None,
        cache_read: Some(7),
        cache_write: None,
        total: Some(1),
    };
    target.merge_max(TokenUsage {
        input: Some(3),
        output: Some(2),
        cache_read: None,
        cache_write: None,
        total: Some(9),
    });
    assert_eq!(
        target,
        TokenUsage {
            input: Some(5),
            output: Some(2),
            cache_read: Some(7),
            cache_write: None,
            total: Some(9),
        }
    );
    let mut number = None;
    merge_optional_max(&mut number, None);
    assert_eq!(number, None);
}

#[test]
fn counts_add_up_and_saturate() {
    let mut sum = None;
    add_optional(&mut sum, None);
    assert_eq!(sum, None);
    add_optional(&mut sum, Some(0));
    assert_eq!(sum, Some(0));
    add_optional(&mut sum, Some(u64::MAX - 1));
    add_optional(&mut sum, Some(5));
    assert_eq!(sum, Some(u64::MAX));
    add_optional(&mut sum, None);
    assert_eq!(sum, Some(u64::MAX));
}

#[test]
fn a_count_covers_another_where_it_is_known() {
    assert!(optional_at_least(None, None));
    assert!(optional_at_least(Some(0), None));
    assert!(optional_at_least(Some(3), Some(3)));
    assert!(!optional_at_least(Some(2), Some(3)));
    assert!(!optional_at_least(None, Some(0)));
}

#[test]
fn costs_compare_as_numbers_do() {
    let amounts = [
        f64::NEG_INFINITY,
        -1.5,
        -f64::MIN_POSITIVE,
        -5e-324,
        -0.0,
        0.0,
        5e-324,
        0.1,
        1.0,
        1e300,
        f64::INFINITY,
        f64::NAN,
        -f64::NAN,
    ];
    for a in amounts {
        assert_eq!(cost(a).covers_zero(), a >= 0.0, "{}", a);
        for b in amounts {
            assert_eq!(cost(a).covers(&cost(b)), a >= b, "{} {}", a, b);
            let larger = f64::from_bits(cost(a).max(cost(b)).bits);
            let expected = a.max(b);
            assert!(larger == expected || (larger.is_nan() && expected.is_nan()), "{} {}", a, b);
        }
    }
}

#[test]
fn cost_totals_merge_to_the_larger_one_and_currency_to_the_newer() {
    let mut usage = CostUsage::default();
    merge_cost_usage(
        &mut usage,
        CostUsage { total: Some(cost(0.5)), currency: Some("USD".to_string()) },
    );
    merge_cost_usage(
        &mut usage,
        CostUsage { total: Some(cost(0.25)), currency: Some("EUR".to_string()) },
    );
    merge_cost_usage(&mut usage, CostUsage { total: None, currency: None });
    let total = usage.total.unwrap();
    assert_eq!(f64::from_bits(total.bits), 0.5);
    assert_eq!(total.number, Value::from(0.5));
    assert_eq!(usage.currency.as_deref(), Some("EUR"));
}

#[test]
fn usage_by_model_sums_up_with_effective_totals() {
    let row = |model: &str, tokens: TokenUsage| ModelUsage {
        model: model.to_string(),
        tokens,
        cost: cost(0.0),
    };
    let table = vec![
        row("a", tokens(Some(10), None, None)),
        row("b", tokens(Some(1), Some(2), Some(50))),
        row("c", TokenUsage::default()),
    ];
    assert_eq!(aggregate_model_usage(&table), tokens(Some(11), Some(2), Some(60)));
    assert_eq!(aggregate_model_usage(&vec![]), TokenUsage::default());
}

#[test]
fn usage_covers_a_baseline_in_every_count_and_in_cost() {
    let candidate = tokens(Some(10), Some(5), None);
    assert!(usage_covers(&candidate, &cost(0.0), &TokenUsage::default(), &None));
    assert!(!usage_covers(&candidate, &cost(-0.1), &TokenUsage::default(), &None));
    assert!(usage_covers(&candidate, &cost(0.1), &tokens(Some(10), None, Some(15)), &Some(cost(0.1))));
    assert!(!usage_covers(&candidate, &cost(0.1), &tokens(None, None, Some(16)), &None));
    assert!(!usage_covers(&candidate, &cost(0.1), &tokens(Some(11), None, Some(5)), &None));
    assert!(!usage_covers(&candidate, &cost(0.1), &TokenUsage::default(), &Some(cost(0.2))));
    assert!(!usage_covers(
        &candidate,
        &cost(0.1),
        &TokenUsage { cache_write: Some(0), ..Default::default() },
        &None
    ));
}
