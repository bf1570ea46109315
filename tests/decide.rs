use pluralrules_gen::ast::{Condition, Rule};
use pluralrules_gen::decision::{gen_fn, gen_mid, parse_rule_type, parse_version, GenError, PluralCategory, RuleType};
use pluralrules_gen::eval::{eval_condition, PluralOperands};
use pluralrules_gen::langid::LangId;
use pluralrules_gen::parser::parse_rule;

fn ops_int(x: u64) -> PluralOperands {
    PluralOperands { n: x, n_fractional: false, i: x, v: 0, w: 0, f: 0, t: 0 }
}

/// `whole.5`, with one fraction digit.
fn ops_half(whole: u64) -> PluralOperands {
    PluralOperands { n: whole, n_fractional: true, i: whole, v: 1, w: 1, f: 5, t: 5 }
}

fn cond(text: &str) -> Condition {
    let (_, r): (usize, Rule) = parse_rule(text).unwrap();
    r.condition
}

fn lang(l: &str) -> LangId {
    LangId { language: l.to_string(), script: None, region: None }
}

#[test]
fn integer_one_visible_zero() {
    let c = cond("i = 1 and v = 0");
    assert!(eval_condition(&c, &ops_int(1)));
    assert!(!eval_condition(&c, &ops_int(2)));
    assert!(!eval_condition(&c, &PluralOperands { n: 1, n_fractional: false, i: 1, v: 1, w: 0, f: 0, t: 0 }));
}

#[test]
fn in_excludes_fractions_within_does_not() {
    assert!(!eval_condition(&cond("n in 0..1"), &ops_half(0)));
    assert!(eval_condition(&cond("n within 0..1"), &ops_half(0)));
    assert!(!eval_condition(&cond("n within 0..1"), &ops_half(1)));
    assert!(eval_condition(&cond("n within 0..1"), &ops_int(1)));
    assert!(eval_condition(&cond("n in 0..1"), &ops_int(1)));
    assert!(eval_condition(&cond("n not in 0..1"), &ops_half(0)));
    assert!(!eval_condition(&cond("n not within 0..1"), &ops_half(0)));
}

#[test]
fn modulus_keeps_fraction() {
    let c = cond("n % 10 = 1 and n % 100 != 11");
    assert!(eval_condition(&c, &ops_int(21)));
    assert!(!eval_condition(&c, &ops_int(11)));
    assert!(!eval_condition(&c, &ops_half(21)));
    assert!(eval_condition(&cond("n % 10 within 1..2"), &ops_half(21)));
}

#[test]
fn empty_condition_is_true() {
    assert!(eval_condition(&Condition(vec![]), &ops_int(7)));
}

#[test]
fn is_with_several_values_is_membership() {
    let c = cond("n is 1,3");
    assert!(eval_condition(&c, &ops_int(3)));
    assert!(!eval_condition(&c, &ops_int(2)));
    assert!(eval_condition(&cond("n is not 1,3"), &ops_int(2)));
}

#[test]
fn first_matching_category_wins() {
    let rule = gen_mid(&lang("xx"), vec![(PluralCategory::ONE, cond("n = 1")), (PluralCategory::FEW, cond("n = 2..4"))]);
    assert_eq!(rule.select(&ops_int(3)), PluralCategory::FEW);
    assert_eq!(rule.select(&ops_int(5)), PluralCategory::OTHER);
    assert_eq!(rule.select(&ops_int(1)), PluralCategory::ONE);
}

#[test]
fn overlapping_conditions_take_the_first() {
    let rule = gen_mid(&lang("xx"), vec![(PluralCategory::TWO, cond("n = 2..4")), (PluralCategory::FEW, cond("n = 3"))]);
    assert_eq!(rule.select(&ops_int(3)), PluralCategory::TWO);
}

#[test]
fn empty_chain_is_other() {
    let rule = gen_mid(&lang("ja"), vec![]);
    assert_eq!(rule.select(&ops_int(0)), PluralCategory::OTHER);
    assert_eq!(rule.select(&ops_half(1)), PluralCategory::OTHER);
    assert_eq!(rule.langid.language, 0x616a);
}

#[test]
fn rule_type_labels() {
    assert_eq!(parse_rule_type("cardinal"), Some(RuleType::Cardinal));
    assert_eq!(parse_rule_type("ordinal"), Some(RuleType::Ordinal));
    assert_eq!(parse_rule_type("Cardinal"), None);
    assert_eq!(parse_rule_type(""), None);
}

#[test]
fn version_values() {
    assert_eq!(parse_version("37"), Some(37));
    assert_eq!(parse_version("+5"), Some(5));
    assert_eq!(parse_version("-1"), Some(u64::MAX));
    assert_eq!(parse_version("9223372036854775807"), Some(9223372036854775807));
    assert_eq!(parse_version("9223372036854775808"), None);
    assert_eq!(parse_version("-9223372036854775808"), Some(9223372036854775808));
    assert_eq!(parse_version(""), None);
    assert_eq!(parse_version("-"), None);
    assert_eq!(parse_version("3a"), None);
}

#[test]
fn registry_keeps_order_and_types() {
    let streams = vec![
        ("cardinal".to_string(), vec![gen_mid(&lang("en"), vec![(PluralCategory::ONE, cond("i = 1 and v = 0"))])]),
        ("ordinal".to_string(), vec![gen_mid(&lang("en"), vec![]), gen_mid(&lang("fr"), vec![])]),
    ];
    let reg = gen_fn(streams, "42").unwrap();
    assert_eq!(reg.version, 42);
    assert_eq!(reg.tables.len(), 2);
    assert_eq!(reg.tables[0].0, RuleType::Cardinal);
    assert_eq!(reg.tables[1].0, RuleType::Ordinal);
    assert_eq!(reg.tables[1].1.len(), 2);
    assert_eq!(reg.tables[0].1[0].select(&ops_int(1)), PluralCategory::ONE);
}

#[test]
fn registry_errors() {
    let bad = vec![("plural".to_string(), vec![])];
    assert_eq!(gen_fn(bad, "42").err(), Some(GenError::UnknownRuleType));
    let good = vec![("cardinal".to_string(), vec![])];
    assert_eq!(gen_fn(good, "v42").err(), Some(GenError::InvalidVersion));
    let bad_both = vec![("plural".to_string(), vec![])];
    assert_eq!(gen_fn(bad_both, "x").err(), Some(GenError::InvalidVersion));
}
