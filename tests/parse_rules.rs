use pluralrules_gen::ast::{
    AndCondition, Condition, DecimalValue, Expression, Modulo, Operand, Operator, Range,
    RangeList, RangeListItem, Relation, SampleRange, Value,
};
use pluralrules_gen::parser::{parse_condition, parse_rule, SyntaxError};

fn rel(operand: Operand, modulus: Option<usize>, operator: Operator, items: Vec<RangeListItem>) -> Relation {
    Relation {
        expression: Expression { operand, modulus: modulus.map(|m| Modulo(Value(m))) },
        operator,
        range_list: RangeList(items),
    }
}

fn range(a: usize, b: usize) -> RangeListItem {
    RangeListItem::Range(Range { lower_val: Value(a), upper_val: Value(b) })
}

#[test]
fn empty_text_is_always_true() {
    assert_eq!(parse_condition(""), Ok((0, Condition(vec![]))));
    assert_eq!(parse_condition("   "), Ok((3, Condition(vec![]))));
}

#[test]
fn sample_only_text_is_always_true() {
    assert_eq!(parse_condition("@integer 1, 2"), Ok((13, Condition(vec![]))));
    let (end, rule) = parse_rule("@integer 1, 2").unwrap();
    assert_eq!(end, 13);
    assert_eq!(rule.condition, Condition(vec![]));
    assert_eq!(rule.samples, None);
}

#[test]
fn and_condition_structure() {
    let (end, c) = parse_condition("i = 1 and v = 0").unwrap();
    assert_eq!(end, 15);
    assert_eq!(
        c,
        Condition(vec![AndCondition(vec![
            rel(Operand::I, None, Operator::EQ, vec![RangeListItem::Value(Value(1))]),
            rel(Operand::V, None, Operator::EQ, vec![RangeListItem::Value(Value(0))]),
        ])])
    );
}

#[test]
fn modulus_ranges_and_or() {
    let text = "n % 10 = 3..4,9 and n % 100 != 10..19 or n mod 1000000 = 0";
    let (end, c) = parse_condition(text).unwrap();
    assert_eq!(end, text.len());
    assert_eq!(
        c,
        Condition(vec![
            AndCondition(vec![
                rel(Operand::N, Some(10), Operator::EQ, vec![range(3, 4), RangeListItem::Value(Value(9))]),
                rel(Operand::N, Some(100), Operator::NotEQ, vec![range(10, 19)]),
            ]),
            AndCondition(vec![rel(Operand::N, Some(1000000), Operator::EQ, vec![RangeListItem::Value(Value(0))])]),
        ])
    );
}

#[test]
fn word_operators() {
    let cases = [
        ("n is 1", Operator::Is),
        ("n is not 1", Operator::IsNot),
        ("n in 1", Operator::In),
        ("n not in 1", Operator::NotIn),
        ("n within 1", Operator::Within),
        ("n not within 1", Operator::NotWithin),
        ("n != 1", Operator::NotEQ),
    ];
    for (text, op) in cases {
        let (end, c) = parse_condition(text).unwrap();
        assert_eq!(end, text.len(), "{}", text);
        assert_eq!(c, Condition(vec![AndCondition(vec![rel(Operand::N, None, op, vec![RangeListItem::Value(Value(1))])])]));
    }
}

#[test]
fn commas_may_have_spaces() {
    let (_, c) = parse_condition("f = 1 , 3..5").unwrap();
    assert_eq!(c, Condition(vec![AndCondition(vec![rel(Operand::F, None, Operator::EQ, vec![RangeListItem::Value(Value(1)), range(3, 5)])])]));
}

#[test]
fn unknown_operand_is_a_syntax_error() {
    assert_eq!(parse_condition("x = 1"), Err(SyntaxError { remainder: 0 }));
    assert_eq!(parse_rule("n < 1").map(|r| r.0), Err(SyntaxError { remainder: 2 }));
    assert_eq!(parse_condition("n % 10 ? 1"), Err(SyntaxError { remainder: 7 }));
}

#[test]
fn value_too_large_stops_the_list() {
    // The literal does not fit, so the relation has an empty list and
    // parsing stops before it.
    let (end, c) = parse_condition("n = 99999999999999999999999").unwrap();
    assert_eq!(end, 4);
    assert_eq!(c, Condition(vec![AndCondition(vec![rel(Operand::N, None, Operator::EQ, vec![])])]));
}

#[test]
fn rule_with_samples() {
    let text = "i = 1 and v = 0 @integer 1 @decimal 1.0, 1.00 ~ 1.05, …";
    let (end, rule) = parse_rule(text).unwrap();
    assert_eq!(end, text.len());
    let s = rule.samples.unwrap();
    let int = s.integer.unwrap();
    assert_eq!(int.sample_ranges, vec![SampleRange { lower_val: DecimalValue { integer: Value(1), decimal: None }, upper_val: None }]);
    assert!(!int.ellipsis);
    let dec = s.decimal.unwrap();
    assert!(dec.ellipsis);
    assert_eq!(dec.sample_ranges.len(), 2);
    assert_eq!(dec.sample_ranges[1].lower_val, DecimalValue { integer: Value(1), decimal: Some(Value(0)) });
    assert_eq!(dec.sample_ranges[1].upper_val, Some(DecimalValue { integer: Value(1), decimal: Some(Value(5)) }));
}

#[test]
fn rule_with_ascii_ellipsis() {
    let text = "n = 2 @integer 2, 22, ...";
    let (end, rule) = parse_rule(text).unwrap();
    assert_eq!(end, text.len());
    let int = rule.samples.unwrap().integer.unwrap();
    assert!(int.ellipsis);
    assert_eq!(int.sample_ranges.len(), 2);
}

#[test]
fn parsing_twice_gives_the_same_tree() {
    let text = "n % 10 = 2..4 and n % 100 != 12..14 @integer 2~4, 22~24";
    assert_eq!(parse_rule(text), parse_rule(text));
}
