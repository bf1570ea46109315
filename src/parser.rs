use vstd::prelude::*;
use crate::ast::{
    AndCondition, Condition, DecimalValue, Expression, Modulo, Operand, Operator, Range, RangeList,
    RangeListItem, Relation, RelationView, Rule, SampleList, SampleRange, Samples,
    Value,
};
use crate::grammar::{
    and_condition, and_tail, decimal, decimal_word, digits_end, ellipsis, expression, integer_word,
    loose_sep, mod_expression, negated_operator, operand, or_condition, or_tail, range, range_list,
    range_list_item, range_list_tail, relation, relation_operator, sample_clause, sample_list,
    sample_range, sample_tail, samples, spaces_end, tag_at, value, word_sep,
};
use crate::number::{all_digits, read_decimal};
use vstd::utf8::encode_utf8;

verus! {

/// The position after the spaces and tabs that start at `p`.
fn skip_spaces(s: &[u8], p: usize) -> (q: usize)
    requires
        p <= s@.len(),
    ensures
        q as int == spaces_end(s@, p as int),
        p <= q <= s@.len(),
{
    let mut k = p;
    while k < s.len() && (s[k] == 32 || s[k] == 9)
        invariant
            p <= k <= s@.len(),
            spaces_end(s@, p as int) == spaces_end(s@, k as int),
        decreases s@.len() - k,
    {
        k = k + 1;
    }
    k
}

/// The position after the digits that start at `p`.
fn skip_digits(s: &[u8], p: usize) -> (q: usize)
    requires
        p <= s@.len(),
    ensures
        q as int == digits_end(s@, p as int),
        p <= q <= s@.len(),
        all_digits(s@.subrange(p as int, q as int)),
{
    let mut k = p;
    while k < s.len() && (s[k] >= 48 && s[k] <= 57)
        invariant
            p <= k <= s@.len(),
            digits_end(s@, p as int) == digits_end(s@, k as int),
            all_digits(s@.subrange(p as int, k as int)),
        decreases s@.len() - k,
    {
        assert(s@.subrange(p as int, k + 1) =~= s@.subrange(p as int, k as int).push(s@[k as int]));
        k = k + 1;
    }
    k
}

/// Whether the bytes of `t` stand at `p`.
fn at_tag(s: &[u8], p: usize, t: &Vec<u8>) -> (r: bool)
    requires
        p <= s@.len(),
    ensures
        r == tag_at(s@, p as int, t@),
        r ==> p + t@.len() <= s@.len(),
        s@.len() <= usize::MAX,
{
    if t.len() > s.len() - p {
        return false;
    }
    let mut k: usize = 0;
    while k < t.len()
        invariant
            k <= t@.len(),
            p <= s@.len() <= usize::MAX,
            p + t@.len() <= s@.len(),
            forall|q: int| 0 <= q < k ==> s@[p + q] == t@[q],
        decreases t@.len() - k,
    {
        if s[p + k] != t[k] {
            assert(s@.subrange(p as int, p + t@.len())[k as int] != t@[k as int]);
            return false;
        }
        k = k + 1;
    }
    assert(s@.subrange(p as int, p + t@.len()) =~= t@);
    true
}

fn loose_sep_exec(s: &[u8], p: usize, t: &Vec<u8>) -> (r: Option<usize>)
    requires
        p <= s@.len(),
    ensures
        match r {
            Some(q) => loose_sep(s@, p as int, t@) == Some(q as int) && p < q <= s@.len()
                || t@.len() == 0 && loose_sep(s@, p as int, t@) == Some(q as int) && p <= q <= s@.len(),
            None => loose_sep(s@, p as int, t@) is None,
        },
{
    let q = skip_spaces(s, p);
    if at_tag(s, q, t) {
        Some(skip_spaces(s, q + t.len()))
    } else {
        None
    }
}

fn word_sep_exec(s: &[u8], p: usize, t: &Vec<u8>) -> (r: Option<usize>)
    requires
        p <= s@.len(),
    ensures
        match r {
            Some(q) => word_sep(s@, p as int, t@) == Some(q as int) && p < q <= s@.len(),
            None => word_sep(s@, p as int, t@) is None,
        },
{
    let q = skip_spaces(s, p);
    if q > p && at_tag(s, q, t) {
        let r = skip_spaces(s, q + t.len());
        if r > q + t.len() {
            return Some(r);
        }
    }
    None
}

fn value_exec(s: &[u8], p: usize) -> (r: Option<(Value, usize)>)
    requires
        p <= s@.len(),
    ensures
        match r {
            Some((v, e)) => value(s@, p as int) == Some((v, e as int)) && p < e <= s@.len(),
            None => value(s@, p as int) is None,
        },
{
    let e = skip_digits(s, p);
    if e == p {
        return None;
    }
    match read_decimal(s, p, e, usize::MAX as u64) {
        Some(v) => Some((Value(v as usize), e)),
        None => None,
    }
}

fn range_exec(s: &[u8], p: usize) -> (r: Option<(Range, usize)>)
    requires
        p <= s@.len(),
    ensures
        match r {
            Some((v, e)) => range(s@, p as int) == Some((v, e as int)) && p < e <= s@.len(),
            None => range(s@, p as int) is None,
        },
{
    match value_exec(s, p) {
        Some((a, e1)) => {
            let dots = vec![46u8, 46];
            assert(dots@ =~= seq![46u8, 46]);
            if at_tag(s, e1, &dots) {
                match value_exec(s, e1 + 2) {
                    Some((b, e2)) => Some((Range { lower_val: a, upper_val: b }, e2)),
                    None => None,
                }
            } else {
                None
            }
        },
        None => None,
    }
}

fn range_list_item_exec(s: &[u8], p: usize) -> (r: Option<(RangeListItem, usize)>)
    requires
        p <= s@.len(),
    ensures
        match r {
            Some((v, e)) => range_list_item(s@, p as int) == Some((v, e as int)) && p < e
                <= s@.len(),
            None => range_list_item(s@, p as int) is None,
        },
{
    match range_exec(s, p) {
        Some((x, e)) => Some((RangeListItem::Range(x), e)),
        None => match value_exec(s, p) {
            Some((v, e)) => Some((RangeListItem::Value(v), e)),
            None => None,
        },
    }
}

fn range_list_exec(s: &[u8], p: usize) -> (r: (RangeList, usize))
    requires
        p <= s@.len(),
    ensures
        range_list(s@, p as int) == (r.0@, r.1 as int),
        p <= r.1 <= s@.len(),
{
    let (first, r0) = match range_list_item_exec(s, p) {
        Some(x) => x,
        None => {
            return (RangeList(Vec::new()), p);
        },
    };
    let mut items: Vec<RangeListItem> = Vec::new();
    items.push(first);
    let mut pos = r0;
    let comma = vec![44u8];
    assert(items@ =~= seq![first]);
    loop
        invariant
            p <= r0 <= pos <= s@.len(),
            comma@ == seq![44u8],
            range_list(s@, p as int) == (items@ + range_list_tail(s@, pos as int).0,
            range_list_tail(s@, pos as int).1),
        decreases s@.len() - pos,
    {
        let ghost old_items = items@;
        match loose_sep_exec(s, pos, &comma) {
            Some(q) => match range_list_item_exec(s, q) {
                Some((x, e)) => {
                    items.push(x);
                    assert(items@ + range_list_tail(s@, e as int).0 =~= old_items + (seq![x]
                        + range_list_tail(s@, e as int).0));
                    pos = e;
                },
                None => {
                    assert(items@ + range_list_tail(s@, pos as int).0 =~= items@);
                    return (RangeList(items), pos);
                },
            },
            None => {
                assert(items@ + range_list_tail(s@, pos as int).0 =~= items@);
                return (RangeList(items), pos);
            },
        }
    }
}

fn operand_exec(s: &[u8], p: usize) -> (r: Option<(Operand, usize)>)
    requires
        p <= s@.len(),
    ensures
        match r {
            Some((v, e)) => operand(s@, p as int) == Some((v, e as int)) && p < e <= s@.len(),
            None => operand(s@, p as int) is None,
        },
{
    if p >= s.len() {
        return None;
    }
    let c = s[p];
    let o = if c == 110 {
        Operand::N
    } else if c == 105 {
        Operand::I
    } else if c == 118 {
        Operand::V
    } else if c == 119 {
        Operand::W
    } else if c == 102 {
        Operand::F
    } else if c == 116 {
        Operand::T
    } else {
        return None;
    };
    Some((o, p + 1))
}

fn mod_expression_exec(s: &[u8], p: usize) -> (r: (Option<Modulo>, usize))
    requires
        p <= s@.len(),
    ensures
        mod_expression(s@, p as int) == (r.0, r.1 as int),
        p <= r.1 <= s@.len(),
{
    let q = skip_spaces(s, p);
    let word = vec![109u8, 111, 100];
    assert(word@ =~= seq![109u8, 111, 100]);
    let pct = vec![37u8];
    assert(pct@ =~= seq![37u8]);
    let q2 = if at_tag(s, q, &word) {
        q + 3
    } else if at_tag(s, q, &pct) {
        q + 1
    } else {
        return (None, p);
    };
    let r = skip_spaces(s, q2);
    if r > q2 {
        match value_exec(s, r) {
            Some((v, e)) => (Some(Modulo(v)), e),
            None => (None, p),
        }
    } else {
        (None, p)
    }
}

fn expression_exec(s: &[u8], p: usize) -> (r: Option<(Expression, usize)>)
    requires
        p <= s@.len(),
    ensures
        match r {
            Some((v, e)) => expression(s@, p as int) == Some((v, e as int)) && p < e <= s@.len(),
            None => expression(s@, p as int) is None,
        },
{
    match operand_exec(s, p) {
        Some((o, e1)) => {
            let (m, e) = mod_expression_exec(s, e1);
            Some((Expression { operand: o, modulus: m }, e))
        },
        None => None,
    }
}

fn negated_operator_exec(s: &[u8], p: usize) -> (r: Option<(Operator, usize)>)
    requires
        p <= s@.len(),
    ensures
        match r {
            Some((v, e)) => negated_operator(s@, p as int) == Some((v, e as int)) && p < e
                <= s@.len(),
            None => negated_operator(s@, p as int) is None,
        },
{
    let not_word = vec![110u8, 111, 116];
    assert(not_word@ =~= seq![110u8, 111, 116]);
    if !at_tag(s, p, &not_word) {
        return None;
    }
    let q = skip_spaces(s, p + 3);
    if q == p + 3 {
        return None;
    }
    let in_word = vec![105u8, 110];
    assert(in_word@ =~= seq![105u8, 110]);
    let within_word = vec![119u8, 105, 116, 104, 105, 110];
    assert(within_word@ =~= seq![119u8, 105, 116, 104, 105, 110]);
    if at_tag(s, q, &in_word) {
        Some((Operator::NotIn, q + 2))
    } else if at_tag(s, q, &within_word) {
        Some((Operator::NotWithin, q + 6))
    } else {
        None
    }
}

fn relation_operator_exec(s: &[u8], p: usize) -> (r: Option<(Operator, usize)>)
    requires
        p <= s@.len(),
    ensures
        match r {
            Some((v, e)) => relation_operator(s@, p as int) == Some((v, e as int)) && p < e
                <= s@.len(),
            None => relation_operator(s@, p as int) is None,
        },
{
    let eq = vec![61u8];
    assert(eq@ =~= seq![61u8]);
    let ne = vec![33u8, 61];
    assert(ne@ =~= seq![33u8, 61]);
    let is_word = vec![105u8, 115];
    assert(is_word@ =~= seq![105u8, 115]);
    let in_word = vec![105u8, 110];
    assert(in_word@ =~= seq![105u8, 110]);
    let not_word = vec![110u8, 111, 116];
    assert(not_word@ =~= seq![110u8, 111, 116]);
    let within_word = vec![119u8, 105, 116, 104, 105, 110];
    assert(within_word@ =~= seq![119u8, 105, 116, 104, 105, 110]);
    if at_tag(s, p, &eq) {
        return Some((Operator::EQ, p + 1));
    }
    if at_tag(s, p, &ne) {
        return Some((Operator::NotEQ, p + 2));
    }
    if at_tag(s, p, &is_word) {
        let q = skip_spaces(s, p + 2);
        if q > p + 2 {
            if at_tag(s, q, &not_word) {
                return Some((Operator::IsNot, q + 3));
            } else {
                return Some((Operator::Is, q));
            }
        }
    }
    if at_tag(s, p, &in_word) {
        return Some((Operator::In, p + 2));
    }
    match negated_operator_exec(s, p) {
        Some(x) => {
            return Some(x);
        },
        None => {},
    }
    if at_tag(s, p, &within_word) {
        Some((Operator::Within, p + 6))
    } else {
        None
    }
}

fn relation_exec(s: &[u8], p: usize) -> (r: Option<(Relation, usize)>)
    requires
        p <= s@.len(),
    ensures
        match r {
            Some((v, e)) => relation(s@, p as int) == Some((v@, e as int)) && p < e <= s@.len(),
            None => relation(s@, p as int) is None,
        },
{
    match expression_exec(s, p) {
        Some((e, e1)) => {
            let q = skip_spaces(s, e1);
            match relation_operator_exec(s, q) {
                Some((o, e2)) => {
                    let r = skip_spaces(s, e2);
                    let (l, e3) = range_list_exec(s, r);
                    Some((Relation { expression: e, operator: o, range_list: l }, e3))
                },
                None => None,
            }
        },
        None => None,
    }
}

fn and_condition_exec(s: &[u8], p: usize) -> (r: Option<(AndCondition, usize)>)
    requires
        p <= s@.len(),
    ensures
        match r {
            Some((v, e)) => and_condition(s@, p as int) == Some((v@, e as int)) && p < e
                <= s@.len(),
            None => and_condition(s@, p as int) is None,
        },
{
    let (first, r0) = match relation_exec(s, p) {
        Some(x) => x,
        None => {
            return None;
        },
    };
    let mut items: Vec<Relation> = Vec::new();
    items.push(first);
    let mut pos = r0;
    let word = vec![97u8, 110, 100];
    assert(items@.map_values(|x: Relation| x@) =~= seq![first@]);
    loop
        invariant
            p < r0 <= pos <= s@.len(),
            word@ == seq![97u8, 110, 100],
            and_condition(s@, p as int) == Some(
                (
                    items@.map_values(|x: Relation| x@) + and_tail(s@, pos as int).0,
                    and_tail(s@, pos as int).1,
                ),
            ),
        decreases s@.len() - pos,
    {
        let ghost old_items = items@.map_values(|x: Relation| x@);
        match word_sep_exec(s, pos, &word) {
            Some(q) => match relation_exec(s, q) {
                Some((x, e)) => {
                    let ghost xv = x@;
                    items.push(x);
                    assert(items@.map_values(|x: Relation| x@) =~= old_items.push(xv));
                    assert(items@.map_values(|x: Relation| x@) + and_tail(s@, e as int).0
                        =~= old_items + (seq![xv] + and_tail(s@, e as int).0));
                    pos = e;
                },
                None => {
                    assert(old_items + and_tail(s@, pos as int).0 =~= old_items);
                    return Some((AndCondition(items), pos));
                },
            },
            None => {
                assert(old_items + and_tail(s@, pos as int).0 =~= old_items);
                return Some((AndCondition(items), pos));
            },
        }
    }
}

fn or_condition_exec(s: &[u8], p: usize) -> (r: Option<(Condition, usize)>)
    requires
        p <= s@.len(),
    ensures
        match r {
            Some((v, e)) => or_condition(s@, p as int) == Some((v@, e as int)) && p < e
                <= s@.len(),
            None => or_condition(s@, p as int) is None,
        },
{
    let (first, r0) = match and_condition_exec(s, p) {
        Some(x) => x,
        None => {
            return None;
        },
    };
    let mut items: Vec<AndCondition> = Vec::new();
    let ghost fv = first@;
    items.push(first);
    let mut pos = r0;
    let word = vec![111u8, 114];
    assert(items@.map_values(|x: AndCondition| x@) =~= seq![fv]);
    loop
        invariant
            p < r0 <= pos <= s@.len(),
            word@ == seq![111u8, 114],
            or_condition(s@, p as int) == Some(
                (
                    items@.map_values(|x: AndCondition| x@) + or_tail(s@, pos as int).0,
                    or_tail(s@, pos as int).1,
                ),
            ),
        decreases s@.len() - pos,
    {
        let ghost old_items = items@.map_values(|x: AndCondition| x@);
        match word_sep_exec(s, pos, &word) {
            Some(q) => match and_condition_exec(s, q) {
                Some((x, e)) => {
                    let ghost xv = x@;
                    items.push(x);
                    assert(items@.map_values(|x: AndCondition| x@) =~= old_items.push(xv));
                    assert(items@.map_values(|x: AndCondition| x@) + or_tail(s@, e as int).0
                        =~= old_items + (seq![xv] + or_tail(s@, e as int).0));
                    pos = e;
                },
                None => {
                    assert(old_items + or_tail(s@, pos as int).0 =~= old_items);
                    return Some((Condition(items), pos));
                },
            },
            None => {
                assert(old_items + or_tail(s@, pos as int).0 =~= old_items);
                return Some((Condition(items), pos));
            },
        }
    }
}

fn decimal_exec(s: &[u8], p: usize) -> (r: Option<(DecimalValue, usize)>)
    requires
        p <= s@.len(),
    ensures
        match r {
            Some((v, e)) => decimal(s@, p as int) == Some((v, e as int)) && p < e <= s@.len(),
            None => decimal(s@, p as int) is None,
        },
{
    match value_exec(s, p) {
        Some((a, e1)) => {
            let dot = vec![46u8];
            assert(dot@ =~= seq![46u8]);
            if at_tag(s, e1, &dot) {
                match value_exec(s, e1 + 1) {
                    Some((b, e2)) => {
                        return Some((DecimalValue { integer: a, decimal: Some(b) }, e2));
                    },
                    None => {},
                }
            }
            Some((DecimalValue { integer: a, decimal: None }, e1))
        },
        None => None,
    }
}

fn sample_range_exec(s: &[u8], p: usize) -> (r: Option<(SampleRange, usize)>)
    requires
        p <= s@.len(),
    ensures
        match r {
            Some((v, e)) => sample_range(s@, p as int) == Some((v, e as int)) && p < e
                <= s@.len(),
            None => sample_range(s@, p as int) is None,
        },
{
    match decimal_exec(s, p) {
        Some((lo, e1)) => {
            let tilde = vec![126u8];
            assert(tilde@ =~= seq![126u8]);
            match loose_sep_exec(s, e1, &tilde) {
                Some(q) => match decimal_exec(s, q) {
                    Some((hi, e2)) => Some((SampleRange { lower_val: lo, upper_val: Some(hi) }, e2)),
                    None => Some((SampleRange { lower_val: lo, upper_val: None }, e1)),
                },
                None => Some((SampleRange { lower_val: lo, upper_val: None }, e1)),
            }
        },
        None => None,
    }
}

fn ellipsis_exec(s: &[u8], p: usize) -> (r: Option<usize>)
    requires
        p <= s@.len(),
    ensures
        match r {
            Some(e) => ellipsis(s@, p as int) == Some(e as int) && p < e <= s@.len(),
            None => ellipsis(s@, p as int) is None,
        },
{
    let comma = vec![44u8];
    assert(comma@ =~= seq![44u8]);
    let dots = vec![46u8, 46, 46];
    assert(dots@ =~= seq![46u8, 46, 46]);
    let ell = vec![0xe2u8, 0x80, 0xa6];
    assert(ell@ =~= seq![0xe2u8, 0x80, 0xa6]);
    match loose_sep_exec(s, p, &comma) {
        Some(q) => {
            if at_tag(s, q, &dots) || at_tag(s, q, &ell) {
                Some(q + 3)
            } else {
                None
            }
        },
        None => None,
    }
}

fn sample_list_exec(s: &[u8], p: usize) -> (r: Option<(SampleList, usize)>)
    requires
        p <= s@.len(),
    ensures
        match r {
            Some((v, e)) => sample_list(s@, p as int) == Some((v@, e as int)) && p < e
                <= s@.len(),
            None => sample_list(s@, p as int) is None,
        },
{
    let (first, r0) = match sample_range_exec(s, p) {
        Some(x) => x,
        None => {
            return None;
        },
    };
    let mut items: Vec<SampleRange> = Vec::new();
    items.push(first);
    let mut pos = r0;
    let comma = vec![44u8];
    assert(comma@ =~= seq![44u8]);
    assert(items@ =~= seq![first]);
    loop
        invariant
            p < r0 <= pos <= s@.len(),
            comma@ == seq![44u8],
            sample_tail(s@, r0 as int) == (items@.subrange(1, items@.len() as int) + sample_tail(
                s@,
                pos as int,
            ).0, sample_tail(s@, pos as int).1),
            items@.len() >= 1,
            items@[0] == first,
            sample_range(s@, p as int) == Some((first, r0 as int)),
        decreases s@.len() - pos,
    {
        let ghost old_items = items@;
        let next = match loose_sep_exec(s, pos, &comma) {
            Some(q) => match sample_range_exec(s, q) {
                Some((x, e)) => Some((x, e)),
                None => None,
            },
            None => None,
        };
        match next {
            Some((x, e)) => {
                items.push(x);
                assert(items@.subrange(1, items@.len() as int) + sample_tail(s@, e as int).0
                    =~= old_items.subrange(1, old_items.len() as int) + (seq![x] + sample_tail(
                    s@,
                    e as int,
                ).0));
                pos = e;
            },
            None => {
                assert(items@.subrange(1, items@.len() as int) + sample_tail(s@, pos as int).0
                    =~= items@.subrange(1, items@.len() as int));
                assert(seq![first] + items@.subrange(1, items@.len() as int) =~= items@);
                let (ell, end) = match ellipsis_exec(s, pos) {
                    Some(e) => (true, e),
                    None => (false, pos),
                };
                return Some((SampleList { sample_ranges: items, ellipsis: ell }, end));
            },
        }
    }
}

fn sample_clause_exec(s: &[u8], p: usize, word: &Vec<u8>) -> (r: (Option<SampleList>, usize))
    requires
        p <= s@.len(),
    ensures
        sample_clause(s@, p as int, word@) == (crate::ast::opt_list_view(r.0), r.1 as int),
        p <= r.1 <= s@.len(),
{
    match word_sep_exec(s, p, word) {
        Some(q) => match sample_list_exec(s, q) {
            Some((l, e)) => (Some(l), e),
            None => (None, p),
        },
        None => (None, p),
    }
}

fn samples_exec(s: &[u8], p: usize) -> (r: (Option<Samples>, usize))
    requires
        p <= s@.len(),
    ensures
        samples(s@, p as int) == (crate::ast::opt_samples_view(r.0), r.1 as int),
        p <= r.1 <= s@.len(),
{
    let iw = vec![64u8, 105, 110, 116, 101, 103, 101, 114];
    assert(iw@ =~= integer_word());
    let dw = vec![64u8, 100, 101, 99, 105, 109, 97, 108];
    assert(dw@ =~= decimal_word());
    let (a, e1) = sample_clause_exec(s, p, &iw);
    let (b, e2) = sample_clause_exec(s, e1, &dw);
    if a.is_some() || b.is_some() {
        (Some(Samples { integer: a, decimal: b }), e2)
    } else {
        (None, e2)
    }
}

/// What `str::trim` leaves of a text.
pub uninterp spec fn trimmed(s: Seq<char>) -> Seq<char>;

/// Relies on `str::trim`: the text without leading and trailing white space.
#[verifier::external_body]
fn trim_text(s: &str) -> (r: &str)
    ensures
        r@ == trimmed(s@),
        s@.len() == 0 ==> r@.len() == 0,
{
    s.trim()
}

/// Relies on `str::starts_with` with a `char` pattern: whether `c` comes first.
#[verifier::external_body]
fn starts_with_char(s: &str, c: char) -> (r: bool)
    ensures
        r == (s@.len() > 0 && s@[0] == c),
{
    s.starts_with(c)
}

/// Rule text that could not be parsed.
#[derive(Clone, Copy, Debug, PartialEq, Eq, Structural)]
pub struct SyntaxError {
    /// Byte offset of the unconsumed remainder.
    pub remainder: usize,
}

/// Where a condition that cannot be parsed stops: at its start where no
/// operand stands there, else where its first operator should stand.
pub open spec fn error_offset(s: Seq<u8>) -> int {
    match expression(s, 0) {
        Some((_, e1)) => spaces_end(s, e1),
        None => 0,
    }
}

/// The text holds no condition: it is blank, or only a sample clause follows.
pub open spec fn without_condition(t: Seq<char>) -> bool {
    trimmed(t).len() == 0 || trimmed(t)[0] == '@'
}

/// The condition that the text starts with and the byte offset after it; a
/// text without a condition gives the empty, always-true condition and is
/// consumed whole.
pub open spec fn condition_parse(t: Seq<char>) -> Option<(Seq<Seq<RelationView>>, int)> {
    if without_condition(t) {
        Some((Seq::empty(), encode_utf8(t).len() as int))
    } else {
        or_condition(encode_utf8(t), 0)
    }
}

/// The rule that the text starts with (its condition, then its samples) and
/// the byte offset after it.
pub open spec fn rule_parse(t: Seq<char>) -> Option<(crate::ast::RuleView, int)> {
    match condition_parse(t) {
        Some((c, p)) => {
            let sm = samples(encode_utf8(t), p);
            Some((crate::ast::RuleView { condition: c, samples: sm.0 }, sm.1))
        },
        None => None,
    }
}

pub open spec fn condition_outcome(t: Seq<char>, r: Result<(usize, Condition), SyntaxError>) -> bool {
    match r {
        Ok((e, c)) => condition_parse(t) == Some((c@, e as int)),
        Err(err) => condition_parse(t) is None && err.remainder == error_offset(encode_utf8(t)),
    }
}

pub open spec fn rule_outcome(t: Seq<char>, r: Result<(usize, Rule), SyntaxError>) -> bool {
    match r {
        Ok((e, x)) => rule_parse(t) == Some((x@, e as int)),
        Err(err) => rule_parse(t) is None && err.remainder == error_offset(encode_utf8(t)),
    }
}

/// Parses the condition at the start of `i`. On success gives the byte
/// offset of what follows it.
pub fn parse_condition(i: &str) -> (r: Result<(usize, Condition), SyntaxError>)
    ensures
        condition_outcome(i@, r),
        r is Ok ==> r->Ok_0.0 <= encode_utf8(i@).len(),
{
    let t = trim_text(i);
    if t.is_empty() || starts_with_char(t, '@') {
        let c = Condition(Vec::new());
        assert(c@ =~= Seq::<Seq<RelationView>>::empty());
        return Ok((i.as_bytes().len(), c));
    }
    let b = i.as_bytes();
    match or_condition_exec(b, 0) {
        Some((c, e)) => Ok((e, c)),
        None => {
            let at = match expression_exec(b, 0) {
                Some((_, e1)) => skip_spaces(b, e1),
                None => 0,
            };
            Err(SyntaxError { remainder: at })
        },
    }
}

/// Parses a rule: a condition followed by optional `@integer` and `@decimal`
/// sample clauses. On success gives the byte offset of what follows it.
pub fn parse_rule(i: &str) -> (r: Result<(usize, Rule), SyntaxError>)
    ensures
        rule_outcome(i@, r),
{
    match parse_condition(i) {
        Ok((p, condition)) => {
            let (samples, e) = samples_exec(i.as_bytes(), p);
            Ok((e, Rule { condition, samples }))
        },
        Err(err) => Err(err),
    }
}

/// Parsing is deterministic: two parses of the same text agree on success,
/// on the offset reached and on the syntax tree.
pub proof fn lemma_parse_rule_deterministic(
    t: Seq<char>,
    r1: Result<(usize, Rule), SyntaxError>,
    r2: Result<(usize, Rule), SyntaxError>,
)
    requires
        rule_outcome(t, r1),
        rule_outcome(t, r2),
    ensures
        r1 is Ok <==> r2 is Ok,
        r1 is Ok ==> r1->Ok_0.0 == r2->Ok_0.0 && r1->Ok_0.1@ == r2->Ok_0.1@,
        r1 is Err ==> r1 == r2,
{
}

} // verus!
