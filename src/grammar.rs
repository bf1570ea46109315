//! The plural-rule grammar, stated over the UTF-8 bytes of the rule text.
//! Each function reads from position `p` and gives what it recognises with
//! the position after it, or `None` where nothing matches.
use vstd::prelude::*;
use crate::ast::{
    DecimalValue, Expression, Modulo, Operand, Operator, Range, RangeListItem, RelationView,
    SampleListView, SampleRange, SamplesView, Value,
};
use crate::number::{decimal_value, is_digit};

verus! {

pub open spec fn is_space(c: u8) -> bool {
    c == 32 || c == 9
}

/// The end of the run of spaces and tabs that starts at `p`.
pub open spec fn spaces_end(s: Seq<u8>, p: int) -> int
    decreases s.len() - p,
{
    if 0 <= p < s.len() && is_space(s[p]) {
        spaces_end(s, p + 1)
    } else {
        p
    }
}

/// The end of the run of digits that starts at `p`.
pub open spec fn digits_end(s: Seq<u8>, p: int) -> int
    decreases s.len() - p,
{
    if 0 <= p < s.len() && is_digit(s[p]) {
        digits_end(s, p + 1)
    } else {
        p
    }
}

/// The bytes of `t` stand at position `p` of `s`.
pub open spec fn tag_at(s: Seq<u8>, p: int, t: Seq<u8>) -> bool {
    0 <= p && p + t.len() <= s.len() && s.subrange(p, p + t.len()) == t
}

/// After `p`: optional spaces, the tag `t`, optional spaces.
pub open spec fn loose_sep(s: Seq<u8>, p: int, t: Seq<u8>) -> Option<int> {
    let q = spaces_end(s, p);
    if tag_at(s, q, t) {
        Some(spaces_end(s, q + t.len()))
    } else {
        None
    }
}

/// After `p`: at least one space, the word `t`, at least one space.
pub open spec fn word_sep(s: Seq<u8>, p: int, t: Seq<u8>) -> Option<int> {
    let q = spaces_end(s, p);
    let r = spaces_end(s, q + t.len());
    if q > p && tag_at(s, q, t) && r > q + t.len() {
        Some(r)
    } else {
        None
    }
}

pub open spec fn value(s: Seq<u8>, p: int) -> Option<(Value, int)> {
    let e = digits_end(s, p);
    if 0 <= p <= s.len() && e > p && decimal_value(s.subrange(p, e)) <= usize::MAX {
        Some((Value(decimal_value(s.subrange(p, e)) as usize), e))
    } else {
        None
    }
}

pub open spec fn range(s: Seq<u8>, p: int) -> Option<(Range, int)> {
    match value(s, p) {
        Some((a, e1)) => if tag_at(s, e1, seq![46u8, 46]) {
            match value(s, e1 + 2) {
                Some((b, e2)) => Some((Range { lower_val: a, upper_val: b }, e2)),
                None => None,
            }
        } else {
            None
        },
        None => None,
    }
}

pub open spec fn range_list_item(s: Seq<u8>, p: int) -> Option<(RangeListItem, int)> {
    match range(s, p) {
        Some((r, e)) => Some((RangeListItem::Range(r), e)),
        None => match value(s, p) {
            Some((v, e)) => Some((RangeListItem::Value(v), e)),
            None => None,
        },
    }
}

/// The items that follow a first one, each after a comma.
pub open spec fn range_list_tail(s: Seq<u8>, p: int) -> (Seq<RangeListItem>, int)
    decreases s.len() - p,
{
    if 0 <= p <= s.len() {
        match loose_sep(s, p, seq![44u8]) {
            Some(q) => match range_list_item(s, q) {
                Some((x, r)) => if p < r <= s.len() {
                    let t = range_list_tail(s, r);
                    (seq![x] + t.0, t.1)
                } else {
                    (Seq::empty(), p)
                },
                None => (Seq::empty(), p),
            },
            None => (Seq::empty(), p),
        }
    } else {
        (Seq::empty(), p)
    }
}

/// A possibly empty, comma-separated list of values and ranges.
pub open spec fn range_list(s: Seq<u8>, p: int) -> (Seq<RangeListItem>, int) {
    match range_list_item(s, p) {
        Some((x, r)) => {
            let t = range_list_tail(s, r);
            (seq![x] + t.0, t.1)
        },
        None => (Seq::empty(), p),
    }
}

pub open spec fn operand(s: Seq<u8>, p: int) -> Option<(Operand, int)> {
    if 0 <= p < s.len() {
        let c = s[p];
        if c == 110 {
            Some((Operand::N, p + 1))
        } else if c == 105 {
            Some((Operand::I, p + 1))
        } else if c == 118 {
            Some((Operand::V, p + 1))
        } else if c == 119 {
            Some((Operand::W, p + 1))
        } else if c == 102 {
            Some((Operand::F, p + 1))
        } else if c == 116 {
            Some((Operand::T, p + 1))
        } else {
            None
        }
    } else {
        None
    }
}

/// An optional `mod m` or `% m`; where it is absent nothing is read.
pub open spec fn mod_expression(s: Seq<u8>, p: int) -> (Option<Modulo>, int) {
    let q = spaces_end(s, p);
    let q2 = if tag_at(s, q, seq![109u8, 111, 100]) {
        q + 3
    } else if tag_at(s, q, seq![37u8]) {
        q + 1
    } else {
        -1
    };
    let r = spaces_end(s, q2);
    if q2 >= 0 && r > q2 {
        match value(s, r) {
            Some((v, e)) => (Some(Modulo(v)), e),
            None => (None, p),
        }
    } else {
        (None, p)
    }
}

pub open spec fn expression(s: Seq<u8>, p: int) -> Option<(Expression, int)> {
    match operand(s, p) {
        Some((o, e1)) => {
            let m = mod_expression(s, e1);
            Some((Expression { operand: o, modulus: m.0 }, m.1))
        },
        None => None,
    }
}

/// `not in` or `not within`, from `p` where `not` stands.
pub open spec fn negated_operator(s: Seq<u8>, p: int) -> Option<(Operator, int)> {
    let q = spaces_end(s, p + 3);
    if tag_at(s, p, seq![110u8, 111, 116]) && q > p + 3 {
        if tag_at(s, q, seq![105u8, 110]) {
            Some((Operator::NotIn, q + 2))
        } else if tag_at(s, q, seq![119u8, 105, 116, 104, 105, 110]) {
            Some((Operator::NotWithin, q + 6))
        } else {
            None
        }
    } else {
        None
    }
}

pub open spec fn relation_operator(s: Seq<u8>, p: int) -> Option<(Operator, int)> {
    let q = spaces_end(s, p + 2);
    if tag_at(s, p, seq![61u8]) {
        Some((Operator::EQ, p + 1))
    } else if tag_at(s, p, seq![33u8, 61]) {
        Some((Operator::NotEQ, p + 2))
    } else if tag_at(s, p, seq![105u8, 115]) && q > p + 2 {
        if tag_at(s, q, seq![110u8, 111, 116]) {
            Some((Operator::IsNot, q + 3))
        } else {
            Some((Operator::Is, q))
        }
    } else if tag_at(s, p, seq![105u8, 110]) {
        Some((Operator::In, p + 2))
    } else if negated_operator(s, p) is Some {
        negated_operator(s, p)
    } else if tag_at(s, p, seq![119u8, 105, 116, 104, 105, 110]) {
        Some((Operator::Within, p + 6))
    } else {
        None
    }
}

pub open spec fn relation(s: Seq<u8>, p: int) -> Option<(RelationView, int)> {
    match expression(s, p) {
        Some((e, e1)) => match relation_operator(s, spaces_end(s, e1)) {
            Some((o, e2)) => {
                let l = range_list(s, spaces_end(s, e2));
                Some((RelationView { expression: e, operator: o, range_list: l.0 }, l.1))
            },
            None => None,
        },
        None => None,
    }
}

pub open spec fn and_tail(s: Seq<u8>, p: int) -> (Seq<RelationView>, int)
    decreases s.len() - p,
{
    if 0 <= p <= s.len() {
        match word_sep(s, p, seq![97u8, 110, 100]) {
            Some(q) => match relation(s, q) {
                Some((x, r)) => if p < r <= s.len() {
                    let t = and_tail(s, r);
                    (seq![x] + t.0, t.1)
                } else {
                    (Seq::empty(), p)
                },
                None => (Seq::empty(), p),
            },
            None => (Seq::empty(), p),
        }
    } else {
        (Seq::empty(), p)
    }
}

/// One or more relations joined by `and`.
pub open spec fn and_condition(s: Seq<u8>, p: int) -> Option<(Seq<RelationView>, int)> {
    match relation(s, p) {
        Some((x, r)) => {
            let t = and_tail(s, r);
            Some((seq![x] + t.0, t.1))
        },
        None => None,
    }
}

pub open spec fn or_tail(s: Seq<u8>, p: int) -> (Seq<Seq<RelationView>>, int)
    decreases s.len() - p,
{
    if 0 <= p <= s.len() {
        match word_sep(s, p, seq![111u8, 114]) {
            Some(q) => match and_condition(s, q) {
                Some((x, r)) => if p < r <= s.len() {
                    let t = or_tail(s, r);
                    (seq![x] + t.0, t.1)
                } else {
                    (Seq::empty(), p)
                },
                None => (Seq::empty(), p),
            },
            None => (Seq::empty(), p),
        }
    } else {
        (Seq::empty(), p)
    }
}

/// One or more conjunctions joined by `or`.
pub open spec fn or_condition(s: Seq<u8>, p: int) -> Option<(Seq<Seq<RelationView>>, int)> {
    match and_condition(s, p) {
        Some((x, r)) => {
            let t = or_tail(s, r);
            Some((seq![x] + t.0, t.1))
        },
        None => None,
    }
}

pub open spec fn decimal(s: Seq<u8>, p: int) -> Option<(DecimalValue, int)> {
    match value(s, p) {
        Some((a, e1)) => if tag_at(s, e1, seq![46u8]) && value(s, e1 + 1) is Some {
            let b = value(s, e1 + 1)->Some_0;
            Some((DecimalValue { integer: a, decimal: Some(b.0) }, b.1))
        } else {
            Some((DecimalValue { integer: a, decimal: None }, e1))
        },
        None => None,
    }
}

pub open spec fn sample_range(s: Seq<u8>, p: int) -> Option<(SampleRange, int)> {
    match decimal(s, p) {
        Some((lo, e1)) => match loose_sep(s, e1, seq![126u8]) {
            Some(q) => match decimal(s, q) {
                Some((hi, e2)) => Some((SampleRange { lower_val: lo, upper_val: Some(hi) }, e2)),
                None => Some((SampleRange { lower_val: lo, upper_val: None }, e1)),
            },
            None => Some((SampleRange { lower_val: lo, upper_val: None }, e1)),
        },
        None => None,
    }
}

pub open spec fn sample_tail(s: Seq<u8>, p: int) -> (Seq<SampleRange>, int)
    decreases s.len() - p,
{
    if 0 <= p <= s.len() {
        match loose_sep(s, p, seq![44u8]) {
            Some(q) => match sample_range(s, q) {
                Some((x, r)) => if p < r <= s.len() {
                    let t = sample_tail(s, r);
                    (seq![x] + t.0, t.1)
                } else {
                    (Seq::empty(), p)
                },
                None => (Seq::empty(), p),
            },
            None => (Seq::empty(), p),
        }
    } else {
        (Seq::empty(), p)
    }
}

/// A trailing `, ...` or `, …` after a sample list.
pub open spec fn ellipsis(s: Seq<u8>, p: int) -> Option<int> {
    match loose_sep(s, p, seq![44u8]) {
        Some(q) => if tag_at(s, q, seq![46u8, 46, 46]) || tag_at(s, q, seq![0xe2u8, 0x80, 0xa6]) {
            Some(q + 3)
        } else {
            None
        },
        None => None,
    }
}

pub open spec fn sample_list(s: Seq<u8>, p: int) -> Option<(SampleListView, int)> {
    match sample_range(s, p) {
        Some((x, r)) => {
            let t = sample_tail(s, r);
            match ellipsis(s, t.1) {
                Some(e) => Some((SampleListView { sample_ranges: seq![x] + t.0, ellipsis: true }, e)),
                None => Some((SampleListView { sample_ranges: seq![x] + t.0, ellipsis: false }, t.1)),
            }
        },
        None => None,
    }
}

/// An optional sample clause introduced by the word `t` (`@integer`, `@decimal`).
pub open spec fn sample_clause(s: Seq<u8>, p: int, t: Seq<u8>) -> (Option<SampleListView>, int) {
    match word_sep(s, p, t) {
        Some(q) => match sample_list(s, q) {
            Some((l, e)) => (Some(l), e),
            None => (None, p),
        },
        None => (None, p),
    }
}

pub open spec fn integer_word() -> Seq<u8> {
    seq![64u8, 105, 110, 116, 101, 103, 101, 114]
}

pub open spec fn decimal_word() -> Seq<u8> {
    seq![64u8, 100, 101, 99, 105, 109, 97, 108]
}

pub open spec fn samples(s: Seq<u8>, p: int) -> (Option<SamplesView>, int) {
    let a = sample_clause(s, p, integer_word());
    let b = sample_clause(s, a.1, decimal_word());
    if a.0 is Some || b.0 is Some {
        (Some(SamplesView { integer: a.0, decimal: b.0 }), b.1)
    } else {
        (None, b.1)
    }
}

} // verus!
