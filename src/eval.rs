use vstd::prelude::*;
use crate::ast::{
    AndCondition, Condition, Expression, Operand, Operator, Range, RangeList, RangeListItem,
    Relation, RelationView, Value,
};

verus! {

/// The operand values of a number. The absolute value `n` is given by its
/// integer part and whether it has a non-zero fractional part.
#[derive(Clone, Copy, Debug, PartialEq, Eq, Structural)]
pub struct PluralOperands {
    pub n: u64,
    pub n_fractional: bool,
    pub i: u64,
    pub v: u64,
    pub w: u64,
    pub f: u64,
    pub t: u64,
}

/// A tested value: an integer part and whether a non-zero fraction follows it.
pub struct Tested {
    pub whole: int,
    pub fractional: bool,
}

pub open spec fn operand_value(ops: PluralOperands, o: Operand) -> Tested {
    match o {
        Operand::N => Tested { whole: ops.n as int, fractional: ops.n_fractional },
        Operand::I => Tested { whole: ops.i as int, fractional: false },
        Operand::V => Tested { whole: ops.v as int, fractional: false },
        Operand::W => Tested { whole: ops.w as int, fractional: false },
        Operand::F => Tested { whole: ops.f as int, fractional: false },
        Operand::T => Tested { whole: ops.t as int, fractional: false },
    }
}

/// An expression can be evaluated when its modulus, if any, is not zero.
pub open spec fn expression_ok(e: Expression) -> bool {
    match e.modulus {
        Some(m) => m.0.0 > 0,
        None => true,
    }
}

/// The value an expression takes; `x mod m` keeps the fraction of `x`.
pub open spec fn expression_value(ops: PluralOperands, e: Expression) -> Tested {
    let x = operand_value(ops, e.operand);
    match e.modulus {
        Some(m) => Tested { whole: x.whole % (m.0.0 as int), fractional: x.fractional },
        None => x,
    }
}

pub open spec fn item_lower(item: RangeListItem) -> int {
    match item {
        RangeListItem::Range(r) => r.lower_val.0 as int,
        RangeListItem::Value(v) => v.0 as int,
    }
}

pub open spec fn item_upper(item: RangeListItem) -> int {
    match item {
        RangeListItem::Range(r) => r.upper_val.0 as int,
        RangeListItem::Value(v) => v.0 as int,
    }
}

/// The integer `k` is one of the integers that `item` stands for.
pub open spec fn item_contains(item: RangeListItem, k: int) -> bool {
    item_lower(item) <= k <= item_upper(item)
}

/// The set of integers that a range list stands for.
pub open spec fn list_set(list: Seq<RangeListItem>) -> Set<int> {
    Set::new(|k: int| exists|j: int| 0 <= j < list.len() && #[trigger] item_contains(list[j], k))
}

/// `x` equals an element of the expanded list.
pub open spec fn list_equals(list: Seq<RangeListItem>, x: Tested) -> bool {
    !x.fractional && list_set(list).contains(x.whole)
}

/// `x` lies, inclusively, between the bounds of the item.
pub open spec fn item_within(item: RangeListItem, x: Tested) -> bool {
    item_lower(item) <= x.whole && (x.whole < item_upper(item) || (x.whole == item_upper(item)
        && !x.fractional))
}

/// `x` lies between the bounds of some item of the list.
pub open spec fn list_within(list: Seq<RangeListItem>, x: Tested) -> bool {
    exists|j: int| 0 <= j < list.len() && #[trigger] item_within(list[j], x)
}

pub open spec fn relation_ok(r: RelationView) -> bool {
    expression_ok(r.expression)
}

pub open spec fn relation_holds(r: RelationView, ops: PluralOperands) -> bool {
    let x = expression_value(ops, r.expression);
    match r.operator {
        Operator::EQ | Operator::Is | Operator::In => list_equals(r.range_list, x),
        Operator::NotEQ | Operator::IsNot | Operator::NotIn => !list_equals(r.range_list, x),
        Operator::Within => list_within(r.range_list, x),
        Operator::NotWithin => !list_within(r.range_list, x),
    }
}

pub open spec fn and_ok(a: Seq<RelationView>) -> bool {
    forall|j: int| 0 <= j < a.len() ==> relation_ok(#[trigger] a[j])
}

pub open spec fn and_holds(a: Seq<RelationView>, ops: PluralOperands) -> bool {
    forall|j: int| 0 <= j < a.len() ==> relation_holds(#[trigger] a[j], ops)
}

/// Every modulus in the condition is non-zero.
pub open spec fn condition_ok(c: Seq<Seq<RelationView>>) -> bool {
    forall|k: int| 0 <= k < c.len() ==> and_ok(#[trigger] c[k])
}

/// An empty condition always holds; otherwise one of its conjunctions holds.
pub open spec fn condition_holds(c: Seq<Seq<RelationView>>, ops: PluralOperands) -> bool {
    c.len() == 0 || exists|k: int| 0 <= k < c.len() && and_holds(#[trigger] c[k], ops)
}

fn operand_value_exec(ops: &PluralOperands, o: Operand) -> (r: (u64, bool))
    ensures
        r.0 as int == operand_value(*ops, o).whole,
        r.1 == operand_value(*ops, o).fractional,
{
    match o {
        Operand::N => (ops.n, ops.n_fractional),
        Operand::I => (ops.i, false),
        Operand::V => (ops.v, false),
        Operand::W => (ops.w, false),
        Operand::F => (ops.f, false),
        Operand::T => (ops.t, false),
    }
}

/// The value of an expression for the given operands.
pub fn eval_expression(ops: &PluralOperands, e: &Expression) -> (r: (u64, bool))
    requires
        expression_ok(*e),
    ensures
        r.0 as int == expression_value(*ops, *e).whole,
        r.1 == expression_value(*ops, *e).fractional,
{
    let x = operand_value_exec(ops, e.operand);
    match e.modulus {
        Some(m) => (x.0 % (m.0.0 as u64), x.1),
        None => x,
    }
}

/// Whether the integer `k` is in the expanded range list.
pub fn list_contains(list: &RangeList, k: u64) -> (r: bool)
    ensures
        r == list_set(list@).contains(k as int),
{
    let mut j: usize = 0;
    while j < list.0.len()
        invariant
            j <= list@.len(),
            list@ == list.0@,
            forall|q: int| 0 <= q < j ==> !item_contains(#[trigger] list@[q], k as int),
        decreases list@.len() - j,
    {
        let (lo, hi) = match list.0[j] {
            RangeListItem::Range(r) => (r.lower_val.0, r.upper_val.0),
            RangeListItem::Value(v) => (v.0, v.0),
        };
        if lo as u64 <= k && k <= hi as u64 {
            assert(item_contains(list@[j as int], k as int));
            return true;
        }
        j = j + 1;
    }
    false
}

/// Whether `x` lies between the bounds of some item of the list.
pub fn list_within_exec(list: &RangeList, x: (u64, bool)) -> (r: bool)
    ensures
        r == list_within(list@, Tested { whole: x.0 as int, fractional: x.1 }),
{
    let ghost t = Tested { whole: x.0 as int, fractional: x.1 };
    let mut j: usize = 0;
    while j < list.0.len()
        invariant
            j <= list@.len(),
            list@ == list.0@,
            t == (Tested { whole: x.0 as int, fractional: x.1 }),
            forall|q: int| 0 <= q < j ==> !item_within(#[trigger] list@[q], t),
        decreases list@.len() - j,
    {
        let (lo, hi) = match list.0[j] {
            RangeListItem::Range(r) => (r.lower_val.0 as u64, r.upper_val.0 as u64),
            RangeListItem::Value(v) => (v.0 as u64, v.0 as u64),
        };
        if lo <= x.0 && (x.0 < hi || (x.0 == hi && !x.1)) {
            assert(item_within(list@[j as int], t));
            return true;
        }
        j = j + 1;
    }
    false
}

/// Evaluates one relation.
pub fn eval_relation(r: &Relation, ops: &PluralOperands) -> (b: bool)
    requires
        relation_ok(r@),
    ensures
        b == relation_holds(r@, *ops),
{
    let x = eval_expression(ops, &r.expression);
    let eq = !x.1 && list_contains(&r.range_list, x.0);
    match r.operator {
        Operator::EQ | Operator::Is | Operator::In => eq,
        Operator::NotEQ | Operator::IsNot | Operator::NotIn => !eq,
        Operator::Within => list_within_exec(&r.range_list, x),
        Operator::NotWithin => !list_within_exec(&r.range_list, x),
    }
}

/// Evaluates a conjunction.
pub fn eval_and_condition(a: &AndCondition, ops: &PluralOperands) -> (b: bool)
    requires
        and_ok(a@),
    ensures
        b == and_holds(a@, *ops),
{
    let mut j: usize = 0;
    while j < a.0.len()
        invariant
            j <= a@.len(),
            a@.len() == a.0@.len(),
            and_ok(a@),
            forall|q: int| 0 <= q < a.0@.len() ==> #[trigger] a@[q] == a.0@[q]@,
            forall|q: int| 0 <= q < j ==> relation_holds(#[trigger] a@[q], *ops),
        decreases a@.len() - j,
    {
        assert(relation_ok(a@[j as int]));
        if !eval_relation(&a.0[j], ops) {
            return false;
        }
        j = j + 1;
    }
    true
}

/// Evaluates a condition: the predicate that it lowers to.
pub fn eval_condition(c: &Condition, ops: &PluralOperands) -> (b: bool)
    requires
        condition_ok(c@),
    ensures
        b == condition_holds(c@, *ops),
{
    if c.0.len() == 0 {
        return true;
    }
    let mut k: usize = 0;
    while k < c.0.len()
        invariant
            k <= c@.len(),
            c@.len() == c.0@.len(),
            condition_ok(c@),
            forall|q: int| 0 <= q < c.0@.len() ==> #[trigger] c@[q] == c.0@[q]@,
            forall|q: int| 0 <= q < k ==> !and_holds(#[trigger] c@[q], *ops),
        decreases c@.len() - k,
    {
        assert(and_ok(c@[k as int]));
        if eval_and_condition(&c.0[k], ops) {
            return true;
        }
        k = k + 1;
    }
    false
}

pub open spec fn single_range(a: usize, b: usize) -> Seq<RangeListItem> {
    seq![RangeListItem::Range(Range { lower_val: Value(a), upper_val: Value(b) })]
}

/// For a range `a..b`, an `=`, `is` or `in` relation holds exactly when the
/// tested value is an integer of the set `{a, a+1, ..., b}`.
pub proof fn lemma_range_membership(
    e: Expression,
    op: Operator,
    a: usize,
    b: usize,
    ops: PluralOperands,
)
    requires
        op == Operator::EQ || op == Operator::Is || op == Operator::In,
    ensures
        ({
            let x = expression_value(ops, e);
            relation_holds(RelationView { expression: e, operator: op, range_list: single_range(a, b) }, ops)
                <==> !x.fractional && Set::new(|k: int| a <= k <= b).contains(x.whole)
        }),
{
    let x = expression_value(ops, e);
    let list = single_range(a, b);
    if a <= x.whole <= b {
        assert(item_contains(list[0], x.whole));
    }
}

/// For a range `a..b` and a tested value `x = p / q` (`q > 0`), a `within`
/// relation holds exactly when `a <= x <= b` over the rationals.
pub proof fn lemma_range_within(
    e: Expression,
    a: usize,
    b: usize,
    ops: PluralOperands,
    p: nat,
    q: nat,
)
    requires
        q > 0,
        expression_value(ops, e) == (Tested { whole: (p / q) as int, fractional: p % q != 0 }),
    ensures
        relation_holds(
            RelationView { expression: e, operator: Operator::Within, range_list: single_range(a, b) },
            ops,
        ) <==> (a * q <= p && p <= b * q),
{
    let list = single_range(a, b);
    let item = list[0];
    let x = Tested { whole: (p / q) as int, fractional: p % q != 0 };
    let w = p / q;
    let m = p % q;
    assert(p == w * q + m && 0 <= m < q) by (nonlinear_arith)
        requires
            q > 0,
            w == p / q,
            m == p % q,
    ;
    assert(item_within(item, x) <==> (a * q <= p && p <= b * q)) by (nonlinear_arith)
        requires
            p == w * q + m,
            0 <= m < q,
            item_within(item, x) <==> (a <= w && (w < b || (w == b && m == 0))),
    ;
    if item_within(item, x) {
        assert(item_within(list[0], x));
    }
}

} // verus!
