use vstd::prelude::*;

verus! {

/// A non-negative integer literal of the rule grammar.
#[derive(Clone, Copy, Debug, PartialEq, Eq, Structural)]
pub struct Value(pub usize);

/// The inclusive integer range `lower_val..upper_val`.
#[derive(Clone, Copy, Debug, PartialEq, Eq, Structural)]
pub struct Range {
    pub lower_val: Value,
    pub upper_val: Value,
}

/// One element of a range list: a single value or a range.
#[derive(Clone, Copy, Debug, PartialEq, Eq, Structural)]
pub enum RangeListItem {
    Range(Range),
    Value(Value),
}

/// The right-hand side of a relation.
#[derive(Clone, Debug, PartialEq, Eq)]
pub struct RangeList(pub Vec<RangeListItem>);

impl View for RangeList {
    type V = Seq<RangeListItem>;

    open spec fn view(&self) -> Seq<RangeListItem> {
        self.0@
    }
}

/// The numeric facets of a number that a rule can test.
#[derive(Clone, Copy, Debug, PartialEq, Eq, Structural)]
pub enum Operand {
    /// Absolute value.
    N,
    /// Integer digits.
    I,
    /// Number of visible fraction digits, with trailing zeros.
    V,
    /// Number of visible fraction digits, without trailing zeros.
    W,
    /// Visible fraction digits, with trailing zeros, as an integer.
    F,
    /// Visible fraction digits, without trailing zeros, as an integer.
    T,
}

/// The modulus of an expression.
#[derive(Clone, Copy, Debug, PartialEq, Eq, Structural)]
pub struct Modulo(pub Value);

/// The left-hand side of a relation: an operand, optionally taken modulo a value.
#[derive(Clone, Copy, Debug, PartialEq, Eq, Structural)]
pub struct Expression {
    pub operand: Operand,
    pub modulus: Option<Modulo>,
}

#[derive(Clone, Copy, Debug, PartialEq, Eq, Structural)]
pub enum Operator {
    EQ,
    NotEQ,
    In,
    NotIn,
    Within,
    NotWithin,
    Is,
    IsNot,
}

/// One atomic test.
#[derive(Clone, Debug, PartialEq, Eq)]
pub struct Relation {
    pub expression: Expression,
    pub operator: Operator,
    pub range_list: RangeList,
}

/// The mathematical content of a relation.
pub struct RelationView {
    pub expression: Expression,
    pub operator: Operator,
    pub range_list: Seq<RangeListItem>,
}

impl View for Relation {
    type V = RelationView;

    open spec fn view(&self) -> RelationView {
        RelationView {
            expression: self.expression,
            operator: self.operator,
            range_list: self.range_list@,
        }
    }
}

/// A conjunction of relations.
#[derive(Clone, Debug, PartialEq, Eq)]
pub struct AndCondition(pub Vec<Relation>);

impl View for AndCondition {
    type V = Seq<RelationView>;

    open spec fn view(&self) -> Seq<RelationView> {
        self.0@.map_values(|r: Relation| r@)
    }
}

/// A disjunction of conjunctions; empty means always true.
#[derive(Clone, Debug, PartialEq, Eq)]
pub struct Condition(pub Vec<AndCondition>);

impl View for Condition {
    type V = Seq<Seq<RelationView>>;

    open spec fn view(&self) -> Seq<Seq<RelationView>> {
        self.0@.map_values(|a: AndCondition| a@)
    }
}

/// A sample number: integer digits and optional fraction digits.
#[derive(Clone, Copy, Debug, PartialEq, Eq, Structural)]
pub struct DecimalValue {
    pub integer: Value,
    pub decimal: Option<Value>,
}

/// A sample number or a `~`-joined pair of them.
#[derive(Clone, Copy, Debug, PartialEq, Eq, Structural)]
pub struct SampleRange {
    pub lower_val: DecimalValue,
    pub upper_val: Option<DecimalValue>,
}

/// A list of samples, with a flag for a trailing ellipsis.
#[derive(Clone, Debug, PartialEq, Eq)]
pub struct SampleList {
    pub sample_ranges: Vec<SampleRange>,
    pub ellipsis: bool,
}

pub struct SampleListView {
    pub sample_ranges: Seq<SampleRange>,
    pub ellipsis: bool,
}

impl View for SampleList {
    type V = SampleListView;

    open spec fn view(&self) -> SampleListView {
        SampleListView { sample_ranges: self.sample_ranges@, ellipsis: self.ellipsis }
    }
}

/// The `@integer` and `@decimal` sample clauses of a rule.
#[derive(Clone, Debug, PartialEq, Eq)]
pub struct Samples {
    pub integer: Option<SampleList>,
    pub decimal: Option<SampleList>,
}

pub struct SamplesView {
    pub integer: Option<SampleListView>,
    pub decimal: Option<SampleListView>,
}

pub open spec fn opt_list_view(l: Option<SampleList>) -> Option<SampleListView> {
    match l {
        Some(x) => Some(x@),
        None => None,
    }
}

impl View for Samples {
    type V = SamplesView;

    open spec fn view(&self) -> SamplesView {
        SamplesView { integer: opt_list_view(self.integer), decimal: opt_list_view(self.decimal) }
    }
}

/// A category's condition with its documentation samples.
#[derive(Clone, Debug, PartialEq, Eq)]
pub struct Rule {
    pub condition: Condition,
    pub samples: Option<Samples>,
}

pub struct RuleView {
    pub condition: Seq<Seq<RelationView>>,
    pub samples: Option<SamplesView>,
}

pub open spec fn opt_samples_view(s: Option<Samples>) -> Option<SamplesView> {
    match s {
        Some(x) => Some(x@),
        None => None,
    }
}

impl View for Rule {
    type V = RuleView;

    open spec fn view(&self) -> RuleView {
        RuleView { condition: self.condition@, samples: opt_samples_view(self.samples) }
    }
}

} // verus!
