use vstd::prelude::*;
use vstd::utf8::encode_utf8;
use crate::ast::{Condition, RelationView};
use crate::eval::{condition_holds, condition_ok, eval_condition, PluralOperands};
use crate::langid::{encoded, gen_langid, EncodedLangId, LangId};
use crate::number::{all_digits, decimal_value, is_digit, read_decimal};

verus! {

/// The grammatical plural categories, in the order in which they are tested.
#[derive(Clone, Copy, Debug, PartialEq, Eq, Structural)]
pub enum PluralCategory {
    ZERO,
    ONE,
    TWO,
    FEW,
    MANY,
    OTHER,
}

/// The category chosen for `ops` by a chain of (category, condition) pairs:
/// the category of the first pair whose condition holds, else `OTHER`.
pub open spec fn decide(
    pairs: Seq<(PluralCategory, Seq<Seq<RelationView>>)>,
    ops: PluralOperands,
) -> PluralCategory
    decreases pairs.len(),
{
    if pairs.len() == 0 {
        PluralCategory::OTHER
    } else if condition_holds(pairs[0].1, ops) {
        pairs[0].0
    } else {
        decide(pairs.subrange(1, pairs.len() as int), ops)
    }
}

pub open spec fn pairs_view(v: Seq<(PluralCategory, Condition)>) -> Seq<
    (PluralCategory, Seq<Seq<RelationView>>),
> {
    v.map_values(|p: (PluralCategory, Condition)| (p.0, p.1@))
}

pub open spec fn pairs_ok(p: Seq<(PluralCategory, Seq<Seq<RelationView>>)>) -> bool {
    forall|k: int| 0 <= k < p.len() ==> condition_ok(#[trigger] p[k].1)
}

/// The decision procedure of one locale: its packed identifier and the
/// (category, condition) pairs tested in order.
pub struct PluralRule {
    pub langid: EncodedLangId,
    pub rules: Vec<(PluralCategory, Condition)>,
}

impl PluralRule {
    pub open spec fn chain(&self) -> Seq<(PluralCategory, Seq<Seq<RelationView>>)> {
        pairs_view(self.rules@)
    }

    /// The category for `ops`: the first pair whose condition holds decides.
    pub fn select(&self, ops: &PluralOperands) -> (r: PluralCategory)
        requires
            pairs_ok(self.chain()),
        ensures
            r == decide(self.chain(), *ops),
            self.chain().len() == 0 ==> r == PluralCategory::OTHER,
    {
        let ghost p = self.chain();
        let mut k: usize = 0;
        assert(p.subrange(0, p.len() as int) =~= p);
        while k < self.rules.len()
            invariant
                k <= p.len(),
                p == self.chain(),
                p.len() == self.rules@.len(),
                pairs_ok(p),
                decide(p, *ops) == decide(p.subrange(k as int, p.len() as int), *ops),
            decreases p.len() - k,
        {
            let ghost rest = p.subrange(k as int, p.len() as int);
            assert(rest.subrange(1, rest.len() as int) =~= p.subrange(k + 1, p.len() as int));
            assert(p[k as int].1 == self.rules@[k as int].1@);
            assert(condition_ok(p[k as int].1));
            if eval_condition(&self.rules[k].1, ops) {
                return self.rules[k].0;
            }
            k = k + 1;
        }
        PluralCategory::OTHER
    }
}

/// Builds the decision procedure of a locale from its pairs, which are tested
/// in the order given.
pub fn gen_mid(lang: &LangId, pluralrule_set: Vec<(PluralCategory, Condition)>) -> (r: PluralRule)
    ensures
        r.langid == encoded(*lang),
        r.rules@ == pluralrule_set@,
{
    PluralRule { langid: gen_langid(lang), rules: pluralrule_set }
}

/// The decision procedure never hesitates: it returns the category of the
/// first pair, in the order given, whose condition holds, and `OTHER` when
/// none holds, even where several conditions hold.
pub proof fn lemma_first_match_decides(
    pairs: Seq<(PluralCategory, Seq<Seq<RelationView>>)>,
    ops: PluralOperands,
    j: int,
)
    requires
        0 <= j < pairs.len(),
        condition_holds(pairs[j].1, ops),
        forall|k: int| 0 <= k < j ==> !condition_holds(#[trigger] pairs[k].1, ops),
    ensures
        decide(pairs, ops) == pairs[j].0,
    decreases j,
{
    if j > 0 {
        let rest = pairs.subrange(1, pairs.len() as int);
        assert(!condition_holds(pairs[0].1, ops));
        assert forall|k: int| 0 <= k < j - 1 implies !condition_holds(#[trigger] rest[k].1, ops) by {
            assert(rest[k] == pairs[k + 1]);
        }
        lemma_first_match_decides(rest, ops, j - 1);
    }
}

/// When no condition of the chain holds, the decision is `OTHER`.
pub proof fn lemma_no_match_is_other(
    pairs: Seq<(PluralCategory, Seq<Seq<RelationView>>)>,
    ops: PluralOperands,
)
    requires
        forall|k: int| 0 <= k < pairs.len() ==> !condition_holds(#[trigger] pairs[k].1, ops),
    ensures
        decide(pairs, ops) == PluralCategory::OTHER,
    decreases pairs.len(),
{
    if pairs.len() > 0 {
        let rest = pairs.subrange(1, pairs.len() as int);
        assert(!condition_holds(pairs[0].1, ops));
        assert forall|k: int| 0 <= k < rest.len() implies !condition_holds(#[trigger] rest[k].1, ops) by {
            assert(rest[k] == pairs[k + 1]);
        }
        lemma_no_match_is_other(rest, ops);
    }
}

/// A locale with no pairs always gets `OTHER`.
pub proof fn lemma_empty_chain_is_other(ops: PluralOperands)
    ensures
        decide(Seq::empty(), ops) == PluralCategory::OTHER,
{
}

/// The two families of plural rules.
#[derive(Clone, Copy, Debug, PartialEq, Eq, Structural)]
pub enum RuleType {
    Cardinal,
    Ordinal,
}

#[derive(Clone, Copy, Debug, PartialEq, Eq, Structural)]
pub enum GenError {
    /// The data version is not a decimal integer that fits an `isize`.
    InvalidVersion,
    /// A rule type other than `cardinal` and `ordinal`.
    UnknownRuleType,
}

pub open spec fn cardinal_bytes() -> Seq<u8> {
    seq![99u8, 97, 114, 100, 105, 110, 97, 108]
}

pub open spec fn ordinal_bytes() -> Seq<u8> {
    seq![111u8, 114, 100, 105, 110, 97, 108]
}

/// The rule type that a label (as UTF-8 bytes) names.
pub open spec fn rule_type_of(b: Seq<u8>) -> Option<RuleType> {
    if b == cardinal_bytes() {
        Some(RuleType::Cardinal)
    } else if b == ordinal_bytes() {
        Some(RuleType::Ordinal)
    } else {
        None
    }
}

fn bytes_equal(a: &[u8], b: &Vec<u8>) -> (r: bool)
    ensures
        r == (a@ == b@),
{
    if a.len() != b.len() {
        return false;
    }
    let mut k: usize = 0;
    while k < a.len()
        invariant
            k <= a@.len(),
            a@.len() == b@.len(),
            forall|q: int| 0 <= q < k ==> a@[q] == b@[q],
        decreases a@.len() - k,
    {
        if a[k] != b[k] {
            return false;
        }
        k = k + 1;
    }
    assert(a@ =~= b@);
    true
}

/// The rule type that the label `pr_type` names, if any.
pub fn parse_rule_type(pr_type: &str) -> (r: Option<RuleType>)
    ensures
        r == rule_type_of(encode_utf8(pr_type@)),
{
    let b = pr_type.as_bytes();
    let c = vec![99u8, 97, 114, 100, 105, 110, 97, 108];
    let o = vec![111u8, 114, 100, 105, 110, 97, 108];
    assert(c@ =~= cardinal_bytes());
    assert(o@ =~= ordinal_bytes());
    if bytes_equal(b, &c) {
        Some(RuleType::Cardinal)
    } else if bytes_equal(b, &o) {
        Some(RuleType::Ordinal)
    } else {
        None
    }
}

pub open spec fn isize_max() -> nat {
    0x7fff_ffff_ffff_ffff
}

/// The version tag that a decimal `isize` literal gives, as its value taken
/// modulo `2^64`; `None` where the text is no such literal.
pub open spec fn version_of(b: Seq<u8>) -> Option<u64> {
    let neg = b.len() > 0 && b[0] == 45;
    let signed = b.len() > 0 && (b[0] == 45 || b[0] == 43);
    let d = if signed {
        b.subrange(1, b.len() as int)
    } else {
        b
    };
    if d.len() == 0 || !all_digits(d) {
        None
    } else if !neg && decimal_value(d) <= isize_max() {
        Some(decimal_value(d) as u64)
    } else if neg && decimal_value(d) == 0 {
        Some(0)
    } else if neg && decimal_value(d) <= isize_max() + 1 {
        Some((0x1_0000_0000_0000_0000 - decimal_value(d)) as u64)
    } else {
        None
    }
}

/// Reads the data version tag.
pub fn parse_version(vr: &str) -> (r: Option<u64>)
    ensures
        r == version_of(encode_utf8(vr@)),
{
    let b = vr.as_bytes();
    let ghost bs = b@;
    let neg = b.len() > 0 && b[0] == 45;
    let start: usize = if b.len() > 0 && (b[0] == 45 || b[0] == 43) { 1 } else { 0 };
    let ghost d = bs.subrange(start as int, bs.len() as int);
    if start == 0 {
        assert(d =~= bs);
    }
    assert(d.len() == b@.len() - start);
    if b.len() == start {
        return None;
    }
    let mut k: usize = start;
    while k < b.len()
        invariant
            start <= k <= b@.len(),
            start < b@.len(),
            b@ == encode_utf8(vr@),
            start == (if b@.len() > 0 && (b@[0] == 45 || b@[0] == 43) { 1int } else { 0int }),
            d == b@.subrange(start as int, b@.len() as int),
            forall|q: int| start <= q < k ==> is_digit(#[trigger] b@[q]),
        decreases b@.len() - k,
    {
        if b[k] < 48 || b[k] > 57 {
            assert(!is_digit(d[k - start]));
            return None;
        }
        k = k + 1;
    }
    assert(all_digits(d)) by {
        assert forall|q: int| 0 <= q < d.len() implies is_digit(#[trigger] d[q]) by {
            assert(d[q] == b@[q + start]);
        }
    }
    let limit: u64 = if neg { 0x8000_0000_0000_0000 } else { 0x7fff_ffff_ffff_ffff };
    match read_decimal(b, start, b.len(), limit) {
        None => None,
        Some(v) => {
            if neg && v > 0 {
                Some(0xffff_ffff_ffff_ffff - (v - 1))
            } else {
                Some(v)
            }
        },
    }
}

/// The generated tables: one ordered list of locale decision procedures per
/// rule type, and the data version.
pub struct Registry {
    pub version: u64,
    pub tables: Vec<(RuleType, Vec<PluralRule>)>,
}

pub open spec fn label_type(e: (String, Vec<PluralRule>)) -> Option<RuleType> {
    rule_type_of(encode_utf8(e.0@))
}

/// Assembles the registry from the decision procedures grouped by rule-type
/// label, keeping their order.
pub fn gen_fn(streams: Vec<(String, Vec<PluralRule>)>, vr: &str) -> (r: Result<
    Registry,
    GenError,
>)
    ensures
        version_of(encode_utf8(vr@)) is None ==> r == Err::<Registry, GenError>(
            GenError::InvalidVersion,
        ),
        version_of(encode_utf8(vr@)) is Some ==> ((r == Err::<Registry, GenError>(
            GenError::UnknownRuleType,
        )) <==> exists|k: int| 0 <= k < streams@.len() && #[trigger] label_type(streams@[k]) is None),
        r is Ok ==> ({
            let reg = r->Ok_0;
            &&& Some(reg.version) == version_of(encode_utf8(vr@))
            &&& reg.tables@.len() == streams@.len()
            &&& forall|k: int|
                0 <= k < streams@.len() ==> Some(#[trigger] reg.tables@[k].0) == label_type(
                    streams@[k],
                ) && reg.tables@[k].1 == streams@[k].1
        }),
        version_of(encode_utf8(vr@)) is Some && (forall|k: int|
            0 <= k < streams@.len() ==> #[trigger] label_type(streams@[k]) is Some) ==> r is Ok,
{
    let version = match parse_version(vr) {
        Some(v) => v,
        None => {
            return Err(GenError::InvalidVersion);
        },
    };
    let ghost orig = streams@;
    let n = streams.len();
    let mut pending = streams;
    let mut tables: Vec<(RuleType, Vec<PluralRule>)> = Vec::new();
    let mut k: usize = 0;
    while pending.len() > 0
        invariant
            orig == streams@,
            orig.len() == n,
            k + pending@.len() == orig.len(),
            version_of(encode_utf8(vr@)) == Some(version),
            pending@ == orig.subrange(k as int, orig.len() as int),
            tables@.len() == k,
            forall|q: int|
                0 <= q < k ==> Some(#[trigger] tables@[q].0) == label_type(orig[q])
                    && tables@[q].1 == orig[q].1,
        decreases pending@.len(),
    {
        let (label, rules) = pending.remove(0);
        assert(orig[k as int].0 == label && orig[k as int].1 == rules);
        match parse_rule_type(label.as_str()) {
            Some(t) => {
                tables.push((t, rules));
            },
            None => {
                assert(label_type(orig[k as int]) is None);
                return Err(GenError::UnknownRuleType);
            },
        }
        k = k + 1;
    }
    assert forall|q: int| 0 <= q < orig.len() implies #[trigger] label_type(orig[q]) is Some by {
        assert(Some(tables@[q].0) == label_type(orig[q]));
    }
    Ok(Registry { version, tables })
}

} // verus!
