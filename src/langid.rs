use vstd::prelude::*;
use vstd::string::StringSliceAdditionalSpecFns;
use vstd::utf8::encode_utf8;

verus! {

/// `256^k`.
pub open spec fn pow256(k: nat) -> nat
    decreases k,
{
    if k == 0 {
        1
    } else {
        256 * pow256((k - 1) as nat)
    }
}

/// Little-endian value of the bytes of `s`: byte `k` weighs `256^k`.
pub open spec fn le_value(s: Seq<u8>) -> nat
    decreases s.len(),
{
    if s.len() == 0 {
        0
    } else {
        s[0] as nat + 256 * le_value(s.subrange(1, s.len() as int))
    }
}

/// The first `n` bytes of the little-endian representation of `v`.
pub open spec fn le_bytes(v: nat, n: nat) -> Seq<u8>
    decreases n,
{
    if n == 0 {
        Seq::empty()
    } else {
        seq![(v % 256) as u8] + le_bytes(v / 256, (n - 1) as nat)
    }
}

/// The prefix of `s` that fits in `width` bytes.
pub open spec fn clipped(s: Seq<u8>, width: nat) -> Seq<u8> {
    if s.len() <= width {
        s
    } else {
        s.subrange(0, width as int)
    }
}

/// A language identifier, as its subtags.
pub struct LangId {
    pub language: String,
    pub script: Option<String>,
    pub region: Option<String>,
}

/// A language identifier packed into integers: the language subtag in eight
/// bytes, the script and region subtags in four bytes each.
#[derive(Clone, Copy, Debug, PartialEq, Eq, Structural)]
pub struct EncodedLangId {
    pub language: u64,
    pub script: Option<u32>,
    pub region: Option<u32>,
}

/// The packed value of an optional subtag.
pub open spec fn packed_opt(s: Option<String>) -> Option<u32> {
    match s {
        Some(t) => Some(le_value(clipped(encode_utf8(t@), 4)) as u32),
        None => None,
    }
}

/// The packed form of a language identifier.
pub open spec fn encoded(id: LangId) -> EncodedLangId {
    EncodedLangId {
        language: le_value(clipped(encode_utf8(id.language@), 8)) as u64,
        script: packed_opt(id.script),
        region: packed_opt(id.region),
    }
}

pub proof fn lemma_le_value_bound(s: Seq<u8>)
    ensures
        le_value(s) < pow256(s.len()),
    decreases s.len(),
{
    if s.len() > 0 {
        let rest = s.subrange(1, s.len() as int);
        lemma_le_value_bound(rest);
        assert(pow256(s.len()) == 256 * pow256(rest.len()));
        assert(s[0] as nat + 256 * le_value(rest) < 256 * pow256(rest.len())) by (nonlinear_arith)
            requires
                s[0] < 256,
                le_value(rest) < pow256(rest.len()),
        ;
    }
}

/// Decoding the packed value of a subtag byte by byte gives the subtag back,
/// and nothing is left above its bytes.
pub proof fn lemma_encode_round_trip(s: Seq<u8>)
    ensures
        le_bytes(le_value(s), s.len()) == s,
        le_value(s) / pow256(s.len()) == 0,
    decreases s.len(),
{
    lemma_le_value_bound(s);
    if s.len() > 0 {
        let rest = s.subrange(1, s.len() as int);
        let v = le_value(s);
        let a = s[0] as nat;
        let b = le_value(rest);
        assert(v == a + 256 * b);
        assert(v % 256 == a && v / 256 == b) by (nonlinear_arith)
            requires
                v == a + 256 * b,
                a < 256,
        ;
        lemma_encode_round_trip(rest);
        assert(le_bytes(v, s.len()) =~= seq![s[0]] + rest);
        assert(s =~= seq![s[0]] + rest);
    }
    assert(le_value(s) / pow256(s.len()) == 0) by (nonlinear_arith)
        requires
            le_value(s) < pow256(s.len()),
    ;
}

proof fn lemma_pow256_monotone(a: nat, b: nat)
    requires
        a <= b,
    ensures
        pow256(a) <= pow256(b),
    decreases b,
{
    if a < b {
        lemma_pow256_monotone(a, (b - 1) as nat);
    }
}

/// Packs the first `width` bytes of `b` little-endian.
fn pack_le(b: &[u8], width: usize) -> (r: u64)
    requires
        width <= 8,
    ensures
        r as nat == le_value(clipped(b@, width as nat)),
{
    let n: usize = if b.len() <= width { b.len() } else { width };
    let ghost s = clipped(b@, width as nat);
    assert(s.len() == n);
    let mut acc: u64 = 0;
    let mut k: usize = n;
    while k > 0
        invariant
            k <= n,
            n <= 8,
            n <= b@.len(),
            s == b@.subrange(0, n as int),
            acc as nat == le_value(s.subrange(k as int, n as int)),
        decreases k,
    {
        let ghost tail = s.subrange(k as int, n as int);
        let ghost t2 = s.subrange(k - 1, n as int);
        assert(t2.subrange(1, t2.len() as int) =~= tail);
        proof {
            lemma_le_value_bound(t2);
            lemma_pow256_monotone(t2.len(), 8);
            reveal_with_fuel(pow256, 9);
            assert(pow256(8) == 0x1_0000_0000_0000_0000nat);
        }
        let byte = b[k - 1];
        assert(byte == t2[0]);
        acc = acc * 256 + byte as u64;
        k = k - 1;
    }
    assert(s.subrange(0, n as int) =~= s);
    acc
}

/// The little-endian value of the first eight bytes of `s`, zero above them.
pub fn str_to_u64(s: &str) -> (r: u64)
    ensures
        r as nat == le_value(clipped(s.spec_bytes(), 8)),
{
    pack_le(s.as_bytes(), 8)
}

/// The little-endian value of the first four bytes of `s`, zero above them.
pub fn str_to_u32(s: &str) -> (r: u32)
    ensures
        r as nat == le_value(clipped(s.spec_bytes(), 4)),
{
    let v = pack_le(s.as_bytes(), 4);
    proof {
        lemma_le_value_bound(clipped(s.spec_bytes(), 4));
        lemma_pow256_monotone(clipped(s.spec_bytes(), 4).len(), 4);
        reveal_with_fuel(pow256, 5);
        assert(pow256(4) == 0x1_0000_0000nat);
    }
    v as u32
}

fn pack_opt(s: &Option<String>) -> (r: Option<u32>)
    ensures
        r == packed_opt(*s),
{
    match s {
        Some(t) => Some(str_to_u32(t.as_str())),
        None => None,
    }
}

/// Packs each subtag of `id` into its integer.
pub fn gen_langid(id: &LangId) -> (r: EncodedLangId)
    ensures
        r.language as nat == le_value(clipped(encode_utf8(id.language@), 8)),
        r.script == packed_opt(id.script),
        r.region == packed_opt(id.region),
        r == encoded(*id),
{
    EncodedLangId {
        language: str_to_u64(id.language.as_str()),
        script: pack_opt(&id.script),
        region: pack_opt(&id.region),
    }
}

} // verus!
