//! Feature sets: named capability flags, each at a bit index, encoded as a
//! `u16` byte count and a big-endian bit vector.

use vstd::prelude::*;

use crate::endian::{be_bytes, lemma_pow256_16};
use crate::items::{parse_fixed, read_sized};
use crate::reader::PeekReader;
use crate::wire::{WireError, WireItem};

verus! {

/// A capability that peers announce to each other.
#[derive(Clone, Copy, Debug, PartialEq, Eq, Structural, PartialOrd, Ord, Hash)]
pub enum Feature {
    DataLossProtectRequired,
    DataLossProtectOptional,
    InitialRoutingSync,
    GossipQueriesRequired,
    GossipQueriesOptional,
}

/// One past the highest bit index of a known feature.
pub const FEATURE_INDEX_BOUND: usize = 8;

impl Feature {
    /// The bit index of the feature.
    pub open spec fn spec_idx(self) -> nat {
        match self {
            Feature::DataLossProtectRequired => 0,
            Feature::DataLossProtectOptional => 1,
            Feature::InitialRoutingSync => 3,
            Feature::GossipQueriesRequired => 6,
            Feature::GossipQueriesOptional => 7,
        }
    }

    /// The bit index of the feature.
    pub fn idx(&self) -> (i: usize)
        ensures
            i == self.spec_idx(),
    {
        match self {
            Feature::DataLossProtectRequired => 0,
            Feature::DataLossProtectOptional => 1,
            Feature::InitialRoutingSync => 3,
            Feature::GossipQueriesRequired => 6,
            Feature::GossipQueriesOptional => 7,
        }
    }
}

/// The feature at bit index `i`, if any.
pub open spec fn feature_at(i: int) -> Option<Feature> {
    if i == 0 {
        Some(Feature::DataLossProtectRequired)
    } else if i == 1 {
        Some(Feature::DataLossProtectOptional)
    } else if i == 3 {
        Some(Feature::InitialRoutingSync)
    } else if i == 6 {
        Some(Feature::GossipQueriesRequired)
    } else if i == 7 {
        Some(Feature::GossipQueriesOptional)
    } else {
        None
    }
}

/// The feature at bit index `i`, if any.
pub fn feature_from_idx(i: usize) -> (f: Option<Feature>)
    ensures
        f == feature_at(i as int),
{
    if i == 0 {
        Some(Feature::DataLossProtectRequired)
    } else if i == 1 {
        Some(Feature::DataLossProtectOptional)
    } else if i == 3 {
        Some(Feature::InitialRoutingSync)
    } else if i == 6 {
        Some(Feature::GossipQueriesRequired)
    } else if i == 7 {
        Some(Feature::GossipQueriesOptional)
    } else {
        None
    }
}

/// Each feature sits at its own index, below `FEATURE_INDEX_BOUND`.
pub proof fn lemma_feature_at_idx(f: Feature)
    ensures
        feature_at(f.spec_idx() as int) == Some(f),
        f.spec_idx() < FEATURE_INDEX_BOUND,
{
}

/// Whether `s` holds a feature at bit index `i`.
pub open spec fn has_idx(s: Set<Feature>, i: int) -> bool {
    match feature_at(i) {
        Some(f) => s.contains(f),
        None => false,
    }
}

/// One past the highest index below `i` at which `s` holds a feature, or 0.
pub open spec fn top_below(s: Set<Feature>, i: nat) -> nat
    decreases i,
{
    if i == 0 {
        0
    } else if has_idx(s, i - 1) {
        i
    } else {
        top_below(s, (i - 1) as nat)
    }
}

/// The number of bytes that the bit vector of `s` takes.
pub open spec fn feature_len(s: Set<Feature>) -> nat {
    let top = top_below(s, FEATURE_INDEX_BOUND as nat);
    if top == 0 {
        0
    } else {
        ((top - 1) / 8 + 1) as nat
    }
}

/// Bits `b..8` of byte `k` (counted from the low end of the vector) of the
/// bit vector of `s`, as a number.
pub open spec fn feature_byte(s: Set<Feature>, k: nat, b: nat) -> nat
    decreases 8 - b,
{
    if b >= 8 {
        0
    } else {
        (if has_idx(s, (8 * k + b) as int) {
            1nat
        } else {
            0nat
        }) + 2 * feature_byte(s, k, b + 1)
    }
}

/// The bit vector of `s`, `len` bytes long, most significant byte first.
pub open spec fn feature_body(s: Set<Feature>, len: nat) -> Seq<u8> {
    Seq::new(len, |p: int| feature_byte(s, (len - 1 - p) as nat, 0) as u8)
}

/// Whether bit `b` of `x` is set.
pub open spec fn bit_at(x: nat, b: nat) -> bool
    decreases b,
{
    if b == 0 {
        x % 2 == 1
    } else {
        bit_at(x / 2, (b - 1) as nat)
    }
}

/// The bit index that bit `b` of byte `p` stands for, in a vector of `len`
/// bytes whose first byte is the most significant.
pub open spec fn body_index(len: nat, p: int, b: int) -> int {
    8 * (len - 1 - p) + b
}

/// Whether the vector `body` sets a bit that no known feature has.
pub open spec fn has_unknown_bit(body: Seq<u8>) -> bool {
    exists|p: int, b: int|
        0 <= p < body.len() && 0 <= b < 8 && #[trigger] bit_at(body[p] as nat, b as nat)
            && feature_at(body_index(body.len(), p, b)) is None
}

/// The features whose bits `body` sets.
pub open spec fn body_features(body: Seq<u8>) -> Set<Feature> {
    Set::new(
        |f: Feature|
            f.spec_idx() / 8 < body.len() && bit_at(
                body[body.len() - 1 - f.spec_idx() / 8] as nat,
                f.spec_idx() % 8,
            ),
    )
}

/// A set of features.
#[derive(Clone, Debug)]
pub struct RawFeatureVector {
    features: Vec<Feature>,
}

impl View for RawFeatureVector {
    type V = Set<Feature>;

    closed spec fn view(&self) -> Set<Feature> {
        Set::new(|f: Feature| self.features@.contains(f))
    }
}

impl RawFeatureVector {
    /// The empty set.
    pub fn new() -> (v: Self)
        ensures
            v@ == Set::<Feature>::empty(),
    {
        let v = RawFeatureVector { features: Vec::new() };
        assert(v@ =~= Set::<Feature>::empty());
        v
    }

    /// Whether the set holds `f`.
    pub fn contains(&self, f: Feature) -> (r: bool)
        ensures
            r == self@.contains(f),
    {
        let mut i: usize = 0;
        while i < self.features.len()
            invariant
                forall|j: int| 0 <= j < i ==> self.features@[j] != f,
            decreases self.features@.len() - i,
        {
            if self.features[i] == f {
                return true;
            }
            i = i + 1;
        }
        false
    }

    /// Adds `f`; returns whether it was not there yet.
    pub fn add(&mut self, f: Feature) -> (added: bool)
        ensures
            final(self)@ == old(self)@.insert(f),
            added == !old(self)@.contains(f),
    {
        if self.contains(f) {
            assert(self@ =~= old(self)@.insert(f));
            false
        } else {
            self.features.push(f);
            assert(self@ =~= old(self)@.insert(f)) by {
                assert(self.features@.last() == f);
                assert forall|g: Feature| old(self)@.contains(g) implies self.features@.contains(g) by {
                    let j = choose|j: int| 0 <= j < old(self).features@.len() && old(self).features@[j] == g;
                    assert(self.features@[j] == g);
                }
            }
            true
        }
    }

    /// Whether the set holds a feature at bit index `i`.
    fn has_idx(&self, i: usize) -> (r: bool)
        ensures
            r == has_idx(self@, i as int),
    {
        match feature_from_idx(i) {
            Some(f) => self.contains(f),
            None => false,
        }
    }
}

/// 2 to the power `n`.
pub open spec fn two_pow(n: nat) -> nat
    decreases n,
{
    if n == 0 {
        1
    } else {
        2 * two_pow((n - 1) as nat)
    }
}

proof fn lemma_feature_byte_bound(s: Set<Feature>, k: nat, b: nat)
    requires
        b <= 8,
    ensures
        feature_byte(s, k, b) < two_pow((8 - b) as nat),
    decreases 8 - b,
{
    if b < 8 {
        lemma_feature_byte_bound(s, k, b + 1);
    }
}

proof fn lemma_two_pow_8()
    ensures
        two_pow(8) == 256,
        two_pow(7) == 128,
{
    reveal_with_fuel(two_pow, 9);
}

proof fn lemma_two_pow_monotonic(a: nat, b: nat)
    requires
        a <= b,
    ensures
        two_pow(a) <= two_pow(b),
    decreases b,
{
    if a < b {
        lemma_two_pow_monotonic(a, (b - 1) as nat);
    }
}

/// Bit `b` of `feature_byte(s, k, j)` tells whether `s` holds index `8k + j + b`.
proof fn lemma_bit_of_feature_byte(s: Set<Feature>, k: nat, j: nat, b: nat)
    requires
        j + b < 8,
    ensures
        bit_at(feature_byte(s, k, j), b) == has_idx(s, (8 * k + j + b) as int),
    decreases b,
{
    if b > 0 {
        lemma_bit_of_feature_byte(s, k, j + 1, (b - 1) as nat);
    }
}

proof fn lemma_top_below(s: Set<Feature>, i: nat, x: nat)
    ensures
        top_below(s, i) <= i,
        x < i && has_idx(s, x as int) ==> x < top_below(s, i),
    decreases i,
{
    if i > 0 {
        lemma_top_below(s, (i - 1) as nat, x);
    }
}

proof fn lemma_feature_at_inverse(i: int, f: Feature)
    requires
        feature_at(i) == Some(f),
    ensures
        f.spec_idx() == i,
{
}

proof fn lemma_unknown_bit(body: Seq<u8>, p: int, b: int)
    requires
        0 <= p < body.len(),
        0 <= b < 8,
        bit_at(body[p] as nat, b as nat),
        feature_at(body_index(body.len(), p, b)) is None,
    ensures
        has_unknown_bit(body),
{
}

/// Whether bit `b` of `x` is set.
fn bit_set(x: u8, b: usize) -> (r: bool)
    ensures
        r == bit_at(x as nat, b as nat),
    decreases b,
{
    if b == 0 {
        x % 2 == 1
    } else {
        bit_set(x / 2, b - 1)
    }
}

/// The features of the bytes before `p`, and of bits below `b` of byte `p`,
/// of the vector `body`.
pub open spec fn features_upto(body: Seq<u8>, p: int, b: int) -> Set<Feature> {
    Set::new(
        |f: Feature|
            {
                let q = body.len() - 1 - f.spec_idx() / 8;
                &&& f.spec_idx() / 8 < body.len()
                &&& (q < p || (q == p && f.spec_idx() % 8 < b))
                &&& bit_at(body[q] as nat, f.spec_idx() % 8)
            },
    )
}

impl RawFeatureVector {
    /// Byte `k` of the bit vector, counted from the low end.
    fn feature_byte(&self, k: usize) -> (byte: u8)
        requires
            k < FEATURE_INDEX_BOUND,
        ensures
            byte == feature_byte(self@, k as nat, 0),
    {
        let mut acc: u16 = 0;
        let mut b: usize = 8;
        while b > 0
            invariant
                k < FEATURE_INDEX_BOUND,
                b <= 8,
                acc == feature_byte(self@, k as nat, b as nat),
                acc < two_pow((8 - b) as nat),
            decreases b,
        {
            b = b - 1;
            proof {
                lemma_two_pow_8();
                lemma_two_pow_monotonic((7 - b) as nat, 7);
            }
            let h: u16 = if self.has_idx(8 * k + b) {
                1
            } else {
                0
            };
            acc = h + 2 * acc;
        }
        proof {
            lemma_two_pow_8();
        }
        acc as u8
    }
}

impl WireItem for RawFeatureVector {
    open spec fn wire_valid(v: Set<Feature>) -> bool {
        true
    }

    open spec fn wire_bytes(v: Set<Feature>) -> Seq<u8> {
        be_bytes(feature_len(v), 2) + feature_body(v, feature_len(v))
    }

    open spec fn wire_parse(input: Seq<u8>) -> Result<(Set<Feature>, nat), WireError> {
        match parse_fixed(input, 2) {
            Err(e) => Err(e),
            Ok((len, k)) => {
                if input.len() < 2 + len {
                    Err(WireError::UnexpectedEof)
                } else {
                    let body = input.subrange(2, 2 + len as int);
                    if has_unknown_bit(body) {
                        Err(WireError::InvalidData)
                    } else {
                        Ok((body_features(body), 2 + len))
                    }
                }
            },
        }
    }

    proof fn lemma_round_trip(v: Set<Feature>, rest: Seq<u8>) {
        let len = feature_len(v);
        let top = top_below(v, FEATURE_INDEX_BOUND as nat);
        lemma_top_below(v, FEATURE_INDEX_BOUND as nat, 0);
        lemma_pow256_16();
        crate::endian::lemma_be_bytes_len(len, 2);
        let input = Self::wire_bytes(v) + rest;
        assert(input.take(2) =~= be_bytes(len, 2));
        crate::endian::lemma_be_round_trip(len, 2);
        let body = input.subrange(2, 2 + len as int);
        assert(body =~= feature_body(v, len));
        lemma_two_pow_8();
        assert forall|p: int, b: int|
            0 <= p < body.len() && 0 <= b < 8 && #[trigger] bit_at(body[p] as nat, b as nat) implies feature_at(
            body_index(body.len(), p, b),
        ) is Some by {
            lemma_feature_byte_bound(v, (len - 1 - p) as nat, 0);
            lemma_bit_of_feature_byte(v, (len - 1 - p) as nat, 0, b as nat);
        }
        assert(body_features(body) =~= v) by {
            assert forall|f: Feature| #[trigger] v.contains(f) == body_features(body).contains(f) by {
                lemma_feature_at_idx(f);
                lemma_top_below(v, FEATURE_INDEX_BOUND as nat, f.spec_idx());
                let i = f.spec_idx();
                if i / 8 < len {
                    let p = len - 1 - i / 8;
                    lemma_feature_byte_bound(v, i / 8, 0);
                    lemma_bit_of_feature_byte(v, i / 8, 0, i % 8);
                }
            }
        }
    }

    fn encode(&self, out: &mut Vec<u8>) -> (count: usize) {
        let start = out.len();
        let ghost s = self@;
        let mut top: usize = FEATURE_INDEX_BOUND;
        loop
            invariant
                top <= FEATURE_INDEX_BOUND,
                top_below(s, FEATURE_INDEX_BOUND as nat) == top_below(s, top as nat),
                s == self@,
            ensures
                top <= FEATURE_INDEX_BOUND,
                top_below(s, FEATURE_INDEX_BOUND as nat) == top,
            decreases top,
        {
            if top == 0 {
                break;
            }
            if self.has_idx(top - 1) {
                break;
            }
            top = top - 1;
        }
        let len: usize = if top == 0 {
            0
        } else {
            (top - 1) / 8 + 1
        };
        assert(len == feature_len(s));
        proof {
            lemma_pow256_16();
        }
        crate::endian::write_be(out, len as u128, 2);
        let ghost head = out@;
        let mut p: usize = 0;
        while p < len
            invariant
                len <= 1,
                p <= len,
                len == feature_len(s),
                s == self@,
                out@ == head + feature_body(s, len as nat).take(p as int),
            decreases len - p,
        {
            let byte = self.feature_byte(len - 1 - p);
            out.push(byte);
            p = p + 1;
            assert(out@ =~= head + feature_body(s, len as nat).take(p as int));
        }
        assert(feature_body(s, len as nat).take(p as int) =~= feature_body(s, len as nat));
        assert(out@ =~= old(out)@ + Self::wire_bytes(self@));
        out.len() - start
    }

    fn decode(r: &mut PeekReader) -> (res: Result<RawFeatureVector, WireError>) {
        let ghost input = old(r).stream();
        let len = u16::decode(r)?;
        proof {
            crate::endian::lemma_be_value_bound(input.take(2));
            lemma_pow256_16();
        }
        let body = read_sized(r, len as u64)?;
        proof {
            assert(body@ =~= input.subrange(2, 2 + len as int));
            crate::wire::lemma_skip_skip(input, 2, len as int);
        }
        let mut fv = RawFeatureVector::new();
        let n = len as usize;
        let mut p: usize = 0;
        while p < n
            invariant
                r.wf(),
                input == old(r).stream(),
                parse_fixed(input, 2) == Ok::<(nat, nat), WireError>((n as nat, 2)),
                input.len() >= 2 + n,
                body@ == input.subrange(2, 2 + n as int),
                r.stream() == input.skip(2 + n as int),
                body@.len() == n,
                p <= n,
                fv@ == features_upto(body@, p as int, 0),
                forall|p2: int, b2: int|
                    0 <= p2 < p && 0 <= b2 < 8 && #[trigger] bit_at(body@[p2] as nat, b2 as nat)
                        ==> feature_at(body_index(n as nat, p2, b2)) is Some,
            decreases n - p,
        {
            let byte = body[p];
            let k = n - 1 - p;
            let mut b: usize = 0;
            while b < 8
                invariant
                    r.wf(),
                    input == old(r).stream(),
                    parse_fixed(input, 2) == Ok::<(nat, nat), WireError>((n as nat, 2)),
                    input.len() >= 2 + n,
                    body@ == input.subrange(2, 2 + n as int),
                    r.stream() == input.skip(2 + n as int),
                    body@.len() == n,
                    p < n,
                    k == n - 1 - p,
                    byte == body@[p as int],
                    b <= 8,
                    fv@ == features_upto(body@, p as int, b as int),
                    forall|p2: int, b2: int|
                        (0 <= p2 < p && 0 <= b2 < 8 || p2 == p && 0 <= b2 < b) && #[trigger] bit_at(
                            body@[p2] as nat,
                            b2 as nat,
                        ) ==> feature_at(body_index(n as nat, p2, b2)) is Some,
                decreases 8 - b,
            {
                if bit_set(byte, b) {
                    // No known feature sits in this byte.
                    if k >= FEATURE_INDEX_BOUND {
                        proof {
                            lemma_unknown_bit(body@, p as int, b as int);
                        }
                        return Err(WireError::InvalidData);
                    }
                    match feature_from_idx(8 * k + b) {
                        None => {
                            proof {
                                lemma_unknown_bit(body@, p as int, b as int);
                            }
                            return Err(WireError::InvalidData);
                        },
                        Some(f) => {
                            proof {
                                lemma_feature_at_inverse((8 * k + b) as int, f);
                            }
                            fv.add(f);
                            proof {
                                assert forall|g: Feature|
                                    #[trigger] fv@.contains(g) == features_upto(
                                        body@,
                                        p as int,
                                        b + 1,
                                    ).contains(g) by {
                                    lemma_feature_at_idx(g);
                                }
                                assert(fv@ =~= features_upto(body@, p as int, b + 1));
                            }
                        },
                    }
                } else {
                    proof {
                        assert forall|g: Feature|
                            #[trigger] fv@.contains(g) == features_upto(body@, p as int, b + 1).contains(
                                g,
                            ) by {
                            lemma_feature_at_idx(g);
                        }
                        assert(fv@ =~= features_upto(body@, p as int, b + 1));
                    }
                }
                b = b + 1;
            }
            proof {
                assert forall|g: Feature|
                    #[trigger] fv@.contains(g) == features_upto(body@, p + 1, 0).contains(g) by {
                    lemma_feature_at_idx(g);
                }
                assert(fv@ =~= features_upto(body@, p + 1, 0));
            }
            p = p + 1;
        }
        proof {
            assert forall|g: Feature|
                #[trigger] fv@.contains(g) == body_features(body@).contains(g) by {
                lemma_feature_at_idx(g);
            }
            assert(fv@ =~= body_features(body@));
        }
        Ok(fv)
    }
}

} // verus!
