//! Blob types: a 16-bit set of flags, and the combinations of them that the
//! protocol knows.

use vstd::prelude::*;
use vstd::string::StringExecFns;

use crate::reader::PeekReader;
use crate::wire::{WireError, WireItem};

verus! {

/// A flag of a blob type, by bit position.
#[derive(Clone, Copy, Debug, PartialEq, Eq, Structural, PartialOrd, Ord, Hash)]
pub enum Flag {
    Reward,
    CommitOutputs,
}

/// The mask of every defined flag.
pub open spec fn known_flags_mask() -> u16 {
    Flag::Reward.spec_flag() | Flag::CommitOutputs.spec_flag()
}

impl Flag {
    /// The bit position of the flag.
    pub open spec fn position(self) -> nat {
        match self {
            Flag::Reward => 0,
            Flag::CommitOutputs => 1,
        }
    }

    /// The mask of the flag: `1 << position`.
    pub open spec fn spec_flag(self) -> u16 {
        match self {
            Flag::Reward => 1,
            Flag::CommitOutputs => 2,
        }
    }

    /// The mask of the flag: `1 << position`.
    pub fn flag(&self) -> (m: u16)
        ensures
            m == self.spec_flag(),
    {
        match self {
            Flag::Reward => 1,
            Flag::CommitOutputs => 2,
        }
    }

    /// Whether `bitvec` has the flag set.
    pub fn in_bitvec(&self, bitvec: u16) -> (r: bool)
        ensures
            r == (bitvec & self.spec_flag() != 0),
    {
        bitvec & self.flag() != 0
    }

    /// Every flag, by ascending position.
    pub fn all() -> (r: [Flag; 2])
        ensures
            r@ == seq![Flag::Reward, Flag::CommitOutputs],
    {
        let r = [Flag::Reward, Flag::CommitOutputs];
        assert(r@ =~= seq![Flag::Reward, Flag::CommitOutputs]);
        r
    }

    /// The name of the flag, as it is displayed.
    pub open spec fn spec_name(self) -> Seq<char> {
        match self {
            Flag::Reward => "FlagReward"@,
            Flag::CommitOutputs => "FlagCommitOutputs"@,
        }
    }

    /// The name of the flag, as it is displayed.
    pub fn name(&self) -> (s: &'static str)
        ensures
            s@ == self.spec_name(),
    {
        match self {
            Flag::Reward => "FlagReward",
            Flag::CommitOutputs => "FlagCommitOutputs",
        }
    }

    /// The name of the flag, as it is displayed.
    pub fn to_string(&self) -> (s: String)
        ensures
            s@ == self.spec_name(),
    {
        String::from_str(self.name())
    }
}

/// The sixteen binary digits of `x`, most significant first.
pub open spec fn binary16(x: u16) -> Seq<char> {
    Seq::new(16, |i: int| if (x >> ((15 - i) as u16)) & 1 == 1 { '1' } else { '0' })
}

/// How a flag shows in a blob type's text: its name where set, else with a
/// `No-` prefix.
pub open spec fn flag_text(t: u16, f: Flag) -> Seq<char> {
    if t & f.spec_flag() != 0 {
        f.spec_name()
    } else {
        "No-"@ + f.spec_name()
    }
}

/// The text of a blob type: its bits in binary where it sets a reserved bit,
/// then each flag, set or not, in brackets.
pub open spec fn type_text(t: u16) -> Seq<char> {
    (if t & !known_flags_mask() != 0 {
        binary16(t)
    } else {
        Seq::empty()
    }) + "["@ + flag_text(t, Flag::Reward) + "|"@ + flag_text(t, Flag::CommitOutputs) + "]"@
}

/// A blob type: a set of flags.
#[derive(Clone, Copy, Debug, PartialEq, Eq, Structural)]
pub struct Type(pub u16);

impl View for Type {
    type V = Type;

    open spec fn view(&self) -> Type {
        *self
    }
}

impl Type {
    /// Whether the flag `f` is set.
    pub fn has(&self, f: Flag) -> (r: bool)
        ensures
            r == (self.0 & f.spec_flag() != 0),
    {
        f.in_bitvec(self.0)
    }

    /// Whether the type is exactly the known combination `t`.
    pub fn is(&self, t: KnownType) -> (r: bool)
        ensures
            r == (self.0 == t.spec_value()),
    {
        self.0 == t.value()
    }

    /// Whether a bit outside the defined flags is set.
    pub fn has_unknown_flags(&self) -> (r: bool)
        ensures
            r == (self.0 & !known_flags_mask() != 0),
    {
        let known = Flag::Reward.flag() | Flag::CommitOutputs.flag();
        self.0 & !known != 0
    }

    /// The text of the type: its bits in binary where it sets a reserved
    /// bit, then each flag, set or not, in brackets.
    pub fn to_string(&self) -> (s: String)
        ensures
            s@ == type_text(self.0),
    {
        let mut s = String::from_str("");
        proof {
            reveal_strlit("");
        }
        if self.has_unknown_flags() {
            let mut i: u16 = 0;
            while i < 16
                invariant
                    i <= 16,
                    s@ == binary16(self.0).take(i as int),
                decreases 16 - i,
            {
                if (self.0 >> (15 - i)) & 1 == 1 {
                    s.append("1");
                } else {
                    s.append("0");
                }
                proof {
                    reveal_strlit("1");
                    reveal_strlit("0");
                }
                i = i + 1;
                assert(s@ =~= binary16(self.0).take(i as int));
            }
            assert(binary16(self.0).take(16) =~= binary16(self.0));
        }
        s.append("[");
        let all = Flag::all();
        let mut i: usize = 0;
        while i < 2
            invariant
                all@ == seq![Flag::Reward, Flag::CommitOutputs],
                i <= 2,
                i == 0 ==> s@ == (if self.0 & !known_flags_mask() != 0 {
                    binary16(self.0)
                } else {
                    Seq::empty()
                }) + "["@,
                i == 1 ==> s@ == (if self.0 & !known_flags_mask() != 0 {
                    binary16(self.0)
                } else {
                    Seq::empty()
                }) + "["@ + flag_text(self.0, Flag::Reward),
                i == 2 ==> s@ == (if self.0 & !known_flags_mask() != 0 {
                    binary16(self.0)
                } else {
                    Seq::empty()
                }) + "["@ + flag_text(self.0, Flag::Reward) + "|"@ + flag_text(
                    self.0,
                    Flag::CommitOutputs,
                ),
            decreases 2 - i,
        {
            let flag = all[i];
            if i != 0 {
                s.append("|");
            }
            if self.has(flag) {
                s.append(flag.name());
            } else {
                s.append("No-");
                s.append(flag.name());
            }
            i = i + 1;
        }
        s.append("]");
        s
    }
}

impl From<KnownType> for Type {
    fn from(t: KnownType) -> (r: Type)
        ensures
            r.0 == t.spec_value(),
    {
        Type(t.value())
    }
}

impl vstd::std_specs::convert::FromSpecImpl<KnownType> for Type {
    open spec fn obeys_from_spec() -> bool {
        true
    }

    open spec fn from_spec(t: KnownType) -> Type {
        Type(t.spec_value())
    }
}

impl WireItem for Type {
    open spec fn wire_valid(v: Type) -> bool {
        true
    }

    open spec fn wire_bytes(v: Type) -> Seq<u8> {
        <u16 as WireItem>::wire_bytes(v.0)
    }

    open spec fn wire_parse(input: Seq<u8>) -> Result<(Type, nat), WireError> {
        match <u16 as WireItem>::wire_parse(input) {
            Ok((v, n)) => Ok((Type(v), n)),
            Err(e) => Err(e),
        }
    }

    proof fn lemma_round_trip(v: Type, rest: Seq<u8>) {
        <u16 as WireItem>::lemma_round_trip(v.0, rest);
    }

    fn encode(&self, out: &mut Vec<u8>) -> (count: usize) {
        self.0.encode(out)
    }

    fn decode(r: &mut PeekReader) -> (res: Result<Type, WireError>) {
        let v = u16::decode(r)?;
        Ok(Type(v))
    }
}

/// The combinations of flags that the protocol knows.
#[derive(Clone, Copy, Debug, PartialEq, Eq, Structural)]
pub enum KnownType {
    /// Commit outputs, no reward.
    TypeAltruistCommit,
    /// Commit outputs, with a reward.
    TypeRewardCommit,
}

impl View for KnownType {
    type V = KnownType;

    open spec fn view(&self) -> KnownType {
        *self
    }
}

impl KnownType {
    /// The flags of the combination.
    pub open spec fn spec_value(self) -> u16 {
        match self {
            KnownType::TypeAltruistCommit => Flag::CommitOutputs.spec_flag(),
            KnownType::TypeRewardCommit => Flag::CommitOutputs.spec_flag() | Flag::Reward.spec_flag(),
        }
    }

    /// The flags of the combination.
    pub fn value(&self) -> (v: u16)
        ensures
            v == self.spec_value(),
    {
        match self {
            KnownType::TypeAltruistCommit => Flag::CommitOutputs.flag(),
            KnownType::TypeRewardCommit => Flag::CommitOutputs.flag() | Flag::Reward.flag(),
        }
    }

    /// The known combination whose flags are exactly `v`, if any.
    pub open spec fn spec_try_from(v: u16) -> Option<KnownType> {
        if v == KnownType::TypeAltruistCommit.spec_value() {
            Some(KnownType::TypeAltruistCommit)
        } else if v == KnownType::TypeRewardCommit.spec_value() {
            Some(KnownType::TypeRewardCommit)
        } else {
            None
        }
    }

    /// The known combination whose flags are exactly `v`, if any.
    pub fn try_from(v: u16) -> (r: Option<KnownType>)
        ensures
            r == Self::spec_try_from(v),
    {
        if v == KnownType::TypeAltruistCommit.value() {
            Some(KnownType::TypeAltruistCommit)
        } else if v == KnownType::TypeRewardCommit.value() {
            Some(KnownType::TypeRewardCommit)
        } else {
            None
        }
    }

    /// The known combination that the blob type `t` is, or `t` back.
    pub fn try_from_type(t: Type) -> (r: Result<KnownType, Type>)
        ensures
            match Self::spec_try_from(t.0) {
                Some(k) => r == Ok::<KnownType, Type>(k),
                None => r == Err::<KnownType, Type>(t),
            },
    {
        match KnownType::try_from(t.0) {
            Some(k) => Ok(k),
            None => Err(t),
        }
    }
}

impl From<KnownType> for u16 {
    fn from(t: KnownType) -> (r: u16)
        ensures
            r == t.spec_value(),
    {
        t.value()
    }
}

impl vstd::std_specs::convert::FromSpecImpl<KnownType> for u16 {
    open spec fn obeys_from_spec() -> bool {
        true
    }

    open spec fn from_spec(t: KnownType) -> u16 {
        t.spec_value()
    }
}

impl WireItem for KnownType {
    open spec fn wire_valid(v: KnownType) -> bool {
        true
    }

    open spec fn wire_bytes(v: KnownType) -> Seq<u8> {
        <u16 as WireItem>::wire_bytes(v.spec_value())
    }

    open spec fn wire_parse(input: Seq<u8>) -> Result<(KnownType, nat), WireError> {
        match <u16 as WireItem>::wire_parse(input) {
            Ok((v, n)) => match KnownType::spec_try_from(v) {
                Some(k) => Ok((k, n)),
                None => Err(WireError::InvalidData),
            },
            Err(e) => Err(e),
        }
    }

    proof fn lemma_round_trip(v: KnownType, rest: Seq<u8>) {
        <u16 as WireItem>::lemma_round_trip(v.spec_value(), rest);
        assert(2u16 | 1u16 == 3u16) by (bit_vector);
    }

    fn encode(&self, out: &mut Vec<u8>) -> (count: usize) {
        self.value().encode(out)
    }

    fn decode(r: &mut PeekReader) -> (res: Result<KnownType, WireError>) {
        let v = u16::decode(r)?;
        match KnownType::try_from(v) {
            Some(k) => Ok(k),
            None => Err(WireError::InvalidData),
        }
    }
}

} // verus!
