//! Namespaced error codes: a 16-bit code space split into ranges, one per
//! operation.

use vstd::prelude::*;
use vstd::string::StringExecFns;

use crate::reader::PeekReader;
use crate::wire::{WireError, WireItem};

verus! {

/// A raw error code.
#[derive(Clone, Copy, Debug, PartialEq, Eq, Structural)]
pub struct ErrorCode(pub u16);

impl View for ErrorCode {
    type V = ErrorCode;

    open spec fn view(&self) -> ErrorCode {
        *self
    }
}

/// The code that says the request succeeded.
pub const OK_CODE: u16 = 0;

/// Codes of the base namespace, shared by every reply.
#[derive(Clone, Copy, Debug, PartialEq, Eq, Structural)]
pub enum BaseError {
    /// The request was processed successfully.
    OK,
    /// The watchtower is unavailable for now; the client may try again later.
    TemporaryFailure,
    /// The watchtower has failed for good; further communication should be avoided.
    PermanentFailure,
}

impl View for BaseError {
    type V = BaseError;

    open spec fn view(&self) -> BaseError {
        *self
    }
}

impl BaseError {
    /// The raw code.
    pub open spec fn spec_code(self) -> u16 {
        match self {
            BaseError::OK => 0,
            BaseError::TemporaryFailure => 40,
            BaseError::PermanentFailure => 50,
        }
    }

    /// The raw code.
    pub fn code(&self) -> (c: u16)
        ensures
            c == self.spec_code(),
    {
        match self {
            BaseError::OK => 0,
            BaseError::TemporaryFailure => 40,
            BaseError::PermanentFailure => 50,
        }
    }

    /// The code of this namespace that `c` is, if any.
    pub open spec fn spec_try_from(c: u16) -> Option<BaseError> {
        if c == 0 {
            Some(BaseError::OK)
        } else if c == 40 {
            Some(BaseError::TemporaryFailure)
        } else if c == 50 {
            Some(BaseError::PermanentFailure)
        } else {
            None
        }
    }

    /// The code of this namespace that `c` is, if any.
    pub fn try_from(c: u16) -> (r: Option<BaseError>)
        ensures
            r == Self::spec_try_from(c),
    {
        if c == 0 {
            Some(BaseError::OK)
        } else if c == 40 {
            Some(BaseError::TemporaryFailure)
        } else if c == 50 {
            Some(BaseError::PermanentFailure)
        } else {
            None
        }
    }

    /// The name of the code, as it is displayed.
    pub open spec fn spec_name(self) -> Seq<char> {
        match self {
            BaseError::OK => "CodeOK"@,
            BaseError::TemporaryFailure => "CodeTemporaryFailure"@,
            BaseError::PermanentFailure => "CodePermanentFailure"@,
        }
    }

    /// The name of the code, as it is displayed.
    pub fn name(&self) -> (s: &'static str)
        ensures
            s@ == self.spec_name(),
    {
        match self {
            BaseError::OK => "CodeOK",
            BaseError::TemporaryFailure => "CodeTemporaryFailure",
            BaseError::PermanentFailure => "CodePermanentFailure",
        }
    }
}

impl From<BaseError> for ErrorCode {
    fn from(code: BaseError) -> (r: ErrorCode)
        ensures
            r.0 == code.spec_code(),
    {
        ErrorCode(code.code())
    }
}

impl vstd::std_specs::convert::FromSpecImpl<BaseError> for ErrorCode {
    open spec fn obeys_from_spec() -> bool {
        true
    }

    open spec fn from_spec(code: BaseError) -> ErrorCode {
        ErrorCode(code.spec_code())
    }
}

/// Codes that a reply to a session creation may carry.
#[derive(Clone, Copy, Debug, PartialEq, Eq, Structural)]
pub enum CreateSessionError {
    /// A session is already active for the key the client connected with.
    AlreadyExists,
    /// The tower rejected the proposed maximum number of state updates.
    RejectMaxUpdates,
    /// The tower rejected the proposed reward rate.
    RejectRewardRate,
    /// The tower rejected the proposed sweep fee rate.
    RejectSweepFeeRate,
    /// The tower does not support the proposed blob type.
    RejectBlobType,
}

impl View for CreateSessionError {
    type V = CreateSessionError;

    open spec fn view(&self) -> CreateSessionError {
        *self
    }
}

impl CreateSessionError {
    /// The raw code.
    pub open spec fn spec_code(self) -> u16 {
        match self {
            CreateSessionError::AlreadyExists => 60,
            CreateSessionError::RejectMaxUpdates => 61,
            CreateSessionError::RejectRewardRate => 62,
            CreateSessionError::RejectSweepFeeRate => 63,
            CreateSessionError::RejectBlobType => 64,
        }
    }

    /// The raw code.
    pub fn code(&self) -> (c: u16)
        ensures
            c == self.spec_code(),
    {
        match self {
            CreateSessionError::AlreadyExists => 60,
            CreateSessionError::RejectMaxUpdates => 61,
            CreateSessionError::RejectRewardRate => 62,
            CreateSessionError::RejectSweepFeeRate => 63,
            CreateSessionError::RejectBlobType => 64,
        }
    }

    /// The code of this namespace that `c` is, if any.
    pub open spec fn spec_try_from(c: u16) -> Option<CreateSessionError> {
        if c == 60 {
            Some(CreateSessionError::AlreadyExists)
        } else if c == 61 {
            Some(CreateSessionError::RejectMaxUpdates)
        } else if c == 62 {
            Some(CreateSessionError::RejectRewardRate)
        } else if c == 63 {
            Some(CreateSessionError::RejectSweepFeeRate)
        } else if c == 64 {
            Some(CreateSessionError::RejectBlobType)
        } else {
            None
        }
    }

    /// The code of this namespace that `c` is, if any.
    pub fn try_from(c: u16) -> (r: Option<CreateSessionError>)
        ensures
            r == Self::spec_try_from(c),
    {
        if c == 60 {
            Some(CreateSessionError::AlreadyExists)
        } else if c == 61 {
            Some(CreateSessionError::RejectMaxUpdates)
        } else if c == 62 {
            Some(CreateSessionError::RejectRewardRate)
        } else if c == 63 {
            Some(CreateSessionError::RejectSweepFeeRate)
        } else if c == 64 {
            Some(CreateSessionError::RejectBlobType)
        } else {
            None
        }
    }

    /// The name of the code, as it is displayed.
    pub open spec fn spec_name(self) -> Seq<char> {
        match self {
            CreateSessionError::AlreadyExists => "CreateSessionCodeAlreadyExists"@,
            CreateSessionError::RejectMaxUpdates => "CreateSessionCodeRejectMaxUpdates"@,
            CreateSessionError::RejectRewardRate => "CreateSessionCodeRejectRewardRate"@,
            CreateSessionError::RejectSweepFeeRate => "CreateSessionCodeRejectSweepFeeRate"@,
            CreateSessionError::RejectBlobType => "CreateSessionCodeRejectBlobType"@,
        }
    }

    /// The name of the code, as it is displayed.
    pub fn name(&self) -> (s: &'static str)
        ensures
            s@ == self.spec_name(),
    {
        match self {
            CreateSessionError::AlreadyExists => "CreateSessionCodeAlreadyExists",
            CreateSessionError::RejectMaxUpdates => "CreateSessionCodeRejectMaxUpdates",
            CreateSessionError::RejectRewardRate => "CreateSessionCodeRejectRewardRate",
            CreateSessionError::RejectSweepFeeRate => "CreateSessionCodeRejectSweepFeeRate",
            CreateSessionError::RejectBlobType => "CreateSessionCodeRejectBlobType",
        }
    }
}

impl From<CreateSessionError> for ErrorCode {
    fn from(code: CreateSessionError) -> (r: ErrorCode)
        ensures
            r.0 == code.spec_code(),
    {
        ErrorCode(code.code())
    }
}

impl vstd::std_specs::convert::FromSpecImpl<CreateSessionError> for ErrorCode {
    open spec fn obeys_from_spec() -> bool {
        true
    }

    open spec fn from_spec(code: CreateSessionError) -> ErrorCode {
        ErrorCode(code.spec_code())
    }
}

impl CodeNamespace for CreateSessionError {
    open spec fn ns_code(self) -> u16 {
        self.spec_code()
    }

    open spec fn ns_from_code(c: u16) -> Option<CreateSessionError> {
        Self::spec_try_from(c)
    }

    proof fn lemma_code(e: CreateSessionError) {
    }

    fn to_code(&self) -> (c: u16) {
        self.code()
    }

    fn from_code(c: u16) -> (r: Option<CreateSessionError>) {
        Self::try_from(c)
    }
}

/// Codes that a reply to a state update may carry.
#[derive(Clone, Copy, Debug, PartialEq, Eq, Structural)]
pub enum StateUpdateError {
    /// The client's sequence number is behind what the tower expects from its last applied update.
    ClientBehind,
    /// The client sent a sequence number beyond the session's maximum number of updates.
    MaxUpdatesExceeded,
    /// The client sent an update that does not follow the previous one.
    SeqNumOutOfOrder,
}

impl View for StateUpdateError {
    type V = StateUpdateError;

    open spec fn view(&self) -> StateUpdateError {
        *self
    }
}

impl StateUpdateError {
    /// The raw code.
    pub open spec fn spec_code(self) -> u16 {
        match self {
            StateUpdateError::ClientBehind => 70,
            StateUpdateError::MaxUpdatesExceeded => 71,
            StateUpdateError::SeqNumOutOfOrder => 72,
        }
    }

    /// The raw code.
    pub fn code(&self) -> (c: u16)
        ensures
            c == self.spec_code(),
    {
        match self {
            StateUpdateError::ClientBehind => 70,
            StateUpdateError::MaxUpdatesExceeded => 71,
            StateUpdateError::SeqNumOutOfOrder => 72,
        }
    }

    /// The code of this namespace that `c` is, if any.
    pub open spec fn spec_try_from(c: u16) -> Option<StateUpdateError> {
        if c == 70 {
            Some(StateUpdateError::ClientBehind)
        } else if c == 71 {
            Some(StateUpdateError::MaxUpdatesExceeded)
        } else if c == 72 {
            Some(StateUpdateError::SeqNumOutOfOrder)
        } else {
            None
        }
    }

    /// The code of this namespace that `c` is, if any.
    pub fn try_from(c: u16) -> (r: Option<StateUpdateError>)
        ensures
            r == Self::spec_try_from(c),
    {
        if c == 70 {
            Some(StateUpdateError::ClientBehind)
        } else if c == 71 {
            Some(StateUpdateError::MaxUpdatesExceeded)
        } else if c == 72 {
            Some(StateUpdateError::SeqNumOutOfOrder)
        } else {
            None
        }
    }

    /// The name of the code, as it is displayed.
    pub open spec fn spec_name(self) -> Seq<char> {
        match self {
            StateUpdateError::ClientBehind => "StateUpdateCodeClientBehind"@,
            StateUpdateError::MaxUpdatesExceeded => "StateUpdateCodeMaxUpdatesExceeded"@,
            StateUpdateError::SeqNumOutOfOrder => "StateUpdateCodeSeqNumOutOfOrder"@,
        }
    }

    /// The name of the code, as it is displayed.
    pub fn name(&self) -> (s: &'static str)
        ensures
            s@ == self.spec_name(),
    {
        match self {
            StateUpdateError::ClientBehind => "StateUpdateCodeClientBehind",
            StateUpdateError::MaxUpdatesExceeded => "StateUpdateCodeMaxUpdatesExceeded",
            StateUpdateError::SeqNumOutOfOrder => "StateUpdateCodeSeqNumOutOfOrder",
        }
    }
}

impl From<StateUpdateError> for ErrorCode {
    fn from(code: StateUpdateError) -> (r: ErrorCode)
        ensures
            r.0 == code.spec_code(),
    {
        ErrorCode(code.code())
    }
}

impl vstd::std_specs::convert::FromSpecImpl<StateUpdateError> for ErrorCode {
    open spec fn obeys_from_spec() -> bool {
        true
    }

    open spec fn from_spec(code: StateUpdateError) -> ErrorCode {
        ErrorCode(code.spec_code())
    }
}

impl CodeNamespace for StateUpdateError {
    open spec fn ns_code(self) -> u16 {
        self.spec_code()
    }

    open spec fn ns_from_code(c: u16) -> Option<StateUpdateError> {
        Self::spec_try_from(c)
    }

    proof fn lemma_code(e: StateUpdateError) {
    }

    fn to_code(&self) -> (c: u16) {
        self.code()
    }

    fn from_code(c: u16) -> (r: Option<StateUpdateError>) {
        Self::try_from(c)
    }
}

/// Codes that a reply to a session deletion may carry.
#[derive(Clone, Copy, Debug, PartialEq, Eq, Structural)]
pub enum DeleteSessionError {
    /// The tower does not know the session.
    NotFound,
}

impl View for DeleteSessionError {
    type V = DeleteSessionError;

    open spec fn view(&self) -> DeleteSessionError {
        *self
    }
}

impl DeleteSessionError {
    /// The raw code.
    pub open spec fn spec_code(self) -> u16 {
        match self {
            DeleteSessionError::NotFound => 80,
        }
    }

    /// The raw code.
    pub fn code(&self) -> (c: u16)
        ensures
            c == self.spec_code(),
    {
        match self {
            DeleteSessionError::NotFound => 80,
        }
    }

    /// The code of this namespace that `c` is, if any.
    pub open spec fn spec_try_from(c: u16) -> Option<DeleteSessionError> {
        if c == 80 {
            Some(DeleteSessionError::NotFound)
        } else {
            None
        }
    }

    /// The code of this namespace that `c` is, if any.
    pub fn try_from(c: u16) -> (r: Option<DeleteSessionError>)
        ensures
            r == Self::spec_try_from(c),
    {
        if c == 80 {
            Some(DeleteSessionError::NotFound)
        } else {
            None
        }
    }

    /// The name of the code, as it is displayed.
    pub open spec fn spec_name(self) -> Seq<char> {
        match self {
            DeleteSessionError::NotFound => "DeleteSessionCodeNotFound"@,
        }
    }

    /// The name of the code, as it is displayed.
    pub fn name(&self) -> (s: &'static str)
        ensures
            s@ == self.spec_name(),
    {
        match self {
            DeleteSessionError::NotFound => "DeleteSessionCodeNotFound",
        }
    }
}

impl From<DeleteSessionError> for ErrorCode {
    fn from(code: DeleteSessionError) -> (r: ErrorCode)
        ensures
            r.0 == code.spec_code(),
    {
        ErrorCode(code.code())
    }
}

impl vstd::std_specs::convert::FromSpecImpl<DeleteSessionError> for ErrorCode {
    open spec fn obeys_from_spec() -> bool {
        true
    }

    open spec fn from_spec(code: DeleteSessionError) -> ErrorCode {
        ErrorCode(code.spec_code())
    }
}

impl CodeNamespace for DeleteSessionError {
    open spec fn ns_code(self) -> u16 {
        self.spec_code()
    }

    open spec fn ns_from_code(c: u16) -> Option<DeleteSessionError> {
        Self::spec_try_from(c)
    }

    proof fn lemma_code(e: DeleteSessionError) {
    }

    fn to_code(&self) -> (c: u16) {
        self.code()
    }

    fn from_code(c: u16) -> (r: Option<DeleteSessionError>) {
        Self::try_from(c)
    }
}

/// The text of a code: its name in the first namespace that holds it, or
/// `Unknown`.
pub open spec fn code_text(c: u16) -> Seq<char> {
    match BaseError::spec_try_from(c) {
        Some(e) => e.spec_name(),
        None => match CreateSessionError::spec_try_from(c) {
            Some(e) => e.spec_name(),
            None => match StateUpdateError::spec_try_from(c) {
                Some(e) => e.spec_name(),
                None => match DeleteSessionError::spec_try_from(c) {
                    Some(e) => e.spec_name(),
                    None => "Unknown"@,
                },
            },
        },
    }
}

impl ErrorCode {
    /// Whether the code says the request succeeded.
    pub fn is_ok(&self) -> (r: bool)
        ensures
            r == (self.0 == BaseError::OK.spec_code()),
    {
        self.0 == BaseError::OK.code()
    }

    /// The text of the code: its name in the first namespace that holds it,
    /// or `Unknown`.
    pub fn to_string(&self) -> (s: String)
        ensures
            s@ == code_text(self.0),
    {
        let name = match BaseError::try_from(self.0) {
            Some(e) => e.name(),
            None => match CreateSessionError::try_from(self.0) {
                Some(e) => e.name(),
                None => match StateUpdateError::try_from(self.0) {
                    Some(e) => e.name(),
                    None => match DeleteSessionError::try_from(self.0) {
                        Some(e) => e.name(),
                        None => "Unknown",
                    },
                },
            },
        };
        String::from_str(name)
    }
}

impl WireItem for ErrorCode {
    open spec fn wire_valid(v: ErrorCode) -> bool {
        true
    }

    open spec fn wire_bytes(v: ErrorCode) -> Seq<u8> {
        <u16 as WireItem>::wire_bytes(v.0)
    }

    open spec fn wire_parse(input: Seq<u8>) -> Result<(ErrorCode, nat), WireError> {
        match <u16 as WireItem>::wire_parse(input) {
            Ok((v, n)) => Ok((ErrorCode(v), n)),
            Err(e) => Err(e),
        }
    }

    proof fn lemma_round_trip(v: ErrorCode, rest: Seq<u8>) {
        <u16 as WireItem>::lemma_round_trip(v.0, rest);
    }

    fn encode(&self, out: &mut Vec<u8>) -> (count: usize) {
        self.0.encode(out)
    }

    fn decode(r: &mut PeekReader) -> (res: Result<ErrorCode, WireError>) {
        let v = u16::decode(r)?;
        Ok(ErrorCode(v))
    }
}

/// The codes of one operation's namespace: none of them is the success code.
pub trait CodeNamespace: Sized + Copy {
    /// The raw code of `self`.
    spec fn ns_code(self) -> u16;

    /// The code of the namespace that `c` is, if any.
    spec fn ns_from_code(c: u16) -> Option<Self>;

    /// Each code of the namespace is read back as itself, and is not the
    /// success code.
    proof fn lemma_code(e: Self)
        ensures
            Self::ns_from_code(e.ns_code()) == Some(e),
            e.ns_code() != OK_CODE,
    ;

    /// The raw code of `self`.
    fn to_code(&self) -> (c: u16)
        ensures
            c == self.ns_code(),
    ;

    /// The code of the namespace that `c` is, if any.
    fn from_code(c: u16) -> (r: Option<Self>)
        ensures
            r == Self::ns_from_code(c),
    ;
}

/// The raw code of an optional error: the success code for none.
pub open spec fn optional_code<T: CodeNamespace>(v: Option<T>) -> u16 {
    match v {
        Some(e) => e.ns_code(),
        None => OK_CODE,
    }
}

/// An optional error of a namespace, encoded as a raw code where success
/// stands for none.
impl<T: CodeNamespace> WireItem for Option<T> {
    open spec fn wire_valid(v: Option<T>) -> bool {
        true
    }

    open spec fn wire_bytes(v: Option<T>) -> Seq<u8> {
        <u16 as WireItem>::wire_bytes(optional_code(v))
    }

    open spec fn wire_parse(input: Seq<u8>) -> Result<(Option<T>, nat), WireError> {
        match <u16 as WireItem>::wire_parse(input) {
            Ok((c, n)) => {
                if c == OK_CODE {
                    Ok((None, n))
                } else {
                    match T::ns_from_code(c) {
                        Some(e) => Ok((Some(e), n)),
                        None => Err(WireError::InvalidData),
                    }
                }
            },
            Err(e) => Err(e),
        }
    }

    proof fn lemma_round_trip(v: Option<T>, rest: Seq<u8>) {
        <u16 as WireItem>::lemma_round_trip(optional_code(v), rest);
        if let Some(e) = v {
            T::lemma_code(e);
        }
    }

    fn encode(&self, out: &mut Vec<u8>) -> (count: usize) {
        let c = match self {
            Some(e) => e.to_code(),
            None => ErrorCode::from(BaseError::OK).0,
        };
        c.encode(out)
    }

    fn decode(r: &mut PeekReader) -> (res: Result<Option<T>, WireError>) {
        let code = ErrorCode::decode(r)?;
        if code.is_ok() {
            Ok(None)
        } else {
            match T::from_code(code.0) {
                Some(e) => Ok(Some(e)),
                None => Err(WireError::InvalidData),
            }
        }
    }
}

} // verus!
