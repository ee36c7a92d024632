//! The byte layout of every value that passes between the rounds of a signing ceremony,
//! and the base-58 text that carries those bytes from one party to the next.
//!
//! Each type has a view made of plain byte sequences. What is written for a value
//! ([`Serialize::wire`]) and what is read from given bytes ([`Serialize::parse`]) are
//! stated over those views, and each type proves that reading what was written gives
//! the value back.

use vstd::bytes::{
    lemma_auto_spec_u64_to_from_le_bytes, spec_u64_from_le_bytes, spec_u64_to_le_bytes,
    u64_from_le_bytes, u64_to_le_bytes,
};
use vstd::prelude::*;
use vstd::string::StringExecFns;

use curv::elliptic::curves::{DeserializationError, PointFromBytesError};

use crate::base58::{base58_bytes, base58_text, Base58Error};
use crate::bytes::{append, take};
use crate::commitment::{opens, BlindFactor, Commitment};
use crate::curve::{
    is_point_encoding, is_scalar_encoding, point_decoding, scalar_decoding, Point, Scalar,
};
use crate::ledger::{Pubkey, Signature};
use crate::text::{decimal, decimal_string};

verus! {

/// Why bytes or text could not be read as a value.
#[derive(Debug)]
pub enum Error {
    /// The buffer ends before the value does.
    InputTooShort { expected: usize, found: usize },
    /// The text is not base 58.
    BadBase58(Base58Error),
    /// 32 bytes that should be a point of the curve are none.
    InvalidPoint(PointFromBytesError),
    /// 32 bytes that should be a scalar are none.
    InvalidScalar(DeserializationError),
}

/// The kind of an [`Error`], without what the decoders attach to it.
pub enum Failure {
    InputTooShort { expected: nat, found: nat },
    BadBase58,
    InvalidPoint,
    InvalidScalar,
}

impl View for Error {
    type V = Failure;

    open spec fn view(&self) -> Failure {
        match *self {
            Error::InputTooShort { expected, found } => Failure::InputTooShort {
                expected: expected as nat,
                found: found as nat,
            },
            Error::BadBase58(_) => Failure::BadBase58,
            Error::InvalidPoint(_) => Failure::InvalidPoint,
            Error::InvalidScalar(_) => Failure::InvalidScalar,
        }
    }
}

impl Error {
    /// The text that a point decoder's error shows, whatever it is.
    pub open spec fn shown_by_point_error(e: PointFromBytesError, detail: Seq<char>) -> bool {
        exists|text: String|
            #[trigger] vstd::string::to_string_from_display_ensures::<PointFromBytesError>(
                &e,
                text,
            ) && text@ == detail
    }

    /// The text that a scalar decoder's error shows, whatever it is.
    pub open spec fn shown_by_scalar_error(e: DeserializationError, detail: Seq<char>) -> bool {
        exists|text: String|
            #[trigger] vstd::string::to_string_from_display_ensures::<DeserializationError>(
                &e,
                text,
            ) && text@ == detail
    }

    /// Whether `message` is the error's message: a heading that names the kind of the
    /// error, then the lengths, or what the decoder said.
    pub open spec fn described_by(self, message: Seq<char>) -> bool {
        match self {
            Error::InputTooShort { expected, found } => message == "Input too short, expected: "@
                + decimal(expected as nat) + ", found: "@ + decimal(found as nat),
            Error::BadBase58(e) => message == "Invalid base58: "@ + e.message@,
            Error::InvalidPoint(e) => exists|detail: Seq<char>|
                #![trigger Error::shown_by_point_error(e, detail)]
                Error::shown_by_point_error(e, detail) && message == "Invalid Ed25519 Point: "@
                    + detail,
            Error::InvalidScalar(e) => exists|detail: Seq<char>|
                #![trigger Error::shown_by_scalar_error(e, detail)]
                Error::shown_by_scalar_error(e, detail) && message
                    == "Invalid Ed25519 Scalar: "@ + detail,
        }
    }

    /// The error's message for the operator.
    pub fn to_string(&self) -> (message: String)
        ensures
            self.described_by(message@),
    {
        match self {
            Error::InputTooShort { expected, found } => {
                let mut message = String::from_str("Input too short, expected: ");
                message.append(decimal_string(*expected).as_str());
                message.append(", found: ");
                message.append(decimal_string(*found).as_str());
                message
            },
            Error::BadBase58(e) => {
                let mut message = String::from_str("Invalid base58: ");
                message.append(e.message.as_str());
                message
            },
            Error::InvalidPoint(e) => {
                let detail = e.to_string();
                let mut message = String::from_str("Invalid Ed25519 Point: ");
                message.append(detail.as_str());
                assert(Error::shown_by_point_error(*e, detail@));
                message
            },
            Error::InvalidScalar(e) => {
                let detail = e.to_string();
                let mut message = String::from_str("Invalid Ed25519 Scalar: ");
                message.append(detail.as_str());
                assert(Error::shown_by_scalar_error(*e, detail@));
                message
            },
        }
    }
}

impl From<PointFromBytesError> for Error {
    fn from(e: PointFromBytesError) -> (error: Self) {
        Error::InvalidPoint(e)
    }
}

impl vstd::std_specs::convert::FromSpecImpl<PointFromBytesError> for Error {
    open spec fn obeys_from_spec() -> bool {
        true
    }

    open spec fn from_spec(e: PointFromBytesError) -> Self {
        Error::InvalidPoint(e)
    }
}

impl From<DeserializationError> for Error {
    fn from(e: DeserializationError) -> (error: Self) {
        Error::InvalidScalar(e)
    }
}

impl vstd::std_specs::convert::FromSpecImpl<DeserializationError> for Error {
    open spec fn obeys_from_spec() -> bool {
        true
    }

    open spec fn from_spec(e: DeserializationError) -> Self {
        Error::InvalidScalar(e)
    }
}

/// Says which of a command's inputs a reading error belongs to.
pub trait FieldError<T> {
    /// What [`FieldError::with_field`] returns.
    spec fn tagged(self, field_name: &'static str) -> Result<T, crate::error::Error>;

    fn with_field(self, field_name: &'static str) -> (r: Result<T, crate::error::Error>)
        ensures
            r == self.tagged(field_name),
    ;
}

impl<T: Serialize> FieldError<T> for Result<T, Error> {
    open spec fn tagged(self, field_name: &'static str) -> Result<T, crate::error::Error> {
        match self {
            Ok(value) => Ok(value),
            Err(error) => Err(crate::error::Error::DeserializationFailed { error, field_name }),
        }
    }

    fn with_field(self, field_name: &'static str) -> (r: Result<T, crate::error::Error>) {
        match self {
            Ok(value) => Ok(value),
            Err(error) => Err(crate::error::Error::DeserializationFailed { error, field_name }),
        }
    }
}

/// A value with a byte layout and a base-58 text form.
pub trait Serialize: Sized + View {
    /// The length below which no buffer holds a value of this type.
    spec fn min_len() -> nat;

    /// What holds of the view of every value of this type.
    spec fn valid(v: Self::V) -> bool;

    /// The bytes written for a value.
    spec fn wire(v: Self::V) -> Seq<u8>;

    /// What is read from a buffer: a value, taken from the start of the buffer, or the
    /// first failure met.
    spec fn parse(b: Seq<u8>) -> Result<Self::V, Failure>;

    /// Reading the bytes written for a value gives that value back.
    proof fn lemma_round_trip(v: Self::V)
        requires
            Self::valid(v),
        ensures
            Self::parse(Self::wire(v)) == Ok::<Self::V, Failure>(v),
    ;

    /// A buffer shorter than the least length is refused as too short, with the least
    /// length as what was expected and the buffer's length as what was found.
    proof fn lemma_short_input(b: Seq<u8>)
        requires
            b.len() < Self::min_len(),
        ensures
            Self::parse(b) == Err::<Self::V, Failure>(
                (Failure::InputTooShort { expected: Self::min_len(), found: b.len() }),
            ),
    ;

    /// The value's bytes as base-58 text.
    fn serialize_bs58(&self) -> (text: String)
        ensures
            text@ == base58_text(Self::wire(self@)),
            Self::valid(self@),
    {
        let mut vec: Vec<u8> = Vec::new();
        self.serialize(&mut vec);
        assert(vec@ =~= Self::wire(self@));
        crate::base58::encode(vec.as_slice())
    }

    /// Appends the value's bytes to `append_to`.
    fn serialize(&self, append_to: &mut Vec<u8>)
        ensures
            final(append_to)@ == old(append_to)@ + Self::wire(self@),
            Self::valid(self@),
    ;

    /// Reads a value from base-58 text: the value read from the bytes that the text
    /// spells, or the failure met on the way (see [`parse_text`]).
    fn deserialize_bs58(s: &str) -> (r: Result<Self, Error>)
        ensures
            match (r, base58_bytes(s@)) {
                (Ok(value), Some(bytes)) => Self::parse(bytes) == Ok::<Self::V, Failure>(value@)
                    && Self::valid(value@),
                (Err(e), Some(bytes)) => Self::parse(bytes) == Err::<Self::V, Failure>(e@),
                (Ok(_), None) => false,
                (Err(e), None) => e@ == Failure::BadBase58,
            },
    {
        match crate::base58::decode(s) {
            Ok(out) => Self::deserialize(out.as_slice()),
            Err(e) => Err(Error::BadBase58(e)),
        }
    }

    /// Reads a value from the start of a buffer. Bytes after the value are not looked at.
    fn deserialize(b: &[u8]) -> (r: Result<Self, Error>)
        ensures
            match r {
                Ok(value) => Self::parse(b@) == Ok::<Self::V, Failure>(value@) && Self::valid(
                    value@,
                ),
                Err(e) => Self::parse(b@) == Err::<Self::V, Failure>(e@),
            },
    ;

    /// The number of bytes that [`Serialize::serialize`] appends.
    fn size_hint(&self) -> (n: usize)
        requires
            Self::wire(self@).len() <= usize::MAX,
        ensures
            n == Self::wire(self@).len(),
    ;
}

/// What is read from a text: the value read from the bytes that the text spells.
pub open spec fn parse_text<T: Serialize>(text: Seq<char>) -> Result<T::V, Failure> {
    match base58_bytes(text) {
        Some(bytes) => T::parse(bytes),
        None => Err(Failure::BadBase58),
    }
}

/// A text that spells the bytes written for a value is read as that value.
pub proof fn lemma_text_round_trip<T: Serialize>(v: T::V, text: Seq<char>)
    ensures
        T::valid(v) && base58_bytes(text) == Some(T::wire(v)) ==> parse_text::<T>(text) == Ok::<
            T::V,
            Failure,
        >(v),
{
    if T::valid(v) {
        T::lemma_round_trip(v);
    }
}

/// Values that are written as the same bytes are the same value.
pub proof fn lemma_wire_injective<T: Serialize>(a: T::V, b: T::V)
    requires
        T::valid(a),
        T::valid(b),
        T::wire(a) == T::wire(b),
    ensures
        a == b,
{
    T::lemma_round_trip(a);
    T::lemma_round_trip(b);
}

/// What a party publishes in the first round.
#[derive(Debug, Clone, Copy, PartialEq, Eq)]
pub struct SignFirstMsg {
    pub commitment: Commitment,
}

/// The first round's message with its sender.
#[derive(Debug, Clone, Copy, PartialEq, Eq)]
pub struct AggMessage1 {
    pub msg: SignFirstMsg,
    pub sender: Pubkey,
}

/// The view of an [`AggMessage1`]: the commitment's 64 bytes and the sender's 32.
pub struct AggMessage1View {
    pub commitment: Seq<u8>,
    pub sender: Seq<u8>,
}

impl View for AggMessage1 {
    type V = AggMessage1View;

    open spec fn view(&self) -> AggMessage1View {
        AggMessage1View { commitment: self.msg.commitment@, sender: self.sender@ }
    }
}

impl Serialize for AggMessage1 {
    open spec fn min_len() -> nat {
        96
    }

    open spec fn valid(v: AggMessage1View) -> bool {
        v.commitment.len() == 64 && v.sender.len() == 32
    }

    open spec fn wire(v: AggMessage1View) -> Seq<u8> {
        v.commitment + v.sender
    }

    open spec fn parse(b: Seq<u8>) -> Result<AggMessage1View, Failure> {
        if b.len() < 96 {
            Err(Failure::InputTooShort { expected: 96, found: b.len() })
        } else {
            Ok(AggMessage1View { commitment: b.subrange(0, 64), sender: b.subrange(64, 96) })
        }
    }

    proof fn lemma_round_trip(v: AggMessage1View) {
        let b = Self::wire(v);
        assert(b.subrange(0, 64) =~= v.commitment);
        assert(b.subrange(64, 96) =~= v.sender);
    }

    proof fn lemma_short_input(b: Seq<u8>) {
    }

    fn serialize(&self, append_to: &mut Vec<u8>) {
        append(append_to, self.msg.commitment.0.as_slice());
        append(append_to, self.sender.0.as_slice());
        assert(append_to@ =~= old(append_to)@ + Self::wire(self@));
    }

    fn deserialize(b: &[u8]) -> (r: Result<Self, Error>) {
        if b.len() < 64 + 32 {
            return Err(Error::InputTooShort { expected: 64 + 32, found: b.len() });
        }
        let commitment = Commitment(take::<64>(b, 0));
        let sender = Pubkey(take::<32>(b, 64));
        Ok(Self { msg: SignFirstMsg { commitment }, sender })
    }

    fn size_hint(&self) -> (n: usize) {
        64 + 32
    }
}

/// What a party reveals in the second round: its nonce point and the blinding factor
/// of the commitment it published before.
#[allow(non_snake_case)]
#[derive(Debug, PartialEq, Eq)]
pub struct SignSecondMsg {
    pub R: Point,
    pub blind_factor: BlindFactor,
}

/// The second round's message with its sender.
#[derive(Debug, PartialEq, Eq)]
pub struct AggMessage2 {
    pub msg: SignSecondMsg,
    pub sender: Pubkey,
}

/// The view of an [`AggMessage2`]: the nonce point's canonical encoding, the blinding
/// factor's 64 bytes and the sender's 32.
pub struct AggMessage2View {
    pub nonce: Seq<u8>,
    pub blind_factor: Seq<u8>,
    pub sender: Seq<u8>,
}

impl View for AggMessage2 {
    type V = AggMessage2View;

    open spec fn view(&self) -> AggMessage2View {
        AggMessage2View {
            nonce: self.msg.R@,
            blind_factor: self.msg.blind_factor@,
            sender: self.sender@,
        }
    }
}

impl AggMessage1 {
    /// Whether the second-round message opens the commitment of this first-round one.
    pub fn verify_commitment(&self, msg2: &AggMessage2) -> (ok: bool)
        ensures
            ok == opens(self@.commitment, msg2@.nonce, msg2@.blind_factor),
    {
        self.msg.commitment.opened_by(&msg2.msg.R, &msg2.msg.blind_factor)
    }
}

impl Serialize for AggMessage2 {
    open spec fn min_len() -> nat {
        128
    }

    open spec fn valid(v: AggMessage2View) -> bool {
        is_point_encoding(v.nonce) && v.blind_factor.len() == 64 && v.sender.len() == 32
    }

    open spec fn wire(v: AggMessage2View) -> Seq<u8> {
        v.nonce + v.blind_factor + v.sender
    }

    open spec fn parse(b: Seq<u8>) -> Result<AggMessage2View, Failure> {
        if b.len() < 128 {
            Err(Failure::InputTooShort { expected: 128, found: b.len() })
        } else {
            match point_decoding(b.subrange(0, 32)) {
                None => Err(Failure::InvalidPoint),
                Some(nonce) => Ok(
                    AggMessage2View {
                        nonce,
                        blind_factor: b.subrange(32, 96),
                        sender: b.subrange(96, 128),
                    },
                ),
            }
        }
    }

    proof fn lemma_round_trip(v: AggMessage2View) {
        let b = Self::wire(v);
        assert(b.subrange(0, 32) =~= v.nonce);
        assert(b.subrange(32, 96) =~= v.blind_factor);
        assert(b.subrange(96, 128) =~= v.sender);
    }

    proof fn lemma_short_input(b: Seq<u8>) {
    }

    fn serialize(&self, append_to: &mut Vec<u8>) {
        let nonce = self.msg.R.to_bytes();
        append(append_to, nonce.as_slice());
        append(append_to, self.msg.blind_factor.0.as_slice());
        append(append_to, self.sender.0.as_slice());
        assert(append_to@ =~= old(append_to)@ + Self::wire(self@));
    }

    fn deserialize(b: &[u8]) -> (r: Result<Self, Error>) {
        if b.len() < 32 + 64 + 32 {
            return Err(Error::InputTooShort { expected: 32 + 64 + 32, found: b.len() });
        }
        let msg_nonce = match Point::from_bytes(&take::<32>(b, 0)) {
            Ok(point) => point,
            Err(e) => return Err(Error::InvalidPoint(e)),
        };
        let blind_factor = BlindFactor(take::<64>(b, 32));
        let sender = Pubkey(take::<32>(b, 32 + 64));
        Ok(Self { sender, msg: SignSecondMsg { R: msg_nonce, blind_factor } })
    }

    fn size_hint(&self) -> (n: usize) {
        proof {
            self.msg.R.lemma_encoding_len();
        }
        32 + 64 + 32
    }
}

/// One party's share of the final signature, in the byte shape of a whole signature.
#[derive(Debug, Clone, Copy, PartialEq, Eq)]
pub struct PartialSignature(pub Signature);

impl View for PartialSignature {
    type V = Seq<u8>;

    open spec fn view(&self) -> Seq<u8> {
        self.0@
    }
}

impl Serialize for PartialSignature {
    open spec fn min_len() -> nat {
        64
    }

    open spec fn valid(v: Seq<u8>) -> bool {
        v.len() == 64
    }

    open spec fn wire(v: Seq<u8>) -> Seq<u8> {
        v
    }

    open spec fn parse(b: Seq<u8>) -> Result<Seq<u8>, Failure> {
        if b.len() < 64 {
            Err(Failure::InputTooShort { expected: 64, found: b.len() })
        } else {
            Ok(b.subrange(0, 64))
        }
    }

    proof fn lemma_round_trip(v: Seq<u8>) {
        assert(v.subrange(0, 64) =~= v);
    }

    proof fn lemma_short_input(b: Seq<u8>) {
    }

    fn serialize(&self, append_to: &mut Vec<u8>) {
        append(append_to, self.0.0.as_slice());
    }

    fn deserialize(b: &[u8]) -> (r: Result<Self, Error>) {
        if b.len() < 64 {
            return Err(Error::InputTooShort { expected: 64, found: b.len() });
        }
        Ok(PartialSignature(Signature(take::<64>(b, 0))))
    }

    fn size_hint(&self) -> (n: usize) {
        64
    }
}

/// A party's nonce for one ceremony: the secret scalar and the point it gives.
#[allow(non_snake_case)]
#[derive(Debug, PartialEq, Eq)]
pub struct EphemeralKey {
    pub r: Scalar,
    pub R: Point,
}

/// What a party keeps to itself between the first round and the second.
#[derive(Debug, PartialEq, Eq)]
pub struct SecretAggStepOne {
    pub ephemeral: EphemeralKey,
    pub second_msg: SignSecondMsg,
}

/// The view of a [`SecretAggStepOne`]: the canonical encodings of the secret scalar, of
/// its point and of the point to be revealed, and the blinding factor's 64 bytes.
pub struct SecretAggStepOneView {
    pub secret_nonce: Seq<u8>,
    pub public_nonce: Seq<u8>,
    pub revealed_nonce: Seq<u8>,
    pub blind_factor: Seq<u8>,
}

impl View for SecretAggStepOne {
    type V = SecretAggStepOneView;

    open spec fn view(&self) -> SecretAggStepOneView {
        SecretAggStepOneView {
            secret_nonce: self.ephemeral.r@,
            public_nonce: self.ephemeral.R@,
            revealed_nonce: self.second_msg.R@,
            blind_factor: self.second_msg.blind_factor@,
        }
    }
}

impl Serialize for SecretAggStepOne {
    open spec fn min_len() -> nat {
        160
    }

    open spec fn valid(v: SecretAggStepOneView) -> bool {
        &&& is_scalar_encoding(v.secret_nonce)
        &&& is_point_encoding(v.public_nonce)
        &&& is_point_encoding(v.revealed_nonce)
        &&& v.blind_factor.len() == 64
    }

    open spec fn wire(v: SecretAggStepOneView) -> Seq<u8> {
        v.secret_nonce + v.public_nonce + v.revealed_nonce + v.blind_factor
    }

    open spec fn parse(b: Seq<u8>) -> Result<SecretAggStepOneView, Failure> {
        if b.len() < 160 {
            Err(Failure::InputTooShort { expected: 160, found: b.len() })
        } else {
            match scalar_decoding(b.subrange(0, 32)) {
                None => Err(Failure::InvalidScalar),
                Some(secret_nonce) => match point_decoding(b.subrange(32, 64)) {
                    None => Err(Failure::InvalidPoint),
                    Some(public_nonce) => match point_decoding(b.subrange(64, 96)) {
                        None => Err(Failure::InvalidPoint),
                        Some(revealed_nonce) => Ok(
                            SecretAggStepOneView {
                                secret_nonce,
                                public_nonce,
                                revealed_nonce,
                                blind_factor: b.subrange(96, 160),
                            },
                        ),
                    },
                },
            }
        }
    }

    proof fn lemma_round_trip(v: SecretAggStepOneView) {
        let b = Self::wire(v);
        assert(b.subrange(0, 32) =~= v.secret_nonce);
        assert(b.subrange(32, 64) =~= v.public_nonce);
        assert(b.subrange(64, 96) =~= v.revealed_nonce);
        assert(b.subrange(96, 160) =~= v.blind_factor);
    }

    proof fn lemma_short_input(b: Seq<u8>) {
    }

    fn serialize(&self, append_to: &mut Vec<u8>) {
        let secret_nonce = self.ephemeral.r.to_bytes();
        let public_nonce = self.ephemeral.R.to_bytes();
        let revealed_nonce = self.second_msg.R.to_bytes();
        append(append_to, secret_nonce.as_slice());
        append(append_to, public_nonce.as_slice());
        append(append_to, revealed_nonce.as_slice());
        append(append_to, self.second_msg.blind_factor.0.as_slice());
        assert(append_to@ =~= old(append_to)@ + Self::wire(self@));
    }

    fn deserialize(b: &[u8]) -> (r: Result<Self, Error>) {
        if b.len() < 32 + 32 + 32 + 64 {
            return Err(Error::InputTooShort { expected: 32 + 32 + 32 + 64, found: b.len() });
        }
        let r = match Scalar::from_bytes(&take::<32>(b, 0)) {
            Ok(scalar) => scalar,
            Err(e) => return Err(Error::InvalidScalar(e)),
        };
        let ephemeral_nonce = match Point::from_bytes(&take::<32>(b, 32)) {
            Ok(point) => point,
            Err(e) => return Err(Error::InvalidPoint(e)),
        };
        let second_msg_nonce = match Point::from_bytes(&take::<32>(b, 64)) {
            Ok(point) => point,
            Err(e) => return Err(Error::InvalidPoint(e)),
        };
        let blind_factor = BlindFactor(take::<64>(b, 64 + 32));
        Ok(
            Self {
                second_msg: SignSecondMsg { R: second_msg_nonce, blind_factor },
                ephemeral: EphemeralKey { R: ephemeral_nonce, r },
            },
        )
    }

    fn size_hint(&self) -> (n: usize) {
        proof {
            self.ephemeral.r.lemma_encoding_len();
            self.ephemeral.R.lemma_encoding_len();
            self.second_msg.R.lemma_encoding_len();
        }
        32 + 32 + 32 + 64
    }
}

/// What a party keeps to itself between the second round and the third.
#[derive(Debug, PartialEq, Eq)]
pub struct SecretAggStepTwo {
    pub ephemeral: EphemeralKey,
    pub first_messages: Vec<AggMessage1>,
}

/// The view of a [`SecretAggStepTwo`]: the canonical encodings of the secret scalar and
/// of its point, and the views of the first-round messages in their order.
pub struct SecretAggStepTwoView {
    pub secret_nonce: Seq<u8>,
    pub public_nonce: Seq<u8>,
    pub first_messages: Seq<AggMessage1View>,
}

/// The views of a list of first-round messages.
pub open spec fn message_views(messages: Seq<AggMessage1>) -> Seq<AggMessage1View> {
    Seq::new(messages.len(), |i: int| messages[i]@)
}

impl View for SecretAggStepTwo {
    type V = SecretAggStepTwoView;

    open spec fn view(&self) -> SecretAggStepTwoView {
        SecretAggStepTwoView {
            secret_nonce: self.ephemeral.r@,
            public_nonce: self.ephemeral.R@,
            first_messages: message_views(self.first_messages@),
        }
    }
}

/// The bytes written for a list of first-round messages: those of each, one after the
/// other.
pub open spec fn wire_all(messages: Seq<AggMessage1View>) -> Seq<u8>
    decreases messages.len(),
{
    if messages.len() == 0 {
        Seq::empty()
    } else {
        wire_all(messages.drop_last()) + AggMessage1::wire(messages.last())
    }
}

/// The first-round message that stands at place `i` of the list in a buffer `b` that
/// holds a [`SecretAggStepTwo`].
pub open spec fn message_at(b: Seq<u8>, i: int) -> AggMessage1View {
    AggMessage1View {
        commitment: b.subrange(72 + 96 * i, 72 + 96 * i + 64),
        sender: b.subrange(72 + 96 * i + 64, 72 + 96 * i + 96),
    }
}

/// The length that a buffer must have to hold a [`SecretAggStepTwo`] with `count`
/// first-round messages.
pub open spec fn len_for(count: nat) -> nat {
    72 + 96 * count
}

/// A length as an error reports it: itself where a `usize` holds it, else the greatest
/// `usize`.
pub open spec fn reported(len: nat) -> nat {
    if len > usize::MAX {
        usize::MAX as nat
    } else {
        len
    }
}

/// The bytes of valid messages are 96 for each, and each message's fields stand at its
/// place.
pub proof fn lemma_wire_all(messages: Seq<AggMessage1View>)
    requires
        forall|i: int| 0 <= i < messages.len() ==> AggMessage1::valid(#[trigger] messages[i]),
    ensures
        wire_all(messages).len() == 96 * messages.len(),
        forall|i: int|
            0 <= i < messages.len() ==> #[trigger] wire_all(messages).subrange(
                96 * i,
                96 * i + 64,
            ) == messages[i].commitment,
        forall|i: int|
            0 <= i < messages.len() ==> #[trigger] wire_all(messages).subrange(
                96 * i + 64,
                96 * i + 96,
            ) == messages[i].sender,
    decreases messages.len(),
{
    if messages.len() > 0 {
        let front = messages.drop_last();
        let last = messages.last();
        lemma_wire_all(front);
        let all = wire_all(messages);
        assert(all == wire_all(front) + (last.commitment + last.sender));
        assert forall|i: int| 0 <= i < messages.len() implies #[trigger] all.subrange(
            96 * i,
            96 * i + 64,
        ) == messages[i].commitment by {
            if i < front.len() {
                assert(all.subrange(96 * i, 96 * i + 64) =~= wire_all(front).subrange(
                    96 * i,
                    96 * i + 64,
                ));
                assert(front[i] == messages[i]);
            } else {
                assert(all.subrange(96 * i, 96 * i + 64) =~= last.commitment);
            }
        }
        assert forall|i: int| 0 <= i < messages.len() implies #[trigger] all.subrange(
            96 * i + 64,
            96 * i + 96,
        ) == messages[i].sender by {
            if i < front.len() {
                assert(all.subrange(96 * i + 64, 96 * i + 96) =~= wire_all(front).subrange(
                    96 * i + 64,
                    96 * i + 96,
                ));
                assert(front[i] == messages[i]);
            } else {
                assert(all.subrange(96 * i + 64, 96 * i + 96) =~= last.sender);
            }
        }
    }
}

impl Serialize for SecretAggStepTwo {
    open spec fn min_len() -> nat {
        72
    }

    open spec fn valid(v: SecretAggStepTwoView) -> bool {
        &&& is_scalar_encoding(v.secret_nonce)
        &&& is_point_encoding(v.public_nonce)
        &&& v.first_messages.len() <= u64::MAX
        &&& forall|i: int|
            0 <= i < v.first_messages.len() ==> AggMessage1::valid(#[trigger] v.first_messages[i])
    }

    open spec fn wire(v: SecretAggStepTwoView) -> Seq<u8> {
        v.secret_nonce + v.public_nonce + spec_u64_to_le_bytes(v.first_messages.len() as u64)
            + wire_all(v.first_messages)
    }

    open spec fn parse(b: Seq<u8>) -> Result<SecretAggStepTwoView, Failure> {
        if b.len() < 72 {
            Err(Failure::InputTooShort { expected: 72, found: b.len() })
        } else {
            match scalar_decoding(b.subrange(0, 32)) {
                None => Err(Failure::InvalidScalar),
                Some(secret_nonce) => match point_decoding(b.subrange(32, 64)) {
                    None => Err(Failure::InvalidPoint),
                    Some(public_nonce) => {
                        let count = spec_u64_from_le_bytes(b.subrange(64, 72)) as nat;
                        if b.len() < len_for(count) {
                            Err(
                                Failure::InputTooShort {
                                    expected: reported(len_for(count)),
                                    found: b.len(),
                                },
                            )
                        } else {
                            Ok(
                                SecretAggStepTwoView {
                                    secret_nonce,
                                    public_nonce,
                                    first_messages: Seq::new(count, |i: int| message_at(b, i)),
                                },
                            )
                        }
                    },
                },
            }
        }
    }

    proof fn lemma_round_trip(v: SecretAggStepTwoView) {
        let n = v.first_messages.len();
        let count_bytes = spec_u64_to_le_bytes(n as u64);
        let b = Self::wire(v);
        lemma_auto_spec_u64_to_from_le_bytes();
        lemma_wire_all(v.first_messages);
        assert(count_bytes.len() == 8);
        assert(b.len() == len_for(n));
        assert(b.subrange(0, 32) =~= v.secret_nonce);
        assert(b.subrange(32, 64) =~= v.public_nonce);
        assert(b.subrange(64, 72) =~= count_bytes);
        assert(spec_u64_from_le_bytes(b.subrange(64, 72)) == n);
        let read = Seq::new(n, |i: int| message_at(b, i));
        assert forall|i: int| 0 <= i < n implies read[i] == v.first_messages[i] by {
            let all = wire_all(v.first_messages);
            assert(b.subrange(72 + 96 * i, 72 + 96 * i + 64) =~= all.subrange(
                96 * i,
                96 * i + 64,
            ));
            assert(b.subrange(72 + 96 * i + 64, 72 + 96 * i + 96) =~= all.subrange(
                96 * i + 64,
                96 * i + 96,
            ));
        }
        assert(read =~= v.first_messages);
    }

    proof fn lemma_short_input(b: Seq<u8>) {
    }

    fn serialize(&self, append_to: &mut Vec<u8>) {
        let secret_nonce = self.ephemeral.r.to_bytes();
        let public_nonce = self.ephemeral.R.to_bytes();
        let n: usize = self.first_messages.len();
        let count_bytes = u64_to_le_bytes(n as u64);
        append(append_to, secret_nonce.as_slice());
        append(append_to, public_nonce.as_slice());
        append(append_to, count_bytes.as_slice());
        let ghost head = old(append_to)@ + self@.secret_nonce + self@.public_nonce + count_bytes@;
        let ghost messages = self@.first_messages;
        assert(append_to@ =~= head + wire_all(messages.take(0)));
        let mut i: usize = 0;
        while i < n
            invariant
                i <= n,
                n == self.first_messages@.len(),
                messages == message_views(self.first_messages@),
                append_to@ == head + wire_all(messages.take(i as int)),
            decreases n - i,
        {
            let msg = &self.first_messages[i];
            let ghost before = append_to@;
            append(append_to, msg.msg.commitment.0.as_slice());
            append(append_to, msg.sender.0.as_slice());
            proof {
                let done = messages.take(i as int + 1);
                assert(done.drop_last() =~= messages.take(i as int));
                assert(done.last() == msg@);
                assert(append_to@ =~= before + AggMessage1::wire(msg@));
                assert(append_to@ =~= head + wire_all(done));
            }
            i = i + 1;
        }
        assert(messages.take(n as int) =~= messages);
        assert(append_to@ =~= old(append_to)@ + Self::wire(self@));
    }

    fn deserialize(b: &[u8]) -> (r: Result<Self, Error>) {
        if b.len() < 32 + 32 + 8 {
            return Err(Error::InputTooShort { expected: 32 + 32 + 8, found: b.len() });
        }
        let ephemeral_nonce = match Scalar::from_bytes(&take::<32>(b, 0)) {
            Ok(scalar) => scalar,
            Err(e) => return Err(Error::InvalidScalar(e)),
        };
        let ephemeral_public_nonce = match Point::from_bytes(&take::<32>(b, 32)) {
            Ok(point) => point,
            Err(e) => return Err(Error::InvalidPoint(e)),
        };
        let count: u64 = u64_from_le_bytes(vstd::slice::slice_subrange(b, 64, 64 + 8));
        let needed: u128 = 72 + (count as u128) * 96;
        if (b.len() as u128) < needed {
            let expected: usize = if needed > usize::MAX as u128 {
                usize::MAX
            } else {
                needed as usize
            };
            return Err(Error::InputTooShort { expected, found: b.len() });
        }
        let len_first_messages: usize = count as usize;
        let total: usize = b.len();
        let mut first_messages: Vec<AggMessage1> = Vec::new();
        let mut i: usize = 0;
        while i < len_first_messages
            invariant
                i <= len_first_messages,
                72 + 96 * len_first_messages <= b@.len(),
                b@.len() == total,
                first_messages@.len() == i,
                forall|j: int| 0 <= j < i ==> (#[trigger] first_messages@[j])@ == message_at(b@, j),
            decreases len_first_messages - i,
        {
            let at: usize = 72 + i * 96;
            let commitment = Commitment(take::<64>(b, at));
            let sender = Pubkey(take::<32>(b, at + 64));
            first_messages.push(AggMessage1 { msg: SignFirstMsg { commitment }, sender });
            i = i + 1;
        }
        assert(message_views(first_messages@) =~= Seq::new(
            count as nat,
            |i: int| message_at(b@, i),
        ));
        Ok(
            Self {
                first_messages,
                ephemeral: EphemeralKey { R: ephemeral_public_nonce, r: ephemeral_nonce },
            },
        )
    }

    fn size_hint(&self) -> (n: usize) {
        proof {
            self.ephemeral.r.lemma_encoding_len();
            self.ephemeral.R.lemma_encoding_len();
            lemma_auto_spec_u64_to_from_le_bytes();
            assert forall|i: int| 0 <= i < self@.first_messages.len() implies AggMessage1::valid(
                #[trigger] self@.first_messages[i],
            ) by {}
            lemma_wire_all(self@.first_messages);
            assert(Self::wire(self@).len() == 72 + 96 * self.first_messages@.len());
        }
        32 + 32 + 8 + self.first_messages.len() * (64 + 32)
    }
}

} // verus!
