//! Points and scalars of the Ed25519 group, held by their canonical 32-byte encodings.
//!
//! The group arithmetic is the `curv` crate's. This module keeps, for each point and
//! scalar, the bytes that `curv` writes for it, and asks `curv` whether given bytes
//! stand for a point or a scalar at all.

use vstd::prelude::*;

use curv::arithmetic::Converter;
use curv::elliptic::curves::{DeserializationError, Ed25519, PointFromBytesError};

verus! {

/// The error of `curv::elliptic::curves::Point::from_bytes`.
#[verifier::external_type_specification]
#[verifier::external_body]
pub struct ExPointFromBytesError(PointFromBytesError);

/// The error of `curv::elliptic::curves::Scalar::from_bytes`.
#[verifier::external_type_specification]
#[verifier::external_body]
pub struct ExDeserializationError(DeserializationError);

/// What `Point::<Ed25519>::from_bytes` makes of 32 bytes: `None` where it refuses them,
/// else the compressed encoding that `to_bytes` writes for the point it found.
pub uninterp spec fn point_decoding(bytes: Seq<u8>) -> Option<Seq<u8>>;

/// What `Scalar::<Ed25519>::from_bytes` makes of 32 bytes: `None` where it refuses them,
/// else the encoding that `to_bytes` writes for the scalar it found.
pub uninterp spec fn scalar_decoding(bytes: Seq<u8>) -> Option<Seq<u8>>;

/// The number that `Point::<Ed25519>::y_coord` gives for the point with this canonical
/// encoding, as the big-endian bytes of `BigInt::to_bytes`.
pub uninterp spec fn y_coordinate(encoding: Seq<u8>) -> Seq<u8>;

/// The bytes are the encoding that `curv` itself writes for a point: they decode, and to
/// themselves.
pub open spec fn is_point_encoding(bytes: Seq<u8>) -> bool {
    bytes.len() == 32 && point_decoding(bytes) == Some(bytes)
}

/// The bytes are the encoding that `curv` itself writes for a scalar.
pub open spec fn is_scalar_encoding(bytes: Seq<u8>) -> bool {
    bytes.len() == 32 && scalar_decoding(bytes) == Some(bytes)
}

/// Calls `Point::<Ed25519>::from_bytes`, then `to_bytes(true)` on the point.
///
/// Trusted: the outcome is a function of the bytes, and the encoding of a point decodes
/// to that same point, so that it is its own decoding.
#[verifier::external_body]
fn decode_point(bytes: &[u8; 32]) -> (r: Result<[u8; 32], PointFromBytesError>)
    ensures
        match r {
            Ok(encoding) => point_decoding(bytes@) == Some(encoding@) && point_decoding(
                encoding@,
            ) == Some(encoding@),
            Err(_) => point_decoding(bytes@).is_none(),
        },
{
    let point = curv::elliptic::curves::Point::<Ed25519>::from_bytes(bytes)?;
    let mut encoding = [0u8; 32];
    encoding.copy_from_slice(&point.to_bytes(true));
    Ok(encoding)
}

/// Calls `Scalar::<Ed25519>::from_bytes`, then `to_bytes` on the scalar.
///
/// Trusted: the outcome is a function of the bytes, and the encoding of a scalar decodes
/// to that same scalar, so that it is its own decoding.
#[verifier::external_body]
fn decode_scalar(bytes: &[u8; 32]) -> (r: Result<[u8; 32], DeserializationError>)
    ensures
        match r {
            Ok(encoding) => scalar_decoding(bytes@) == Some(encoding@) && scalar_decoding(
                encoding@,
            ) == Some(encoding@),
            Err(_) => scalar_decoding(bytes@).is_none(),
        },
{
    let scalar = curv::elliptic::curves::Scalar::<Ed25519>::from_bytes(bytes)?;
    let mut encoding = [0u8; 32];
    encoding.copy_from_slice(&scalar.to_bytes());
    Ok(encoding)
}

/// Calls `Point::<Ed25519>::y_coord` on the point with the given canonical encoding.
///
/// Trusted: the coordinate is a function of the point. The encoding must be canonical,
/// so that rebuilding the point cannot fail; `curv` gives every Ed25519 point a
/// y coordinate.
#[verifier::external_body]
fn y_coord_of(encoding: &[u8; 32]) -> (y: Vec<u8>)
    requires
        is_point_encoding(encoding@),
    ensures
        y@ == y_coordinate(encoding@),
{
    let point = curv::elliptic::curves::Point::<Ed25519>::from_bytes(encoding).expect(
        "a canonical encoding decodes",
    );
    point.y_coord().expect("an Ed25519 point has a y coordinate").to_bytes()
}

/// A point of the group: either the neutral element or a point of the prime order.
#[derive(Debug, PartialEq, Eq)]
pub struct Point {
    encoding: [u8; 32],
}

impl View for Point {
    type V = Seq<u8>;

    /// The point's canonical compressed encoding.
    closed spec fn view(&self) -> Seq<u8> {
        self.encoding@
    }
}

impl Point {
    #[verifier::type_invariant]
    spec fn canonical(self) -> bool {
        is_point_encoding(self.encoding@)
    }

    /// Reads a point from 32 bytes. Bytes that `curv` takes for a point but would not
    /// write itself give the point they stand for, in its canonical encoding.
    pub fn from_bytes(bytes: &[u8; 32]) -> (r: Result<Point, PointFromBytesError>)
        ensures
            match r {
                Ok(point) => point_decoding(bytes@) == Some(point@) && is_point_encoding(point@),
                Err(_) => point_decoding(bytes@).is_none(),
            },
    {
        match decode_point(bytes) {
            Ok(encoding) => Ok(Point { encoding }),
            Err(e) => Err(e),
        }
    }

    /// A point's encoding has 32 bytes.
    pub proof fn lemma_encoding_len(self)
        ensures
            self@.len() == 32,
    {
    }

    /// The point's canonical compressed encoding.
    pub fn to_bytes(&self) -> (out: [u8; 32])
        ensures
            out@ == self@,
            is_point_encoding(self@),
    {
        proof {
            use_type_invariant(self);
        }
        self.encoding
    }

    /// The point's y coordinate, as the big-endian bytes of a number.
    pub fn y_coord(&self) -> (y: Vec<u8>)
        ensures
            y@ == y_coordinate(self@),
    {
        proof {
            use_type_invariant(self);
        }
        y_coord_of(&self.encoding)
    }
}

impl Clone for Point {
    fn clone(&self) -> (copy: Self)
        ensures
            copy == *self,
    {
        proof {
            use_type_invariant(self);
        }
        Point { encoding: self.encoding }
    }
}

/// A scalar of the group.
#[derive(Debug, PartialEq, Eq)]
pub struct Scalar {
    encoding: [u8; 32],
}

impl View for Scalar {
    type V = Seq<u8>;

    /// The scalar's canonical encoding.
    closed spec fn view(&self) -> Seq<u8> {
        self.encoding@
    }
}

impl Scalar {
    #[verifier::type_invariant]
    spec fn canonical(self) -> bool {
        is_scalar_encoding(self.encoding@)
    }

    /// Reads a scalar from 32 bytes. Bytes that `curv` takes for a scalar but would not
    /// write itself give the scalar they stand for, in its canonical encoding.
    pub fn from_bytes(bytes: &[u8; 32]) -> (r: Result<Scalar, DeserializationError>)
        ensures
            match r {
                Ok(scalar) => scalar_decoding(bytes@) == Some(scalar@) && is_scalar_encoding(
                    scalar@,
                ),
                Err(_) => scalar_decoding(bytes@).is_none(),
            },
    {
        match decode_scalar(bytes) {
            Ok(encoding) => Ok(Scalar { encoding }),
            Err(e) => Err(e),
        }
    }

    /// A scalar's encoding has 32 bytes.
    pub proof fn lemma_encoding_len(self)
        ensures
            self@.len() == 32,
    {
    }

    /// The scalar's canonical encoding.
    pub fn to_bytes(&self) -> (out: [u8; 32])
        ensures
            out@ == self@,
            is_scalar_encoding(self@),
    {
        proof {
            use_type_invariant(self);
        }
        self.encoding
    }
}

impl Clone for Scalar {
    fn clone(&self) -> (copy: Self)
        ensures
            copy == *self,
    {
        proof {
            use_type_invariant(self);
        }
        Scalar { encoding: self.encoding }
    }
}

} // verus!
