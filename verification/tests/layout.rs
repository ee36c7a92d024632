use solana_tss::commitment::{BlindFactor, Commitment};
use solana_tss::curve::{Point, Scalar};
use solana_tss::ledger::{Pubkey, Signature};
use solana_tss::serialization::{EphemeralKey, Error, SignFirstMsg, SignSecondMsg};
use solana_tss::{
    AggMessage1, AggMessage2, FieldError, PartialSignature, SecretAggStepOne, SecretAggStepTwo,
    Serialize,
};

/// The canonical encoding of the curve's base point.
fn base_point() -> [u8; 32] {
    let mut bytes = [0x66u8; 32];
    bytes[0] = 0x58;
    bytes
}

/// The canonical encoding of the neutral element.
fn neutral_point() -> [u8; 32] {
    let mut bytes = [0u8; 32];
    bytes[0] = 1;
    bytes
}

fn counting(start: u8, len: usize) -> Vec<u8> {
    (0..len).map(|i| start.wrapping_add(i as u8)).collect()
}

fn first_message(tag: u8) -> AggMessage1 {
    let mut commitment = [0u8; 64];
    commitment.copy_from_slice(&counting(tag, 64));
    AggMessage1 {
        msg: SignFirstMsg { commitment: Commitment(commitment) },
        sender: Pubkey::new(&[tag; 32]),
    }
}

fn assert_too_short<T: std::fmt::Debug>(result: Result<T, Error>, expected: usize, found: usize) {
    match result {
        Err(Error::InputTooShort { expected: e, found: f }) => {
            assert_eq!(e, expected);
            assert_eq!(f, found);
        }
        other => panic!("expected a too-short error, got {:?}", other),
    }
}

#[test]
fn first_message_layout() {
    let msg = first_message(7);
    let mut out = vec![0xaa];
    msg.serialize(&mut out);
    let mut expected = vec![0xaa];
    expected.extend(counting(7, 64));
    expected.extend([7u8; 32]);
    assert_eq!(out, expected);
    assert_eq!(msg.size_hint(), 96);

    let read = AggMessage1::deserialize(&expected[1..]).unwrap();
    assert_eq!(read, msg);
    assert_eq!(read.msg.commitment.0.to_vec(), counting(7, 64));
    assert_eq!(read.sender.0, [7u8; 32]);
}

#[test]
fn second_message_layout() {
    let mut blind = [0u8; 64];
    blind.copy_from_slice(&counting(100, 64));
    let msg = AggMessage2 {
        msg: SignSecondMsg {
            R: Point::from_bytes(&base_point()).unwrap(),
            blind_factor: BlindFactor(blind),
        },
        sender: Pubkey::new(&[9u8; 32]),
    };
    let mut out = Vec::new();
    msg.serialize(&mut out);
    let mut expected = base_point().to_vec();
    expected.extend(counting(100, 64));
    expected.extend([9u8; 32]);
    assert_eq!(out, expected);
    assert_eq!(msg.size_hint(), 128);
    assert_eq!(AggMessage2::deserialize(&out).unwrap(), msg);
}

#[test]
fn partial_signature_layout() {
    let bytes = counting(1, 64);
    let sig = PartialSignature(Signature::new(&bytes));
    let mut out = Vec::new();
    sig.serialize(&mut out);
    assert_eq!(out, bytes);
    assert_eq!(sig.size_hint(), 64);
    let read = PartialSignature::deserialize(&out).unwrap();
    assert_eq!(read.0.to_bytes().to_vec(), bytes);
}

#[test]
fn first_secret_layout() {
    let mut scalar = [0u8; 32];
    scalar[0] = 5;
    let mut blind = [0u8; 64];
    blind.copy_from_slice(&counting(3, 64));
    let secret = SecretAggStepOne {
        ephemeral: EphemeralKey {
            r: Scalar::from_bytes(&scalar).unwrap(),
            R: Point::from_bytes(&base_point()).unwrap(),
        },
        second_msg: SignSecondMsg {
            R: Point::from_bytes(&neutral_point()).unwrap(),
            blind_factor: BlindFactor(blind),
        },
    };
    let mut out = Vec::new();
    secret.serialize(&mut out);
    let mut expected = scalar.to_vec();
    expected.extend(base_point());
    expected.extend(neutral_point());
    expected.extend(counting(3, 64));
    assert_eq!(out, expected);
    assert_eq!(secret.size_hint(), 160);
    assert_eq!(SecretAggStepOne::deserialize(&out).unwrap(), secret);
}

fn second_secret(count: u8) -> SecretAggStepTwo {
    let mut scalar = [0u8; 32];
    scalar[0] = 6;
    SecretAggStepTwo {
        ephemeral: EphemeralKey {
            r: Scalar::from_bytes(&scalar).unwrap(),
            R: Point::from_bytes(&base_point()).unwrap(),
        },
        first_messages: (0..count).map(first_message).collect(),
    }
}

#[test]
fn second_secret_layout() {
    let secret = second_secret(3);
    let mut out = Vec::new();
    secret.serialize(&mut out);
    let mut expected = vec![6u8];
    expected.extend([0u8; 31]);
    expected.extend(base_point());
    expected.extend([3u8, 0, 0, 0, 0, 0, 0, 0]);
    for tag in 0..3u8 {
        expected.extend(counting(tag, 64));
        expected.extend([tag; 32]);
    }
    assert_eq!(out, expected);
    assert_eq!(out.len(), 72 + 3 * 96);
    assert_eq!(secret.size_hint(), 72 + 3 * 96);
    assert_eq!(SecretAggStepTwo::deserialize(&out).unwrap(), secret);
}

#[test]
fn second_secret_without_messages() {
    let secret = second_secret(0);
    let mut out = Vec::new();
    secret.serialize(&mut out);
    assert_eq!(out.len(), 72);
    assert_eq!(&out[64..], &[0u8; 8]);
    assert_eq!(secret.size_hint(), 72);
    let read = SecretAggStepTwo::deserialize(&out).unwrap();
    assert!(read.first_messages.is_empty());
    assert_eq!(read, secret);
}

#[test]
fn second_secret_with_many_messages() {
    let secret = second_secret(200);
    let text = secret.serialize_bs58();
    let read = SecretAggStepTwo::deserialize_bs58(&text).unwrap();
    assert_eq!(read.first_messages.len(), 200);
    assert_eq!(read, secret);
}

#[test]
fn short_buffers_are_refused() {
    let mut first = Vec::new();
    first_message(1).serialize(&mut first);
    for len in 0..96 {
        assert_too_short(AggMessage1::deserialize(&first[..len]), 96, len);
    }

    let mut second = base_point().to_vec();
    second.extend([0u8; 96]);
    for len in 0..128 {
        assert_too_short(AggMessage2::deserialize(&second[..len]), 128, len);
    }

    let signature = [4u8; 64];
    for len in 0..64 {
        assert_too_short(PartialSignature::deserialize(&signature[..len]), 64, len);
    }

    let mut secret_one = vec![0u8; 32];
    secret_one.extend(base_point());
    secret_one.extend(base_point());
    secret_one.extend([0u8; 64]);
    for len in 0..160 {
        assert_too_short(SecretAggStepOne::deserialize(&secret_one[..len]), 160, len);
    }

    let mut secret_two = Vec::new();
    second_secret(2).serialize(&mut secret_two);
    for len in 0..72 {
        assert_too_short(SecretAggStepTwo::deserialize(&secret_two[..len]), 72, len);
    }
}

#[test]
fn second_secret_shorter_than_its_count_says() {
    let mut bytes = Vec::new();
    second_secret(2).serialize(&mut bytes);
    for len in 72..bytes.len() {
        assert_too_short(SecretAggStepTwo::deserialize(&bytes[..len]), 72 + 2 * 96, len);
    }
    assert!(SecretAggStepTwo::deserialize(&bytes).is_ok());
}

#[test]
fn second_secret_with_an_impossible_count() {
    let mut bytes = Vec::new();
    second_secret(0).serialize(&mut bytes);
    bytes[64..72].copy_from_slice(&u64::MAX.to_le_bytes());
    assert_too_short(SecretAggStepTwo::deserialize(&bytes), usize::MAX, 72);

    bytes[64..72].copy_from_slice(&(1u64 << 40).to_le_bytes());
    assert_too_short(SecretAggStepTwo::deserialize(&bytes), 72 + 96 * (1usize << 40), 72);
}

#[test]
fn bytes_after_the_value_are_ignored() {
    let msg = first_message(11);
    let mut bytes = Vec::new();
    msg.serialize(&mut bytes);
    bytes.extend([0xffu8; 5]);
    assert_eq!(AggMessage1::deserialize(&bytes).unwrap(), msg);

    let mut second = base_point().to_vec();
    second.extend([1u8; 64]);
    second.extend([2u8; 32]);
    second.extend([3u8; 40]);
    let read = AggMessage2::deserialize(&second).unwrap();
    assert_eq!(read.sender.0, [2u8; 32]);
    assert_eq!(read.msg.blind_factor.0, [1u8; 64]);

    let mut secret_one = vec![0u8; 32];
    secret_one.extend(base_point());
    secret_one.extend(neutral_point());
    secret_one.extend([8u8; 64]);
    secret_one.extend([9u8; 17]);
    let read = SecretAggStepOne::deserialize(&secret_one).unwrap();
    assert_eq!(read.second_msg.blind_factor.0, [8u8; 64]);

    let secret = second_secret(1);
    let mut bytes = Vec::new();
    secret.serialize(&mut bytes);
    bytes.extend([0u8; 96]);
    assert_eq!(SecretAggStepTwo::deserialize(&bytes).unwrap(), secret);
}

/// 32 equal bytes that the curve library refuses as a point.
fn not_a_point() -> [u8; 32] {
    for byte in 0..=255u8 {
        let bytes = [byte; 32];
        if curv::elliptic::curves::Point::<curv::elliptic::curves::Ed25519>::from_bytes(&bytes)
            .is_err()
        {
            return bytes;
        }
    }
    panic!("every candidate is a point");
}

#[test]
fn bytes_that_are_no_point_are_refused() {
    let bad = not_a_point();
    assert!(Point::from_bytes(&bad).is_err());

    let mut second = bad.to_vec();
    second.extend([0u8; 96]);
    assert!(matches!(AggMessage2::deserialize(&second), Err(Error::InvalidPoint(_))));

    let mut secret_one = vec![0u8; 32];
    secret_one.extend(bad);
    secret_one.extend(base_point());
    secret_one.extend([0u8; 64]);
    assert!(matches!(SecretAggStepOne::deserialize(&secret_one), Err(Error::InvalidPoint(_))));

    let mut secret_one = vec![0u8; 32];
    secret_one.extend(base_point());
    secret_one.extend(bad);
    secret_one.extend([0u8; 64]);
    assert!(matches!(SecretAggStepOne::deserialize(&secret_one), Err(Error::InvalidPoint(_))));

    let mut secret_two = vec![0u8; 32];
    secret_two.extend(bad);
    secret_two.extend([0u8; 8]);
    assert!(matches!(SecretAggStepTwo::deserialize(&secret_two), Err(Error::InvalidPoint(_))));
}

#[test]
fn a_bad_point_is_reported_before_a_short_list() {
    let mut secret_two = vec![0u8; 32];
    secret_two.extend(not_a_point());
    secret_two.extend(5u64.to_le_bytes());
    assert!(matches!(SecretAggStepTwo::deserialize(&secret_two), Err(Error::InvalidPoint(_))));
}

#[test]
fn points_are_kept_in_canonical_form() {
    // The neutral element again, with the sign bit of its x coordinate set.
    let mut odd = neutral_point();
    odd[31] = 0x80;
    let point = Point::from_bytes(&odd).unwrap();
    assert_eq!(point.to_bytes(), neutral_point());
    assert_eq!(point, Point::from_bytes(&neutral_point()).unwrap());

    let mut second = odd.to_vec();
    second.extend([0u8; 96]);
    let read = AggMessage2::deserialize(&second).unwrap();
    let mut written = Vec::new();
    read.serialize(&mut written);
    assert_eq!(&written[..32], &neutral_point());
    assert_eq!(&written[32..], &second[32..]);
}

#[test]
fn scalars_are_kept_in_canonical_form() {
    let high = [0xffu8; 32];
    let scalar = Scalar::from_bytes(&high).unwrap();
    let mut expected = [0u8; 32];
    expected.copy_from_slice(
        &curv::elliptic::curves::Scalar::<curv::elliptic::curves::Ed25519>::from_bytes(&high)
            .unwrap()
            .to_bytes(),
    );
    assert_ne!(expected, high);
    assert_eq!(scalar.to_bytes(), expected);
    assert_eq!(Scalar::from_bytes(&expected).unwrap().to_bytes(), expected);

    let mut secret_one = high.to_vec();
    secret_one.extend(base_point());
    secret_one.extend(base_point());
    secret_one.extend([0u8; 64]);
    let read = SecretAggStepOne::deserialize(&secret_one).unwrap();
    assert_eq!(read.ephemeral.r.to_bytes(), expected);
}

#[test]
fn base58_text_of_zero_bytes() {
    let sig = PartialSignature(Signature::new(&[0u8; 64]));
    assert_eq!(sig.serialize_bs58(), "1".repeat(64));
    let read = PartialSignature::deserialize_bs58(&"1".repeat(64)).unwrap();
    assert_eq!(read, sig);
}

#[test]
fn base58_text_of_a_known_value() {
    let mut bytes = [0u8; 64];
    bytes[56..].copy_from_slice(&[0x04, 0x30, 0x5e, 0x2b, 0x24, 0x73, 0xf0, 0x58]);
    let sig = PartialSignature(Signature::new(&bytes));
    let text = format!("{}he11owor1d", "1".repeat(56));
    assert_eq!(sig.serialize_bs58(), text);
    assert_eq!(PartialSignature::deserialize_bs58(&text).unwrap(), sig);
}

#[test]
fn text_that_is_not_base58_is_refused() {
    match AggMessage1::deserialize_bs58("hello world") {
        Err(Error::BadBase58(e)) => {
            assert_eq!(e.message, "provided string contained invalid character 'l' at byte 2");
        }
        other => panic!("unexpected: {:?}", other),
    }
    match PartialSignature::deserialize_bs58("he11o\u{1f600}") {
        Err(Error::BadBase58(e)) => {
            assert_eq!(
                e.message,
                "provided string contained non-ascii character starting at byte 5"
            );
        }
        other => panic!("unexpected: {:?}", other),
    }
}

#[test]
fn error_messages() {
    let short = AggMessage1::deserialize(&[0u8; 7]).unwrap_err();
    assert_eq!(short.to_string(), "Input too short, expected: 96, found: 7");
    let short = SecretAggStepOne::deserialize(&[]).unwrap_err();
    assert_eq!(short.to_string(), "Input too short, expected: 160, found: 0");
    let short = Error::InputTooShort { expected: usize::MAX, found: 1234567890 };
    assert_eq!(
        short.to_string(),
        format!("Input too short, expected: {}, found: 1234567890", usize::MAX)
    );

    let text = AggMessage1::deserialize_bs58("hello world").unwrap_err();
    assert_eq!(
        text.to_string(),
        "Invalid base58: provided string contained invalid character 'l' at byte 2"
    );

    let mut second = not_a_point().to_vec();
    second.extend([0u8; 96]);
    let point = AggMessage2::deserialize(&second).unwrap_err();
    let from_curve =
        curv::elliptic::curves::Point::<curv::elliptic::curves::Ed25519>::from_bytes(&not_a_point())
            .unwrap_err();
    assert_eq!(point.to_string(), format!("Invalid Ed25519 Point: {}", from_curve));

    let scalar_error =
        curv::elliptic::curves::Scalar::<curv::elliptic::curves::Ed25519>::from_bytes(&[0u8; 31])
            .unwrap_err();
    assert_eq!(
        Error::from(scalar_error).to_string(),
        "Invalid Ed25519 Scalar: failed to deserialize the point/scalar"
    );
}

#[test]
fn numbers_as_text() {
    for n in [0usize, 1, 9, 10, 11, 99, 100, 101, 1000, 65535, 4294967295, usize::MAX] {
        assert_eq!(solana_tss::text::decimal_string(n), n.to_string());
    }
}

#[test]
fn short_text_is_refused_as_short_bytes() {
    assert_too_short(PartialSignature::deserialize_bs58("he11owor1d"), 64, 8);
    assert_too_short(AggMessage1::deserialize_bs58(""), 96, 0);
}

#[test]
fn errors_are_tagged_with_their_field() {
    let tagged = AggMessage1::deserialize(&[1, 2, 3]).with_field("first_messages");
    match tagged {
        Err(solana_tss::Error::DeserializationFailed {
            error: Error::InputTooShort { expected, found },
            field_name,
        }) => {
            assert_eq!(expected, 96);
            assert_eq!(found, 3);
            assert_eq!(field_name, "first_messages");
        }
        other => panic!("unexpected: {:?}", other),
    }

    let msg = first_message(2);
    let mut bytes = Vec::new();
    msg.serialize(&mut bytes);
    assert_eq!(AggMessage1::deserialize(&bytes).with_field("first_messages").unwrap(), msg);
}

#[test]
fn decoder_errors_convert() {
    let bad = not_a_point();
    let point_error =
        curv::elliptic::curves::Point::<curv::elliptic::curves::Ed25519>::from_bytes(&bad)
            .unwrap_err();
    assert!(matches!(Error::from(point_error), Error::InvalidPoint(_)));
    let scalar_error =
        curv::elliptic::curves::Scalar::<curv::elliptic::curves::Ed25519>::from_bytes(&[0u8; 31])
            .unwrap_err();
    assert!(matches!(Error::from(scalar_error), Error::InvalidScalar(_)));
}
