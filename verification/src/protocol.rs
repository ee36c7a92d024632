//! The parts of the three rounds that are no curve arithmetic: what a party publishes
//! and what it keeps after the first round and after the second, the check of every
//! reveal against its commitment that opens the third, and the byte shape of the share
//! that the third round ends with.

use vstd::prelude::*;

use crate::bytes::append;
use crate::commitment::opens;
use crate::curve::{Point, Scalar};
use crate::error::Error;
use crate::ledger::{Pubkey, Signature};
use crate::serialization::{
    message_views, AggMessage1, AggMessage1View, AggMessage2, AggMessage2View, EphemeralKey,
    PartialSignature, SecretAggStepOne, SecretAggStepOneView, SecretAggStepTwo,
    SecretAggStepTwoView, SignFirstMsg, SignSecondMsg,
};

verus! {

/// The views of a list of second-round messages.
pub open spec fn reveal_views(messages: Seq<AggMessage2>) -> Seq<AggMessage2View> {
    Seq::new(messages.len(), |i: int| messages[i]@)
}

/// A reveal stands against a first-round message when both come from the same sender
/// and the reveal opens the message's commitment.
pub open spec fn reveal_stands(first: AggMessage1View, second: AggMessage2View) -> bool {
    first.sender == second.sender && opens(first.commitment, second.nonce, second.blind_factor)
}

/// Every reveal stands against the first-round message at its place.
pub open spec fn all_reveals_stand(
    firsts: Seq<AggMessage1View>,
    seconds: Seq<AggMessage2View>,
) -> bool {
    firsts.len() == seconds.len() && forall|i: int|
        0 <= i < firsts.len() ==> reveal_stands(#[trigger] firsts[i], seconds[i])
}

/// Place `i` is the first at which a reveal does not stand.
pub open spec fn first_failure(
    firsts: Seq<AggMessage1View>,
    seconds: Seq<AggMessage2View>,
    i: int,
) -> bool {
    &&& 0 <= i < firsts.len()
    &&& i < seconds.len()
    &&& !reveal_stands(firsts[i], seconds[i])
    &&& forall|j: int| 0 <= j < i ==> reveal_stands(#[trigger] firsts[j], seconds[j])
}

/// The first round, once the nonce is drawn and committed to. The party publishes the
/// commitment under its own key, and keeps the nonce and the reveal that it will hand
/// out in the second round.
pub fn step_one(
    sender: Pubkey,
    ephemeral: EphemeralKey,
    first_msg: SignFirstMsg,
    second_msg: SignSecondMsg,
) -> (out: (AggMessage1, SecretAggStepOne))
    ensures
        out.0@ == (AggMessage1View { commitment: first_msg.commitment@, sender: sender@ }),
        out.1@ == (SecretAggStepOneView {
            secret_nonce: ephemeral.r@,
            public_nonce: ephemeral.R@,
            revealed_nonce: second_msg.R@,
            blind_factor: second_msg.blind_factor@,
        }),
{
    (AggMessage1 { msg: first_msg, sender }, SecretAggStepOne { ephemeral, second_msg })
}

/// The second round. The party publishes the reveal that it prepared in the first
/// round, under its own key, and keeps its nonce together with the first-round messages
/// of all parties, which are carried along unchecked.
pub fn step_two(
    sender: Pubkey,
    first_messages: Vec<AggMessage1>,
    secret_state: SecretAggStepOne,
) -> (out: (AggMessage2, SecretAggStepTwo))
    ensures
        out.0@ == (AggMessage2View {
            nonce: secret_state@.revealed_nonce,
            blind_factor: secret_state@.blind_factor,
            sender: sender@,
        }),
        out.1@ == (SecretAggStepTwoView {
            secret_nonce: secret_state@.secret_nonce,
            public_nonce: secret_state@.public_nonce,
            first_messages: message_views(first_messages@),
        }),
{
    let SecretAggStepOne { ephemeral, second_msg } = secret_state;
    (AggMessage2 { msg: second_msg, sender }, SecretAggStepTwo { ephemeral, first_messages })
}

/// The check that opens the third round: every party's reveal must open the commitment
/// that the same party published in the first round.
///
/// The two lists are compared place by place. Lists of different lengths, or a place
/// where the senders differ, give `MismatchMessages`; a place where the senders agree
/// and the commitment stays closed gives `InvalidCommitment`. The first place that
/// fails decides.
pub fn verify_reveals(first_messages: &[AggMessage1], second_messages: &[AggMessage2]) -> (r:
    Result<(), Error>)
    ensures
        r is Ok <==> all_reveals_stand(
            message_views(first_messages@),
            reveal_views(second_messages@),
        ),
        match r {
            Ok(_) => true,
            Err(Error::MismatchMessages) => first_messages@.len() != second_messages@.len()
                || exists|i: int|
                #![trigger first_messages@[i]]
                first_failure(
                    message_views(first_messages@),
                    reveal_views(second_messages@),
                    i,
                ) && first_messages@[i]@.sender != second_messages@[i]@.sender,
            Err(Error::InvalidCommitment) => first_messages@.len() == second_messages@.len()
                && exists|i: int|
                #![trigger first_messages@[i]]
                first_failure(
                    message_views(first_messages@),
                    reveal_views(second_messages@),
                    i,
                ) && first_messages@[i]@.sender == second_messages@[i]@.sender,
            Err(_) => false,
        },
{
    let n: usize = first_messages.len();
    if n != second_messages.len() {
        return Err(Error::MismatchMessages);
    }
    let ghost firsts = message_views(first_messages@);
    let ghost seconds = reveal_views(second_messages@);
    let mut i: usize = 0;
    while i < n
        invariant
            i <= n,
            n == first_messages@.len(),
            n == second_messages@.len(),
            firsts == message_views(first_messages@),
            seconds == reveal_views(second_messages@),
            forall|j: int| 0 <= j < i ==> reveal_stands(#[trigger] firsts[j], seconds[j]),
        decreases n - i,
    {
        let first = &first_messages[i];
        let second = &second_messages[i];
        if !crate::bytes::ct_eq::<32>(&first.sender.0, &second.sender.0) {
            assert(first_failure(firsts, seconds, i as int));
            return Err(Error::MismatchMessages);
        }
        if !first.verify_commitment(second) {
            assert(first_failure(firsts, seconds, i as int));
            return Err(Error::InvalidCommitment);
        }
        i = i + 1;
    }
    Ok(())
}

/// The share that ends the third round, in the byte shape of a whole signature: the
/// joint nonce that all parties computed, then this party's scalar.
pub fn partial_signature(joint_nonce: &Point, share: &Scalar) -> (signature: PartialSignature)
    ensures
        signature@ == joint_nonce@ + share@,
{
    let nonce = joint_nonce.to_bytes();
    let scalar = share.to_bytes();
    let mut bytes: Vec<u8> = Vec::new();
    append(&mut bytes, nonce.as_slice());
    append(&mut bytes, scalar.as_slice());
    assert(bytes@ =~= joint_nonce@ + share@);
    PartialSignature(Signature::new(bytes.as_slice()))
}

} // verus!
