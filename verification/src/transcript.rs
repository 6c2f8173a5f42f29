//! The Fiat-Shamir transcript: labelled messages are absorbed in order, and
//! a challenge is a function of everything absorbed before it.
use vstd::prelude::*;
use crate::encoding::le_value;
use crate::scalar::{group_order, Scalar};

verus! {

#[verifier::external_type_specification]
#[verifier::external_body]
pub struct ExTranscript(merlin::Transcript);

/// What a `merlin::Transcript` has absorbed, oldest first. The first entry
/// holds the domain label that the transcript was made with, and no bytes.
/// An entry is flagged where it was a challenge, and then holds the bytes
/// that were given out.
pub uninterp spec fn transcript_log(t: merlin::Transcript) -> Seq<(bool, Seq<char>, Seq<u8>)>;

/// What `merlin::Transcript::challenge_bytes` writes into a buffer of 64
/// bytes under `label`, for a transcript that has absorbed `log`.
pub uninterp spec fn merlin_challenge(log: Seq<(bool, Seq<char>, Seq<u8>)>, label: Seq<char>) -> Seq<u8>;

/// Makes a transcript with `merlin::Transcript::new`, which absorbs the
/// domain label as a message and so wants its length in bytes to fit in 32
/// bits; a character takes at most four bytes. The contract claims that the
/// transcript has absorbed the domain label and nothing else.
#[verifier::external_body]
fn transcript_new(domain: &'static str) -> (t: merlin::Transcript)
    requires
        domain@.len() <= 0x3fff_ffff,
    ensures
        transcript_log(t) == seq![(false, domain@, Seq::<u8>::empty())],
{
    merlin::Transcript::new(domain.as_bytes())
}

/// Absorbs a message with `merlin::Transcript::append_message`. The
/// contract claims that the message and its label join the end of the log.
#[verifier::external_body]
fn transcript_append(t: &mut merlin::Transcript, label: &'static str, message: &[u8])
    requires
        message@.len() <= u32::MAX,
    ensures
        transcript_log(*final(t)) == transcript_log(*old(t)).push((false, label@, message@)),
{
    t.append_message(label.as_bytes(), message)
}

/// Draws 64 challenge bytes with `merlin::Transcript::challenge_bytes`.
/// The contract claims that they depend on the log and the label alone,
/// and that the draw joins the end of the log.
#[verifier::external_body]
fn transcript_challenge(t: &mut merlin::Transcript, label: &'static str) -> (r: [u8; 64])
    ensures
        r@ == merlin_challenge(transcript_log(*old(t)), label@),
        transcript_log(*final(t)) == transcript_log(*old(t)).push((true, label@, r@)),
{
    let mut dest = [0u8; 64];
    t.challenge_bytes(label.as_bytes(), &mut dest);
    dest
}

/// A transcript of labelled messages.
pub struct FiatShamirTranscript {
    inner: merlin::Transcript,
}

impl FiatShamirTranscript {
    /// Everything absorbed so far, oldest first.
    pub closed spec fn log(self) -> Seq<(bool, Seq<char>, Seq<u8>)> {
        transcript_log(self.inner)
    }

    /// The scalar that a challenge under `label` gives after `log`.
    pub open spec fn challenge_scalar(log: Seq<(bool, Seq<char>, Seq<u8>)>, label: Seq<char>) -> nat {
        le_value(merlin_challenge(log, label)) % group_order()
    }

    /// A fresh transcript under a domain label, whose bytes must be
    /// countable in 32 bits.
    pub fn new(domain_label: &'static str) -> (t: FiatShamirTranscript)
        requires
            domain_label@.len() <= 0x3fff_ffff,
        ensures
            t.log() == seq![(false, domain_label@, Seq::<u8>::empty())],
    {
        FiatShamirTranscript { inner: transcript_new(domain_label) }
    }

    /// Absorbs `bytes` under `label`.
    pub fn append(&mut self, label: &'static str, bytes: &[u8])
        requires
            bytes@.len() <= u32::MAX,
        ensures
            final(self).log() == old(self).log().push((false, label@, bytes@)),
    {
        transcript_append(&mut self.inner, label, bytes)
    }

    /// Draws a challenge under `label` and reduces it to a scalar.
    pub fn challenge(&mut self, label: &'static str) -> (c: Scalar)
        ensures
            c.wf(),
            c.value() == Self::challenge_scalar(old(self).log(), label@),
            final(self).log() == old(self).log().push(
                (true, label@, merlin_challenge(old(self).log(), label@)),
            ),
    {
        let wide = transcript_challenge(&mut self.inner, label);
        Scalar::from_bytes_mod_order_wide(&wide)
    }
}

} // verus!
