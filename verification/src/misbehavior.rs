//! Reports of misbehaviour and the signed extrinsics that carry them.
//!
//! A validator that prepares or commits twice in one round has left two
//! signed votes behind. The report names the validator and holds both votes.
//! It travels in an extrinsic that calls the consensus module and is signed
//! by the reporting validator.
//!
//! On the wire every field has a fixed width, integers are little-endian,
//! and the fields follow one another without padding:
//!
//! ```text
//! extrinsic  = signed(32) index(8) module(1) call(1) report(269) signature(64)
//! report     = parent_hash(32) parent_number(8) target(32) kind(1) round(4)
//!              hash(32) signature(64) hash(32) signature(64)
//! ```
//!
//! The signature covers everything before it.

use vstd::prelude::*;
use vstd::bytes::{
    lemma_auto_spec_u32_to_from_le_bytes, lemma_auto_spec_u64_to_from_le_bytes,
    spec_u32_from_le_bytes, spec_u32_to_le_bytes, spec_u64_from_le_bytes, spec_u64_to_le_bytes,
    u32_from_le_bytes, u32_to_le_bytes, u64_from_le_bytes, u64_to_le_bytes,
};
use vstd::slice::slice_subrange;
use crate::crypto::{ed25519_public_key, ed25519_signature, public_key_of, signature_of};
use crate::types::{AccountId, AuthorityId, BlockNumber, Nonce, Signature, H256};

verus! {

/// The index of the consensus module among the modules that take calls.
pub const CONSENSUS_MODULE: u8 = 0;

/// The index of the call that reports misbehaviour, within its module.
pub const REPORT_MISBEHAVIOR_CALL: u8 = 0;

/// The byte that marks a double prepare.
pub const DOUBLE_PREPARE_CODE: u8 = 0x11;

/// The byte that marks a double commit.
pub const DOUBLE_COMMIT_CODE: u8 = 0x12;

/// Bytes of an encoded report.
pub const REPORT_LEN: usize = 269;

/// Bytes of an encoded extrinsic without its signature.
pub const BARE_EXTRINSIC_LEN: usize = 311;

/// Bytes of an encoded extrinsic with its signature.
pub const UNCHECKED_EXTRINSIC_LEN: usize = 375;

/// A vote as evidence: the hash voted for and the voter's signature.
pub type SignedVote = (H256, Signature);

/// Misbehaviour that the round driver has observed.
#[derive(Clone, Copy, Debug)]
pub enum Misbehavior {
    /// Proposed out of turn: round, hash, signature.
    ProposeOutOfTurn(u32, H256, Signature),
    /// Made two proposals in one round.
    DoublePropose(u32, SignedVote, SignedVote),
    /// Prepared two hashes in one round.
    DoublePrepare(u32, SignedVote, SignedVote),
    /// Committed two hashes in one round.
    DoubleCommit(u32, SignedVote, SignedVote),
}

/// Misbehaviour that the chain takes reports of.
#[derive(Clone, Copy, Debug)]
pub enum MisbehaviorKind {
    /// Two prepares in one round: round and both votes.
    BftDoublePrepare(u32, SignedVote, SignedVote),
    /// Two commits in one round: round and both votes.
    BftDoubleCommit(u32, SignedVote, SignedVote),
}

/// A report of misbehaviour, as the chain takes it.
#[derive(Clone, Copy, Debug)]
pub struct MisbehaviorReport {
    /// The parent of the block at which the votes were cast.
    pub parent_hash: H256,
    /// That parent's number.
    pub parent_number: BlockNumber,
    /// The validator that misbehaved.
    pub target: AuthorityId,
    /// What it did.
    pub misbehavior: MisbehaviorKind,
}

/// An extrinsic that reports misbehaviour, before it is signed.
#[derive(Clone, Copy, Debug)]
pub struct BareExtrinsic {
    /// The account that reports.
    pub signed: AccountId,
    /// That account's transaction index.
    pub index: Nonce,
    /// The report that the call hands to the consensus module.
    pub function: MisbehaviorReport,
}

/// An extrinsic that reports misbehaviour, with its signature.
#[derive(Clone, Copy, Debug)]
pub struct UncheckedExtrinsic {
    pub extrinsic: BareExtrinsic,
    /// The signature of `signed` over the encoded `extrinsic`.
    pub signature: Signature,
}

/// A signed vote on the wire.
pub open spec fn vote_encoding(vote: SignedVote) -> Seq<u8> {
    vote.0@ + vote.1@
}

/// An extrinsic without its signature on the wire.
pub open spec fn bare_encoding(signed: Seq<u8>, index: Nonce, report: MisbehaviorReport) -> Seq<
    u8,
> {
    signed + spec_u64_to_le_bytes(index) + seq![CONSENSUS_MODULE, REPORT_MISBEHAVIOR_CALL]
        + report.encoding()
}

/// The bytes of the extrinsic by which the holder of `secret` reports
/// `report` at transaction index `index`: the encoded extrinsic, then the
/// signature over it.
pub open spec fn signed_encoding(secret: Seq<u8>, index: Nonce, report: MisbehaviorReport) -> Seq<
    u8,
> {
    let bare = bare_encoding(ed25519_public_key(secret), index, report);
    bare + ed25519_signature(secret, bare)
}

impl Misbehavior {
    /// What the chain takes a report of: double prepares and double commits.
    /// Proposals out of turn and double proposals are not reported.
    pub open spec fn reported_as(self) -> Option<MisbehaviorKind> {
        match self {
            Misbehavior::ProposeOutOfTurn(_, _, _) => None,
            Misbehavior::DoublePropose(_, _, _) => None,
            Misbehavior::DoublePrepare(round, first, second) => Some(
                MisbehaviorKind::BftDoublePrepare(round, first, second),
            ),
            Misbehavior::DoubleCommit(round, first, second) => Some(
                MisbehaviorKind::BftDoubleCommit(round, first, second),
            ),
        }
    }

    /// The kind under which this misbehaviour is reported, if it is
    /// reported at all.
    pub fn kind(&self) -> (r: Option<MisbehaviorKind>)
        ensures
            r == self.reported_as(),
    {
        match self {
            Misbehavior::ProposeOutOfTurn(_, _, _) => None,
            Misbehavior::DoublePropose(_, _, _) => None,
            Misbehavior::DoublePrepare(round, first, second) => Some(
                MisbehaviorKind::BftDoublePrepare(*round, *first, *second),
            ),
            Misbehavior::DoubleCommit(round, first, second) => Some(
                MisbehaviorKind::BftDoubleCommit(*round, *first, *second),
            ),
        }
    }
}

impl MisbehaviorKind {
    /// The byte that marks the kind.
    pub open spec fn code(self) -> u8 {
        match self {
            MisbehaviorKind::BftDoublePrepare(_, _, _) => DOUBLE_PREPARE_CODE,
            MisbehaviorKind::BftDoubleCommit(_, _, _) => DOUBLE_COMMIT_CODE,
        }
    }

    /// The round of the two votes.
    pub open spec fn round(self) -> u32 {
        match self {
            MisbehaviorKind::BftDoublePrepare(round, _, _) => round,
            MisbehaviorKind::BftDoubleCommit(round, _, _) => round,
        }
    }

    /// The first vote.
    pub open spec fn first(self) -> SignedVote {
        match self {
            MisbehaviorKind::BftDoublePrepare(_, first, _) => first,
            MisbehaviorKind::BftDoubleCommit(_, first, _) => first,
        }
    }

    /// The second vote.
    pub open spec fn second(self) -> SignedVote {
        match self {
            MisbehaviorKind::BftDoublePrepare(_, _, second) => second,
            MisbehaviorKind::BftDoubleCommit(_, _, second) => second,
        }
    }

    /// The kind on the wire: its code, the round, the two votes.
    pub open spec fn encoding(self) -> Seq<u8> {
        seq![self.code()] + spec_u32_to_le_bytes(self.round()) + vote_encoding(self.first())
            + vote_encoding(self.second())
    }

    /// Appends the kind's encoding to `out`.
    fn encode_to(&self, out: &mut Vec<u8>)
        ensures
            final(out)@ == old(out)@ + self.encoding(),
    {
        let (code, round, first, second) = match self {
            MisbehaviorKind::BftDoublePrepare(round, first, second) => (
                DOUBLE_PREPARE_CODE,
                *round,
                first,
                second,
            ),
            MisbehaviorKind::BftDoubleCommit(round, first, second) => (
                DOUBLE_COMMIT_CODE,
                *round,
                first,
                second,
            ),
        };
        out.push(code);
        let round_bytes = u32_to_le_bytes(round);
        append_bytes(out, round_bytes.as_slice());
        append_bytes(out, &first.0);
        append_bytes(out, &first.1);
        append_bytes(out, &second.0);
        append_bytes(out, &second.1);
        assert(out@ =~= old(out)@ + self.encoding());
    }
}

impl MisbehaviorReport {
    /// The report on the wire: parent hash, parent number, target, kind.
    pub open spec fn encoding(self) -> Seq<u8> {
        self.parent_hash@ + spec_u64_to_le_bytes(self.parent_number) + self.target@
            + self.misbehavior.encoding()
    }

    /// Appends the report's encoding to `out`.
    fn encode_to(&self, out: &mut Vec<u8>)
        ensures
            final(out)@ == old(out)@ + self.encoding(),
    {
        append_bytes(out, &self.parent_hash);
        let number_bytes = u64_to_le_bytes(self.parent_number);
        append_bytes(out, number_bytes.as_slice());
        append_bytes(out, &self.target);
        self.misbehavior.encode_to(out);
        assert(out@ =~= old(out)@ + self.encoding());
    }

    /// The report on the wire.
    pub fn encode(&self) -> (r: Vec<u8>)
        ensures
            r@ == self.encoding(),
            r.len() == REPORT_LEN,
    {
        let mut out: Vec<u8> = Vec::new();
        self.encode_to(&mut out);
        proof {
            lemma_report_layout(*self);
            assert(out@ =~= self.encoding());
        }
        out
    }

    /// Reads a report off the wire: the report whose encoding `bytes` is, or
    /// `None` if `bytes` is the encoding of no report.
    pub fn decode(bytes: &[u8]) -> (r: Option<MisbehaviorReport>)
        ensures
            match r {
                Some(report) => report.encoding() == bytes@,
                None => forall|report: MisbehaviorReport| #[trigger] report.encoding() != bytes@,
            },
    {
        if bytes.len() != REPORT_LEN {
            proof {
                assert forall|report: MisbehaviorReport| #[trigger]
                    report.encoding() != bytes@ by {
                    lemma_report_layout(report);
                }
            }
            return None;
        }
        let code = bytes[72];
        if code != DOUBLE_PREPARE_CODE && code != DOUBLE_COMMIT_CODE {
            proof {
                assert forall|report: MisbehaviorReport| #[trigger]
                    report.encoding() != bytes@ by {
                    lemma_report_layout(report);
                }
            }
            return None;
        }
        let parent_hash = read_32(bytes, 0);
        let parent_number = u64_from_le_bytes(slice_subrange(bytes, 32, 40));
        let target = read_32(bytes, 40);
        let round = u32_from_le_bytes(slice_subrange(bytes, 73, 77));
        let first = (read_32(bytes, 77), read_64(bytes, 109));
        let second = (read_32(bytes, 173), read_64(bytes, 205));
        let misbehavior = if code == DOUBLE_PREPARE_CODE {
            MisbehaviorKind::BftDoublePrepare(round, first, second)
        } else {
            MisbehaviorKind::BftDoubleCommit(round, first, second)
        };
        let report = MisbehaviorReport { parent_hash, parent_number, target, misbehavior };
        proof {
            lemma_auto_spec_u32_to_from_le_bytes();
            lemma_auto_spec_u64_to_from_le_bytes();
            lemma_report_layout(report);
            assert(spec_u64_to_le_bytes(parent_number) == bytes@.subrange(32, 40));
            assert(spec_u32_to_le_bytes(round) == bytes@.subrange(73, 77));
            assert(report.encoding() =~= bytes@);
        }
        Some(report)
    }
}

impl BareExtrinsic {
    /// The extrinsic on the wire: sender, index, the call, the report.
    pub open spec fn encoding(self) -> Seq<u8> {
        bare_encoding(self.signed@, self.index, self.function)
    }

    /// Appends the extrinsic's encoding to `out`.
    fn encode_to(&self, out: &mut Vec<u8>)
        ensures
            final(out)@ == old(out)@ + self.encoding(),
    {
        append_bytes(out, &self.signed);
        let index_bytes = u64_to_le_bytes(self.index);
        append_bytes(out, index_bytes.as_slice());
        out.push(CONSENSUS_MODULE);
        out.push(REPORT_MISBEHAVIOR_CALL);
        self.function.encode_to(out);
        assert(out@ =~= old(out)@ + self.encoding());
    }

    /// The extrinsic on the wire: what its sender signs.
    pub fn encode(&self) -> (r: Vec<u8>)
        ensures
            r@ == self.encoding(),
            r.len() == BARE_EXTRINSIC_LEN,
    {
        let mut out: Vec<u8> = Vec::new();
        self.encode_to(&mut out);
        proof {
            lemma_bare_layout(self.signed@, self.index, self.function);
            assert(out@ =~= self.encoding());
        }
        out
    }
}

impl UncheckedExtrinsic {
    /// The signed extrinsic on the wire: the extrinsic, then the signature.
    pub open spec fn encoding(self) -> Seq<u8> {
        self.extrinsic.encoding() + self.signature@
    }

    /// The signed extrinsic on the wire.
    pub fn encode(&self) -> (r: Vec<u8>)
        ensures
            r@ == self.encoding(),
            r.len() == UNCHECKED_EXTRINSIC_LEN,
    {
        let mut out: Vec<u8> = Vec::new();
        self.extrinsic.encode_to(&mut out);
        append_bytes(&mut out, &self.signature);
        proof {
            lemma_bare_layout(self.extrinsic.signed@, self.extrinsic.index, self.extrinsic.function);
            assert(out@ =~= self.encoding());
        }
        out
    }

    /// Reads a signed extrinsic off the wire: the one whose encoding
    /// `bytes` is, or `None` if `bytes` is the encoding of none. The
    /// signature is read, not checked.
    pub fn decode(bytes: &[u8]) -> (r: Option<UncheckedExtrinsic>)
        ensures
            match r {
                Some(extrinsic) => extrinsic.encoding() == bytes@,
                None => forall|extrinsic: UncheckedExtrinsic| #[trigger]
                    extrinsic.encoding() != bytes@,
            },
    {
        if bytes.len() != UNCHECKED_EXTRINSIC_LEN {
            proof {
                assert forall|extrinsic: UncheckedExtrinsic| #[trigger]
                    extrinsic.encoding() != bytes@ by {
                    lemma_unchecked_layout(extrinsic);
                }
            }
            return None;
        }
        if bytes[40] != CONSENSUS_MODULE || bytes[41] != REPORT_MISBEHAVIOR_CALL {
            proof {
                assert forall|extrinsic: UncheckedExtrinsic| #[trigger]
                    extrinsic.encoding() != bytes@ by {
                    lemma_unchecked_layout(extrinsic);
                }
            }
            return None;
        }
        let function = match MisbehaviorReport::decode(slice_subrange(bytes, 42, 311)) {
            Some(report) => report,
            None => {
                proof {
                    assert forall|extrinsic: UncheckedExtrinsic| #[trigger]
                        extrinsic.encoding() != bytes@ by {
                        lemma_unchecked_layout(extrinsic);
                        if extrinsic.encoding() == bytes@ {
                            assert(extrinsic.extrinsic.function.encoding() =~= bytes@.subrange(
                                42,
                                311,
                            ));
                        }
                    }
                }
                return None;
            },
        };
        let signed = read_32(bytes, 0);
        let index = u64_from_le_bytes(slice_subrange(bytes, 32, 40));
        let signature = read_64(bytes, 311);
        let extrinsic = UncheckedExtrinsic {
            extrinsic: BareExtrinsic { signed, index, function },
            signature,
        };
        proof {
            lemma_auto_spec_u64_to_from_le_bytes();
            lemma_unchecked_layout(extrinsic);
            assert(spec_u64_to_le_bytes(index) == bytes@.subrange(32, 40));
            assert(function.encoding() == bytes@.subrange(42, 311));
            assert(extrinsic.encoding() =~= bytes@);
        }
        Some(extrinsic)
    }
}

/// The report that one observation gives rise to, if it is reported at all.
pub open spec fn report_of(
    parent_hash: H256,
    parent_number: BlockNumber,
    target: AuthorityId,
    misbehavior: Misbehavior,
) -> Option<MisbehaviorReport> {
    match misbehavior.reported_as() {
        Some(kind) => Some(
            MisbehaviorReport { parent_hash, parent_number, target, misbehavior: kind },
        ),
        None => None,
    }
}

/// The reports that a batch of observations gives rise to: one for each
/// observation that is reported, in the order of the batch.
pub open spec fn reports_of(
    parent_hash: H256,
    parent_number: BlockNumber,
    observed: Seq<(AuthorityId, Misbehavior)>,
) -> Seq<MisbehaviorReport>
    decreases observed.len(),
{
    if observed.len() == 0 {
        Seq::empty()
    } else {
        let front = reports_of(parent_hash, parent_number, observed.drop_last());
        match report_of(parent_hash, parent_number, observed.last().0, observed.last().1) {
            Some(report) => front.push(report),
            None => front,
        }
    }
}

/// How many observations of a batch are reported.
pub open spec fn reportable_count(observed: Seq<(AuthorityId, Misbehavior)>) -> nat
    decreases observed.len(),
{
    if observed.len() == 0 {
        0
    } else {
        reportable_count(observed.drop_last()) + if observed.last().1.reported_as() is Some {
            1nat
        } else {
            0nat
        }
    }
}

/// A batch gives rise to exactly one report for each observation that is
/// reported.
pub proof fn lemma_one_report_each(
    parent_hash: H256,
    parent_number: BlockNumber,
    observed: Seq<(AuthorityId, Misbehavior)>,
)
    ensures
        reports_of(parent_hash, parent_number, observed).len() == reportable_count(observed),
        reportable_count(observed) <= observed.len(),
    decreases observed.len(),
{
    if observed.len() > 0 {
        lemma_one_report_each(parent_hash, parent_number, observed.drop_last());
    }
}

/// The report for one observation; `None` for what is not reported.
pub fn report_for(
    parent_hash: &H256,
    parent_number: BlockNumber,
    target: &AuthorityId,
    misbehavior: &Misbehavior,
) -> (r: Option<MisbehaviorReport>)
    ensures
        r == report_of(*parent_hash, parent_number, *target, *misbehavior),
{
    match misbehavior.kind() {
        Some(kind) => Some(
            MisbehaviorReport {
                parent_hash: *parent_hash,
                parent_number,
                target: *target,
                misbehavior: kind,
            },
        ),
        None => None,
    }
}

/// The reports for a batch of observations, in the order of the batch.
pub fn collect_reports(
    parent_hash: &H256,
    parent_number: BlockNumber,
    observed: &[(AuthorityId, Misbehavior)],
) -> (r: Vec<MisbehaviorReport>)
    ensures
        r@ == reports_of(*parent_hash, parent_number, observed@),
{
    let mut reports: Vec<MisbehaviorReport> = Vec::new();
    let mut i: usize = 0;
    while i < observed.len()
        invariant
            i <= observed.len(),
            reports@ == reports_of(*parent_hash, parent_number, observed@.take(i as int)),
        decreases observed.len() - i,
    {
        proof {
            assert(observed@.take(i + 1).drop_last() =~= observed@.take(i as int));
        }
        let observation = &observed[i];
        match report_for(parent_hash, parent_number, &observation.0, &observation.1) {
            Some(report) => {
                reports.push(report);
            },
            None => {},
        }
        i += 1;
    }
    assert(observed@.take(i as int) =~= observed@);
    reports
}

/// Makes the extrinsic by which the holder of `secret` reports `report` at
/// transaction index `index`, and signs it.
pub fn sign_report(secret: &[u8; 32], index: Nonce, report: &MisbehaviorReport) -> (r:
    UncheckedExtrinsic)
    ensures
        r.extrinsic.signed@ == ed25519_public_key(secret@),
        r.extrinsic.index == index,
        r.extrinsic.function == *report,
        r.signature@ == ed25519_signature(secret@, r.extrinsic.encoding()),
        r.encoding() == signed_encoding(secret@, index, *report),
{
    let extrinsic = BareExtrinsic { signed: public_key_of(secret), index, function: *report };
    let message = extrinsic.encode();
    let signature = signature_of(secret, message.as_slice());
    UncheckedExtrinsic { extrinsic, signature }
}

/// The transaction index of the `k`-th extrinsic of a batch whose sender's
/// index stands at `current_index`.
pub open spec fn batch_index(current_index: Nonce, k: int) -> Nonce {
    (current_index + 1 + k) as u64
}

/// The bytes of the `k`-th extrinsic of a batch whose sender's transaction
/// index stands at `current_index`.
pub open spec fn batch_item(
    secret: Seq<u8>,
    current_index: Nonce,
    reports: Seq<MisbehaviorReport>,
    k: int,
) -> Seq<u8> {
    signed_encoding(secret, batch_index(current_index, k), reports[k])
}

/// Within a batch that is not given up, the indices rise by one from
/// extrinsic to extrinsic, beginning after the sender's current index.
pub proof fn lemma_batch_indices_rise(current_index: Nonce, count: nat, j: int, k: int)
    requires
        current_index + count <= u64::MAX,
        0 <= j < k < count,
    ensures
        current_index < batch_index(current_index, j) < batch_index(current_index, k),
        batch_index(current_index, j + 1) == batch_index(current_index, j) + 1,
{
}

/// Signs one extrinsic for each report. The first takes the index after
/// `current_index`, each further one the index after that of the one before
/// it. Where the indices run out the whole batch is given up: `None`.
pub fn sign_reports(secret: &[u8; 32], current_index: Nonce, reports: &[MisbehaviorReport]) -> (r:
    Option<Vec<Vec<u8>>>)
    ensures
        r is None <==> current_index + reports.len() > u64::MAX,
        r is Some ==> r.unwrap().len() == reports.len(),
        r is Some ==> forall|k: int|
            0 <= k < reports.len() ==> (#[trigger] r.unwrap()[k])@ == batch_item(
                secret@,
                current_index,
                reports@,
                k,
            ),
{
    if reports.len() > 0 && (reports.len() - 1) as u64 >= u64::MAX - current_index {
        return None;
    }
    let mut batch: Vec<Vec<u8>> = Vec::new();
    let mut i: usize = 0;
    while i < reports.len()
        invariant
            i <= reports.len(),
            current_index + reports.len() <= u64::MAX,
            batch.len() == i,
            forall|k: int|
                0 <= k < i ==> (#[trigger] batch[k])@ == batch_item(
                    secret@,
                    current_index,
                    reports@,
                    k,
                ),
        decreases reports.len() - i,
    {
        let index = current_index + 1 + (i as u64);
        let extrinsic = sign_report(secret, index, &reports[i]);
        batch.push(extrinsic.encode());
        i += 1;
    }
    Some(batch)
}

/// Where the fields of an encoded report lie.
pub proof fn lemma_report_layout(report: MisbehaviorReport)
    ensures
        report.encoding().len() == REPORT_LEN,
        report.encoding().subrange(0, 32) == report.parent_hash@,
        report.encoding().subrange(32, 40) == spec_u64_to_le_bytes(report.parent_number),
        report.encoding().subrange(40, 72) == report.target@,
        report.encoding()[72] == report.misbehavior.code(),
        report.encoding().subrange(73, 77) == spec_u32_to_le_bytes(report.misbehavior.round()),
        report.encoding().subrange(77, 109) == report.misbehavior.first().0@,
        report.encoding().subrange(109, 173) == report.misbehavior.first().1@,
        report.encoding().subrange(173, 205) == report.misbehavior.second().0@,
        report.encoding().subrange(205, 269) == report.misbehavior.second().1@,
{
    lemma_auto_spec_u32_to_from_le_bytes();
    lemma_auto_spec_u64_to_from_le_bytes();
    let bytes = report.encoding();
    let kind = report.misbehavior;
    assert(kind.encoding().len() == 197);
    assert(bytes.len() == 269);
    assert(bytes.subrange(0, 32) =~= report.parent_hash@);
    assert(bytes.subrange(32, 40) =~= spec_u64_to_le_bytes(report.parent_number));
    assert(bytes.subrange(40, 72) =~= report.target@);
    assert(bytes.subrange(73, 77) =~= spec_u32_to_le_bytes(kind.round()));
    assert(bytes.subrange(77, 109) =~= kind.first().0@);
    assert(bytes.subrange(109, 173) =~= kind.first().1@);
    assert(bytes.subrange(173, 205) =~= kind.second().0@);
    assert(bytes.subrange(205, 269) =~= kind.second().1@);
}

/// Where the fields of an encoded extrinsic lie, for a sender of 32 bytes.
pub proof fn lemma_bare_layout(signed: Seq<u8>, index: Nonce, report: MisbehaviorReport)
    requires
        signed.len() == 32,
    ensures
        bare_encoding(signed, index, report).len() == BARE_EXTRINSIC_LEN,
        bare_encoding(signed, index, report).subrange(0, 32) == signed,
        bare_encoding(signed, index, report).subrange(32, 40) == spec_u64_to_le_bytes(index),
        bare_encoding(signed, index, report)[40] == CONSENSUS_MODULE,
        bare_encoding(signed, index, report)[41] == REPORT_MISBEHAVIOR_CALL,
        bare_encoding(signed, index, report).subrange(42, 311) == report.encoding(),
{
    lemma_auto_spec_u64_to_from_le_bytes();
    lemma_report_layout(report);
    let bytes = bare_encoding(signed, index, report);
    assert(bytes.subrange(0, 32) =~= signed);
    assert(bytes.subrange(32, 40) =~= spec_u64_to_le_bytes(index));
    assert(bytes.subrange(42, 311) =~= report.encoding());
}

/// Where the fields of an encoded signed extrinsic lie.
pub proof fn lemma_unchecked_layout(extrinsic: UncheckedExtrinsic)
    ensures
        extrinsic.encoding().len() == UNCHECKED_EXTRINSIC_LEN,
        extrinsic.encoding().subrange(0, 32) == extrinsic.extrinsic.signed@,
        extrinsic.encoding().subrange(32, 40) == spec_u64_to_le_bytes(extrinsic.extrinsic.index),
        extrinsic.encoding()[40] == CONSENSUS_MODULE,
        extrinsic.encoding()[41] == REPORT_MISBEHAVIOR_CALL,
        extrinsic.encoding().subrange(42, 311) == extrinsic.extrinsic.function.encoding(),
        extrinsic.encoding().subrange(311, 375) == extrinsic.signature@,
{
    let bare = extrinsic.extrinsic;
    lemma_bare_layout(bare.signed@, bare.index, bare.function);
    let inner = bare.encoding();
    let bytes = extrinsic.encoding();
    assert(bytes.subrange(0, 32) =~= inner.subrange(0, 32));
    assert(bytes.subrange(32, 40) =~= inner.subrange(32, 40));
    assert(bytes.subrange(42, 311) =~= inner.subrange(42, 311));
    assert(bytes.subrange(311, 375) =~= extrinsic.signature@);
}

/// Two reports with one encoding are one report.
pub proof fn lemma_report_encoding_injective(a: MisbehaviorReport, b: MisbehaviorReport)
    requires
        a.encoding() == b.encoding(),
    ensures
        a == b,
{
    lemma_auto_spec_u32_to_from_le_bytes();
    lemma_auto_spec_u64_to_from_le_bytes();
    lemma_report_layout(a);
    lemma_report_layout(b);
    assert(a.parent_hash =~= b.parent_hash);
    assert(a.target =~= b.target);
    assert(a.parent_number == spec_u64_from_le_bytes(spec_u64_to_le_bytes(a.parent_number)));
    assert(a.misbehavior.round() == spec_u32_from_le_bytes(
        spec_u32_to_le_bytes(a.misbehavior.round()),
    ));
    assert(a.misbehavior.first().0 =~= b.misbehavior.first().0);
    assert(a.misbehavior.first().1 =~= b.misbehavior.first().1);
    assert(a.misbehavior.second().0 =~= b.misbehavior.second().0);
    assert(a.misbehavior.second().1 =~= b.misbehavior.second().1);
    assert(a.misbehavior.code() == b.misbehavior.code());
    assert(a.misbehavior == b.misbehavior);
}

/// Two signed extrinsics with one encoding are one extrinsic. So what is
/// read off the wire after it was written there is what was written: sender,
/// index, report and signature.
pub proof fn lemma_unchecked_encoding_injective(a: UncheckedExtrinsic, b: UncheckedExtrinsic)
    requires
        a.encoding() == b.encoding(),
    ensures
        a == b,
{
    lemma_auto_spec_u64_to_from_le_bytes();
    lemma_unchecked_layout(a);
    lemma_unchecked_layout(b);
    lemma_report_encoding_injective(a.extrinsic.function, b.extrinsic.function);
    assert(a.extrinsic.signed =~= b.extrinsic.signed);
    assert(a.signature =~= b.signature);
    assert(a.extrinsic.index == spec_u64_from_le_bytes(spec_u64_to_le_bytes(a.extrinsic.index)));
}

/// Appends `bytes` to `out`.
fn append_bytes(out: &mut Vec<u8>, bytes: &[u8])
    ensures
        final(out)@ == old(out)@ + bytes@,
{
    let mut i: usize = 0;
    while i < bytes.len()
        invariant
            i <= bytes.len(),
            out@ == old(out)@ + bytes@.take(i as int),
        decreases bytes.len() - i,
    {
        out.push(bytes[i]);
        i += 1;
        assert(out@ =~= old(out)@ + bytes@.take(i as int));
    }
    assert(bytes@.take(i as int) =~= bytes@);
}

/// The 32 bytes of `bytes` that begin at `at`.
fn read_32(bytes: &[u8], at: usize) -> (r: [u8; 32])
    requires
        at + 32 <= bytes.len(),
    ensures
        r@ == bytes@.subrange(at as int, at + 32),
{
    let mut out: [u8; 32] = [0u8; 32];
    let mut i: usize = 0;
    while i < 32
        invariant
            i <= 32,
            at + 32 <= bytes.len(),
            forall|k: int| 0 <= k < i ==> out@[k] == bytes@[at + k],
        decreases 32 - i,
    {
        out[i] = bytes[at + i];
        i += 1;
    }
    assert(out@ =~= bytes@.subrange(at as int, at + 32));
    out
}

/// The 64 bytes of `bytes` that begin at `at`.
fn read_64(bytes: &[u8], at: usize) -> (r: [u8; 64])
    requires
        at + 64 <= bytes.len(),
    ensures
        r@ == bytes@.subrange(at as int, at + 64),
{
    let mut out: [u8; 64] = [0u8; 64];
    let mut i: usize = 0;
    while i < 64
        invariant
            i <= 64,
            at + 64 <= bytes.len(),
            forall|k: int| 0 <= k < i ==> out@[k] == bytes@[at + k],
        decreases 64 - i,
    {
        out[i] = bytes[at + i];
        i += 1;
    }
    assert(out@ =~= bytes@.subrange(at as int, at + 64));
    out
}

} // verus!
