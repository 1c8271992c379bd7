use vstd::prelude::*;

use crate::bytes::{copy_bytes, framed, push_framed};
use crate::message::{Commit, SignedMessage};

verus! {

/// Identity of a validator: its index in the weight vector.
pub type ValidatorIndex = u16;

/// Number of the block a height decides on.
#[derive(Clone, Copy, PartialEq, Eq, Structural, Hash, Debug)]
pub struct BlockNumber(pub u32);

/// Number of a round within a height.
#[derive(Clone, Copy, PartialEq, Eq, Structural, Hash, Debug)]
pub struct Round(pub u16);

/// Why a proposed block was refused by the host.
#[derive(Clone, Copy, PartialEq, Eq, Structural, Debug)]
pub enum BlockError {
    /// The block is malformed; its proposer is to be slashed.
    Fatal,
    /// The block may become valid later.
    Temporal,
}


/// A block the validators agree on. The core reads only its id and its encoding.
pub trait Block: Sized {
    /// The block's id.
    spec fn spec_id(&self) -> Seq<u8>;

    /// The block's canonical, self-delimiting encoding.
    spec fn spec_encoding(&self) -> Seq<u8>;

    fn id(&self) -> (r: Vec<u8>)
        ensures
            r@ == self.spec_id(),
    ;

    fn encode(&self) -> (r: Vec<u8>)
        ensures
            r@ == self.spec_encoding(),
    ;

    /// A copy of the block, with the same id and encoding.
    fn duplicate(&self) -> (r: Self)
        ensures
            r.spec_id() == self.spec_id(),
            r.spec_encoding() == self.spec_encoding(),
    ;
}

/// A block as the machine sees it: its id and the host's encoding of it, which the
/// host makes from its own block type and turns back into it. It encodes itself as
/// the framed id followed by the framed host encoding.
#[derive(Clone, Debug, PartialEq, Eq)]
pub struct OpaqueBlock {
    pub id: Vec<u8>,
    pub encoding: Vec<u8>,
}

impl Block for OpaqueBlock {
    open spec fn spec_id(&self) -> Seq<u8> {
        self.id@
    }

    open spec fn spec_encoding(&self) -> Seq<u8> {
        framed(self.id@) + framed(self.encoding@)
    }

    fn id(&self) -> (r: Vec<u8>) {
        copy_bytes(&self.id)
    }

    fn encode(&self) -> (r: Vec<u8>) {
        let mut out: Vec<u8> = Vec::new();
        push_framed(&mut out, &self.id);
        push_framed(&mut out, &self.encoding);
        assert(out@ =~= framed(self.id@) + framed(self.encoding@));
        out
    }

    fn duplicate(&self) -> (r: Self) {
        OpaqueBlock { id: copy_bytes(&self.id), encoding: copy_bytes(&self.encoding) }
    }
}

/// The services the host provides to the machine: block validation, the signature
/// scheme, and the outgoing side (broadcast, slashing, appending finalized blocks).
pub trait Network<B: Block> {
    /// Whether `sig` is a valid signature of `validator` over `msg`.
    fn verify(&self, validator: ValidatorIndex, msg: &Vec<u8>, sig: &Vec<u8>) -> bool;

    /// Whether a proposed block may be voted for now.
    fn validate(&mut self, block: &B) -> Result<(), BlockError>;

    /// The local signer's signature over `msg`.
    fn sign(&mut self, msg: &Vec<u8>) -> Vec<u8>;

    /// Order-independent aggregation of signatures.
    fn aggregate(&self, sigs: &Vec<Vec<u8>>) -> Vec<u8>;

    /// Sends a signed message to every peer.
    fn broadcast(&mut self, msg: SignedMessage<B>);

    /// Punishes a validator for provable misbehaviour.
    fn slash(&mut self, validator: ValidatorIndex);

    /// Whether a commit proves the block `id`.
    fn verify_commit(&self, id: &Vec<u8>, commit: &Commit) -> bool;

    /// Appends a finalized block with its commit, and returns the next proposal.
    fn add_block(&mut self, block: B, commit: Commit) -> B;
}

} // verus!
