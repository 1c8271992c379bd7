use vstd::prelude::*;

use crate::bytes::{append_bytes, bytes_eq, copy_bytes, framed, le_bytes, push_framed, push_le};
use crate::ext::{Block, BlockNumber, Network, Round, ValidatorIndex};

verus! {

/// The steps of a round, in the order a round goes through them.
#[derive(Clone, Copy, PartialEq, Eq, Structural, Hash, Debug)]
pub enum Step {
    Propose,
    Prevote,
    Precommit,
}

/// What a consensus message says.
#[derive(Debug)]
pub enum Data<B> {
    /// A block, with the round in which it last gathered a prevote quorum, if any.
    Proposal(Option<Round>, B),
    /// A prevote for a block id, or nil.
    Prevote(Option<Vec<u8>>),
    /// A precommit for a block id with the signature over the commit message, or nil.
    Precommit(Option<(Vec<u8>, Vec<u8>)>),
}

impl<B: Block> Data<B> {
    pub open spec fn spec_step(&self) -> Step {
        match self {
            Data::Proposal(..) => Step::Propose,
            Data::Prevote(..) => Step::Prevote,
            Data::Precommit(..) => Step::Precommit,
        }
    }

    /// The block id the data is for; `None` for a nil vote.
    pub open spec fn vote(&self) -> Option<Seq<u8>> {
        match self {
            Data::Proposal(_, b) => Some(b.spec_id()),
            Data::Prevote(id) => match id {
                Some(i) => Some(i@),
                None => None,
            },
            Data::Precommit(p) => match p {
                Some(pair) => Some(pair.0@),
                None => None,
            },
        }
    }

    /// Two data are the same vote when their steps and block ids agree; the signature
    /// of a precommit does not count.
    pub open spec fn same_as(&self, other: &Data<B>) -> bool {
        self.spec_step() == other.spec_step() && self.vote() == other.vote()
    }

    /// The canonical encoding: a tag byte, then the fields; an option is a byte 0 or
    /// 1 and then its value, ids and signatures are framed by their length, and a
    /// block encodes itself.
    pub open spec fn spec_encoding(&self) -> Seq<u8> {
        match self {
            Data::Proposal(vr, b) => seq![0u8] + match vr {
                Some(r) => seq![1u8] + le_bytes(r.0 as nat, 2),
                None => seq![0u8],
            } + b.spec_encoding(),
            Data::Prevote(id) => seq![1u8] + match id {
                Some(i) => seq![1u8] + framed(i@),
                None => seq![0u8],
            },
            Data::Precommit(p) => seq![2u8] + match p {
                Some(pair) => seq![1u8] + framed(pair.0@) + framed(pair.1@),
                None => seq![0u8],
            },
        }
    }

    pub fn step(&self) -> (r: Step)
        ensures
            r == self.spec_step(),
    {
        match self {
            Data::Proposal(..) => Step::Propose,
            Data::Prevote(..) => Step::Prevote,
            Data::Precommit(..) => Step::Precommit,
        }
    }

    /// A copy of the data.
    pub fn duplicate(&self) -> (r: Data<B>)
        ensures
            r.spec_step() == self.spec_step(),
            r.vote() == self.vote(),
            r.spec_encoding() == self.spec_encoding(),
    {
        match self {
            Data::Proposal(vr, b) => Data::Proposal(*vr, b.duplicate()),
            Data::Prevote(None) => Data::Prevote(None),
            Data::Prevote(Some(id)) => Data::Prevote(Some(copy_bytes(id))),
            Data::Precommit(None) => Data::Precommit(None),
            Data::Precommit(Some(p)) => Data::Precommit(Some((copy_bytes(&p.0), copy_bytes(&p.1)))),
        }
    }

    /// Whether two data are the same vote.
    pub fn agrees_with(&self, other: &Data<B>) -> (r: bool)
        ensures
            r == self.same_as(other),
    {
        match (self, other) {
            (Data::Proposal(_, b), Data::Proposal(_, b2)) => bytes_eq(&b.id(), &b2.id()),
            (Data::Prevote(i), Data::Prevote(i2)) => opt_bytes_eq(i, i2),
            (Data::Precommit(None), Data::Precommit(None)) => true,
            (Data::Precommit(Some(p)), Data::Precommit(Some(p2))) => bytes_eq(&p.0, &p2.0),
            (Data::Precommit(_), Data::Precommit(_)) => false,
            _ => false,
        }
    }

    /// Appends the canonical encoding.
    pub fn encode_into(&self, out: &mut Vec<u8>)
        ensures
            final(out)@ == old(out)@ + self.spec_encoding(),
    {
        let ghost start = out@;
        match self {
            Data::Proposal(vr, b) => {
                out.push(0u8);
                match vr {
                    Some(r) => {
                        out.push(1u8);
                        push_le(out, r.0 as u64, 2);
                    },
                    None => out.push(0u8),
                }
                append_bytes(out, &b.encode());
            },
            Data::Prevote(id) => {
                out.push(1u8);
                match id {
                    Some(i) => {
                        out.push(1u8);
                        push_framed(out, i);
                    },
                    None => out.push(0u8),
                }
            },
            Data::Precommit(p) => {
                out.push(2u8);
                match p {
                    Some(pair) => {
                        out.push(1u8);
                        push_framed(out, &pair.0);
                        push_framed(out, &pair.1);
                    },
                    None => out.push(0u8),
                }
            },
        }
        assert(out@ =~= start + self.spec_encoding());
    }
}

fn opt_bytes_eq(a: &Option<Vec<u8>>, b: &Option<Vec<u8>>) -> (r: bool)
    ensures
        r == (match a {
            Some(x) => Some(x@),
            None => None,
        } == match b {
            Some(x) => Some(x@),
            None => None,
        }),
{
    match (a, b) {
        (Some(x), Some(y)) => bytes_eq(x, y),
        (None, None) => true,
        _ => false,
    }
}

/// An unsigned consensus message.
#[derive(Debug)]
pub struct Message<B> {
    pub sender: ValidatorIndex,
    pub number: BlockNumber,
    pub round: Round,
    pub data: Data<B>,
}

impl<B: Block> Message<B> {
    /// Sender, block number and round as little-endian integers, then the data.
    pub open spec fn spec_encoding(&self) -> Seq<u8> {
        le_bytes(self.sender as nat, 2) + le_bytes(self.number.0 as nat, 4) + le_bytes(
            self.round.0 as nat,
            2,
        ) + self.data.spec_encoding()
    }

    /// A copy of the message.
    pub fn duplicate(&self) -> (r: Message<B>)
        ensures
            r.sender == self.sender,
            r.number == self.number,
            r.round == self.round,
            r.data.spec_step() == self.data.spec_step(),
            r.data.vote() == self.data.vote(),
            r.spec_encoding() == self.spec_encoding(),
    {
        Message {
            sender: self.sender,
            number: self.number,
            round: self.round,
            data: self.data.duplicate(),
        }
    }

    /// The bytes a message's signature covers.
    pub fn encode(&self) -> (r: Vec<u8>)
        ensures
            r@ == self.spec_encoding(),
    {
        let mut out: Vec<u8> = Vec::new();
        push_le(&mut out, self.sender as u64, 2);
        push_le(&mut out, self.number.0 as u64, 4);
        push_le(&mut out, self.round.0 as u64, 2);
        self.data.encode_into(&mut out);
        assert(out@ =~= self.spec_encoding());
        out
    }
}

/// A consensus message with its sender's signature over its encoding.
#[derive(Debug)]
pub struct SignedMessage<B> {
    pub msg: Message<B>,
    pub sig: Vec<u8>,
}

impl<B: Block> SignedMessage<B> {
    /// Number of the block this message is attempting to add to the chain.
    pub fn number(&self) -> (r: BlockNumber)
        ensures
            r == self.msg.number,
    {
        self.msg.number
    }

    /// Whether the signature is the sender's over the message's encoding, as the
    /// scheme judges it.
    #[must_use]
    pub fn verify_signature<N: Network<B>>(&self, scheme: &N) -> bool {
        scheme.verify(self.msg.sender, &self.msg.encode(), &self.sig)
    }
}

/// A finalized block's proof: the canonical end time of the round it finalized in,
/// the validators whose precommits are aggregated, and the aggregate signature.
#[derive(Debug)]
pub struct Commit {
    pub end_time: u64,
    pub validators: Vec<ValidatorIndex>,
    pub signature: Vec<u8>,
}

/// The bytes a precommit signs: the end time as eight little-endian bytes, then the id.
pub open spec fn spec_commit_msg(end_time: u64, id: Seq<u8>) -> Seq<u8> {
    le_bytes(end_time as nat, 8) + id
}

pub fn commit_msg(end_time: u64, id: &Vec<u8>) -> (r: Vec<u8>)
    ensures
        r@ == spec_commit_msg(end_time, id@),
{
    let mut out: Vec<u8> = Vec::new();
    push_le(&mut out, end_time, 8);
    append_bytes(&mut out, id);
    assert(out@ =~= spec_commit_msg(end_time, id@));
    out
}

/// Why a message was refused.
#[derive(Clone, Copy, PartialEq, Eq, Structural, Debug)]
pub enum TendermintError {
    /// The sender provably broke the protocol.
    Malicious(ValidatorIndex),
    /// The message cannot be judged now.
    Temporal,
}

} // verus!
