//! Headers, commits and their pairing.
use vstd::prelude::*;

use crate::error::ParseError;
use crate::time::Time;

verus! {

/// One validator's entry in a commit.
#[derive(Clone, Debug)]
pub enum CommitSig {
    /// The validator did not vote.
    Absent,
    /// A vote for the committed block.
    Commit { validator_address: Vec<u8>, timestamp: Time, signature: Vec<u8> },
    /// A vote for no block.
    Nil { validator_address: Vec<u8>, timestamp: Time, signature: Vec<u8> },
}

/// The votes that commit one block, aligned by position with the set of
/// validators that produced them.
#[derive(Clone, Debug)]
pub struct Commit {
    /// Height of the committed block.
    pub height: u64,
    /// Consensus round.
    pub round: u32,
    /// Hash of the committed header.
    pub block_id: Vec<u8>,
    /// One entry per validator, in the set's order.
    pub signatures: Vec<CommitSig>,
}

/// Block metadata.
#[derive(Clone, Debug)]
pub struct Header {
    /// Chain identifier.
    pub chain_id: String,
    /// Block height.
    pub height: u64,
    /// Block time.
    pub time: Time,
    /// Hash of the previous block.
    pub last_block_id: Vec<u8>,
    /// Hash of the validator set that must sign this header.
    pub validators_hash: Vec<u8>,
    /// Hash of the validator set that must sign the next header.
    pub next_validators_hash: Vec<u8>,
    /// Application state hash.
    pub app_hash: Vec<u8>,
    /// Address of the block's proposer.
    pub proposer_address: Vec<u8>,
}

/// A header together with the commit that signs it.
#[derive(Clone, Debug)]
pub struct SignedHeader {
    /// Block header.
    pub header: Header,
    /// Commit containing signatures for the header.
    pub commit: Commit,
}

impl SignedHeader {
    /// Pairs a header with its commit; each must be present.
    pub fn from_parts(header: Option<Header>, commit: Option<Commit>) -> (r: Result<
        SignedHeader,
        ParseError,
    >)
        ensures
            match r {
                Ok(sh) => header == Some(sh.header) && commit == Some(sh.commit),
                Err(e) => {
                    ||| (header is None && e == ParseError::MissingHeader)
                    ||| (header is Some && commit is None && e == ParseError::MissingCommit)
                },
            },
    {
        match header {
            None => Err(ParseError::MissingHeader),
            Some(h) => match commit {
                None => Err(ParseError::MissingCommit),
                Some(c) => Ok(SignedHeader { header: h, commit: c }),
            },
        }
    }
}

} // verus!
