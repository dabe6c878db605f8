//! A vote: one node's desire to initiate a network action.
//!
//! With a quorum of votes the action happens.  Votes travel as direct
//! messages, so they carry no public key; the signature is detached and
//! covers the serialised payload digest.  Producing and checking the
//! signature is the embedder's part; the core carries the bytes.

use vstd::prelude::*;

verus! {

/// A signed payload digest.
#[derive(Debug)]
pub struct Vote {
    pub payload: Vec<u8>,
    pub signature: Vec<u8>,
}

impl Vote {
    /// Assembles a vote from a payload digest and the detached signature
    /// the embedder produced over the serialised digest.
    pub fn new(payload: Vec<u8>, signature: Vec<u8>) -> (r: Vote)
        ensures
            r.payload@ == payload@,
            r.signature@ == signature@,
    {
        Vote { payload, signature }
    }

    /// The payload digest.
    pub fn payload(&self) -> (r: &Vec<u8>)
        ensures
            r == self.payload,
    {
        &self.payload
    }

    /// The detached signature.
    pub fn signature(&self) -> (r: &Vec<u8>)
        ensures
            r == self.signature,
    {
        &self.signature
    }
}

} // verus!
