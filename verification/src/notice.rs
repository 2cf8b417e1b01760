//! The lines that the relay writes to its clients.
//!
//! A line is the sender's identity followed by fixed words. Nothing ends a
//! line: the relay frames nothing, and a client shows what one read gave it.

use crate::peer::PeerId;
use crate::text::{lossy_text, utf8_lossy};
use vstd::prelude::*;
use vstd::string::StringSliceAdditionalSpecFns;
use vstd::utf8::{decode_utf8_encode_utf8, encode_utf8, valid_utf8};

verus! {

/// What the others are told when `peer` arrives.
pub open spec fn joined_text(peer: Seq<u8>) -> Seq<u8> {
    peer + " has joined the chat".spec_bytes()
}

/// What the others are told when `peer` has gone.
pub open spec fn left_text(peer: Seq<u8>) -> Seq<u8> {
    peer + " has left the chat".spec_bytes()
}

/// What the others are shown when `peer` has sent `text`.
pub open spec fn said_text(peer: Seq<u8>, text: Seq<u8>) -> Seq<u8> {
    peer + ": ".spec_bytes() + text
}

/// What the others are shown when `peer` has sent the chunk `bytes`: the
/// chunk read as text, with every ill-formed part of it replaced.
pub open spec fn relayed_text(peer: Seq<u8>, bytes: Seq<u8>) -> Seq<u8> {
    said_text(peer, encode_utf8(utf8_lossy(bytes)))
}

/// Appends `tail` to a copy of `head`.
fn joined_bytes(head: &Vec<u8>, tail: &[u8]) -> (out: Vec<u8>)
    ensures
        out@ == head@ + tail@,
{
    let mut out: Vec<u8> = head.clone();
    out.extend_from_slice(tail);
    assert(out@ =~= head@ + tail@);
    out
}

/// The notice that `peer` has joined.
pub fn joined(peer: &PeerId) -> (line: Vec<u8>)
    ensures
        line@ == joined_text(peer@),
{
    joined_bytes(&peer.text, " has joined the chat".as_bytes())
}

/// The notice that `peer` has left.
pub fn left(peer: &PeerId) -> (line: Vec<u8>)
    ensures
        line@ == left_text(peer@),
{
    joined_bytes(&peer.text, " has left the chat".as_bytes())
}

/// The line that shows `text` as sent by `peer`.
pub fn said(peer: &PeerId, text: &[u8]) -> (line: Vec<u8>)
    ensures
        line@ == said_text(peer@, text@),
{
    let head = joined_bytes(&peer.text, ": ".as_bytes());
    joined_bytes(&head, text)
}

/// The line that shows the chunk `bytes` as sent by `peer`.
///
/// A chunk that is well-formed UTF-8 is shown byte for byte.
pub fn relayed(peer: &PeerId, bytes: &Vec<u8>) -> (line: Vec<u8>)
    ensures
        line@ == relayed_text(peer@, bytes@),
        valid_utf8(bytes@) ==> line@ == said_text(peer@, bytes@),
{
    let text = lossy_text(bytes);
    proof {
        if valid_utf8(bytes@) {
            decode_utf8_encode_utf8(bytes@);
        }
    }
    said(peer, text.as_str().as_bytes())
}

} // verus!
