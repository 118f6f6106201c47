//! The frame of the manifest reply.
//!
//! The reply to `geni_manifest` is not made of lines. It is read in chunks,
//! each of which ends with the first zero byte or with the end of the reply.
//! A first chunk of a single byte marks a status, and the payload is then the
//! second chunk; a second chunk of a single byte reports a failure.

use vstd::prelude::*;
use vstd::utf8::*;
use crate::error::{Error, ErrorView};
use crate::text::text_of;

verus! {

/// The end of the chunk that starts at `from`: the position after the
/// first zero byte at or after `from`, or the end of the reply.
pub open spec fn chunk_end(reply: Seq<u8>, from: int) -> int
    decreases reply.len() - from,
{
    if 0 <= from < reply.len() {
        if reply[from] == 0 {
            from + 1
        } else {
            chunk_end(reply, from + 1)
        }
    } else {
        from
    }
}

/// A chunk without the zero byte that ends it, if one does.
pub open spec fn unterminated(chunk: Seq<u8>) -> Seq<u8> {
    if chunk.len() > 0 && chunk.last() == 0 {
        chunk.drop_last()
    } else {
        chunk
    }
}

/// What follows from the first chunk of a reply.
pub ghost enum FrameStepView {
    /// The chunk is a status byte: the payload is the next chunk.
    ReadAgain,
    /// The chunk holds the payload.
    Payload(Seq<u8>),
    /// The reply is empty.
    Failed(ErrorView),
}

/// What follows from the first chunk of a reply: an empty chunk is a blank
/// reply, a chunk of one byte calls for the next chunk, and a longer one
/// holds the payload.
pub open spec fn first_chunk(chunk: Seq<u8>) -> FrameStepView {
    if chunk.len() == 0 {
        FrameStepView::Failed(ErrorView::TmcdGeniBlankResponse)
    } else if chunk.len() == 1 {
        FrameStepView::ReadAgain
    } else {
        FrameStepView::Payload(unterminated(chunk))
    }
}

/// What follows from the second chunk of a reply: an empty chunk is a
/// blank reply, a chunk of one byte reports a failure, and a longer one
/// holds the payload.
pub open spec fn second_chunk(chunk: Seq<u8>) -> Result<Seq<u8>, ErrorView> {
    if chunk.len() == 0 {
        Err(ErrorView::TmcdGeniBlankResponse)
    } else if chunk.len() == 1 {
        Err(ErrorView::TmcdGeniError)
    } else {
        Ok(unterminated(chunk))
    }
}

/// The payload of a whole manifest reply.
pub open spec fn manifest_payload(reply: Seq<u8>) -> Result<Seq<u8>, ErrorView> {
    match first_chunk(reply.subrange(0, chunk_end(reply, 0))) {
        FrameStepView::Failed(e) => Err(e),
        FrameStepView::Payload(payload) => Ok(payload),
        FrameStepView::ReadAgain => second_chunk(reply.subrange(1, chunk_end(reply, 1))),
    }
}

/// The manifest document that a payload holds: its text, which must be
/// UTF-8.
pub open spec fn payload_text(payload: Seq<u8>) -> Result<Seq<char>, ErrorView> {
    if valid_utf8(payload) {
        Ok(text_of(payload))
    } else {
        Err(ErrorView::TmcdInvalidUtf8)
    }
}

/// The manifest document of a whole manifest reply.
pub open spec fn manifest_text(reply: Seq<u8>) -> Result<Seq<char>, ErrorView> {
    match manifest_payload(reply) {
        Ok(payload) => payload_text(payload),
        Err(e) => Err(e),
    }
}

/// A chunk ends after its start unless the reply does, and within the
/// reply; it holds no zero byte before its last.
pub proof fn lemma_chunk_end(reply: Seq<u8>, from: int)
    requires
        0 <= from <= reply.len(),
    ensures
        from <= chunk_end(reply, from) <= reply.len(),
        from < reply.len() ==> from < chunk_end(reply, from),
        forall|i: int| from <= i < chunk_end(reply, from) - 1 ==> reply[i] != 0,
        chunk_end(reply, from) < reply.len() ==> reply[chunk_end(reply, from) - 1] == 0,
    decreases reply.len() - from,
{
    if from < reply.len() && reply[from] != 0 {
        lemma_chunk_end(reply, from + 1);
    }
}

/// What follows from the first chunk of a reply.
#[derive(Debug)]
pub enum FrameStep {
    /// The chunk is a status byte: the payload is the next chunk.
    ReadAgain,
    /// The chunk holds the payload.
    Payload(Vec<u8>),
    /// The reply is empty.
    Failed(Error),
}

impl View for FrameStep {
    type V = FrameStepView;

    open spec fn view(&self) -> FrameStepView {
        match *self {
            FrameStep::ReadAgain => FrameStepView::ReadAgain,
            FrameStep::Payload(payload) => FrameStepView::Payload(payload@),
            FrameStep::Failed(e) => FrameStepView::Failed(e@),
        }
    }
}

/// Removes the zero byte that ends a chunk, if one does.
fn unterminate(chunk: Vec<u8>) -> (r: Vec<u8>)
    ensures
        r@ == unterminated(chunk@),
{
    let mut chunk = chunk;
    let n = chunk.len();
    if n > 0 && chunk[n - 1] == 0 {
        chunk.pop();
    }
    chunk
}

/// Decides what follows from the first chunk of a reply.
pub fn after_first_chunk(chunk: Vec<u8>) -> (r: FrameStep)
    ensures
        r@ == first_chunk(chunk@),
{
    if chunk.len() == 0 {
        FrameStep::Failed(Error::TmcdGeniBlankResponse)
    } else if chunk.len() == 1 {
        FrameStep::ReadAgain
    } else {
        FrameStep::Payload(unterminate(chunk))
    }
}

/// Decides what follows from the second chunk of a reply.
pub fn after_second_chunk(chunk: Vec<u8>) -> (r: Result<Vec<u8>, Error>)
    ensures
        match second_chunk(chunk@) {
            Ok(payload) => r matches Ok(p) && p@ == payload,
            Err(e) => r matches Err(error) && error@ == e,
        },
{
    if chunk.len() == 0 {
        Err(Error::TmcdGeniBlankResponse)
    } else if chunk.len() == 1 {
        Err(Error::TmcdGeniError)
    } else {
        Ok(unterminate(chunk))
    }
}

/// Calls `String::from_utf8` of the standard library, which turns bytes
/// into the text that they encode and fails exactly where they are not
/// UTF-8.
#[verifier::external_body]
pub(crate) fn string_from_utf8(bytes: Vec<u8>) -> (r: Option<String>)
    ensures
        match r {
            Some(text) => valid_utf8(bytes@) && text@ == text_of(bytes@),
            None => !valid_utf8(bytes@),
        },
{
    String::from_utf8(bytes).ok()
}

/// Reads the manifest document that a payload holds.
pub fn read_payload(payload: Vec<u8>) -> (r: Result<String, Error>)
    ensures
        match payload_text(payload@) {
            Ok(text) => r matches Ok(t) && t@ == text,
            Err(e) => r matches Err(error) && error@ == e,
        },
{
    match string_from_utf8(payload) {
        Some(text) => Ok(text),
        None => Err(Error::TmcdInvalidUtf8),
    }
}

/// Copies the chunk of a reply that starts at `from`.
fn take_chunk(reply: &[u8], from: usize) -> (r: Vec<u8>)
    requires
        from <= reply@.len(),
    ensures
        r@ == reply@.subrange(from as int, chunk_end(reply@, from as int)),
{
    let mut chunk: Vec<u8> = Vec::new();
    let mut i: usize = from;
    proof {
        lemma_chunk_end(reply@, from as int);
    }
    while i < reply.len()
        invariant
            from <= i <= reply@.len(),
            chunk@ == reply@.subrange(from as int, i as int),
            chunk_end(reply@, from as int) == chunk_end(reply@, i as int),
        decreases reply@.len() - i,
    {
        let b = reply[i];
        chunk.push(b);
        i += 1;
        assert(chunk@ =~= reply@.subrange(from as int, i as int));
        if b == 0 {
            return chunk;
        }
    }
    chunk
}

/// The manifest document, from the whole reply to `geni_manifest`.
pub fn geni_manifest(reply: &[u8]) -> (r: Result<String, Error>)
    ensures
        match manifest_text(reply@) {
            Ok(text) => r matches Ok(t) && t@ == text,
            Err(e) => r matches Err(error) && error@ == e,
        },
{
    let payload = match after_first_chunk(take_chunk(reply, 0)) {
        FrameStep::Failed(e) => {
            return Err(e);
        },
        FrameStep::Payload(payload) => payload,
        FrameStep::ReadAgain => {
            proof {
                lemma_chunk_end(reply@, 0);
            }
            after_second_chunk(take_chunk(reply, 1))?
        },
    };
    read_payload(payload)
}

/// A reply that starts with a status byte of zero and goes on with a
/// payload that is not empty and ends with a zero byte yields that payload.
/// A reply that starts with two zero bytes reports a failure, and a reply
/// that is a single zero byte is blank.
pub proof fn lemma_framing(payload: Seq<u8>, rest: Seq<u8>)
    requires
        forall|i: int| 0 <= i < payload.len() ==> payload[i] != 0,
    ensures
        payload.len() > 0 ==> manifest_payload(seq![0u8] + payload + seq![0u8] + rest) == Ok::<
            Seq<u8>,
            ErrorView,
        >(payload),
        manifest_payload(seq![0u8, 0u8] + rest) == Err::<Seq<u8>, ErrorView>(
            ErrorView::TmcdGeniError,
        ),
        manifest_payload(seq![0u8]) == Err::<Seq<u8>, ErrorView>(
            ErrorView::TmcdGeniBlankResponse,
        ),
{
    let blank = seq![0u8];
    assert(chunk_end(blank, 0) == 1);
    assert(chunk_end(blank, 1) == 1);
    assert(blank.subrange(1, 1) =~= Seq::empty());

    let failed = seq![0u8, 0u8] + rest;
    assert(chunk_end(failed, 0) == 1);
    assert(chunk_end(failed, 1) == 2);

    if payload.len() > 0 {
        let reply = seq![0u8] + payload + seq![0u8] + rest;
        assert(chunk_end(reply, 0) == 1);
        lemma_chunk_through(reply, 1, 1 + payload.len() as int);
        let chunk = reply.subrange(1, 2 + payload.len() as int);
        assert(chunk.last() == 0);
        assert(chunk.drop_last() =~= payload);
    }
}

/// A chunk that starts before a run of bytes other than zero ends where
/// the chunk that starts after the run does.
pub proof fn lemma_chunk_through(reply: Seq<u8>, from: int, to: int)
    requires
        0 <= from <= to < reply.len(),
        forall|i: int| from <= i < to ==> reply[i] != 0,
        reply[to] == 0,
    ensures
        chunk_end(reply, from) == to + 1,
    decreases to - from,
{
    if from < to {
        lemma_chunk_through(reply, from + 1, to);
    }
}

} // verus!
