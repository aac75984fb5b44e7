//! The artifact exchange protocol: a peer asks another for the artifact with
//! a given content identifier and is told either its bytes or that the peer
//! does not have it.

use crate::network::codec::{frame, read_frame, unframe, write_frame, CodecError, MAX_PAYLOAD_LEN};
use vstd::prelude::*;

verus! {

/// Number of bytes of a content identifier.
pub const CONTENT_IDENTIFIER_LEN: usize = 32;

/// The hash that identifies an artifact.
#[derive(Debug, Clone, Copy, PartialEq, Eq, Hash)]
pub struct ContentIdentifier {
    pub digest: [u8; 32],
}

impl View for ContentIdentifier {
    type V = Seq<u8>;

    open spec fn view(&self) -> Seq<u8> {
        self.digest@
    }
}

/// A request for the artifact with the given identifier.
#[derive(Debug, Clone, Copy, PartialEq, Eq)]
pub struct ArtifactRequest(pub ContentIdentifier);

impl View for ArtifactRequest {
    type V = Seq<u8>;

    open spec fn view(&self) -> Seq<u8> {
        self.0@
    }
}

/// The answer to an [`ArtifactRequest`].
#[derive(Debug, PartialEq, Eq)]
pub enum ArtifactResponse {
    /// The peer has the artifact; these are its bytes.
    Found(Vec<u8>),
    /// The peer does not have the artifact.
    NotFound,
}

/// What an [`ArtifactResponse`] is.
pub enum ResponseModel {
    Found(Seq<u8>),
    NotFound,
}

impl View for ArtifactResponse {
    type V = ResponseModel;

    open spec fn view(&self) -> ResponseModel {
        match self {
            ArtifactResponse::Found(bytes) => ResponseModel::Found(bytes@),
            ArtifactResponse::NotFound => ResponseModel::NotFound,
        }
    }
}

/// First payload byte of a response without an artifact.
pub const NOT_FOUND_TAG: u8 = 0;

/// First payload byte of a response with an artifact.
pub const FOUND_TAG: u8 = 1;

/// The request that a payload stands for: the payload must be exactly one
/// content identifier.
pub open spec fn parse_request(payload: Seq<u8>) -> Result<Seq<u8>, CodecError> {
    if payload.len() == CONTENT_IDENTIFIER_LEN {
        Ok(payload)
    } else {
        Err(CodecError::MalformedFrame)
    }
}

/// The payload of a response: a tag, followed by the artifact if there is
/// one.
pub open spec fn response_payload(response: ResponseModel) -> Seq<u8> {
    match response {
        ResponseModel::Found(bytes) => seq![FOUND_TAG] + bytes,
        ResponseModel::NotFound => seq![NOT_FOUND_TAG],
    }
}

/// The response that a payload stands for.
pub open spec fn parse_response(payload: Seq<u8>) -> Result<ResponseModel, CodecError> {
    if payload.len() == 0 {
        Err(CodecError::MalformedFrame)
    } else if payload[0] == FOUND_TAG {
        Ok(ResponseModel::Found(payload.subrange(1, payload.len() as int)))
    } else if payload[0] == NOT_FOUND_TAG && payload.len() == 1 {
        Ok(ResponseModel::NotFound)
    } else {
        Err(CodecError::MalformedFrame)
    }
}

/// What reading a request from a finished stream gives.
pub open spec fn read_request_model(stream: Seq<u8>) -> Result<Seq<u8>, CodecError> {
    match unframe(stream, CONTENT_IDENTIFIER_LEN as nat) {
        Ok(payload) => parse_request(payload),
        Err(e) => Err(e),
    }
}

/// The largest payload of a response when artifacts of up to
/// `max_artifact_len` bytes are admitted: the tag and the artifact, as far as
/// a prefix can express their length.
pub open spec fn response_limit(max_artifact_len: nat) -> nat {
    if max_artifact_len >= MAX_PAYLOAD_LEN {
        MAX_PAYLOAD_LEN as nat
    } else {
        max_artifact_len + 1
    }
}

/// What reading a response from a finished stream gives, when artifacts of up
/// to `max_artifact_len` bytes are admitted.
pub open spec fn read_response_model(stream: Seq<u8>, max_artifact_len: nat) -> Result<
    ResponseModel,
    CodecError,
> {
    match unframe(stream, response_limit(max_artifact_len)) {
        Ok(payload) => parse_response(payload),
        Err(e) => Err(e),
    }
}

/// Whether a response can be written when artifacts of up to
/// `max_artifact_len` bytes are admitted.
pub open spec fn admitted(response: ResponseModel, max_artifact_len: nat) -> bool {
    match response {
        ResponseModel::Found(bytes) => bytes.len() <= max_artifact_len && bytes.len()
            < MAX_PAYLOAD_LEN,
        ResponseModel::NotFound => true,
    }
}

/// Writes and reads the messages of the artifact exchange protocol, admitting
/// artifacts of up to `max_artifact_len` bytes.
#[derive(Debug, Clone, Copy, PartialEq, Eq)]
pub struct ArtifactExchangeCodec {
    pub max_artifact_len: usize,
}

impl ArtifactExchangeCodec {
    /// A codec that admits artifacts of up to `max_artifact_len` bytes.
    pub fn new(max_artifact_len: usize) -> (codec: ArtifactExchangeCodec)
        ensures
            codec.max_artifact_len == max_artifact_len,
    {
        ArtifactExchangeCodec { max_artifact_len }
    }

    /// The largest payload of a response that this codec reads.
    pub fn response_limit(&self) -> (limit: usize)
        ensures
            limit == response_limit(self.max_artifact_len as nat),
    {
        if self.max_artifact_len >= MAX_PAYLOAD_LEN {
            MAX_PAYLOAD_LEN
        } else {
            self.max_artifact_len + 1
        }
    }

    /// Appends the frame of a request to `stream`. A request always fits.
    pub fn write_request(&self, stream: &mut Vec<u8>, request: &ArtifactRequest) -> (done: Result<
        (),
        CodecError,
    >)
        ensures
            done is Ok,
            final(stream)@ == old(stream)@ + frame(request@),
    {
        write_frame(stream, request.0.digest.as_slice(), CONTENT_IDENTIFIER_LEN)
    }

    /// Reads the request that a finished stream holds.
    pub fn read_request(&self, stream: &[u8]) -> (request: Result<ArtifactRequest, CodecError>)
        ensures
            match request {
                Ok(request) => read_request_model(stream@) == Ok::<Seq<u8>, CodecError>(request@),
                Err(e) => read_request_model(stream@) == Err::<Seq<u8>, CodecError>(e),
            },
    {
        let payload = match read_frame(stream, CONTENT_IDENTIFIER_LEN) {
            Ok(payload) => payload,
            Err(e) => {
                return Err(e);
            },
        };
        if payload.len() != CONTENT_IDENTIFIER_LEN {
            return Err(CodecError::MalformedFrame);
        }
        let mut digest = [0u8;32];
        let mut i: usize = 0;
        while i < CONTENT_IDENTIFIER_LEN
            invariant
                i <= CONTENT_IDENTIFIER_LEN,
                payload@.len() == CONTENT_IDENTIFIER_LEN,
                digest@.len() == CONTENT_IDENTIFIER_LEN,
                forall|j: int| 0 <= j < i ==> digest@[j] == payload@[j],
            decreases CONTENT_IDENTIFIER_LEN - i,
        {
            digest[i] = payload[i];
            i += 1;
        }
        assert(digest@ =~= payload@);
        Ok(ArtifactRequest(ContentIdentifier { digest }))
    }

    /// Appends the frame of a response to `stream`, unless the response
    /// carries an artifact that is larger than this codec admits or than a
    /// frame can hold.
    pub fn write_response(&self, stream: &mut Vec<u8>, response: &ArtifactResponse) -> (done:
        Result<(), CodecError>)
        ensures
            done is Ok <==> admitted(response@, self.max_artifact_len as nat),
            done is Ok ==> final(stream)@ == old(stream)@ + frame(response_payload(response@)),
            done is Err ==> done == Err::<(), CodecError>(CodecError::PayloadTooLarge),
            done is Err ==> final(stream)@ == old(stream)@,
    {
        let mut payload: Vec<u8> = Vec::new();
        match response {
            ArtifactResponse::NotFound => {
                payload.push(NOT_FOUND_TAG);
            },
            ArtifactResponse::Found(bytes) => {
                let len = bytes.len();
                if len > self.max_artifact_len || len >= MAX_PAYLOAD_LEN {
                    return Err(CodecError::PayloadTooLarge);
                }
                payload.push(FOUND_TAG);
                let mut i: usize = 0;
                while i < len
                    invariant
                        i <= len,
                        len == bytes@.len(),
                        payload@ == seq![FOUND_TAG] + bytes@.subrange(0, i as int),
                    decreases len - i,
                {
                    payload.push(bytes[i]);
                    i += 1;
                }
                assert(bytes@.subrange(0, len as int) =~= bytes@);
            },
        }
        assert(payload@ =~= response_payload(response@));
        write_frame(stream, payload.as_slice(), MAX_PAYLOAD_LEN)
    }

    /// Reads the response that a finished stream holds.
    pub fn read_response(&self, stream: &[u8]) -> (response: Result<ArtifactResponse, CodecError>)
        ensures
            match response {
                Ok(response) => read_response_model(stream@, self.max_artifact_len as nat) == Ok::<
                    ResponseModel,
                    CodecError,
                >(response@),
                Err(e) => read_response_model(stream@, self.max_artifact_len as nat) == Err::<
                    ResponseModel,
                    CodecError,
                >(e),
            },
    {
        let payload = match read_frame(stream, self.response_limit()) {
            Ok(payload) => payload,
            Err(e) => {
                return Err(e);
            },
        };
        if payload.len() == 0 {
            Err(CodecError::MalformedFrame)
        } else if payload[0] == FOUND_TAG {
            let bytes = vstd::slice::slice_to_vec(
                vstd::slice::slice_subrange(payload.as_slice(), 1, payload.len()),
            );
            Ok(ArtifactResponse::Found(bytes))
        } else if payload[0] == NOT_FOUND_TAG && payload.len() == 1 {
            Ok(ArtifactResponse::NotFound)
        } else {
            Err(CodecError::MalformedFrame)
        }
    }
}

/// The response owed to a request, given what the artifact store holds under
/// the requested identifier.
pub open spec fn answer_model(stored: Option<Seq<u8>>) -> ResponseModel {
    match stored {
        Some(bytes) => ResponseModel::Found(bytes),
        None => ResponseModel::NotFound,
    }
}

/// Answers a request from what the artifact store holds under the requested
/// identifier: the stored bytes, or that there are none.
pub fn answer(stored: Option<Vec<u8>>) -> (response: ArtifactResponse)
    ensures
        response@ == answer_model(
            match stored {
                Some(bytes) => Some(bytes@),
                None => None,
            },
        ),
{
    match stored {
        Some(bytes) => ArtifactResponse::Found(bytes),
        None => ArtifactResponse::NotFound,
    }
}

/// A request that was written is the request that is read.
pub proof fn lemma_request_round_trip(identifier: Seq<u8>)
    requires
        identifier.len() == CONTENT_IDENTIFIER_LEN,
    ensures
        read_request_model(frame(identifier)) == Ok::<Seq<u8>, CodecError>(identifier),
{
    crate::network::codec::lemma_frame_round_trip(identifier, CONTENT_IDENTIFIER_LEN as nat);
}

/// A response that was written is the response that is read: the reader
/// neither fails on it nor changes a byte of the artifact.
pub proof fn lemma_response_round_trip(response: ResponseModel, max_artifact_len: nat)
    requires
        admitted(response, max_artifact_len),
    ensures
        read_response_model(frame(response_payload(response)), max_artifact_len) == Ok::<
            ResponseModel,
            CodecError,
        >(response),
{
    let payload = response_payload(response);
    crate::network::codec::lemma_frame_round_trip(payload, response_limit(max_artifact_len));
    match response {
        ResponseModel::Found(bytes) => {
            assert(payload.subrange(1, payload.len() as int) =~= bytes);
        },
        ResponseModel::NotFound => {},
    }
}

/// A peer that holds an artifact answers a request for it with exactly the
/// stored bytes: what the requester reads from the provider's answer is
/// `Found` with those bytes.
pub proof fn lemma_stored_artifact_is_found(bytes: Seq<u8>, max_artifact_len: nat)
    requires
        bytes.len() <= max_artifact_len,
        bytes.len() < MAX_PAYLOAD_LEN,
    ensures
        read_response_model(
            frame(response_payload(answer_model(Some(bytes)))),
            max_artifact_len,
        ) == Ok::<ResponseModel, CodecError>(ResponseModel::Found(bytes)),
{
    lemma_response_round_trip(answer_model(Some(bytes)), max_artifact_len);
}

/// A peer that does not hold an artifact answers a request for it with
/// `NotFound`, and the requester reads exactly that, whatever its limit on
/// artifact sizes: the outcome is a response, not a failure.
pub proof fn lemma_unknown_artifact_is_not_found(max_artifact_len: nat)
    ensures
        answer_model(None) == ResponseModel::NotFound,
        admitted(answer_model(None), max_artifact_len),
        read_response_model(frame(response_payload(answer_model(None))), max_artifact_len) == Ok::<
            ResponseModel,
            CodecError,
        >(ResponseModel::NotFound),
{
    lemma_response_round_trip(answer_model(None), max_artifact_len);
}

} // verus!
