//! The idle metric exchange protocol: a peer probes another for how idle it
//! currently is.

use crate::network::codec::{
    frame, lemma_frame_round_trip, lemma_u64_round_trip, read_frame, read_u64, u64_at, u64_bytes,
    unframe, write_frame, write_u64, CodecError, U64_LEN,
};
use vstd::prelude::*;

verus! {

/// The probe. It carries nothing.
#[derive(Debug, Clone, Copy, PartialEq, Eq)]
pub struct IdleMetricRequest;

/// The answer to a probe.
#[derive(Debug, Clone, Copy, PartialEq, Eq)]
pub struct IdleMetricResponse {
    /// The peer's idleness measure, as the 64 bits in which the peer holds it.
    pub metric: u64,
    /// When the measure was taken, in seconds of Unix time.
    pub timestamp: u64,
}

/// Number of bytes of the payload of a response.
pub const RESPONSE_PAYLOAD_LEN: usize = 16;

/// The payload of a response: the metric, then the timestamp.
pub open spec fn response_payload(response: IdleMetricResponse) -> Seq<u8> {
    u64_bytes(response.metric) + u64_bytes(response.timestamp)
}

/// The response that a payload stands for: the payload must be exactly two
/// numbers long.
pub open spec fn parse_response(payload: Seq<u8>) -> Result<IdleMetricResponse, CodecError> {
    if payload.len() == RESPONSE_PAYLOAD_LEN {
        Ok(
            IdleMetricResponse {
                metric: u64_at(payload, 0) as u64,
                timestamp: u64_at(payload, U64_LEN as int) as u64,
            },
        )
    } else {
        Err(CodecError::MalformedFrame)
    }
}

/// What reading a probe from a finished stream gives. A probe has an empty
/// payload, so any announced payload is too large.
pub open spec fn read_request_model(stream: Seq<u8>) -> Result<IdleMetricRequest, CodecError> {
    match unframe(stream, 0) {
        Ok(_) => Ok(IdleMetricRequest),
        Err(e) => Err(e),
    }
}

/// What reading a response from a finished stream gives.
pub open spec fn read_response_model(stream: Seq<u8>) -> Result<IdleMetricResponse, CodecError> {
    match unframe(stream, RESPONSE_PAYLOAD_LEN as nat) {
        Ok(payload) => parse_response(payload),
        Err(e) => Err(e),
    }
}

/// Writes and reads the messages of the idle metric exchange protocol.
#[derive(Debug, Clone, Copy, PartialEq, Eq)]
pub struct IdleMetricExchangeCodec;

impl IdleMetricExchangeCodec {
    /// Appends the frame of a probe to `stream`. A probe always fits.
    pub fn write_request(&self, stream: &mut Vec<u8>, request: &IdleMetricRequest) -> (done: Result<
        (),
        CodecError,
    >)
        ensures
            done is Ok,
            final(stream)@ == old(stream)@ + frame(Seq::<u8>::empty()),
    {
        let payload: Vec<u8> = Vec::new();
        write_frame(stream, payload.as_slice(), 0)
    }

    /// Reads the probe that a finished stream holds.
    pub fn read_request(&self, stream: &[u8]) -> (request: Result<IdleMetricRequest, CodecError>)
        ensures
            request == read_request_model(stream@),
    {
        match read_frame(stream, 0) {
            Ok(_) => Ok(IdleMetricRequest),
            Err(e) => Err(e),
        }
    }

    /// Appends the frame of a response to `stream`. A response always fits.
    pub fn write_response(&self, stream: &mut Vec<u8>, response: &IdleMetricResponse) -> (done:
        Result<(), CodecError>)
        ensures
            done is Ok,
            final(stream)@ == old(stream)@ + frame(response_payload(*response)),
    {
        let mut payload: Vec<u8> = Vec::new();
        write_u64(&mut payload, response.metric);
        write_u64(&mut payload, response.timestamp);
        assert(payload@ =~= response_payload(*response));
        write_frame(stream, payload.as_slice(), RESPONSE_PAYLOAD_LEN)
    }

    /// Reads the response that a finished stream holds.
    pub fn read_response(&self, stream: &[u8]) -> (response: Result<IdleMetricResponse, CodecError>)
        ensures
            response == read_response_model(stream@),
    {
        let payload = match read_frame(stream, RESPONSE_PAYLOAD_LEN) {
            Ok(payload) => payload,
            Err(e) => {
                return Err(e);
            },
        };
        if payload.len() != RESPONSE_PAYLOAD_LEN {
            return Err(CodecError::MalformedFrame);
        }
        let metric = read_u64(payload.as_slice(), 0);
        let timestamp = read_u64(payload.as_slice(), U64_LEN);
        Ok(IdleMetricResponse { metric, timestamp })
    }
}

/// A probe that was written is read as a probe.
pub proof fn lemma_request_round_trip()
    ensures
        read_request_model(frame(Seq::<u8>::empty())) == Ok::<IdleMetricRequest, CodecError>(
            IdleMetricRequest,
        ),
{
    lemma_frame_round_trip(Seq::<u8>::empty(), 0);
}

/// A response that was written is the response that is read.
pub proof fn lemma_response_round_trip(response: IdleMetricResponse)
    ensures
        read_response_model(frame(response_payload(response))) == Ok::<
            IdleMetricResponse,
            CodecError,
        >(response),
{
    let payload = response_payload(response);
    lemma_frame_round_trip(payload, RESPONSE_PAYLOAD_LEN as nat);
    assert(payload.subrange(0, U64_LEN as int) =~= u64_bytes(response.metric));
    assert(payload.subrange(U64_LEN as int, U64_LEN + U64_LEN) =~= u64_bytes(response.timestamp));
    lemma_u64_round_trip(response.metric, payload, 0);
    lemma_u64_round_trip(response.timestamp, payload, U64_LEN as int);
}

} // verus!
