use pyrsia::network::artifact_protocol::{
    answer, ArtifactExchangeCodec, ArtifactRequest, ArtifactResponse, ContentIdentifier,
    CONTENT_IDENTIFIER_LEN, FOUND_TAG, NOT_FOUND_TAG,
};
use pyrsia::network::codec::CodecError;

fn identifier(seed: u8) -> ContentIdentifier {
    let mut digest = [0u8; 32];
    for (i, byte) in digest.iter_mut().enumerate() {
        *byte = seed.wrapping_add(i as u8);
    }
    ContentIdentifier { digest }
}

fn exchange(
    codec: &ArtifactExchangeCodec,
    stored: Option<Vec<u8>>,
) -> Result<ArtifactResponse, CodecError> {
    let mut stream = Vec::new();
    codec.write_response(&mut stream, &answer(stored))?;
    codec.read_response(&stream)
}

#[test]
fn artifact_constants() {
    assert_eq!(CONTENT_IDENTIFIER_LEN, 32);
    assert_eq!(NOT_FOUND_TAG, 0);
    assert_eq!(FOUND_TAG, 1);
}

#[test]
fn new_codec_keeps_its_limit() {
    assert_eq!(ArtifactExchangeCodec::new(4096).max_artifact_len, 4096);
}

#[test]
fn response_limit_is_the_artifact_and_its_tag() {
    assert_eq!(ArtifactExchangeCodec::new(0).response_limit(), 1);
    assert_eq!(ArtifactExchangeCodec::new(4096).response_limit(), 4097);
    assert_eq!(
        ArtifactExchangeCodec::new(4_294_967_294).response_limit(),
        4_294_967_295
    );
    assert_eq!(
        ArtifactExchangeCodec::new(4_294_967_295).response_limit(),
        4_294_967_295
    );
    assert_eq!(
        ArtifactExchangeCodec::new(usize::MAX).response_limit(),
        4_294_967_295
    );
}

#[test]
fn request_frame_is_the_prefixed_identifier() {
    let codec = ArtifactExchangeCodec::new(1024);
    let request = ArtifactRequest(identifier(0x10));
    let mut stream = Vec::new();
    assert_eq!(codec.write_request(&mut stream, &request), Ok(()));
    let mut expected = vec![0, 0, 0, 32];
    expected.extend_from_slice(&identifier(0x10).digest);
    assert_eq!(stream, expected);
}

#[test]
fn request_round_trip() {
    let codec = ArtifactExchangeCodec::new(1024);
    let request = ArtifactRequest(identifier(0xf0));
    let mut stream = Vec::new();
    assert_eq!(codec.write_request(&mut stream, &request), Ok(()));
    assert_eq!(codec.read_request(&stream), Ok(request));
}

#[test]
fn request_of_the_wrong_width_is_malformed() {
    let codec = ArtifactExchangeCodec::new(1024);
    let mut stream = vec![0, 0, 0, 31];
    stream.extend_from_slice(&[7u8; 31]);
    assert_eq!(codec.read_request(&stream), Err(CodecError::MalformedFrame));
    assert_eq!(
        codec.read_request(&[0, 0, 0, 0]),
        Err(CodecError::MalformedFrame)
    );
}

#[test]
fn request_longer_than_an_identifier_is_too_large() {
    let codec = ArtifactExchangeCodec::new(1024);
    let mut stream = vec![0, 0, 0, 33];
    stream.extend_from_slice(&[7u8; 33]);
    assert_eq!(codec.read_request(&stream), Err(CodecError::PayloadTooLarge));
}

#[test]
fn request_cut_short_lost_its_connection() {
    let codec = ArtifactExchangeCodec::new(1024);
    let mut stream = vec![0, 0, 0, 32];
    stream.extend_from_slice(&[7u8; 20]);
    assert_eq!(codec.read_request(&stream), Err(CodecError::ConnectionLost));
    assert_eq!(codec.read_request(&[0, 0]), Err(CodecError::ConnectionLost));
}

#[test]
fn found_frame_is_tag_and_bytes() {
    let codec = ArtifactExchangeCodec::new(1024);
    let mut stream = Vec::new();
    assert_eq!(
        codec.write_response(&mut stream, &ArtifactResponse::Found(vec![0xca, 0xfe])),
        Ok(())
    );
    assert_eq!(stream, vec![0, 0, 0, 3, 1, 0xca, 0xfe]);
}

#[test]
fn not_found_frame_is_the_tag_alone() {
    let codec = ArtifactExchangeCodec::new(1024);
    let mut stream = Vec::new();
    assert_eq!(
        codec.write_response(&mut stream, &ArtifactResponse::NotFound),
        Ok(())
    );
    assert_eq!(stream, vec![0, 0, 0, 1, 0]);
}

#[test]
fn response_round_trip() {
    let codec = ArtifactExchangeCodec::new(1024);
    for response in [
        ArtifactResponse::NotFound,
        ArtifactResponse::Found(vec![]),
        ArtifactResponse::Found(vec![0]),
        ArtifactResponse::Found((0..=255).collect()),
    ] {
        let mut stream = Vec::new();
        assert_eq!(codec.write_response(&mut stream, &response), Ok(()));
        assert_eq!(codec.read_response(&stream), Ok(response));
    }
}

#[test]
fn artifact_at_the_limit_is_written_and_read() {
    let codec = ArtifactExchangeCodec::new(8);
    let mut stream = Vec::new();
    let response = ArtifactResponse::Found(vec![3; 8]);
    assert_eq!(codec.write_response(&mut stream, &response), Ok(()));
    assert_eq!(codec.read_response(&stream), Ok(response));
}

#[test]
fn artifact_over_the_limit_is_not_written() {
    let codec = ArtifactExchangeCodec::new(8);
    let mut stream = vec![1, 2];
    assert_eq!(
        codec.write_response(&mut stream, &ArtifactResponse::Found(vec![3; 9])),
        Err(CodecError::PayloadTooLarge)
    );
    assert_eq!(stream, vec![1, 2]);
}

#[test]
fn artifact_over_the_limit_is_not_read() {
    let mut stream = Vec::new();
    assert_eq!(
        ArtifactExchangeCodec::new(9)
            .write_response(&mut stream, &ArtifactResponse::Found(vec![3; 9])),
        Ok(())
    );
    assert_eq!(
        ArtifactExchangeCodec::new(8).read_response(&stream),
        Err(CodecError::PayloadTooLarge)
    );
}

#[test]
fn unlimited_codec_reads_responses() {
    let codec = ArtifactExchangeCodec::new(usize::MAX);
    assert_eq!(
        codec.read_response(&[0, 0, 0, 2, 1, 9]),
        Ok(ArtifactResponse::Found(vec![9]))
    );
}

#[test]
fn not_found_is_read_whatever_the_limit() {
    assert_eq!(
        ArtifactExchangeCodec::new(0).read_response(&[0, 0, 0, 1, 0]),
        Ok(ArtifactResponse::NotFound)
    );
}

#[test]
fn malformed_responses() {
    let codec = ArtifactExchangeCodec::new(1024);
    assert_eq!(
        codec.read_response(&[0, 0, 0, 0]),
        Err(CodecError::MalformedFrame)
    );
    assert_eq!(
        codec.read_response(&[0, 0, 0, 1, 2]),
        Err(CodecError::MalformedFrame)
    );
    assert_eq!(
        codec.read_response(&[0, 0, 0, 2, 0, 9]),
        Err(CodecError::MalformedFrame)
    );
    assert_eq!(
        codec.read_response(&[0, 0, 0, 1, 0, 9]),
        Err(CodecError::MalformedFrame)
    );
}

#[test]
fn response_cut_short_lost_its_connection() {
    let codec = ArtifactExchangeCodec::new(1024);
    assert_eq!(
        codec.read_response(&[0, 0, 0, 5, 1, 9]),
        Err(CodecError::ConnectionLost)
    );
    assert_eq!(codec.read_response(&[]), Err(CodecError::ConnectionLost));
}

#[test]
fn answer_from_the_store() {
    assert_eq!(
        answer(Some(vec![1, 2, 3])),
        ArtifactResponse::Found(vec![1, 2, 3])
    );
    assert_eq!(answer(None), ArtifactResponse::NotFound);
}

#[test]
fn stored_artifact_is_found_with_its_exact_bytes() {
    let codec = ArtifactExchangeCodec::new(1 << 20);
    let stored: Vec<u8> = (0..100_000u32).map(|i| (i % 251) as u8).collect();
    assert_eq!(
        exchange(&codec, Some(stored.clone())),
        Ok(ArtifactResponse::Found(stored))
    );
}

#[test]
fn unknown_artifact_is_not_found() {
    let codec = ArtifactExchangeCodec::new(1 << 20);
    assert_eq!(exchange(&codec, None), Ok(ArtifactResponse::NotFound));
}

#[test]
fn requester_finds_the_artifact_of_its_provider_and_no_other() {
    let codec = ArtifactExchangeCodec::new(64);
    let held = identifier(0x41);
    let held_bytes = vec![0xde, 0xad, 0xbe, 0xef];

    let mut request_stream = Vec::new();
    assert_eq!(
        codec.write_request(&mut request_stream, &ArtifactRequest(held)),
        Ok(())
    );
    let request = codec.read_request(&request_stream).unwrap();
    let stored = if request.0 == held {
        Some(held_bytes.clone())
    } else {
        None
    };
    assert_eq!(
        exchange(&codec, stored),
        Ok(ArtifactResponse::Found(held_bytes.clone()))
    );

    let mut other_stream = Vec::new();
    assert_eq!(
        codec.write_request(&mut other_stream, &ArtifactRequest(identifier(0x42))),
        Ok(())
    );
    let other = codec.read_request(&other_stream).unwrap();
    let stored = if other.0 == held {
        Some(held_bytes)
    } else {
        None
    };
    assert_eq!(exchange(&codec, stored), Ok(ArtifactResponse::NotFound));
}
