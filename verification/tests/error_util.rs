use pyrsia::docker::error_util::{
    custom_recover, recover, ErrorMessage, ErrorMessages, Recovery, RegistryError,
    RegistryErrorCode, BAD_REQUEST, INTERNAL_SERVER_ERROR, NOT_FOUND,
};
use std::io;

fn single(status_code: u16, code: RegistryErrorCode, message: &str) -> Recovery {
    Recovery {
        status_code,
        body: ErrorMessages {
            errors: vec![ErrorMessage {
                code,
                message: message.to_string(),
            }],
        },
    }
}

fn invalid_header_rejection() -> warp::Rejection {
    let filter = warp::header::<u32>("x-count");
    let outcome = futures::executor::block_on(
        warp::test::request()
            .header("x-count", "many")
            .filter(&filter),
    );
    match outcome {
        Ok(_) => panic!("the header should not parse"),
        Err(rejection) => rejection,
    }
}

#[test]
fn from_io_error() {
    let io_error_1 = io::Error::new(io::ErrorKind::Interrupted, "operation interrupted");
    let io_error_2 = io::Error::new(io::ErrorKind::Interrupted, "operation interrupted");

    let registry_error: RegistryError = io_error_1.into();
    assert_eq!(
        registry_error.code,
        RegistryErrorCode::Unknown(io_error_2.to_string())
    );
}

#[test]
fn from_from_hex_error() {
    let from_hex_error = hex::FromHexError::OddLength;

    let registry_error: RegistryError = from_hex_error.into();
    assert_eq!(
        registry_error.code,
        RegistryErrorCode::Unknown(from_hex_error.to_string())
    );
}

#[test]
fn from_anyhow_error() {
    let from_hex_error_1 = hex::FromHexError::OddLength;
    let anyhow_error_1: anyhow::Error = from_hex_error_1.into();

    let from_hex_error_2 = hex::FromHexError::OddLength;
    let anyhow_error_2: anyhow::Error = from_hex_error_2.into();

    let registry_error: RegistryError = anyhow_error_1.into();
    assert_eq!(
        registry_error.code,
        RegistryErrorCode::Unknown(anyhow_error_2.to_string())
    );
}

#[test]
fn recover_from_registry_error() {
    let registry_error = RegistryError {
        code: RegistryErrorCode::BlobUnknown,
    };

    let expected_body = ErrorMessages {
        errors: vec![ErrorMessage {
            code: RegistryErrorCode::BlobUnknown,
            message: "".to_string(),
        }],
    };

    let reply = custom_recover(registry_error.into());
    assert_eq!(reply.status_code, 404);
    assert_eq!(reply.body, expected_body);
}

#[test]
fn from_io_error_keeps_the_exact_text() {
    let registry_error: RegistryError =
        io::Error::new(io::ErrorKind::Interrupted, "operation interrupted").into();
    assert_eq!(
        registry_error.code,
        RegistryErrorCode::Unknown("operation interrupted".to_string())
    );
}

#[test]
fn from_hex_error_keeps_the_exact_text() {
    let registry_error: RegistryError = hex::FromHexError::OddLength.into();
    assert_eq!(
        registry_error.code,
        RegistryErrorCode::Unknown("Odd number of digits".to_string())
    );
}

#[test]
fn from_anyhow_error_keeps_the_exact_text() {
    let registry_error: RegistryError = anyhow::Error::msg("no such layer").into();
    assert_eq!(
        registry_error.code,
        RegistryErrorCode::Unknown("no such layer".to_string())
    );
}

#[test]
fn from_reqwest_error() {
    let reqwest_error = match reqwest::Client::new().get("not a url").build() {
        Ok(_) => panic!("the address should not parse"),
        Err(e) => e,
    };
    let expected = reqwest_error.to_string();
    assert!(!expected.is_empty());

    let registry_error: RegistryError = reqwest_error.into();
    assert_eq!(registry_error.code, RegistryErrorCode::Unknown(expected));
}

#[test]
fn code_prints_blob_unknown() {
    assert_eq!(RegistryErrorCode::BlobUnknown.to_string(), "BLOB_UNKNOWN");
}

#[test]
fn code_prints_blob_does_not_exist() {
    assert_eq!(
        RegistryErrorCode::BlobDoesNotExist("sha256:0a1b".to_string()).to_string(),
        "BLOB_DOES_NOT_EXIST(sha256:0a1b)"
    );
}

#[test]
fn code_prints_manifest_unknown() {
    assert_eq!(
        RegistryErrorCode::ManifestUnknown.to_string(),
        "MANIFEST_UNKNOWN"
    );
}

#[test]
fn code_prints_unknown() {
    assert_eq!(
        RegistryErrorCode::Unknown("disk full".to_string()).to_string(),
        "UNKNOWN(disk full)"
    );
}

#[test]
fn code_prints_empty_details() {
    assert_eq!(
        RegistryErrorCode::Unknown(String::new()).to_string(),
        "UNKNOWN()"
    );
    assert_eq!(
        RegistryErrorCode::BlobDoesNotExist(String::new()).to_string(),
        "BLOB_DOES_NOT_EXIST()"
    );
}

#[test]
fn status_codes_have_their_numbers() {
    assert_eq!(NOT_FOUND, 404);
    assert_eq!(BAD_REQUEST, 400);
    assert_eq!(INTERNAL_SERVER_ERROR, 500);
}

#[test]
fn recover_blob_unknown() {
    let error = RegistryError {
        code: RegistryErrorCode::BlobUnknown,
    };
    assert_eq!(
        recover(Some(&error), None),
        single(404, RegistryErrorCode::BlobUnknown, "")
    );
}

#[test]
fn recover_blob_does_not_exist() {
    let error = RegistryError {
        code: RegistryErrorCode::BlobDoesNotExist("sha256:0a1b".to_string()),
    };
    assert_eq!(
        recover(Some(&error), None),
        single(
            404,
            RegistryErrorCode::BlobDoesNotExist("sha256:0a1b".to_string()),
            ""
        )
    );
}

#[test]
fn recover_manifest_unknown() {
    let error = RegistryError {
        code: RegistryErrorCode::ManifestUnknown,
    };
    assert_eq!(
        recover(Some(&error), None),
        single(404, RegistryErrorCode::ManifestUnknown, "")
    );
}

#[test]
fn recover_unknown_moves_the_text_to_the_message() {
    let error = RegistryError {
        code: RegistryErrorCode::Unknown("disk full".to_string()),
    };
    assert_eq!(
        recover(Some(&error), None),
        single(500, RegistryErrorCode::Unknown(String::new()), "disk full")
    );
}

#[test]
fn recover_invalid_header() {
    assert_eq!(
        recover(None, Some("Invalid request header \"x-count\"".to_string())),
        single(
            400,
            RegistryErrorCode::Unknown(String::new()),
            "Invalid request header \"x-count\""
        )
    );
}

#[test]
fn recover_registry_error_wins_over_invalid_header() {
    let error = RegistryError {
        code: RegistryErrorCode::ManifestUnknown,
    };
    assert_eq!(
        recover(Some(&error), Some("Invalid request header \"x-count\"".to_string())),
        single(404, RegistryErrorCode::ManifestUnknown, "")
    );
}

#[test]
fn recover_nothing_known() {
    assert_eq!(
        recover(None, None),
        single(500, RegistryErrorCode::Unknown(String::new()), "")
    );
}

#[test]
fn custom_recover_blob_does_not_exist() {
    let rejection = warp::reject::custom(RegistryError {
        code: RegistryErrorCode::BlobDoesNotExist("sha256:0a1b".to_string()),
    });
    assert_eq!(
        custom_recover(rejection),
        single(
            404,
            RegistryErrorCode::BlobDoesNotExist("sha256:0a1b".to_string()),
            ""
        )
    );
}

#[test]
fn custom_recover_unknown() {
    let rejection = warp::reject::custom(RegistryError {
        code: RegistryErrorCode::Unknown("disk full".to_string()),
    });
    assert_eq!(
        custom_recover(rejection),
        single(500, RegistryErrorCode::Unknown(String::new()), "disk full")
    );
}

#[test]
fn custom_recover_invalid_header() {
    assert_eq!(
        custom_recover(invalid_header_rejection()),
        single(
            400,
            RegistryErrorCode::Unknown(String::new()),
            "Invalid request header \"x-count\""
        )
    );
}

#[test]
fn custom_recover_other_rejection() {
    assert_eq!(
        custom_recover(warp::reject::not_found()),
        single(500, RegistryErrorCode::Unknown(String::new()), "")
    );
}
