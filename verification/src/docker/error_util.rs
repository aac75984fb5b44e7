//! Errors of the registry interface and how they are reported to a client.

use vstd::prelude::*;

verus! {

/// One entry of an error report: a code and a free-form message.
#[derive(Debug, PartialEq)]
pub struct ErrorMessage {
    pub code: RegistryErrorCode,
    pub message: String,
}

/// The body of an error reply: the list of its entries.
#[derive(Debug, PartialEq)]
pub struct ErrorMessages {
    pub errors: Vec<ErrorMessage>,
}

/// The reason a registry request failed.
#[derive(Debug, PartialEq)]
pub enum RegistryErrorCode {
    BlobUnknown,
    BlobDoesNotExist(String),
    ManifestUnknown,
    Unknown(String),
}

/// What a [`RegistryErrorCode`] is, with its texts as character sequences.
pub enum CodeModel {
    BlobUnknown,
    BlobDoesNotExist(Seq<char>),
    ManifestUnknown,
    Unknown(Seq<char>),
}

impl View for RegistryErrorCode {
    type V = CodeModel;

    open spec fn view(&self) -> CodeModel {
        match self {
            RegistryErrorCode::BlobUnknown => CodeModel::BlobUnknown,
            RegistryErrorCode::BlobDoesNotExist(hash) => CodeModel::BlobDoesNotExist(hash@),
            RegistryErrorCode::ManifestUnknown => CodeModel::ManifestUnknown,
            RegistryErrorCode::Unknown(message) => CodeModel::Unknown(message@),
        }
    }
}

/// What an [`ErrorMessage`] is.
pub struct MessageModel {
    pub code: CodeModel,
    pub message: Seq<char>,
}

impl View for ErrorMessage {
    type V = MessageModel;

    open spec fn view(&self) -> MessageModel {
        MessageModel { code: self.code@, message: self.message@ }
    }
}

impl View for ErrorMessages {
    type V = Seq<MessageModel>;

    open spec fn view(&self) -> Seq<MessageModel> {
        Seq::new(self.errors@.len(), |i: int| self.errors@[i]@)
    }
}

impl CodeModel {
    /// The printed form of a code: its name in capitals, followed by the
    /// detail in parentheses where the code carries one.
    pub open spec fn text(self) -> Seq<char> {
        match self {
            CodeModel::BlobUnknown => "BLOB_UNKNOWN"@,
            CodeModel::BlobDoesNotExist(hash) => "BLOB_DOES_NOT_EXIST("@ + hash + ")"@,
            CodeModel::ManifestUnknown => "MANIFEST_UNKNOWN"@,
            CodeModel::Unknown(message) => "UNKNOWN("@ + message + ")"@,
        }
    }
}

impl RegistryErrorCode {
    /// Prints the code.
    pub fn to_string(&self) -> (printable: String)
        ensures
            printable@ == self@.text(),
    {
        match self {
            RegistryErrorCode::BlobUnknown => String::from_str("BLOB_UNKNOWN"),
            RegistryErrorCode::BlobDoesNotExist(hash) => {
                let mut printable = String::from_str("BLOB_DOES_NOT_EXIST(");
                printable.append(hash.as_str());
                printable.append(")");
                printable
            },
            RegistryErrorCode::ManifestUnknown => String::from_str("MANIFEST_UNKNOWN"),
            RegistryErrorCode::Unknown(message) => {
                let mut printable = String::from_str("UNKNOWN(");
                printable.append(message.as_str());
                printable.append(")");
                printable
            },
        }
    }
}

/// A failed registry request.
#[derive(Debug, PartialEq)]
pub struct RegistryError {
    pub code: RegistryErrorCode,
}

impl View for RegistryError {
    type V = CodeModel;

    open spec fn view(&self) -> CodeModel {
        self.code@
    }
}

/// `anyhow::Error`, carried through as an opaque value.
#[verifier::external_type_specification]
#[verifier::external_body]
pub struct ExAnyhowError(anyhow::Error);

/// The text of the converted error is whatever the error prints, which no
/// spec function of the library stands for: `from` states its own contract.
impl vstd::std_specs::convert::FromSpecImpl<anyhow::Error> for RegistryError {
    open spec fn obeys_from_spec() -> bool {
        false
    }

    open spec fn from_spec(err: anyhow::Error) -> RegistryError {
        arbitrary()
    }
}

impl From<anyhow::Error> for RegistryError {
    /// An `anyhow::Error` becomes an unknown registry error whose text is what the
    /// error prints.
    fn from(err: anyhow::Error) -> (error: RegistryError)
        ensures
            error.code matches RegistryErrorCode::Unknown(message)
                && vstd::string::to_string_from_display_ensures::<anyhow::Error>(&err, message),
    {
        RegistryError { code: RegistryErrorCode::Unknown(err.to_string()) }
    }
}

/// `hex::FromHexError`, carried through as an opaque value.
#[verifier::external_type_specification]
#[verifier::external_body]
pub struct ExFromHexError(hex::FromHexError);

/// The text of the converted error is whatever the error prints, which no
/// spec function of the library stands for: `from` states its own contract.
impl vstd::std_specs::convert::FromSpecImpl<hex::FromHexError> for RegistryError {
    open spec fn obeys_from_spec() -> bool {
        false
    }

    open spec fn from_spec(err: hex::FromHexError) -> RegistryError {
        arbitrary()
    }
}

impl From<hex::FromHexError> for RegistryError {
    /// A `hex::FromHexError` becomes an unknown registry error whose text is what the
    /// error prints.
    fn from(err: hex::FromHexError) -> (error: RegistryError)
        ensures
            error.code matches RegistryErrorCode::Unknown(message)
                && vstd::string::to_string_from_display_ensures::<hex::FromHexError>(
                &err,
                message,
            ),
    {
        RegistryError { code: RegistryErrorCode::Unknown(err.to_string()) }
    }
}

/// `reqwest::Error`, carried through as an opaque value.
#[verifier::external_type_specification]
#[verifier::external_body]
pub struct ExReqwestError(reqwest::Error);

/// The text of the converted error is whatever the error prints, which no
/// spec function of the library stands for: `from` states its own contract.
impl vstd::std_specs::convert::FromSpecImpl<reqwest::Error> for RegistryError {
    open spec fn obeys_from_spec() -> bool {
        false
    }

    open spec fn from_spec(err: reqwest::Error) -> RegistryError {
        arbitrary()
    }
}

impl From<reqwest::Error> for RegistryError {
    /// A `reqwest::Error` becomes an unknown registry error whose text is what the
    /// error prints.
    fn from(err: reqwest::Error) -> (error: RegistryError)
        ensures
            error.code matches RegistryErrorCode::Unknown(message)
                && vstd::string::to_string_from_display_ensures::<reqwest::Error>(&err, message),
    {
        RegistryError { code: RegistryErrorCode::Unknown(err.to_string()) }
    }
}

/// `std::io::Error`, carried through as an opaque value.
#[verifier::external_type_specification]
#[verifier::external_body]
pub struct ExIoError(std::io::Error);

/// The text of the converted error is whatever the error prints, which no
/// spec function of the library stands for: `from` states its own contract.
impl vstd::std_specs::convert::FromSpecImpl<std::io::Error> for RegistryError {
    open spec fn obeys_from_spec() -> bool {
        false
    }

    open spec fn from_spec(err: std::io::Error) -> RegistryError {
        arbitrary()
    }
}

impl From<std::io::Error> for RegistryError {
    /// A `std::io::Error` becomes an unknown registry error whose text is what the
    /// error prints.
    fn from(err: std::io::Error) -> (error: RegistryError)
        ensures
            error.code matches RegistryErrorCode::Unknown(message)
                && vstd::string::to_string_from_display_ensures::<std::io::Error>(&err, message),
    {
        RegistryError { code: RegistryErrorCode::Unknown(err.to_string()) }
    }
}

/// A registry error can be the cause of a rejection.
impl warp::reject::Reject for RegistryError {}

/// Status of a reply to a request for something the registry does not have.
pub const NOT_FOUND: u16 = 404;

/// Status of a reply to a request with a header that could not be read.
pub const BAD_REQUEST: u16 = 400;

/// Status of a reply to a request that failed for any other reason.
pub const INTERNAL_SERVER_ERROR: u16 = 500;

/// The reply to a rejected request: a status code and the error report that
/// goes into the body.
#[derive(Debug, PartialEq)]
pub struct Recovery {
    pub status_code: u16,
    pub body: ErrorMessages,
}

/// What a [`Recovery`] is.
pub struct RecoveryModel {
    pub status_code: int,
    pub errors: Seq<MessageModel>,
}

impl View for Recovery {
    type V = RecoveryModel;

    open spec fn view(&self) -> RecoveryModel {
        RecoveryModel { status_code: self.status_code as int, errors: self.body@ }
    }
}

/// The reply with one entry.
pub open spec fn single_error(
    status_code: int,
    code: CodeModel,
    message: Seq<char>,
) -> RecoveryModel {
    RecoveryModel { status_code, errors: seq![MessageModel { code, message }] }
}

/// The reply owed to a rejected request, given the registry error and the
/// text of the invalid-header cause that the rejection carries, if any.
///
/// A registry error decides alone. Its code is reported under status 404 with
/// an empty message, except for an unknown error, whose text becomes the
/// message of a status 500 reply with an empty unknown code. Without a
/// registry error, an invalid header is reported under status 400 with its
/// text as the message. Anything else is status 500 with nothing to say.
pub open spec fn recovery(
    registry_error: Option<CodeModel>,
    invalid_header: Option<Seq<char>>,
) -> RecoveryModel {
    match registry_error {
        Some(CodeModel::Unknown(message)) => single_error(
            INTERNAL_SERVER_ERROR as int,
            CodeModel::Unknown(Seq::empty()),
            message,
        ),
        Some(code) => single_error(NOT_FOUND as int, code, Seq::empty()),
        None => match invalid_header {
            Some(text) => single_error(BAD_REQUEST as int, CodeModel::Unknown(Seq::empty()), text),
            None => single_error(
                INTERNAL_SERVER_ERROR as int,
                CodeModel::Unknown(Seq::empty()),
                Seq::empty(),
            ),
        },
    }
}

/// The view of an optional registry error.
pub open spec fn code_of(registry_error: Option<&RegistryError>) -> Option<CodeModel> {
    match registry_error {
        Some(error) => Some(error@),
        None => None,
    }
}

/// The view of an optional text.
pub open spec fn text_of(text: Option<String>) -> Option<Seq<char>> {
    match text {
        Some(text) => Some(text@),
        None => None,
    }
}

/// Decides the reply to a rejected request from what the rejection carries:
/// its registry error, if any, and the text of its invalid-header cause, if
/// any.
pub fn recover(registry_error: Option<&RegistryError>, invalid_header: Option<String>) -> (reply:
    Recovery)
    ensures
        reply@ == recovery(code_of(registry_error), text_of(invalid_header)),
{
    let mut status_code = INTERNAL_SERVER_ERROR;
    let mut error_message = ErrorMessage {
        code: RegistryErrorCode::Unknown(String::new()),
        message: String::new(),
    };
    if let Some(e) = registry_error {
        match &e.code {
            RegistryErrorCode::BlobUnknown => {
                status_code = NOT_FOUND;
                error_message.code = RegistryErrorCode::BlobUnknown;
            },
            RegistryErrorCode::BlobDoesNotExist(hash) => {
                status_code = NOT_FOUND;
                error_message.code = RegistryErrorCode::BlobDoesNotExist(hash.clone());
            },
            RegistryErrorCode::ManifestUnknown => {
                status_code = NOT_FOUND;
                error_message.code = RegistryErrorCode::ManifestUnknown;
            },
            RegistryErrorCode::Unknown(m) => {
                error_message.message = m.clone();
            },
        }
    } else if let Some(text) = invalid_header {
        status_code = BAD_REQUEST;
        error_message.message = text;
    }
    let reply = Recovery { status_code, body: ErrorMessages { errors: vec![error_message] } };
    assert(reply@.errors =~= recovery(code_of(registry_error), text_of(invalid_header)).errors);
    reply
}

/// `warp::Rejection`, carried through as an opaque value.
#[verifier::external_type_specification]
#[verifier::external_body]
pub struct ExRejection(warp::Rejection);

/// `warp::reject::InvalidHeader`, carried through as an opaque value.
#[verifier::external_type_specification]
#[verifier::external_body]
pub struct ExInvalidHeader(warp::reject::InvalidHeader);

/// The first registry error among the causes of a rejection, if there is one.
pub uninterp spec fn registry_error_in(err: warp::Rejection) -> Option<CodeModel>;

/// The first invalid-header cause among the causes of a rejection, if there
/// is one.
pub uninterp spec fn invalid_header_in(err: warp::Rejection) -> Option<
    warp::reject::InvalidHeader,
>;

/// `warp::Rejection::find` for a [`RegistryError`]. The rejection's causes
/// are searched in order for one of that type; the contract only gives the
/// outcome of the search its name.
#[verifier::external_body]
fn find_registry_error(err: &warp::Rejection) -> (found: Option<&RegistryError>)
    ensures
        code_of(found) == registry_error_in(*err),
{
    err.find::<RegistryError>()
}

/// `warp::Rejection::find` for a `warp::reject::InvalidHeader`. The
/// rejection's causes are searched in order for one of that type; the
/// contract only gives the outcome of the search its name.
#[verifier::external_body]
fn find_invalid_header(err: &warp::Rejection) -> (found: Option<&warp::reject::InvalidHeader>)
    ensures
        match found {
            Some(header) => invalid_header_in(*err) == Some(*header),
            None => invalid_header_in(*err) is None,
        },
{
    err.find::<warp::reject::InvalidHeader>()
}

/// Whether `reply` reports the invalid header `header`, with `printed` as the
/// header's printed form.
pub open spec fn reports_invalid_header(
    header: warp::reject::InvalidHeader,
    printed: String,
    reply: RecoveryModel,
) -> bool {
    &&& vstd::string::to_string_from_display_ensures::<warp::reject::InvalidHeader>(
        &header,
        printed,
    )
    &&& reply == recovery(None, Some(printed@))
}

/// Decides the reply to a rejected request.
///
/// A registry error among the causes decides as [`recovery`] says. Without
/// one, an invalid header is reported under status 400 with its printed form
/// as the message, and anything else under status 500 with nothing to say.
pub fn custom_recover(err: warp::Rejection) -> (reply: Recovery)
    ensures
        match registry_error_in(err) {
            Some(code) => reply@ == recovery(Some(code), None),
            None => match invalid_header_in(err) {
                Some(header) => exists|printed: String| #[trigger]
                    reports_invalid_header(header, printed, reply@),
                None => reply@ == recovery(None, None),
            },
        },
{
    let registry_error = find_registry_error(&err);
    if registry_error.is_some() {
        recover(registry_error, None)
    } else {
        match find_invalid_header(&err) {
            Some(header) => {
                let message = header.to_string();
                let ghost printed = message;
                let reply = recover(None, Some(message));
                assert(reports_invalid_header(invalid_header_in(err)->0, printed, reply@));
                reply
            },
            None => recover(None, None),
        }
    }
}

} // verus!
