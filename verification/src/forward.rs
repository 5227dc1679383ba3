//! Handing a file to a backend: the multipart request that each backend
//! expects, and what its answer means.

use vstd::prelude::*;
use vstd::string::StringExecFns;
use crate::decimal::{decimal, index_text};
use crate::destination::Destination;
use crate::json::{json_bool, json_element, json_member, json_of, json_parsed, json_text, parse_json, Json};
use crate::text::{optional_string_text, optional_text};

verus! {

/// One part of a multipart form, as a value.
pub enum PartModel {
    Text { name: Seq<char>, value: Seq<char> },
    File { name: Seq<char> },
}

/// One part of a multipart form.
#[derive(Debug, PartialEq, Eq)]
pub enum FormPart {
    /// A text field.
    Text { name: String, value: String },
    /// The file itself, under the given field name.
    File { name: String },
}

impl View for FormPart {
    type V = PartModel;

    open spec fn view(&self) -> PartModel {
        match self {
            FormPart::Text { name, value } => PartModel::Text { name: name@, value: value@ },
            FormPart::File { name } => PartModel::File { name: name@ },
        }
    }
}

/// A multipart upload, as a value.
pub struct RequestModel {
    pub endpoint: Seq<char>,
    pub parts: Seq<PartModel>,
}

/// A multipart upload: where it is posted, and its parts in the order in
/// which they are sent.
#[derive(Debug, PartialEq, Eq)]
pub struct UploadRequest {
    pub endpoint: String,
    pub parts: Vec<FormPart>,
}

impl View for UploadRequest {
    type V = RequestModel;

    open spec fn view(&self) -> RequestModel {
        RequestModel {
            endpoint: self.endpoint@,
            parts: Seq::new(self.parts@.len(), |i: int| self.parts@[i]@),
        }
    }
}

/// The retention window of an upload: the one asked for, or one hour.
pub open spec fn retention_of(time: Option<Seq<char>>) -> Seq<char> {
    match time {
        Some(window) => window,
        None => "1h"@,
    }
}

/// The retention window of an upload: the one asked for, or one hour.
pub fn retention(time: &Option<String>) -> (r: &str)
    ensures
        r@ == retention_of(optional_string_text(*time)),
{
    match time {
        Some(window) => window.as_str(),
        None => "1h",
    }
}

/// The text field that tells catbox and litterbox what is asked of them.
pub open spec fn request_type_part() -> PartModel {
    PartModel::Text { name: "reqtype"@, value: "fileupload"@ }
}

/// The parts of the upload that a backend expects. Pomf takes the file alone.
/// Catbox and litterbox take the request type first, then the file; catbox
/// then takes the user hash where there is one, and litterbox the retention
/// window.
pub open spec fn planned_parts(
    destination: Destination,
    userhash: Option<Seq<char>>,
    retention: Seq<char>,
) -> Seq<PartModel> {
    let file = PartModel::File { name: destination.file_field_text() };
    match destination {
        Destination::Pomf => seq![file],
        Destination::Catbox => match userhash {
            Some(hash) => seq![
                request_type_part(),
                file,
                PartModel::Text { name: "userhash"@, value: hash },
            ],
            None => seq![request_type_part(), file],
        },
        Destination::Litterbox => seq![
            request_type_part(),
            file,
            PartModel::Text { name: "time"@, value: retention },
        ],
        Destination::Unrecognized => seq![request_type_part(), file],
    }
}

/// The upload that hands a file to a backend.
pub open spec fn planned(
    destination: Destination,
    userhash: Option<Seq<char>>,
    retention: Seq<char>,
) -> RequestModel {
    RequestModel {
        endpoint: destination.endpoint_text(),
        parts: planned_parts(destination, userhash, retention),
    }
}

fn text_part(name: &str, value: &str) -> (r: FormPart)
    ensures
        r@ == (PartModel::Text { name: name@, value: value@ }),
{
    FormPart::Text { name: String::from_str(name), value: String::from_str(value) }
}

/// Plans the upload that hands a file to `destination`.
pub fn plan_upload(destination: Destination, userhash: Option<&str>, retention: &str) -> (r:
    UploadRequest)
    ensures
        r@ == planned(destination, optional_text(userhash), retention@),
{
    let mut parts: Vec<FormPart> = Vec::new();
    match destination {
        Destination::Pomf => {
            parts.push(FormPart::File { name: String::from_str(destination.file_field()) });
        },
        _ => {
            parts.push(text_part("reqtype", "fileupload"));
            parts.push(FormPart::File { name: String::from_str(destination.file_field()) });
            match destination {
                Destination::Catbox => match userhash {
                    Some(hash) => {
                        parts.push(text_part("userhash", hash));
                    },
                    None => {},
                },
                Destination::Litterbox => {
                    parts.push(text_part("time", retention));
                },
                _ => {},
            }
        },
    }
    let r = UploadRequest { endpoint: String::from_str(destination.endpoint()), parts };
    assert(r@.parts =~= planned_parts(destination, optional_text(userhash), retention@));
    r
}

/// Why a file did not reach its backend, as a value.
pub enum ForwardErrorModel {
    PomfUploadFailed,
    Failed(Seq<char>),
}

/// Why a file did not reach its backend.
#[derive(Debug, PartialEq, Eq)]
pub enum ForwardError {
    /// Pomf answered, and its answer does not report a stored file.
    PomfUploadFailed,
    /// The request did not go through, the backend refused it, or its answer
    /// could not be read. Holds the detail.
    Failed(String),
}

impl View for ForwardError {
    type V = ForwardErrorModel;

    open spec fn view(&self) -> ForwardErrorModel {
        match self {
            ForwardError::PomfUploadFailed => ForwardErrorModel::PomfUploadFailed,
            ForwardError::Failed(detail) => ForwardErrorModel::Failed(detail@),
        }
    }
}

impl ForwardErrorModel {
    /// The detail that the caller is told.
    pub open spec fn detail(self) -> Seq<char> {
        match self {
            ForwardErrorModel::PomfUploadFailed => "Pomf upload failed"@,
            ForwardErrorModel::Failed(detail) => detail,
        }
    }
}

impl ForwardError {
    /// The detail that the caller is told.
    pub fn detail(&self) -> (r: String)
        ensures
            r@ == self@.detail(),
    {
        match self {
            ForwardError::PomfUploadFailed => String::from_str("Pomf upload failed"),
            ForwardError::Failed(detail) => detail.clone(),
        }
    }
}

/// The outcome of a forward, as a value: the URL, or why there is none.
pub type ForwardModel = Result<Seq<char>, ForwardErrorModel>;

/// The value of an outcome.
pub open spec fn forward_view(outcome: Result<String, ForwardError>) -> ForwardModel {
    match outcome {
        Ok(url) => Ok(url@),
        Err(e) => Err(e@),
    }
}

/// What came of sending an upload, as a value.
pub enum ExchangeModel {
    Answered { status: u16, body: Seq<char> },
    Failed { detail: Seq<char> },
}

/// What came of sending an upload.
#[derive(Debug, PartialEq, Eq)]
pub enum Exchange {
    /// The backend answered with this status and body.
    Answered { status: u16, body: String },
    /// There was no answer. Holds what the HTTP client reports.
    Failed { detail: String },
}

impl View for Exchange {
    type V = ExchangeModel;

    open spec fn view(&self) -> ExchangeModel {
        match self {
            Exchange::Answered { status, body } => ExchangeModel::Answered {
                status: *status,
                body: body@,
            },
            Exchange::Failed { detail } => ExchangeModel::Failed { detail: detail@ },
        }
    }
}

/// What pomf's answer means, by its two fields that count: the URL where
/// `success` is `true` and the first file has a URL, a failure otherwise.
pub open spec fn pomf_verdict_of(success: Option<bool>, url: Option<Seq<char>>) -> ForwardModel {
    match url {
        Some(url) if success == Some(true) => Ok(url),
        _ => Err(ForwardErrorModel::PomfUploadFailed),
    }
}

/// What a JSON document from pomf means: `success` and `files[0].url` decide.
pub open spec fn pomf_result(document: Json) -> ForwardModel {
    pomf_verdict_of(
        document.member("success"@).as_bool(),
        document.member("files"@).element(0).member("url"@).as_text(),
    )
}

/// The detail for an answer whose status is not one of success.
pub open spec fn status_detail(status: u16, body: Seq<char>) -> Seq<char> {
    "HTTP status "@ + decimal(status as nat) + ": "@ + body
}

/// Whether a status is one of success.
pub open spec fn is_success(status: u16) -> bool {
    200 <= status < 300
}

/// What an exchange with a backend means. No answer, and an answer with a
/// status other than success, are failures with a detail. Of a successful
/// answer pomf's body is read as JSON; the body of the others is the URL.
pub open spec fn forward_result(destination: Destination, exchange: ExchangeModel) -> ForwardModel {
    match exchange {
        ExchangeModel::Failed { detail } => Err(ForwardErrorModel::Failed(detail)),
        ExchangeModel::Answered { status, body } => if !is_success(status) {
            Err(ForwardErrorModel::Failed(status_detail(status, body)))
        } else if destination.answers_json() {
            match json_parsed(body) {
                Some(document) => pomf_result(document),
                None => Err(ForwardErrorModel::Failed("error decoding response body"@)),
            }
        } else {
            Ok(body)
        },
    }
}

/// Decides what pomf's answer means from its two fields that count.
pub fn pomf_verdict(success: Option<bool>, url: Option<&str>) -> (r: Result<String, ForwardError>)
    ensures
        forward_view(r) == pomf_verdict_of(success, optional_text(url)),
{
    match (success, url) {
        (Some(true), Some(url)) => Ok(String::from_str(url)),
        _ => Err(ForwardError::PomfUploadFailed),
    }
}

/// Reads pomf's answer from its JSON document.
pub fn read_pomf_document(document: &serde_json::Value) -> (r: Result<String, ForwardError>)
    ensures
        forward_view(r) == pomf_result(json_of(*document)),
{
    let success = json_bool(json_member(document, "success"));
    let files = json_member(document, "files");
    let url = json_text(json_member(json_element(files, 0), "url"));
    pomf_verdict(success, url)
}

/// Reads the body of pomf's answer.
pub fn read_pomf_body(body: &str) -> (r: Result<String, ForwardError>)
    ensures
        forward_view(r) == match json_parsed(body@) {
            Some(document) => pomf_result(document),
            None => Err(ForwardErrorModel::Failed("error decoding response body"@)),
        },
{
    match parse_json(body) {
        Ok(document) => read_pomf_document(&document),
        Err(_) => Err(ForwardError::Failed(String::from_str("error decoding response body"))),
    }
}

/// The detail for an answer whose status is not one of success.
pub fn status_detail_text(status: u16, body: &str) -> (r: String)
    ensures
        r@ == status_detail(status, body@),
{
    let mut out = String::from_str("HTTP status ");
    out.append(index_text(status as usize).as_str());
    out.append(": ");
    out.append(body);
    out
}

/// Decides what an exchange with a backend means: the URL of the file, or why
/// there is none.
pub fn interpret(destination: Destination, exchange: Exchange) -> (r: Result<String, ForwardError>)
    ensures
        forward_view(r) == forward_result(destination, exchange@),
{
    match exchange {
        Exchange::Failed { detail } => Err(ForwardError::Failed(detail)),
        Exchange::Answered { status, body } => {
            if status < 200 || status >= 300 {
                Err(ForwardError::Failed(status_detail_text(status, body.as_str())))
            } else {
                match destination {
                    Destination::Pomf => read_pomf_body(body.as_str()),
                    _ => Ok(body),
                }
            }
        },
    }
}

} // verus!
