//! What the service answers to its callers.

use vstd::prelude::*;
use vstd::string::StringExecFns;

verus! {

/// The value of a field of a JSON answer, as a value.
pub enum ValueModel {
    Text(Seq<char>),
    Number(u16),
}

/// A field of a JSON answer, as a value.
pub struct FieldModel {
    pub name: Seq<char>,
    pub value: ValueModel,
}

/// The body of an answer, as a value.
pub enum BodyModel {
    Plain(Seq<char>),
    Json(Seq<FieldModel>),
}

/// An answer, as a value.
pub enum ReplyModel {
    Alive,
    ChunkReceived,
    Url(Seq<char>),
    MissingChunkFields,
    NoChunksFound,
    MissingDestination,
    UploadFailed(Seq<char>),
    DirectUploadFailed(Seq<char>),
    RouteNotFound,
}

/// The detail of the failure in which a request ends that was told of
/// something it was not waiting for.
pub open spec fn out_of_order() -> Seq<char> {
    "request handled out of order"@
}

/// A JSON object with the single text field `error`.
pub open spec fn error_body(message: Seq<char>) -> BodyModel {
    BodyModel::Json(seq![FieldModel { name: "error"@, value: ValueModel::Text(message) }])
}

/// A JSON object with the text fields `error` and `details`.
pub open spec fn failure_body(message: Seq<char>, details: Seq<char>) -> BodyModel {
    BodyModel::Json(
        seq![
            FieldModel { name: "error"@, value: ValueModel::Text(message) },
            FieldModel { name: "details"@, value: ValueModel::Text(details) },
        ],
    )
}

impl ReplyModel {
    /// The HTTP status of the answer.
    pub open spec fn status(self) -> u16 {
        match self {
            ReplyModel::Alive | ReplyModel::ChunkReceived | ReplyModel::Url(_) => 200,
            ReplyModel::MissingChunkFields
            | ReplyModel::NoChunksFound
            | ReplyModel::MissingDestination => 400,
            ReplyModel::RouteNotFound => 404,
            ReplyModel::UploadFailed(_) | ReplyModel::DirectUploadFailed(_) => 500,
        }
    }

    /// The body of the answer.
    pub open spec fn body(self) -> BodyModel {
        match self {
            ReplyModel::Alive => BodyModel::Plain("fatbox is working."@),
            ReplyModel::ChunkReceived => BodyModel::Json(
                seq![FieldModel { name: "message"@, value: ValueModel::Text("Chunk received."@) }],
            ),
            ReplyModel::Url(url) => BodyModel::Json(
                seq![FieldModel { name: "url"@, value: ValueModel::Text(url) }],
            ),
            ReplyModel::MissingChunkFields => error_body("Missing uploadId or index"@),
            ReplyModel::NoChunksFound => error_body("No chunks found for this uploadId"@),
            ReplyModel::MissingDestination => error_body("Missing file or destination"@),
            ReplyModel::UploadFailed(details) => failure_body("Upload failed"@, details),
            ReplyModel::DirectUploadFailed(details) => failure_body(
                "Direct upload failed"@,
                details,
            ),
            ReplyModel::RouteNotFound => BodyModel::Json(
                seq![
                    FieldModel { name: "message"@, value: ValueModel::Text("Route not found"@) },
                    FieldModel { name: "error"@, value: ValueModel::Text("Not Found"@) },
                    FieldModel { name: "statusCode"@, value: ValueModel::Number(404) },
                ],
            ),
        }
    }
}

/// The value of a field of a JSON answer.
#[derive(Debug, PartialEq, Eq)]
pub enum ReplyValue {
    Text(String),
    Number(u16),
}

impl View for ReplyValue {
    type V = ValueModel;

    open spec fn view(&self) -> ValueModel {
        match self {
            ReplyValue::Text(text) => ValueModel::Text(text@),
            ReplyValue::Number(n) => ValueModel::Number(*n),
        }
    }
}

/// A field of a JSON answer.
#[derive(Debug, PartialEq, Eq)]
pub struct ReplyField {
    pub name: String,
    pub value: ReplyValue,
}

impl View for ReplyField {
    type V = FieldModel;

    open spec fn view(&self) -> FieldModel {
        FieldModel { name: self.name@, value: self.value@ }
    }
}

/// The body of an answer: plain text, or the fields of a JSON object in the
/// order in which they are written.
#[derive(Debug, PartialEq, Eq)]
pub enum ReplyBody {
    Plain(String),
    Json(Vec<ReplyField>),
}

impl View for ReplyBody {
    type V = BodyModel;

    open spec fn view(&self) -> BodyModel {
        match self {
            ReplyBody::Plain(text) => BodyModel::Plain(text@),
            ReplyBody::Json(fields) => BodyModel::Json(
                Seq::new(fields@.len(), |i: int| fields@[i]@),
            ),
        }
    }
}

/// An answer of the service.
#[derive(Debug, PartialEq, Eq)]
pub enum ApiReply {
    /// The service is up.
    Alive,
    /// A chunk request was read to its end.
    ChunkReceived,
    /// The file is at the backend, under this URL.
    Url(String),
    /// A chunk came before the upload's identifier and the chunk's index.
    MissingChunkFields,
    /// The session to finish holds no chunk.
    NoChunksFound,
    /// A direct upload named no destination.
    MissingDestination,
    /// A chunked upload did not reach its backend. Holds the detail.
    UploadFailed(String),
    /// A direct upload did not reach its backend. Holds the detail.
    DirectUploadFailed(String),
    /// The request matched no route.
    RouteNotFound,
}

impl View for ApiReply {
    type V = ReplyModel;

    open spec fn view(&self) -> ReplyModel {
        match self {
            ApiReply::Alive => ReplyModel::Alive,
            ApiReply::ChunkReceived => ReplyModel::ChunkReceived,
            ApiReply::Url(url) => ReplyModel::Url(url@),
            ApiReply::MissingChunkFields => ReplyModel::MissingChunkFields,
            ApiReply::NoChunksFound => ReplyModel::NoChunksFound,
            ApiReply::MissingDestination => ReplyModel::MissingDestination,
            ApiReply::UploadFailed(details) => ReplyModel::UploadFailed(details@),
            ApiReply::DirectUploadFailed(details) => ReplyModel::DirectUploadFailed(details@),
            ApiReply::RouteNotFound => ReplyModel::RouteNotFound,
        }
    }
}

fn text_field(name: &str, value: &str) -> (r: ReplyField)
    ensures
        r@ == (FieldModel { name: name@, value: ValueModel::Text(value@) }),
{
    ReplyField { name: String::from_str(name), value: ReplyValue::Text(String::from_str(value)) }
}

fn error_reply(message: &str) -> (r: ReplyBody)
    ensures
        r@ == error_body(message@),
{
    let mut fields: Vec<ReplyField> = Vec::new();
    fields.push(text_field("error", message));
    let r = ReplyBody::Json(fields);
    assert(r@->Json_0 =~= error_body(message@)->Json_0);
    r
}

fn failure_reply(message: &str, details: &str) -> (r: ReplyBody)
    ensures
        r@ == failure_body(message@, details@),
{
    let mut fields: Vec<ReplyField> = Vec::new();
    fields.push(text_field("error", message));
    fields.push(text_field("details", details));
    let r = ReplyBody::Json(fields);
    assert(r@->Json_0 =~= failure_body(message@, details@)->Json_0);
    r
}

impl ApiReply {
    /// The answer of the root route.
    pub fn alive() -> (r: ApiReply)
        ensures
            r@ == ReplyModel::Alive,
    {
        ApiReply::Alive
    }

    /// The answer to a request that matches no route.
    pub fn route_not_found() -> (r: ApiReply)
        ensures
            r@ == ReplyModel::RouteNotFound,
    {
        ApiReply::RouteNotFound
    }

    /// The HTTP status of the answer.
    pub fn status(&self) -> (r: u16)
        ensures
            r == self@.status(),
    {
        match self {
            ApiReply::Alive | ApiReply::ChunkReceived | ApiReply::Url(_) => 200,
            ApiReply::MissingChunkFields
            | ApiReply::NoChunksFound
            | ApiReply::MissingDestination => 400,
            ApiReply::RouteNotFound => 404,
            ApiReply::UploadFailed(_) | ApiReply::DirectUploadFailed(_) => 500,
        }
    }

    /// The body of the answer.
    pub fn body(&self) -> (r: ReplyBody)
        ensures
            r@ == self@.body(),
    {
        match self {
            ApiReply::Alive => ReplyBody::Plain(String::from_str("fatbox is working.")),
            ApiReply::ChunkReceived => {
                let mut fields: Vec<ReplyField> = Vec::new();
                fields.push(text_field("message", "Chunk received."));
                let r = ReplyBody::Json(fields);
                assert(r@->Json_0 =~= self@.body()->Json_0);
                r
            },
            ApiReply::Url(url) => {
                let mut fields: Vec<ReplyField> = Vec::new();
                fields.push(text_field("url", url.as_str()));
                let r = ReplyBody::Json(fields);
                assert(r@->Json_0 =~= self@.body()->Json_0);
                r
            },
            ApiReply::MissingChunkFields => error_reply("Missing uploadId or index"),
            ApiReply::NoChunksFound => error_reply("No chunks found for this uploadId"),
            ApiReply::MissingDestination => error_reply("Missing file or destination"),
            ApiReply::UploadFailed(details) => failure_reply("Upload failed", details.as_str()),
            ApiReply::DirectUploadFailed(details) => failure_reply(
                "Direct upload failed",
                details.as_str(),
            ),
            ApiReply::RouteNotFound => {
                let mut fields: Vec<ReplyField> = Vec::new();
                fields.push(text_field("message", "Route not found"));
                fields.push(text_field("error", "Not Found"));
                fields.push(
                    ReplyField {
                        name: String::from_str("statusCode"),
                        value: ReplyValue::Number(404),
                    },
                );
                let r = ReplyBody::Json(fields);
                assert(r@->Json_0 =~= self@.body()->Json_0);
                r
            },
        }
    }
}

} // verus!
