use fatbox::reply::{ApiReply, ReplyBody, ReplyField, ReplyValue};

fn field(name: &str, value: &str) -> ReplyField {
    ReplyField { name: name.to_string(), value: ReplyValue::Text(value.to_string()) }
}

#[test]
fn the_root_route_says_that_the_service_works() {
    let reply = ApiReply::alive();
    assert_eq!(reply.status(), 200);
    assert_eq!(reply.body(), ReplyBody::Plain("fatbox is working.".to_string()));
}

#[test]
fn a_received_chunk_is_acknowledged() {
    let reply = ApiReply::ChunkReceived;
    assert_eq!(reply.status(), 200);
    assert_eq!(reply.body(), ReplyBody::Json(vec![field("message", "Chunk received.")]));
}

#[test]
fn a_url_is_answered_as_such() {
    let reply = ApiReply::Url("https://x/y.png".to_string());
    assert_eq!(reply.status(), 200);
    assert_eq!(reply.body(), ReplyBody::Json(vec![field("url", "https://x/y.png")]));
}

#[test]
fn client_errors_have_status_400_and_an_error_text() {
    let cases = [
        (ApiReply::MissingChunkFields, "Missing uploadId or index"),
        (ApiReply::NoChunksFound, "No chunks found for this uploadId"),
        (ApiReply::MissingDestination, "Missing file or destination"),
    ];
    for (reply, message) in cases {
        assert_eq!(reply.status(), 400);
        assert_eq!(reply.body(), ReplyBody::Json(vec![field("error", message)]));
    }
}

#[test]
fn failures_have_status_500_and_carry_the_detail() {
    let reply = ApiReply::UploadFailed("Pomf upload failed".to_string());
    assert_eq!(reply.status(), 500);
    assert_eq!(
        reply.body(),
        ReplyBody::Json(vec![field("error", "Upload failed"), field("details", "Pomf upload failed")])
    );
    let reply = ApiReply::DirectUploadFailed("timed out".to_string());
    assert_eq!(reply.status(), 500);
    assert_eq!(
        reply.body(),
        ReplyBody::Json(vec![field("error", "Direct upload failed"), field("details", "timed out")])
    );
}

#[test]
fn an_unmatched_route_is_not_found() {
    let reply = ApiReply::route_not_found();
    assert_eq!(reply.status(), 404);
    assert_eq!(
        reply.body(),
        ReplyBody::Json(vec![
            field("message", "Route not found"),
            field("error", "Not Found"),
            ReplyField { name: "statusCode".to_string(), value: ReplyValue::Number(404) },
        ])
    );
}
