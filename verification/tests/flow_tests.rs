use fatbox::chunk_flow::{chunk_field, ChunkAction, ChunkEvent, ChunkField, ChunkFlow, ChunkTarget};
use fatbox::direct_flow::{direct_answer, direct_field, DirectAction, DirectEvent, DirectField, DirectFlow};
use fatbox::finish_flow::{
    artifact_file_name, finish_answer, FinishAction, FinishEvent, FinishFlow, FinishParams,
};
use fatbox::forward::{retention, Exchange, ForwardError, FormPart, UploadRequest};
use fatbox::reply::ApiReply;

fn names(list: &[&str]) -> Vec<String> {
    list.iter().map(|s| s.to_string()).collect()
}

fn text(name: &str, value: &str) -> FormPart {
    FormPart::Text { name: name.to_string(), value: value.to_string() }
}

fn file(name: &str) -> FormPart {
    FormPart::File { name: name.to_string() }
}

fn answered(status: u16, body: &str) -> Exchange {
    Exchange::Answered { status, body: body.to_string() }
}

fn params(destination: &str, userhash: Option<&str>, time: Option<&str>) -> FinishParams {
    FinishParams {
        upload_id: "session-a".to_string(),
        filename: "cat.png".to_string(),
        destination: destination.to_string(),
        userhash: userhash.map(|s| s.to_string()),
        time: time.map(|s| s.to_string()),
    }
}

fn cleanup() -> FinishAction {
    FinishAction::CleanUp { session: "session-a".to_string(), artifact: "session-a-cat.png".to_string() }
}

fn run_finish(p: FinishParams, events: Vec<FinishEvent>) -> Vec<FinishAction> {
    let (mut flow, first) = FinishFlow::begin(p);
    let mut actions = vec![first];
    for event in events {
        let (next, action) = flow.step(event);
        flow = next;
        actions.push(action);
    }
    actions
}

fn run_direct(events: Vec<DirectEvent>) -> Vec<DirectAction> {
    let mut flow = DirectFlow::new();
    let mut actions = Vec::new();
    for event in events {
        let (next, action) = flow.step(event);
        flow = next;
        actions.push(action);
    }
    actions
}

fn run_chunk(events: Vec<ChunkEvent>) -> Vec<ChunkAction> {
    let mut flow = ChunkFlow::new();
    let mut actions = Vec::new();
    for event in events {
        let (next, action) = flow.step(event);
        flow = next;
        actions.push(action);
    }
    actions
}

#[test]
fn chunk_parts_are_told_by_name() {
    assert_eq!(chunk_field("uploadId"), ChunkField::UploadId);
    assert_eq!(chunk_field("index"), ChunkField::Index);
    assert_eq!(chunk_field("chunk"), ChunkField::Chunk);
    assert_eq!(chunk_field("upload_id"), ChunkField::Other);
    assert_eq!(chunk_field("Index"), ChunkField::Other);
    assert_eq!(chunk_field(""), ChunkField::Other);
}

#[test]
fn a_chunk_after_both_fields_is_stored() {
    let actions = run_chunk(vec![
        ChunkEvent::UploadId("session-a".to_string()),
        ChunkEvent::Index(12),
        ChunkEvent::ChunkPart,
        ChunkEvent::BodyEnd,
    ]);
    assert_eq!(
        actions,
        vec![
            ChunkAction::Continue,
            ChunkAction::Continue,
            ChunkAction::Store(ChunkTarget {
                session: "session-a".to_string(),
                index: 12,
                file_name: "chunk_12".to_string(),
            }),
            ChunkAction::Respond(ApiReply::ChunkReceived),
        ]
    );
}

#[test]
fn the_fields_may_come_in_either_order() {
    let actions = run_chunk(vec![
        ChunkEvent::Index(0),
        ChunkEvent::UploadId("s".to_string()),
        ChunkEvent::ChunkPart,
    ]);
    assert_eq!(
        actions[2],
        ChunkAction::Store(ChunkTarget {
            session: "s".to_string(),
            index: 0,
            file_name: "chunk_0".to_string(),
        })
    );
}

#[test]
fn a_chunk_before_the_fields_is_a_client_error() {
    let actions = run_chunk(vec![ChunkEvent::ChunkPart]);
    assert_eq!(actions, vec![ChunkAction::Respond(ApiReply::MissingChunkFields)]);
}

#[test]
fn a_chunk_without_index_is_a_client_error() {
    let actions = run_chunk(vec![ChunkEvent::UploadId("session-a".to_string()), ChunkEvent::ChunkPart]);
    assert_eq!(actions[1], ChunkAction::Respond(ApiReply::MissingChunkFields));
}

#[test]
fn a_chunk_without_identifier_is_a_client_error() {
    let actions = run_chunk(vec![ChunkEvent::Index(3), ChunkEvent::ChunkPart]);
    assert_eq!(actions[1], ChunkAction::Respond(ApiReply::MissingChunkFields));
}

#[test]
fn an_empty_identifier_counts_as_missing() {
    let actions = run_chunk(vec![
        ChunkEvent::UploadId(String::new()),
        ChunkEvent::Index(3),
        ChunkEvent::ChunkPart,
    ]);
    assert_eq!(actions[2], ChunkAction::Respond(ApiReply::MissingChunkFields));
}

#[test]
fn fields_after_the_chunk_come_too_late() {
    let actions = run_chunk(vec![
        ChunkEvent::ChunkPart,
        ChunkEvent::UploadId("session-a".to_string()),
        ChunkEvent::Index(1),
        ChunkEvent::BodyEnd,
    ]);
    assert_eq!(
        actions,
        vec![
            ChunkAction::Respond(ApiReply::MissingChunkFields),
            ChunkAction::Finished,
            ChunkAction::Finished,
            ChunkAction::Finished,
        ]
    );
}

#[test]
fn a_body_without_chunk_is_acknowledged() {
    assert_eq!(run_chunk(vec![ChunkEvent::BodyEnd]), vec![ChunkAction::Respond(ApiReply::ChunkReceived)]);
}

#[test]
fn several_chunk_parts_are_each_stored() {
    let actions = run_chunk(vec![
        ChunkEvent::UploadId("a".to_string()),
        ChunkEvent::Index(1),
        ChunkEvent::ChunkPart,
        ChunkEvent::Index(2),
        ChunkEvent::UploadId("b".to_string()),
        ChunkEvent::ChunkPart,
        ChunkEvent::ChunkPart,
        ChunkEvent::BodyEnd,
    ]);
    let first = ChunkAction::Store(ChunkTarget {
        session: "a".to_string(),
        index: 1,
        file_name: "chunk_1".to_string(),
    });
    let second = ChunkAction::Store(ChunkTarget {
        session: "b".to_string(),
        index: 2,
        file_name: "chunk_2".to_string(),
    });
    assert_eq!(actions[2], first);
    assert_eq!(actions[5], second);
    assert_eq!(actions[6], second);
    assert_eq!(actions[7], ChunkAction::Respond(ApiReply::ChunkReceived));
}

#[test]
fn the_artifact_is_named_from_identifier_and_file_name() {
    assert_eq!(artifact_file_name("session-a", "cat.png"), "session-a-cat.png");
    assert_eq!(artifact_file_name("", "x"), "-x");
    assert_eq!(artifact_file_name("a-b", ""), "a-b-");
}

#[test]
fn the_retention_window_defaults_to_one_hour() {
    assert_eq!(retention(&None), "1h");
    assert_eq!(retention(&Some("72h".to_string())), "72h");
    assert_eq!(retention(&Some(String::new())), "");
}

#[test]
fn a_finish_request_begins_by_locating_the_session() {
    let (_, action) = FinishFlow::begin(params("pomf", None, None));
    assert_eq!(action, FinishAction::Locate { session: "session-a".to_string() });
}

#[test]
fn finish_puts_together_sends_cleans_up_and_answers() {
    let actions = run_finish(
        params("catbox", Some("hash"), None),
        vec![
            FinishEvent::Listed(names(&["chunk_10", "chunk_2", "junk", "chunk_0"])),
            FinishEvent::Assembled,
            FinishEvent::Exchanged(answered(200, "https://files.catbox.moe/a.png")),
            FinishEvent::Cleaned,
        ],
    );
    assert_eq!(
        actions,
        vec![
            FinishAction::Locate { session: "session-a".to_string() },
            FinishAction::Assemble {
                session: "session-a".to_string(),
                sources: names(&["chunk_0", "chunk_2", "chunk_10"]),
                artifact: "session-a-cat.png".to_string(),
            },
            FinishAction::Forward {
                request: UploadRequest {
                    endpoint: "https://catbox.moe/user/api.php".to_string(),
                    parts: vec![
                        text("reqtype", "fileupload"),
                        file("fileToUpload"),
                        text("userhash", "hash"),
                    ],
                },
                artifact: "session-a-cat.png".to_string(),
            },
            cleanup(),
            FinishAction::Respond(ApiReply::Url("https://files.catbox.moe/a.png".to_string())),
        ]
    );
}

#[test]
fn finish_sends_litterbox_one_hour_unless_told_otherwise() {
    let actions = run_finish(
        params("litterbox", None, None),
        vec![FinishEvent::Listed(names(&["chunk_0"])), FinishEvent::Assembled],
    );
    match &actions[2] {
        FinishAction::Forward { request, .. } => assert_eq!(request.parts[2], text("time", "1h")),
        other => panic!("unexpected action {:?}", other),
    }
    let actions = run_finish(
        params("litterbox", None, Some("12h")),
        vec![FinishEvent::Listed(names(&["chunk_0"])), FinishEvent::Assembled],
    );
    match &actions[2] {
        FinishAction::Forward { request, .. } => assert_eq!(request.parts[2], text("time", "12h")),
        other => panic!("unexpected action {:?}", other),
    }
}

#[test]
fn finish_without_session_storage_finds_no_chunks_and_sends_nothing() {
    let actions = run_finish(
        params("pomf", None, None),
        vec![FinishEvent::SessionMissing, FinishEvent::Assembled, FinishEvent::Cleaned],
    );
    assert_eq!(
        actions,
        vec![
            FinishAction::Locate { session: "session-a".to_string() },
            FinishAction::Respond(ApiReply::NoChunksFound),
            FinishAction::Finished,
            FinishAction::Finished,
        ]
    );
}

#[test]
fn finish_with_storage_but_no_chunk_finds_no_chunks_and_sends_nothing() {
    for listing in [names(&[]), names(&["notes.txt", "chunk_x", "chunk_01"])] {
        let actions = run_finish(
            params("pomf", None, None),
            vec![FinishEvent::Listed(listing), FinishEvent::Cleaned],
        );
        assert_eq!(
            actions,
            vec![
                FinishAction::Locate { session: "session-a".to_string() },
                cleanup(),
                FinishAction::Respond(ApiReply::NoChunksFound),
            ]
        );
    }
}

#[test]
fn finish_cleans_up_after_a_failed_forward() {
    let actions = run_finish(
        params("pomf", None, None),
        vec![
            FinishEvent::Listed(names(&["chunk_0"])),
            FinishEvent::Assembled,
            FinishEvent::Exchanged(answered(200, "{\"success\": false}")),
            FinishEvent::Cleaned,
        ],
    );
    assert_eq!(actions[3], cleanup());
    assert_eq!(
        actions[4],
        FinishAction::Respond(ApiReply::UploadFailed("Pomf upload failed".to_string()))
    );
}

#[test]
fn finish_cleans_up_after_no_answer() {
    let actions = run_finish(
        params("litterbox", None, None),
        vec![
            FinishEvent::Listed(names(&["chunk_0"])),
            FinishEvent::Assembled,
            FinishEvent::Exchanged(Exchange::Failed { detail: "connection refused".to_string() }),
            FinishEvent::Cleaned,
        ],
    );
    assert_eq!(actions[3], cleanup());
    assert_eq!(
        actions[4],
        FinishAction::Respond(ApiReply::UploadFailed("connection refused".to_string()))
    );
}

#[test]
fn finish_cleans_up_after_a_storage_failure() {
    let at_listing = run_finish(
        params("pomf", None, None),
        vec![FinishEvent::StorageFailed("permission denied".to_string()), FinishEvent::Cleaned],
    );
    assert_eq!(at_listing[1], cleanup());
    assert_eq!(
        at_listing[2],
        FinishAction::Respond(ApiReply::UploadFailed("permission denied".to_string()))
    );
    let at_assembly = run_finish(
        params("pomf", None, None),
        vec![
            FinishEvent::Listed(names(&["chunk_0"])),
            FinishEvent::StorageFailed("disk full".to_string()),
            FinishEvent::Cleaned,
        ],
    );
    assert_eq!(at_assembly[2], cleanup());
    assert_eq!(
        at_assembly[3],
        FinishAction::Respond(ApiReply::UploadFailed("disk full".to_string()))
    );
    let at_forward = run_finish(
        params("pomf", None, None),
        vec![
            FinishEvent::Listed(names(&["chunk_0"])),
            FinishEvent::Assembled,
            FinishEvent::StorageFailed("artifact vanished".to_string()),
            FinishEvent::Cleaned,
        ],
    );
    assert_eq!(at_forward[3], cleanup());
    assert_eq!(
        at_forward[4],
        FinishAction::Respond(ApiReply::UploadFailed("artifact vanished".to_string()))
    );
}

#[test]
fn finish_told_of_what_it_does_not_wait_for_ends_as_a_failure() {
    let actions = run_finish(
        params("pomf", None, None),
        vec![FinishEvent::Assembled, FinishEvent::Cleaned],
    );
    assert_eq!(actions[1], cleanup());
    assert_eq!(
        actions[2],
        FinishAction::Respond(ApiReply::UploadFailed("request handled out of order".to_string()))
    );
    let actions = run_finish(
        params("pomf", None, None),
        vec![FinishEvent::Listed(names(&["chunk_0"])), FinishEvent::Cleaned, FinishEvent::Cleaned],
    );
    assert_eq!(actions[2], cleanup());
    assert_eq!(
        actions[3],
        FinishAction::Respond(ApiReply::UploadFailed("request handled out of order".to_string()))
    );
}

#[test]
fn finish_does_not_answer_until_cleanup_is_over() {
    let actions = run_finish(
        params("catbox", None, None),
        vec![
            FinishEvent::Listed(names(&["chunk_0"])),
            FinishEvent::Assembled,
            FinishEvent::Exchanged(answered(200, "u")),
            FinishEvent::Assembled,
            FinishEvent::SessionMissing,
            FinishEvent::Cleaned,
            FinishEvent::Cleaned,
        ],
    );
    assert_eq!(actions[3], cleanup());
    assert_eq!(actions[4], cleanup());
    assert_eq!(actions[5], cleanup());
    assert_eq!(actions[6], FinishAction::Respond(ApiReply::Url("u".to_string())));
    assert_eq!(actions[7], FinishAction::Finished);
}

#[test]
fn finish_answers_by_the_outcome_of_the_forward() {
    assert_eq!(finish_answer(Ok("u".to_string())), ApiReply::Url("u".to_string()));
    assert_eq!(
        finish_answer(Err(ForwardError::PomfUploadFailed)),
        ApiReply::UploadFailed("Pomf upload failed".to_string())
    );
    assert_eq!(
        finish_answer(Err(ForwardError::Failed("d".to_string()))),
        ApiReply::UploadFailed("d".to_string())
    );
}

#[test]
fn direct_parts_are_told_by_name() {
    assert_eq!(direct_field("destination"), DirectField::Destination);
    assert_eq!(direct_field("time"), DirectField::Time);
    assert_eq!(direct_field("userhash"), DirectField::Userhash);
    assert_eq!(direct_field("file"), DirectField::File);
    assert_eq!(direct_field("files"), DirectField::Other);
    assert_eq!(direct_field(""), DirectField::Other);
}

#[test]
fn direct_sends_the_file_cleans_up_and_answers() {
    let actions = run_direct(vec![
        DirectEvent::Destination("litterbox".to_string()),
        DirectEvent::Time("24h".to_string()),
        DirectEvent::FilePart { declared_name: Some("cat.png".to_string()) },
        DirectEvent::BodyEnd,
        DirectEvent::Exchanged(answered(200, "https://litter.box/abc.png")),
        DirectEvent::Cleaned,
    ]);
    assert_eq!(
        actions,
        vec![
            DirectAction::Continue,
            DirectAction::Continue,
            DirectAction::StoreFile,
            DirectAction::Forward {
                request: UploadRequest {
                    endpoint: "https://litterbox.catbox.moe/resources/internals/api.php".to_string(),
                    parts: vec![
                        text("reqtype", "fileupload"),
                        file("fileToUpload"),
                        text("time", "24h"),
                    ],
                },
                original_name: "cat.png".to_string(),
            },
            DirectAction::CleanUp,
            DirectAction::Respond(ApiReply::Url("https://litter.box/abc.png".to_string())),
        ]
    );
}

#[test]
fn direct_without_destination_is_a_client_error_and_sends_nothing() {
    let actions = run_direct(vec![
        DirectEvent::Userhash("h".to_string()),
        DirectEvent::FilePart { declared_name: None },
        DirectEvent::BodyEnd,
        DirectEvent::Cleaned,
        DirectEvent::BodyEnd,
    ]);
    assert_eq!(
        actions,
        vec![
            DirectAction::Continue,
            DirectAction::StoreFile,
            DirectAction::CleanUp,
            DirectAction::Respond(ApiReply::MissingDestination),
            DirectAction::Finished,
        ]
    );
}

#[test]
fn direct_with_an_empty_destination_is_a_client_error() {
    let actions = run_direct(vec![
        DirectEvent::Destination("pomf".to_string()),
        DirectEvent::Destination(String::new()),
        DirectEvent::BodyEnd,
        DirectEvent::Cleaned,
    ]);
    assert_eq!(actions[2], DirectAction::CleanUp);
    assert_eq!(actions[3], DirectAction::Respond(ApiReply::MissingDestination));
}

#[test]
fn direct_calls_the_file_upload_dat_unless_it_declares_a_name() {
    let actions = run_direct(vec![
        DirectEvent::Destination("pomf".to_string()),
        DirectEvent::FilePart { declared_name: None },
        DirectEvent::BodyEnd,
    ]);
    assert_eq!(
        actions[2],
        DirectAction::Forward {
            request: UploadRequest {
                endpoint: "https://pomf.lain.la/upload.php".to_string(),
                parts: vec![file("files[]")],
            },
            original_name: "upload.dat".to_string(),
        }
    );
}

#[test]
fn direct_sends_even_without_a_file_part() {
    let actions = run_direct(vec![DirectEvent::Destination("catbox".to_string()), DirectEvent::BodyEnd]);
    assert_eq!(
        actions[1],
        DirectAction::Forward {
            request: UploadRequest {
                endpoint: "https://catbox.moe/user/api.php".to_string(),
                parts: vec![text("reqtype", "fileupload"), file("fileToUpload")],
            },
            original_name: "upload.dat".to_string(),
        }
    );
}

#[test]
fn direct_takes_fields_in_any_order_and_keeps_the_last() {
    let actions = run_direct(vec![
        DirectEvent::FilePart { declared_name: Some("a.bin".to_string()) },
        DirectEvent::Userhash("one".to_string()),
        DirectEvent::Destination("litterbox".to_string()),
        DirectEvent::Userhash("two".to_string()),
        DirectEvent::FilePart { declared_name: None },
        DirectEvent::Destination("catbox".to_string()),
        DirectEvent::BodyEnd,
    ]);
    assert_eq!(
        actions[6],
        DirectAction::Forward {
            request: UploadRequest {
                endpoint: "https://catbox.moe/user/api.php".to_string(),
                parts: vec![
                    text("reqtype", "fileupload"),
                    file("fileToUpload"),
                    text("userhash", "two"),
                ],
            },
            original_name: "a.bin".to_string(),
        }
    );
}

#[test]
fn direct_to_an_unrecognized_destination_goes_to_litterbox() {
    let actions = run_direct(vec![
        DirectEvent::Destination("dropbox".to_string()),
        DirectEvent::Time("72h".to_string()),
        DirectEvent::BodyEnd,
        DirectEvent::Exchanged(answered(200, "https://litter.box/z")),
        DirectEvent::Cleaned,
    ]);
    assert_eq!(
        actions[2],
        DirectAction::Forward {
            request: UploadRequest {
                endpoint: "https://litterbox.catbox.moe/resources/internals/api.php".to_string(),
                parts: vec![text("reqtype", "fileupload"), file("fileToUpload")],
            },
            original_name: "upload.dat".to_string(),
        }
    );
    assert_eq!(actions[4], DirectAction::Respond(ApiReply::Url("https://litter.box/z".to_string())));
}

#[test]
fn direct_cleans_up_after_a_failed_forward() {
    let actions = run_direct(vec![
        DirectEvent::Destination("pomf".to_string()),
        DirectEvent::BodyEnd,
        DirectEvent::Exchanged(answered(200, "{\"success\": false}")),
        DirectEvent::Cleaned,
    ]);
    assert_eq!(actions[2], DirectAction::CleanUp);
    assert_eq!(
        actions[3],
        DirectAction::Respond(ApiReply::DirectUploadFailed("Pomf upload failed".to_string()))
    );
}

#[test]
fn direct_cleans_up_after_a_storage_failure() {
    let actions = run_direct(vec![
        DirectEvent::Destination("pomf".to_string()),
        DirectEvent::FilePart { declared_name: None },
        DirectEvent::StorageFailed("disk full".to_string()),
        DirectEvent::Cleaned,
    ]);
    assert_eq!(actions[2], DirectAction::CleanUp);
    assert_eq!(
        actions[3],
        DirectAction::Respond(ApiReply::DirectUploadFailed("disk full".to_string()))
    );
}

#[test]
fn direct_told_of_what_it_does_not_wait_for_ends_as_a_failure() {
    let actions = run_direct(vec![
        DirectEvent::Destination("pomf".to_string()),
        DirectEvent::Exchanged(answered(200, "u")),
        DirectEvent::Cleaned,
    ]);
    assert_eq!(actions[1], DirectAction::CleanUp);
    assert_eq!(
        actions[2],
        DirectAction::Respond(ApiReply::DirectUploadFailed(
            "request handled out of order".to_string()
        ))
    );
}

#[test]
fn direct_answers_by_the_outcome_of_the_forward() {
    assert_eq!(direct_answer(Ok("u".to_string())), ApiReply::Url("u".to_string()));
    assert_eq!(
        direct_answer(Err(ForwardError::PomfUploadFailed)),
        ApiReply::DirectUploadFailed("Pomf upload failed".to_string())
    );
    assert_eq!(
        direct_answer(Err(ForwardError::Failed("d".to_string()))),
        ApiReply::DirectUploadFailed("d".to_string())
    );
}
