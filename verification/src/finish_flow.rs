//! Finishing a chunked upload: the session's chunks are put together, the
//! artifact goes to the backend, and whatever the outcome the session's storage
//! and the artifact are removed before the caller is answered.

use vstd::prelude::*;
use vstd::string::StringExecFns;
use crate::assembly::{assembled, Chunks};
use crate::chunks::{
    chunk_file_names,
    chunk_names,
    chunk_order,
    lemma_chunk_order_exists,
    lemma_listing_assembles,
    list_chunks,
    lists_chunk,
    read_in,
    stores,
    Files,
};
use crate::destination::{selected, Destination};
use crate::forward::{
    forward_result,
    forward_view,
    interpret,
    plan_upload,
    planned,
    retention,
    retention_of,
    Exchange,
    ExchangeModel,
    ForwardError,
    ForwardModel,
    RequestModel,
    UploadRequest,
};
use crate::reply::{out_of_order, ApiReply, ReplyModel};
use crate::text::{borrowed, optional_string_text, texts};

verus! {

/// What a finish request asks for, as a value.
pub struct FinishParamsModel {
    pub upload_id: Seq<char>,
    pub filename: Seq<char>,
    pub destination: Seq<char>,
    pub userhash: Option<Seq<char>>,
    pub time: Option<Seq<char>>,
}

/// What a finish request asks for.
#[derive(Debug, PartialEq, Eq)]
pub struct FinishParams {
    pub upload_id: String,
    pub filename: String,
    pub destination: String,
    pub userhash: Option<String>,
    pub time: Option<String>,
}

impl View for FinishParams {
    type V = FinishParamsModel;

    open spec fn view(&self) -> FinishParamsModel {
        FinishParamsModel {
            upload_id: self.upload_id@,
            filename: self.filename@,
            destination: self.destination@,
            userhash: optional_string_text(self.userhash),
            time: optional_string_text(self.time),
        }
    }
}

/// The name of the file in which a session is put together: the session's
/// identifier, a hyphen, and the name of the uploaded file.
pub open spec fn artifact_name(upload_id: Seq<char>, filename: Seq<char>) -> Seq<char> {
    upload_id + "-"@ + filename
}

/// The answer to a finish request by the outcome of the forward.
pub open spec fn finish_reply(outcome: ForwardModel) -> ReplyModel {
    match outcome {
        Ok(url) => ReplyModel::Url(url),
        Err(e) => ReplyModel::UploadFailed(e.detail()),
    }
}

/// The name of the file in which a session is put together.
pub fn artifact_file_name(upload_id: &str, filename: &str) -> (r: String)
    ensures
        r@ == artifact_name(upload_id@, filename@),
{
    let mut out = String::from_str(upload_id);
    out.append("-");
    out.append(filename);
    out
}

/// How far a finish request has come, as a value.
pub enum FinishStateModel {
    Locating,
    Assembling,
    Forwarding,
    Cleaning(ReplyModel),
    Done,
}

/// How far a finish request has come.
pub enum FinishState {
    /// The session's storage is being looked up.
    Locating,
    /// The chunks are being put together.
    Assembling,
    /// The artifact is on its way to the backend.
    Forwarding,
    /// The session's storage and the artifact are being removed. Holds the
    /// answer that the caller gets once they are gone.
    Cleaning(ApiReply),
    /// The caller has been answered.
    Done,
}

impl View for FinishState {
    type V = FinishStateModel;

    open spec fn view(&self) -> FinishStateModel {
        match self {
            FinishState::Locating => FinishStateModel::Locating,
            FinishState::Assembling => FinishStateModel::Assembling,
            FinishState::Forwarding => FinishStateModel::Forwarding,
            FinishState::Cleaning(reply) => FinishStateModel::Cleaning(reply@),
            FinishState::Done => FinishStateModel::Done,
        }
    }
}

/// What a finish request is told of, as a value.
pub enum FinishEventModel {
    SessionMissing,
    Listed(Seq<Seq<char>>),
    Assembled,
    StorageFailed(Seq<char>),
    Exchanged(ExchangeModel),
    Cleaned,
}

/// What a finish request is told of.
#[derive(Debug, PartialEq, Eq)]
pub enum FinishEvent {
    /// No storage exists for the session.
    SessionMissing,
    /// The session's storage holds files of these names, in no particular order.
    Listed(Vec<String>),
    /// The chunks have been put together, and the artifact is on disk.
    Assembled,
    /// Reading or writing storage failed. Holds the detail.
    StorageFailed(String),
    /// The upload was sent, with this outcome.
    Exchanged(Exchange),
    /// The session's storage and the artifact are gone, or could not be removed.
    Cleaned,
}

impl View for FinishEvent {
    type V = FinishEventModel;

    open spec fn view(&self) -> FinishEventModel {
        match self {
            FinishEvent::SessionMissing => FinishEventModel::SessionMissing,
            FinishEvent::Listed(names) => FinishEventModel::Listed(texts(names@)),
            FinishEvent::Assembled => FinishEventModel::Assembled,
            FinishEvent::StorageFailed(detail) => FinishEventModel::StorageFailed(detail@),
            FinishEvent::Exchanged(exchange) => FinishEventModel::Exchanged(exchange@),
            FinishEvent::Cleaned => FinishEventModel::Cleaned,
        }
    }
}

/// What is to be done next for a finish request, as a value.
pub enum FinishActionModel {
    Locate { session: Seq<char> },
    Assemble { session: Seq<char>, sources: Seq<Seq<char>>, artifact: Seq<char> },
    Forward { request: RequestModel, artifact: Seq<char> },
    CleanUp { session: Seq<char>, artifact: Seq<char> },
    Respond(ReplyModel),
    Finished,
}

/// What is to be done next for a finish request. Sessions are named by their
/// storage directory, chunks and artifacts by their file.
#[derive(Debug, PartialEq, Eq)]
pub enum FinishAction {
    /// Look up the session's storage and list the files in it.
    Locate { session: String },
    /// Create the artifact and append to it the session's files `sources`, whole
    /// and in this order; then flush it.
    Assemble { session: String, sources: Vec<String>, artifact: String },
    /// Send the artifact to the backend with this request.
    Forward { request: UploadRequest, artifact: String },
    /// Remove the session's storage and the artifact, passing over what fails.
    CleanUp { session: String, artifact: String },
    /// Answer the caller; the request is over.
    Respond(ApiReply),
    /// Nothing: the request has been answered.
    Finished,
}

impl View for FinishAction {
    type V = FinishActionModel;

    open spec fn view(&self) -> FinishActionModel {
        match self {
            FinishAction::Locate { session } => FinishActionModel::Locate { session: session@ },
            FinishAction::Assemble { session, sources, artifact } => FinishActionModel::Assemble {
                session: session@,
                sources: texts(sources@),
                artifact: artifact@,
            },
            FinishAction::Forward { request, artifact } => FinishActionModel::Forward {
                request: request@,
                artifact: artifact@,
            },
            FinishAction::CleanUp { session, artifact } => FinishActionModel::CleanUp {
                session: session@,
                artifact: artifact@,
            },
            FinishAction::Respond(reply) => FinishActionModel::Respond(reply@),
            FinishAction::Finished => FinishActionModel::Finished,
        }
    }
}

/// A finish request under way, as a value.
pub struct FinishFlowModel {
    pub params: FinishParamsModel,
    pub state: FinishStateModel,
}

/// A finish request under way.
pub struct FinishFlow {
    params: FinishParams,
    state: FinishState,
}

impl View for FinishFlow {
    type V = FinishFlowModel;

    closed spec fn view(&self) -> FinishFlowModel {
        FinishFlowModel { params: self.params@, state: self.state@ }
    }
}

/// A finish request of which nothing has been done yet.
pub open spec fn finish_start(params: FinishParamsModel) -> FinishFlowModel {
    FinishFlowModel { params, state: FinishStateModel::Locating }
}

/// The removal of everything that a finish request has on disk.
pub open spec fn finish_cleanup(params: FinishParamsModel) -> FinishActionModel {
    FinishActionModel::CleanUp {
        session: params.upload_id,
        artifact: artifact_name(params.upload_id, params.filename),
    }
}

/// The request turns to removing what it has on disk, and will answer `reply`.
pub open spec fn finish_ending(flow: FinishFlowModel, reply: ReplyModel) -> (
    FinishFlowModel,
    FinishActionModel,
) {
    (
        FinishFlowModel { state: FinishStateModel::Cleaning(reply), ..flow },
        finish_cleanup(flow.params),
    )
}

/// The upload that hands the artifact of a finish request to its backend.
pub open spec fn finish_upload(params: FinishParamsModel) -> RequestModel {
    planned(selected(params.destination), params.userhash, retention_of(params.time))
}

/// One step of a finish request.
///
/// A session without storage is answered at once: no chunks. A session whose
/// storage names no chunk ends the same way, once the storage is removed.
/// Otherwise the chunks are put together by ascending index, the artifact is
/// sent, and the outcome decides the answer. A storage failure ends the request
/// with its detail, and so does an event that the request was not waiting for.
/// Every ending removes the session's storage and the artifact first.
pub open spec fn finish_step(flow: FinishFlowModel, event: FinishEventModel) -> (
    FinishFlowModel,
    FinishActionModel,
) {
    let params = flow.params;
    let artifact = artifact_name(params.upload_id, params.filename);
    match flow.state {
        FinishStateModel::Done => (flow, FinishActionModel::Finished),
        FinishStateModel::Cleaning(reply) => match event {
            FinishEventModel::Cleaned => (
                FinishFlowModel { state: FinishStateModel::Done, ..flow },
                FinishActionModel::Respond(reply),
            ),
            _ => (flow, finish_cleanup(params)),
        },
        FinishStateModel::Locating => match event {
            FinishEventModel::SessionMissing => (
                FinishFlowModel { state: FinishStateModel::Done, ..flow },
                FinishActionModel::Respond(ReplyModel::NoChunksFound),
            ),
            FinishEventModel::Listed(names) => if chunk_order(names).len() == 0 {
                finish_ending(flow, ReplyModel::NoChunksFound)
            } else {
                (
                    FinishFlowModel { state: FinishStateModel::Assembling, ..flow },
                    FinishActionModel::Assemble {
                        session: params.upload_id,
                        sources: chunk_names(chunk_order(names)),
                        artifact,
                    },
                )
            },
            FinishEventModel::StorageFailed(detail) => finish_ending(
                flow,
                ReplyModel::UploadFailed(detail),
            ),
            _ => finish_ending(flow, ReplyModel::UploadFailed(out_of_order())),
        },
        FinishStateModel::Assembling => match event {
            FinishEventModel::Assembled => (
                FinishFlowModel { state: FinishStateModel::Forwarding, ..flow },
                FinishActionModel::Forward { request: finish_upload(params), artifact },
            ),
            FinishEventModel::StorageFailed(detail) => finish_ending(
                flow,
                ReplyModel::UploadFailed(detail),
            ),
            _ => finish_ending(flow, ReplyModel::UploadFailed(out_of_order())),
        },
        FinishStateModel::Forwarding => match event {
            FinishEventModel::Exchanged(exchange) => finish_ending(
                flow,
                finish_reply(forward_result(selected(params.destination), exchange)),
            ),
            FinishEventModel::StorageFailed(detail) => finish_ending(
                flow,
                ReplyModel::UploadFailed(detail),
            ),
            _ => finish_ending(flow, ReplyModel::UploadFailed(out_of_order())),
        },
    }
}

/// Where a finish request stands after a run of events.
pub open spec fn finish_run(params: FinishParamsModel, events: Seq<FinishEventModel>) -> FinishFlowModel
    decreases events.len(),
{
    if events.len() == 0 {
        finish_start(params)
    } else {
        finish_step(finish_run(params, events.drop_last()), events.last()).0
    }
}

/// What is done for the event at position `n` of a run.
pub open spec fn finish_action_at(
    params: FinishParamsModel,
    events: Seq<FinishEventModel>,
    n: int,
) -> FinishActionModel
    recommends
        0 <= n < events.len(),
{
    finish_step(finish_run(params, events.take(n)), events[n]).1
}

/// Whether a listing names a chunk.
pub open spec fn names_a_chunk(event: FinishEventModel) -> bool {
    event matches FinishEventModel::Listed(names) && chunk_order(names).len() > 0
}

/// A run keeps what was asked for; once it has begun it is past the lookup;
/// and it is removing files only where its last step said to remove them.
proof fn lemma_finish_run_facts(params: FinishParamsModel, events: Seq<FinishEventModel>)
    ensures
        finish_run(params, events).params == params,
        events.len() > 0 ==> !(finish_run(params, events).state is Locating),
        finish_run(params, events).state is Cleaning ==> events.len() > 0 && finish_action_at(
            params,
            events,
            events.len() - 1,
        ) == finish_cleanup(params),
    decreases events.len(),
{
    if events.len() > 0 {
        lemma_finish_run_facts(params, events.drop_last());
        assert(events.take(events.len() - 1) =~= events.drop_last());
    }
}

/// The caller is answered only once nothing of the request is left on disk:
/// an answer either follows the removal of the session's storage and of the
/// artifact, or it is the first thing done, for a session that has no storage,
/// when nothing has been written.
pub proof fn lemma_finish_answers_after_cleanup(
    params: FinishParamsModel,
    events: Seq<FinishEventModel>,
    n: int,
)
    requires
        0 <= n < events.len(),
        finish_action_at(params, events, n) is Respond,
    ensures
        n == 0 ==> events[0] is SessionMissing,
        n > 0 ==> events[n] is Cleaned && finish_action_at(params, events, n - 1)
            == finish_cleanup(params),
{
    let seen = events.take(n);
    lemma_finish_run_facts(params, seen);
    if n > 0 {
        assert(seen.take(n - 1) =~= events.take(n - 1));
        assert(seen[n - 1] == events[n - 1]);
    }
}

/// A request for a session without chunks is answered that no chunks were
/// found, and nothing is put together or sent for it.
pub proof fn lemma_finish_without_chunks(
    params: FinishParamsModel,
    events: Seq<FinishEventModel>,
    n: int,
)
    requires
        0 <= n < events.len(),
        events[0] is SessionMissing || (events[0] is Listed && !names_a_chunk(events[0])),
    ensures
        !(finish_action_at(params, events, n) is Forward),
        !(finish_action_at(params, events, n) is Assemble),
        finish_action_at(params, events, n) matches FinishActionModel::Respond(reply) ==> reply
            == ReplyModel::NoChunksFound,
{
    lemma_finish_without_chunks_state(params, events, n);
}

/// Once a request has found no chunks it is answering just that.
proof fn lemma_finish_without_chunks_state(
    params: FinishParamsModel,
    events: Seq<FinishEventModel>,
    n: int,
)
    requires
        0 <= n <= events.len(),
        events.len() > 0,
        events[0] is SessionMissing || (events[0] is Listed && !names_a_chunk(events[0])),
    ensures
        n > 0 ==> finish_run(params, events.take(n)).state is Done || finish_run(
            params,
            events.take(n),
        ).state == FinishStateModel::Cleaning(ReplyModel::NoChunksFound),
        n == 0 ==> finish_run(params, events.take(n)) == finish_start(params),
    decreases n,
{
    if n > 0 {
        lemma_finish_without_chunks_state(params, events, n - 1);
        assert(events.take(n).drop_last() =~= events.take(n - 1));
        assert(events.take(n).last() == events[n - 1]);
    }
}

/// What a finish request has put together is the session assembled: where
/// the session's storage holds the chunks and its listing names them, the files
/// that the request has appended to the artifact, read in the order given,
/// are the payloads of the chunks by ascending index.
pub proof fn lemma_finish_assembles_the_session(
    params: FinishParamsModel,
    names: Seq<Seq<char>>,
    files: Files,
    chunks: Chunks,
    some: usize,
)
    requires
        forall|i: usize| lists_chunk(names, i) <==> chunks.dom().contains(i),
        stores(files, chunks),
        chunks.dom().contains(some),
    ensures
        finish_step(finish_start(params), FinishEventModel::Listed(names)).1 matches FinishActionModel::Assemble {
            session,
            sources,
            artifact,
        } && session == params.upload_id && artifact == artifact_name(
            params.upload_id,
            params.filename,
        ) && read_in(files, sources) == assembled(chunks),
{
    lemma_chunk_order_exists(names);
    let order = chunk_order(names);
    assert(order.contains(some));
    lemma_listing_assembles(names, order, files, chunks);
}

/// The forward of a finish request is never made before the chunks have been
/// put together, and it carries the upload that the request's destination
/// expects.
pub proof fn lemma_finish_forwards_after_assembly(
    params: FinishParamsModel,
    events: Seq<FinishEventModel>,
    n: int,
)
    requires
        0 <= n < events.len(),
        finish_action_at(params, events, n) is Forward,
    ensures
        events[n] is Assembled,
        finish_action_at(params, events, n) == (FinishActionModel::Forward {
            request: finish_upload(params),
            artifact: artifact_name(params.upload_id, params.filename),
        }),
{
    lemma_finish_run_facts(params, events.take(n));
}

impl FinishFlow {
    /// Begins a finish request: the session's storage is to be looked up.
    pub fn begin(params: FinishParams) -> (r: (FinishFlow, FinishAction))
        ensures
            r.0@ == finish_start(params@),
            r.1@ == (FinishActionModel::Locate { session: params.upload_id@ }),
    {
        let session = params.upload_id.clone();
        (FinishFlow { params, state: FinishState::Locating }, FinishAction::Locate { session })
    }

    fn cleanup(&self) -> (r: FinishAction)
        ensures
            r@ == finish_cleanup(self@.params),
    {
        FinishAction::CleanUp {
            session: self.params.upload_id.clone(),
            artifact: artifact_file_name(
                self.params.upload_id.as_str(),
                self.params.filename.as_str(),
            ),
        }
    }

    fn ending(self, reply: ApiReply) -> (r: (FinishFlow, FinishAction))
        ensures
            (r.0@, r.1@) == finish_ending(self@, reply@),
    {
        let action = self.cleanup();
        (FinishFlow { params: self.params, state: FinishState::Cleaning(reply) }, action)
    }

    fn out_of_order(self) -> (r: (FinishFlow, FinishAction))
        ensures
            (r.0@, r.1@) == finish_ending(self@, ReplyModel::UploadFailed(out_of_order())),
    {
        self.ending(ApiReply::UploadFailed(String::from_str("request handled out of order")))
    }

    /// Takes what happened and tells what to do next.
    pub fn step(self, event: FinishEvent) -> (r: (FinishFlow, FinishAction))
        ensures
            (r.0@, r.1@) == finish_step(self@, event@),
    {
        let FinishFlow { params, state } = self;
        match state {
            FinishState::Done => (
                FinishFlow { params, state: FinishState::Done },
                FinishAction::Finished,
            ),
            FinishState::Cleaning(reply) => match event {
                FinishEvent::Cleaned => (
                    FinishFlow { params, state: FinishState::Done },
                    FinishAction::Respond(reply),
                ),
                _ => {
                    let flow = FinishFlow { params, state: FinishState::Cleaning(reply) };
                    let action = flow.cleanup();
                    (flow, action)
                },
            },
            FinishState::Locating => {
                let flow = FinishFlow { params, state: FinishState::Locating };
                match event {
                    FinishEvent::SessionMissing => (
                        FinishFlow { params: flow.params, state: FinishState::Done },
                        FinishAction::Respond(ApiReply::NoChunksFound),
                    ),
                    FinishEvent::Listed(names) => {
                        let order = list_chunks(&names);
                        if order.len() == 0 {
                            flow.ending(ApiReply::NoChunksFound)
                        } else {
                            let action = FinishAction::Assemble {
                                session: flow.params.upload_id.clone(),
                                sources: chunk_file_names(&order),
                                artifact: artifact_file_name(
                                    flow.params.upload_id.as_str(),
                                    flow.params.filename.as_str(),
                                ),
                            };
                            (
                                FinishFlow { params: flow.params, state: FinishState::Assembling },
                                action,
                            )
                        }
                    },
                    FinishEvent::StorageFailed(detail) => flow.ending(
                        ApiReply::UploadFailed(detail),
                    ),
                    _ => flow.out_of_order(),
                }
            },
            FinishState::Assembling => {
                let flow = FinishFlow { params, state: FinishState::Assembling };
                match event {
                    FinishEvent::Assembled => {
                        let destination = Destination::select(flow.params.destination.as_str());
                        let request = plan_upload(
                            destination,
                            borrowed(&flow.params.userhash),
                            retention(&flow.params.time),
                        );
                        let action = FinishAction::Forward {
                            request,
                            artifact: artifact_file_name(
                                flow.params.upload_id.as_str(),
                                flow.params.filename.as_str(),
                            ),
                        };
                        (
                            FinishFlow { params: flow.params, state: FinishState::Forwarding },
                            action,
                        )
                    },
                    FinishEvent::StorageFailed(detail) => flow.ending(
                        ApiReply::UploadFailed(detail),
                    ),
                    _ => flow.out_of_order(),
                }
            },
            FinishState::Forwarding => {
                let flow = FinishFlow { params, state: FinishState::Forwarding };
                match event {
                    FinishEvent::Exchanged(exchange) => {
                        let destination = Destination::select(flow.params.destination.as_str());
                        let reply = finish_answer(interpret(destination, exchange));
                        flow.ending(reply)
                    },
                    FinishEvent::StorageFailed(detail) => flow.ending(
                        ApiReply::UploadFailed(detail),
                    ),
                    _ => flow.out_of_order(),
                }
            },
        }
    }
}

/// The answer to a finish request by the outcome of the forward: the URL, or
/// the failure with its detail.
pub fn finish_answer(outcome: Result<String, ForwardError>) -> (r: ApiReply)
    ensures
        r@ == finish_reply(forward_view(outcome)),
{
    match outcome {
        Ok(url) => ApiReply::Url(url),
        Err(e) => ApiReply::UploadFailed(e.detail()),
    }
}

} // verus!
