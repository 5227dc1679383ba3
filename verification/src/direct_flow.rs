//! A direct upload: the fields of the request are taken one by one while the
//! file is written to a temporary file, the file goes to the backend, and
//! whatever the outcome the temporary file is removed before the caller is
//! answered.

use vstd::prelude::*;
use vstd::string::StringExecFns;
use crate::destination::{selected, Destination};
use crate::forward::{
    forward_result,
    forward_view,
    interpret,
    plan_upload,
    planned,
    retention,
    retention_of,
    Exchange,
    ExchangeModel,
    ForwardError,
    ForwardModel,
    RequestModel,
    UploadRequest,
};
use crate::reply::{out_of_order, ApiReply, ReplyModel};
use crate::text::{borrowed, optional_string_text, str_eq};

verus! {

/// What a part of a direct upload is, by its name.
#[derive(Clone, Copy, Debug, PartialEq, Eq, Structural)]
pub enum DirectField {
    /// The text field `destination`.
    Destination,
    /// The text field `time`.
    Time,
    /// The text field `userhash`.
    Userhash,
    /// The binary part `file`.
    File,
    /// A part that the request has no use for.
    Other,
}

/// What the part of a given name is.
pub open spec fn direct_field_of(name: Seq<char>) -> DirectField {
    if name == "destination"@ {
        DirectField::Destination
    } else if name == "time"@ {
        DirectField::Time
    } else if name == "userhash"@ {
        DirectField::Userhash
    } else if name == "file"@ {
        DirectField::File
    } else {
        DirectField::Other
    }
}

/// Tells what a part is by its name.
pub fn direct_field(name: &str) -> (r: DirectField)
    ensures
        r == direct_field_of(name@),
{
    if str_eq(name, "destination") {
        DirectField::Destination
    } else if str_eq(name, "time") {
        DirectField::Time
    } else if str_eq(name, "userhash") {
        DirectField::Userhash
    } else if str_eq(name, "file") {
        DirectField::File
    } else {
        DirectField::Other
    }
}

/// The answer to a direct upload by the outcome of the forward.
pub open spec fn direct_reply(outcome: ForwardModel) -> ReplyModel {
    match outcome {
        Ok(url) => ReplyModel::Url(url),
        Err(e) => ReplyModel::DirectUploadFailed(e.detail()),
    }
}

/// The answer to a direct upload by the outcome of the forward: the URL, or
/// the failure with its detail.
pub fn direct_answer(outcome: Result<String, ForwardError>) -> (r: ApiReply)
    ensures
        r@ == direct_reply(forward_view(outcome)),
{
    match outcome {
        Ok(url) => ApiReply::Url(url),
        Err(e) => ApiReply::DirectUploadFailed(e.detail()),
    }
}

/// How far a direct upload has come, as a value.
pub enum DirectStateModel {
    Collecting,
    Forwarding,
    Cleaning(ReplyModel),
    Done,
}

/// How far a direct upload has come.
pub enum DirectState {
    /// The parts of the request are being read.
    Collecting,
    /// The file is on its way to the backend.
    Forwarding,
    /// The temporary file is being removed. Holds the answer that the caller
    /// gets once it is gone.
    Cleaning(ApiReply),
    /// The caller has been answered.
    Done,
}

impl View for DirectState {
    type V = DirectStateModel;

    open spec fn view(&self) -> DirectStateModel {
        match self {
            DirectState::Collecting => DirectStateModel::Collecting,
            DirectState::Forwarding => DirectStateModel::Forwarding,
            DirectState::Cleaning(reply) => DirectStateModel::Cleaning(reply@),
            DirectState::Done => DirectStateModel::Done,
        }
    }
}

/// What a direct upload is told of, as a value.
pub enum DirectEventModel {
    Destination(Seq<char>),
    Time(Seq<char>),
    Userhash(Seq<char>),
    FilePart { declared_name: Option<Seq<char>> },
    BodyEnd,
    StorageFailed(Seq<char>),
    Exchanged(ExchangeModel),
    Cleaned,
}

/// What a direct upload is told of.
#[derive(Debug, PartialEq, Eq)]
pub enum DirectEvent {
    /// The text of the field `destination`.
    Destination(String),
    /// The text of the field `time`.
    Time(String),
    /// The text of the field `userhash`.
    Userhash(String),
    /// A part `file` begins, with the file name that it declares, if any.
    FilePart { declared_name: Option<String> },
    /// The request has no further part.
    BodyEnd,
    /// Writing the temporary file failed. Holds the detail.
    StorageFailed(String),
    /// The upload was sent, with this outcome.
    Exchanged(Exchange),
    /// The temporary file is gone, or could not be removed.
    Cleaned,
}

impl View for DirectEvent {
    type V = DirectEventModel;

    open spec fn view(&self) -> DirectEventModel {
        match self {
            DirectEvent::Destination(text) => DirectEventModel::Destination(text@),
            DirectEvent::Time(text) => DirectEventModel::Time(text@),
            DirectEvent::Userhash(text) => DirectEventModel::Userhash(text@),
            DirectEvent::FilePart { declared_name } => DirectEventModel::FilePart {
                declared_name: optional_string_text(*declared_name),
            },
            DirectEvent::BodyEnd => DirectEventModel::BodyEnd,
            DirectEvent::StorageFailed(detail) => DirectEventModel::StorageFailed(detail@),
            DirectEvent::Exchanged(exchange) => DirectEventModel::Exchanged(exchange@),
            DirectEvent::Cleaned => DirectEventModel::Cleaned,
        }
    }
}

/// What is to be done next for a direct upload, as a value.
pub enum DirectActionModel {
    Continue,
    StoreFile,
    Forward { request: RequestModel, original_name: Seq<char> },
    CleanUp,
    Respond(ReplyModel),
    Finished,
}

/// What is to be done next for a direct upload.
#[derive(Debug, PartialEq, Eq)]
pub enum DirectAction {
    /// Read the next part.
    Continue,
    /// Append the payload of the part at hand to the temporary file, then
    /// read the next part.
    StoreFile,
    /// Send the temporary file to the backend with this request.
    /// `original_name` is the name that the caller gave the file.
    Forward { request: UploadRequest, original_name: String },
    /// Remove the temporary file, passing over a failure.
    CleanUp,
    /// Answer the caller; the request is over.
    Respond(ApiReply),
    /// Nothing: the request has been answered.
    Finished,
}

impl View for DirectAction {
    type V = DirectActionModel;

    open spec fn view(&self) -> DirectActionModel {
        match self {
            DirectAction::Continue => DirectActionModel::Continue,
            DirectAction::StoreFile => DirectActionModel::StoreFile,
            DirectAction::Forward { request, original_name } => DirectActionModel::Forward {
                request: request@,
                original_name: original_name@,
            },
            DirectAction::CleanUp => DirectActionModel::CleanUp,
            DirectAction::Respond(reply) => DirectActionModel::Respond(reply@),
            DirectAction::Finished => DirectActionModel::Finished,
        }
    }
}

/// A direct upload under way, as a value.
pub struct DirectFlowModel {
    pub destination: Seq<char>,
    pub time: Option<Seq<char>>,
    pub userhash: Option<Seq<char>>,
    pub filename: Seq<char>,
    pub state: DirectStateModel,
}

/// A direct upload under way: the fields seen so far, and how far it has come.
pub struct DirectFlow {
    destination: String,
    time: Option<String>,
    userhash: Option<String>,
    filename: String,
    state: DirectState,
}

impl View for DirectFlow {
    type V = DirectFlowModel;

    closed spec fn view(&self) -> DirectFlowModel {
        DirectFlowModel {
            destination: self.destination@,
            time: optional_string_text(self.time),
            userhash: optional_string_text(self.userhash),
            filename: self.filename@,
            state: self.state@,
        }
    }
}

/// A direct upload of which nothing has been read: no destination, and a file
/// called `upload.dat`.
pub open spec fn direct_start() -> DirectFlowModel {
    DirectFlowModel {
        destination: Seq::empty(),
        time: None,
        userhash: None,
        filename: "upload.dat"@,
        state: DirectStateModel::Collecting,
    }
}

/// The request turns to removing its temporary file, and will answer `reply`.
pub open spec fn direct_ending(flow: DirectFlowModel, reply: ReplyModel) -> (
    DirectFlowModel,
    DirectActionModel,
) {
    (DirectFlowModel { state: DirectStateModel::Cleaning(reply), ..flow }, DirectActionModel::CleanUp)
}

/// The upload that hands the file of a direct upload to its backend.
pub open spec fn direct_upload(flow: DirectFlowModel) -> RequestModel {
    planned(selected(flow.destination), flow.userhash, retention_of(flow.time))
}

/// One step of a direct upload.
///
/// The text fields are kept, a later one in place of an earlier one; a file
/// part is written to the temporary file and gives the file its name where it
/// declares one. At the end of the body a request without a destination ends
/// as a client error; any other is sent, and the outcome decides the answer. A
/// storage failure ends the request with its detail, and so does an event that
/// the request was not waiting for. Every ending removes the temporary file
/// first.
pub open spec fn direct_step(flow: DirectFlowModel, event: DirectEventModel) -> (
    DirectFlowModel,
    DirectActionModel,
) {
    match flow.state {
        DirectStateModel::Done => (flow, DirectActionModel::Finished),
        DirectStateModel::Cleaning(reply) => match event {
            DirectEventModel::Cleaned => (
                DirectFlowModel { state: DirectStateModel::Done, ..flow },
                DirectActionModel::Respond(reply),
            ),
            _ => (flow, DirectActionModel::CleanUp),
        },
        DirectStateModel::Collecting => match event {
            DirectEventModel::Destination(text) => (
                DirectFlowModel { destination: text, ..flow },
                DirectActionModel::Continue,
            ),
            DirectEventModel::Time(text) => (
                DirectFlowModel { time: Some(text), ..flow },
                DirectActionModel::Continue,
            ),
            DirectEventModel::Userhash(text) => (
                DirectFlowModel { userhash: Some(text), ..flow },
                DirectActionModel::Continue,
            ),
            DirectEventModel::FilePart { declared_name } => (
                match declared_name {
                    Some(name) => DirectFlowModel { filename: name, ..flow },
                    None => flow,
                },
                DirectActionModel::StoreFile,
            ),
            DirectEventModel::BodyEnd => if flow.destination.len() == 0 {
                direct_ending(flow, ReplyModel::MissingDestination)
            } else {
                (
                    DirectFlowModel { state: DirectStateModel::Forwarding, ..flow },
                    DirectActionModel::Forward {
                        request: direct_upload(flow),
                        original_name: flow.filename,
                    },
                )
            },
            DirectEventModel::StorageFailed(detail) => direct_ending(
                flow,
                ReplyModel::DirectUploadFailed(detail),
            ),
            _ => direct_ending(flow, ReplyModel::DirectUploadFailed(out_of_order())),
        },
        DirectStateModel::Forwarding => match event {
            DirectEventModel::Exchanged(exchange) => direct_ending(
                flow,
                direct_reply(forward_result(selected(flow.destination), exchange)),
            ),
            DirectEventModel::StorageFailed(detail) => direct_ending(
                flow,
                ReplyModel::DirectUploadFailed(detail),
            ),
            _ => direct_ending(flow, ReplyModel::DirectUploadFailed(out_of_order())),
        },
    }
}

/// Where a direct upload stands after a run of events.
pub open spec fn direct_run(events: Seq<DirectEventModel>) -> DirectFlowModel
    decreases events.len(),
{
    if events.len() == 0 {
        direct_start()
    } else {
        direct_step(direct_run(events.drop_last()), events.last()).0
    }
}

/// What is done for the event at position `n` of a run.
pub open spec fn direct_action_at(events: Seq<DirectEventModel>, n: int) -> DirectActionModel
    recommends
        0 <= n < events.len(),
{
    direct_step(direct_run(events.take(n)), events[n]).1
}

/// A run is removing its file only where its last step said to remove it.
proof fn lemma_direct_run_facts(events: Seq<DirectEventModel>)
    ensures
        direct_run(events).state is Cleaning ==> events.len() > 0 && direct_action_at(
            events,
            events.len() - 1,
        ) is CleanUp,
    decreases events.len(),
{
    if events.len() > 0 {
        lemma_direct_run_facts(events.drop_last());
        assert(events.take(events.len() - 1) =~= events.drop_last());
    }
}

/// The caller is answered only once the temporary file is gone: every answer
/// follows the removal of the file.
pub proof fn lemma_direct_answers_after_cleanup(events: Seq<DirectEventModel>, n: int)
    requires
        0 <= n < events.len(),
        direct_action_at(events, n) is Respond,
    ensures
        n > 0,
        events[n] is Cleaned,
        direct_action_at(events, n - 1) is CleanUp,
{
    let seen = events.take(n);
    lemma_direct_run_facts(seen);
    assert(seen.take(n - 1) =~= events.take(n - 1));
    assert(seen[n - 1] == events[n - 1]);
}

/// While a run is reading parts, it was reading parts all along, and nothing
/// was sent or answered.
proof fn lemma_direct_collecting(events: Seq<DirectEventModel>, m: int)
    requires
        direct_run(events).state is Collecting,
        0 <= m < events.len(),
    ensures
        direct_run(events.take(m)).state is Collecting,
        direct_action_at(events, m) is Continue || direct_action_at(events, m) is StoreFile,
    decreases events.len(),
{
    let shorter = events.drop_last();
    assert(events.take(events.len() - 1) =~= shorter);
    if m < events.len() - 1 {
        lemma_direct_collecting(shorter, m);
        assert(shorter.take(m) =~= events.take(m));
    }
}

/// Where a run has ended for want of a destination, that is its answer, and
/// nothing is sent.
proof fn lemma_direct_after_missing(events: Seq<DirectEventModel>, n: int, m: int)
    requires
        0 <= n < m <= events.len(),
        direct_run(events.take(n)).state is Collecting,
        direct_run(events.take(n)).destination.len() == 0,
        events[n] is BodyEnd,
    ensures
        direct_run(events.take(m)).state is Done || direct_run(events.take(m)).state
            == DirectStateModel::Cleaning(ReplyModel::MissingDestination),
    decreases m,
{
    assert(events.take(m).drop_last() =~= events.take(m - 1));
    assert(events.take(m).last() == events[m - 1]);
    if m > n + 1 {
        lemma_direct_after_missing(events, n, m - 1);
    }
}

/// A direct upload without a destination is answered that the destination is
/// missing, and is never sent: where the body ends while the destination is
/// empty, no step of the run, before or after, sends the file, and the only
/// answer is that one.
pub proof fn lemma_direct_without_destination(events: Seq<DirectEventModel>, n: int, m: int)
    requires
        0 <= n < events.len(),
        0 <= m < events.len(),
        direct_run(events.take(n)).state is Collecting,
        direct_run(events.take(n)).destination.len() == 0,
        events[n] is BodyEnd,
    ensures
        !(direct_action_at(events, m) is Forward),
        direct_action_at(events, m) matches DirectActionModel::Respond(reply) ==> reply
            == ReplyModel::MissingDestination,
        direct_action_at(events, n) is CleanUp,
{
    if m < n {
        lemma_direct_collecting(events.take(n), m);
        assert(events.take(n).take(m) =~= events.take(m));
        assert(events.take(n)[m] == events[m]);
    } else if m > n {
        lemma_direct_after_missing(events, n, m);
    }
}

/// A file is sent only at the end of the body, to a destination that the
/// request named, with the upload that this destination expects.
pub proof fn lemma_direct_forward_has_destination(events: Seq<DirectEventModel>, n: int)
    requires
        0 <= n < events.len(),
        direct_action_at(events, n) is Forward,
    ensures
        events[n] is BodyEnd,
        direct_run(events.take(n)).destination.len() > 0,
        direct_action_at(events, n)->Forward_request == direct_upload(direct_run(events.take(n))),
{
}

impl DirectFlow {
    /// A direct upload of which nothing has been read.
    pub fn new() -> (flow: DirectFlow)
        ensures
            flow@ == direct_start(),
    {
        DirectFlow {
            destination: String::new(),
            time: None,
            userhash: None,
            filename: String::from_str("upload.dat"),
            state: DirectState::Collecting,
        }
    }

    fn ending(self, reply: ApiReply) -> (r: (DirectFlow, DirectAction))
        ensures
            (r.0@, r.1@) == direct_ending(self@, reply@),
    {
        (
            DirectFlow {
                destination: self.destination,
                time: self.time,
                userhash: self.userhash,
                filename: self.filename,
                state: DirectState::Cleaning(reply),
            },
            DirectAction::CleanUp,
        )
    }

    fn out_of_order(self) -> (r: (DirectFlow, DirectAction))
        ensures
            (r.0@, r.1@) == direct_ending(
                self@,
                ReplyModel::DirectUploadFailed(out_of_order()),
            ),
    {
        self.ending(ApiReply::DirectUploadFailed(String::from_str("request handled out of order")))
    }

    /// Takes what happened and tells what to do next.
    pub fn step(self, event: DirectEvent) -> (r: (DirectFlow, DirectAction))
        ensures
            (r.0@, r.1@) == direct_step(self@, event@),
    {
        let DirectFlow { destination, time, userhash, filename, state } = self;
        match state {
            DirectState::Done => (
                DirectFlow { destination, time, userhash, filename, state: DirectState::Done },
                DirectAction::Finished,
            ),
            DirectState::Cleaning(reply) => match event {
                DirectEvent::Cleaned => (
                    DirectFlow { destination, time, userhash, filename, state: DirectState::Done },
                    DirectAction::Respond(reply),
                ),
                _ => (
                    DirectFlow {
                        destination,
                        time,
                        userhash,
                        filename,
                        state: DirectState::Cleaning(reply),
                    },
                    DirectAction::CleanUp,
                ),
            },
            DirectState::Collecting => {
                let state = DirectState::Collecting;
                match event {
                    DirectEvent::Destination(text) => (
                        DirectFlow { destination: text, time, userhash, filename, state },
                        DirectAction::Continue,
                    ),
                    DirectEvent::Time(text) => (
                        DirectFlow { destination, time: Some(text), userhash, filename, state },
                        DirectAction::Continue,
                    ),
                    DirectEvent::Userhash(text) => (
                        DirectFlow { destination, time, userhash: Some(text), filename, state },
                        DirectAction::Continue,
                    ),
                    DirectEvent::FilePart { declared_name } => {
                        let filename = match declared_name {
                            Some(name) => name,
                            None => filename,
                        };
                        (
                            DirectFlow { destination, time, userhash, filename, state },
                            DirectAction::StoreFile,
                        )
                    },
                    DirectEvent::BodyEnd => {
                        let flow = DirectFlow { destination, time, userhash, filename, state };
                        if flow.destination.as_str().is_empty() {
                            flow.ending(ApiReply::MissingDestination)
                        } else {
                            let request = plan_upload(
                                Destination::select(flow.destination.as_str()),
                                borrowed(&flow.userhash),
                                retention(&flow.time),
                            );
                            let action = DirectAction::Forward {
                                request,
                                original_name: flow.filename.clone(),
                            };
                            (
                                DirectFlow {
                                    destination: flow.destination,
                                    time: flow.time,
                                    userhash: flow.userhash,
                                    filename: flow.filename,
                                    state: DirectState::Forwarding,
                                },
                                action,
                            )
                        }
                    },
                    DirectEvent::StorageFailed(detail) => {
                        let flow = DirectFlow { destination, time, userhash, filename, state };
                        flow.ending(ApiReply::DirectUploadFailed(detail))
                    },
                    _ => {
                        let flow = DirectFlow { destination, time, userhash, filename, state };
                        flow.out_of_order()
                    },
                }
            },
            DirectState::Forwarding => {
                let flow = DirectFlow {
                    destination,
                    time,
                    userhash,
                    filename,
                    state: DirectState::Forwarding,
                };
                match event {
                    DirectEvent::Exchanged(exchange) => {
                        let chosen = Destination::select(flow.destination.as_str());
                        let reply = direct_answer(interpret(chosen, exchange));
                        flow.ending(reply)
                    },
                    DirectEvent::StorageFailed(detail) => flow.ending(
                        ApiReply::DirectUploadFailed(detail),
                    ),
                    _ => flow.out_of_order(),
                }
            },
        }
    }
}

} // verus!
