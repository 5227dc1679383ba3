//! Receiving a chunk: the parts of the request are taken one by one, and a
//! chunk is stored once the upload's identifier and the chunk's index are known.

use vstd::prelude::*;
use crate::chunks::{chunk_file_name, chunk_name};
use crate::reply::{ApiReply, ReplyModel};
use crate::text::str_eq;

verus! {

/// What a part of a chunk request is, by its name.
#[derive(Clone, Copy, Debug, PartialEq, Eq, Structural)]
pub enum ChunkField {
    /// The text field `uploadId`.
    UploadId,
    /// The text field `index`.
    Index,
    /// The binary part `chunk`.
    Chunk,
    /// A part that the request has no use for.
    Other,
}

/// What the part of a given name is.
pub open spec fn chunk_field_of(name: Seq<char>) -> ChunkField {
    if name == "uploadId"@ {
        ChunkField::UploadId
    } else if name == "index"@ {
        ChunkField::Index
    } else if name == "chunk"@ {
        ChunkField::Chunk
    } else {
        ChunkField::Other
    }
}

/// Tells what a part is by its name.
pub fn chunk_field(name: &str) -> (r: ChunkField)
    ensures
        r == chunk_field_of(name@),
{
    if str_eq(name, "uploadId") {
        ChunkField::UploadId
    } else if str_eq(name, "index") {
        ChunkField::Index
    } else if str_eq(name, "chunk") {
        ChunkField::Chunk
    } else {
        ChunkField::Other
    }
}

/// Where a chunk is stored, as a value.
pub struct ChunkTargetModel {
    pub session: Seq<char>,
    pub index: usize,
    pub file_name: Seq<char>,
}

/// Where a chunk is stored: the session's storage, and in it the file of the
/// chunk's index.
#[derive(Debug, PartialEq, Eq)]
pub struct ChunkTarget {
    pub session: String,
    pub index: usize,
    pub file_name: String,
}

impl View for ChunkTarget {
    type V = ChunkTargetModel;

    open spec fn view(&self) -> ChunkTargetModel {
        ChunkTargetModel { session: self.session@, index: self.index, file_name: self.file_name@ }
    }
}

/// What is read from a chunk request, as a value.
pub enum ChunkEventModel {
    UploadId(Seq<char>),
    Index(usize),
    ChunkPart,
    BodyEnd,
}

/// What is read from a chunk request.
#[derive(Debug, PartialEq, Eq)]
pub enum ChunkEvent {
    /// The text of the field `uploadId`.
    UploadId(String),
    /// The index that the field `index` holds.
    Index(usize),
    /// A part `chunk` begins.
    ChunkPart,
    /// The request has no further part.
    BodyEnd,
}

impl View for ChunkEvent {
    type V = ChunkEventModel;

    open spec fn view(&self) -> ChunkEventModel {
        match self {
            ChunkEvent::UploadId(id) => ChunkEventModel::UploadId(id@),
            ChunkEvent::Index(index) => ChunkEventModel::Index(*index),
            ChunkEvent::ChunkPart => ChunkEventModel::ChunkPart,
            ChunkEvent::BodyEnd => ChunkEventModel::BodyEnd,
        }
    }
}

/// What is to be done next for a chunk request, as a value.
pub enum ChunkActionModel {
    Continue,
    Store(ChunkTargetModel),
    Respond(ReplyModel),
    Finished,
}

/// What is to be done next for a chunk request.
#[derive(Debug, PartialEq, Eq)]
pub enum ChunkAction {
    /// Read the next part.
    Continue,
    /// Write the payload of the part at hand to this place, over what is
    /// there, then read the next part.
    Store(ChunkTarget),
    /// Answer the caller; the request is over.
    Respond(ApiReply),
    /// Nothing: the request has been answered.
    Finished,
}

impl View for ChunkAction {
    type V = ChunkActionModel;

    open spec fn view(&self) -> ChunkActionModel {
        match self {
            ChunkAction::Continue => ChunkActionModel::Continue,
            ChunkAction::Store(target) => ChunkActionModel::Store(target@),
            ChunkAction::Respond(reply) => ChunkActionModel::Respond(reply@),
            ChunkAction::Finished => ChunkActionModel::Finished,
        }
    }
}

/// How far a chunk request has come, as a value.
pub struct ChunkFlowModel {
    pub upload_id: Seq<char>,
    pub index: Option<usize>,
    pub done: bool,
}

/// How far a chunk request has come: the fields seen so far, and whether the
/// request has been answered.
pub struct ChunkFlow {
    upload_id: String,
    index: Option<usize>,
    done: bool,
}

impl View for ChunkFlow {
    type V = ChunkFlowModel;

    closed spec fn view(&self) -> ChunkFlowModel {
        ChunkFlowModel { upload_id: self.upload_id@, index: self.index, done: self.done }
    }
}

/// A chunk request of which nothing has been read.
pub open spec fn chunk_start() -> ChunkFlowModel {
    ChunkFlowModel { upload_id: Seq::empty(), index: None, done: false }
}

/// One step of a chunk request. The two text fields are kept, a later one in
/// place of an earlier one. A chunk is stored where the identifier is not
/// empty and an index has been seen; where one of them is missing the request
/// ends as a client error. The end of the body ends the request well.
pub open spec fn chunk_step(flow: ChunkFlowModel, event: ChunkEventModel) -> (
    ChunkFlowModel,
    ChunkActionModel,
) {
    if flow.done {
        (flow, ChunkActionModel::Finished)
    } else {
        match event {
            ChunkEventModel::UploadId(id) => (
                ChunkFlowModel { upload_id: id, ..flow },
                ChunkActionModel::Continue,
            ),
            ChunkEventModel::Index(index) => (
                ChunkFlowModel { index: Some(index), ..flow },
                ChunkActionModel::Continue,
            ),
            ChunkEventModel::ChunkPart => match flow.index {
                Some(index) if flow.upload_id.len() > 0 => (
                    flow,
                    ChunkActionModel::Store(
                        ChunkTargetModel {
                            session: flow.upload_id,
                            index,
                            file_name: chunk_name(index as nat),
                        },
                    ),
                ),
                _ => (
                    ChunkFlowModel { done: true, ..flow },
                    ChunkActionModel::Respond(ReplyModel::MissingChunkFields),
                ),
            },
            ChunkEventModel::BodyEnd => (
                ChunkFlowModel { done: true, ..flow },
                ChunkActionModel::Respond(ReplyModel::ChunkReceived),
            ),
        }
    }
}

/// Where a chunk request stands after a run of events.
pub open spec fn chunk_run(events: Seq<ChunkEventModel>) -> ChunkFlowModel
    decreases events.len(),
{
    if events.len() == 0 {
        chunk_start()
    } else {
        chunk_step(chunk_run(events.drop_last()), events.last()).0
    }
}

/// What is done for the event at position `n` of a run.
pub open spec fn chunk_action_at(events: Seq<ChunkEventModel>, n: int) -> ChunkActionModel
    recommends
        0 <= n < events.len(),
{
    chunk_step(chunk_run(events.take(n)), events[n]).1
}

/// What a run of events has left of the two fields comes from the run: an
/// identifier that is not empty and an index were each read from it.
proof fn lemma_fields_were_read(events: Seq<ChunkEventModel>)
    ensures
        chunk_run(events).upload_id.len() > 0 ==> exists|i: int|
            0 <= i < events.len() && #[trigger] events[i] == ChunkEventModel::UploadId(
                chunk_run(events).upload_id,
            ),
        chunk_run(events).index matches Some(index) ==> exists|i: int|
            0 <= i < events.len() && #[trigger] events[i] == ChunkEventModel::Index(index),
    decreases events.len(),
{
    if events.len() > 0 {
        let shorter = events.drop_last();
        lemma_fields_were_read(shorter);
        let before = chunk_run(shorter);
        let after = chunk_run(events);
        let last = events.len() - 1;
        if after.upload_id.len() > 0 {
            if after.upload_id == before.upload_id {
                let i = choose|i: int|
                    0 <= i < shorter.len() && #[trigger] shorter[i] == ChunkEventModel::UploadId(
                        before.upload_id,
                    );
                assert(events[i] == shorter[i]);
            } else {
                assert(events[last] == ChunkEventModel::UploadId(after.upload_id));
            }
        }
        if let Some(index) = after.index {
            if after.index == before.index {
                let i = choose|i: int|
                    0 <= i < shorter.len() && #[trigger] shorter[i] == ChunkEventModel::Index(
                        index,
                    );
                assert(events[i] == shorter[i]);
            } else {
                assert(events[last] == ChunkEventModel::Index(index));
            }
        }
    }
}

/// No chunk is stored before both fields have come: where a run of events
/// has a chunk stored, the session it goes to was read from an earlier
/// `uploadId` field, and its index from an earlier `index` field.
pub proof fn lemma_chunk_stored_after_fields(events: Seq<ChunkEventModel>, n: int)
    requires
        0 <= n < events.len(),
        chunk_action_at(events, n) is Store,
    ensures
        ({
            let target = chunk_action_at(events, n)->Store_0;
            &&& target.session.len() > 0
            &&& target.file_name == chunk_name(target.index as nat)
            &&& exists|i: int|
                0 <= i < n && #[trigger] events[i] == ChunkEventModel::UploadId(target.session)
            &&& exists|i: int|
                0 <= i < n && #[trigger] events[i] == ChunkEventModel::Index(target.index)
        }),
{
    let seen = events.take(n);
    lemma_fields_were_read(seen);
    let target = chunk_action_at(events, n)->Store_0;
    let i = choose|i: int|
        0 <= i < seen.len() && #[trigger] seen[i] == ChunkEventModel::UploadId(
            chunk_run(seen).upload_id,
        );
    assert(events[i] == seen[i]);
    let j = choose|j: int|
        0 <= j < seen.len() && #[trigger] seen[j] == ChunkEventModel::Index(target.index);
    assert(events[j] == seen[j]);
}

impl ChunkFlow {
    /// A chunk request of which nothing has been read.
    pub fn new() -> (flow: ChunkFlow)
        ensures
            flow@ == chunk_start(),
    {
        ChunkFlow { upload_id: String::new(), index: None, done: false }
    }

    /// Takes what was read from the request and tells what to do next.
    pub fn step(self, event: ChunkEvent) -> (r: (ChunkFlow, ChunkAction))
        ensures
            (r.0@, r.1@) == chunk_step(self@, event@),
    {
        if self.done {
            return (self, ChunkAction::Finished);
        }
        match event {
            ChunkEvent::UploadId(id) => (
                ChunkFlow { upload_id: id, index: self.index, done: false },
                ChunkAction::Continue,
            ),
            ChunkEvent::Index(index) => (
                ChunkFlow { upload_id: self.upload_id, index: Some(index), done: false },
                ChunkAction::Continue,
            ),
            ChunkEvent::ChunkPart => {
                let named = !self.upload_id.as_str().is_empty();
                match self.index {
                    Some(index) if named => {
                        let target = ChunkTarget {
                            session: self.upload_id.clone(),
                            index,
                            file_name: chunk_file_name(index),
                        };
                        (self, ChunkAction::Store(target))
                    },
                    _ => (
                        ChunkFlow { upload_id: self.upload_id, index: self.index, done: true },
                        ChunkAction::Respond(ApiReply::MissingChunkFields),
                    ),
                }
            },
            ChunkEvent::BodyEnd => (
                ChunkFlow { upload_id: self.upload_id, index: self.index, done: true },
                ChunkAction::Respond(ApiReply::ChunkReceived),
            ),
        }
    }
}

} // verus!
