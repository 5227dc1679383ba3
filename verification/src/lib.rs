//! Upload relay: takes a file whole or in indexed chunks, puts the chunks back
//! together in index order and hands the result to a file-hosting backend.

pub mod assembly;
pub mod chunk_flow;
pub mod chunks;
pub mod decimal;
pub mod destination;
pub mod direct_flow;
pub mod finish_flow;
pub mod forward;
pub mod json;
pub mod order;
pub mod reply;
pub mod store;
pub mod text;
