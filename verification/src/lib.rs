//! Verified core of a local-first transcription and retrieval server.
//!
//! The modules hold every decision the server takes: what an upload is, how a transcript is
//! cut, stored and resumed, how a search is widened and ordered, what a job's metadata says.
//! Reading files, sockets and models is left to the program around it.
pub mod audio_pipeline;
pub mod binary32;
pub mod config;
pub mod handlers;
pub mod ids;
pub mod mcp;
pub mod numbers;
pub mod paths;
pub mod rag;
pub mod router;
pub mod text;
