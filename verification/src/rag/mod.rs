//! Search, answers and summaries over transcripts.
pub mod generation;
pub mod order;
pub mod reranker;
pub mod retrieval;
pub mod summary;
