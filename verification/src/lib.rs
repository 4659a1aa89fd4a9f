//! Semantic health checks for OpenAI Responses streams.

pub mod json;
pub mod laws;
pub mod probe_stream;
pub mod replay;
pub mod semantic_audit;
pub mod semantic_detector;
pub mod semantic_error;
pub mod semantic_guard;
pub mod sse;
pub mod stream_start;
pub mod text;
