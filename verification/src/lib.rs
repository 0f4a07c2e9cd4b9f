//! Transcript summarization: splitting a transcript into bounded chunks,
//! summarizing each chunk through a remote endpoint, and joining the results.

pub mod chunker;
pub mod error;
pub mod pipeline;
pub mod summarizer;
pub mod text;
pub mod video_id;
