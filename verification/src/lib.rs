//! Voice note ingestion: a permissive base64 decoder for uploaded audio, the
//! record store that keeps each recording with its derived texts, the shape of
//! the calls made to the transcription and summarisation provider, and the
//! state machine that carries one recording from submission to summary.

pub mod base64;
pub mod base64_laws;
pub mod database;
pub mod database_laws;
pub mod models;
pub mod services;
pub mod handlers;
pub mod handlers_laws;
