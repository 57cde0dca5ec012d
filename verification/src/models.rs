//! The values that travel between the caller, the store and the provider.
//!
//! Times are whole seconds since the Unix epoch, in UTC.

use vstd::prelude::*;

verus! {

/// A stored recording: the audio as submitted and the two texts derived from it.
#[derive(Debug)]
pub struct Recording {
    pub id: String,
    pub title: String,
    pub audio_data: Vec<u8>,
    pub transcription: Option<String>,
    pub summary: Option<String>,
    pub created_at: i64,
    pub updated_at: i64,
}

/// A recording without its audio, for listings.
#[derive(Debug)]
pub struct RecordingListItem {
    pub id: String,
    pub title: String,
    pub transcription: Option<String>,
    pub summary: Option<String>,
    pub created_at: i64,
    pub updated_at: i64,
}

/// A submission: a title and the audio as base64 text.
#[derive(Debug)]
pub struct RecordAudioRequest {
    pub title: String,
    pub audio_data: String,
}

/// What the caller gets back for an accepted submission.
#[derive(Debug)]
pub struct RecordAudioResponse {
    pub id: String,
    pub message: String,
}

/// The envelope of every answer: either `data`, or an `error` that says why
/// there is none.
#[derive(Debug)]
pub struct ApiResponse<T> {
    pub success: bool,
    pub data: Option<T>,
    pub error: Option<String>,
}

/// The characters of an optional text.
pub open spec fn text_of(text: Option<String>) -> Option<Seq<char>> {
    match text {
        Some(s) => Some(s@),
        None => None,
    }
}

/// A recording as plain mathematical values.
pub struct RecordingView {
    pub id: Seq<char>,
    pub title: Seq<char>,
    pub audio_data: Seq<u8>,
    pub transcription: Option<Seq<char>>,
    pub summary: Option<Seq<char>>,
    pub created_at: i64,
    pub updated_at: i64,
}

/// A listing entry as plain mathematical values.
pub struct RecordingListItemView {
    pub id: Seq<char>,
    pub title: Seq<char>,
    pub transcription: Option<Seq<char>>,
    pub summary: Option<Seq<char>>,
    pub created_at: i64,
    pub updated_at: i64,
}

impl View for Recording {
    type V = RecordingView;

    open spec fn view(&self) -> RecordingView {
        RecordingView {
            id: self.id@,
            title: self.title@,
            audio_data: self.audio_data@,
            transcription: text_of(self.transcription),
            summary: text_of(self.summary),
            created_at: self.created_at,
            updated_at: self.updated_at,
        }
    }
}

impl View for RecordingListItem {
    type V = RecordingListItemView;

    open spec fn view(&self) -> RecordingListItemView {
        RecordingListItemView {
            id: self.id@,
            title: self.title@,
            transcription: text_of(self.transcription),
            summary: text_of(self.summary),
            created_at: self.created_at,
            updated_at: self.updated_at,
        }
    }
}

impl RecordingView {
    /// The listing entry of this recording: everything but the audio.
    pub open spec fn list_item(self) -> RecordingListItemView {
        RecordingListItemView {
            id: self.id,
            title: self.title,
            transcription: self.transcription,
            summary: self.summary,
            created_at: self.created_at,
            updated_at: self.updated_at,
        }
    }
}

impl<T> ApiResponse<T> {
    /// Whether the envelope is one of the two shapes an answer can have:
    /// success with data and no error, or failure with an error and no data.
    pub open spec fn well_formed(&self) -> bool {
        if self.success {
            self.data is Some && self.error is None
        } else {
            self.data is None && self.error is Some
        }
    }
}

} // verus!
