//! The decisions of the request handlers.
//!
//! A submission is carried by an `Ingestion`, a state machine that is told
//! what each outside step gave (`Event`) and says what to do next (`Action`).
//! Whoever drives it performs the actions: it writes to the store, answers
//! the caller and calls the provider. The two lookups need no state: their
//! answer is a function of what the store returned.

use crate::base64::{accepted, decode, decoded};
use crate::database::StoreError;
use crate::models::{
    ApiResponse,
    RecordAudioRequest,
    RecordAudioResponse,
    Recording,
    RecordingListItem,
};
use crate::services::EnrichmentError;
use vstd::prelude::*;
use vstd::slice::slice_to_vec;
use vstd::string::StringSliceAdditionalSpecFns;
use vstd::utf8::encode_utf8;

verus! {

/// An answer to the caller: a status code and the envelope.
#[derive(Debug)]
pub struct Reply<T> {
    pub status: u16,
    pub body: ApiResponse<T>,
}

/// Where a submission has got to.
///
/// Each stage but the last three waits for one event: `Submitted` for the
/// record's creation, `Stored` for the provider's transcription,
/// `Transcribing` for the write of that transcription, `Transcribed` for the
/// provider's summary, `Summarizing` for the write of that summary.
#[derive(Debug, Clone, Copy, PartialEq, Eq, Structural)]
pub enum Stage {
    Submitted,
    Stored,
    Transcribing,
    Transcribed,
    Summarizing,
    Summarized,
    TranscriptionFailed,
    SummarizationFailed,
}

/// What an outside step gave.
#[derive(Debug)]
pub enum Event {
    /// The store was asked to create the record.
    Created(Result<(), StoreError>),
    /// The provider was asked for the transcription.
    Transcribed(Result<String, EnrichmentError>),
    /// The store was asked to write the transcription.
    TranscriptionSaved(Result<(), StoreError>),
    /// The provider was asked for the summary.
    Summarized(Result<String, EnrichmentError>),
    /// The store was asked to write the summary.
    SummarySaved(Result<(), StoreError>),
}

/// What to do next.
#[derive(Debug)]
pub enum Action {
    /// Create the record in the store, and report with `Event::Created`.
    Create { id: String, title: String, audio_data: Vec<u8> },
    /// Answer the caller with a failure. Nothing follows.
    Reject { reply: Reply<RecordAudioResponse> },
    /// Answer the caller with the id. Then, detached from the caller, ask the
    /// provider to transcribe the audio, and report with `Event::Transcribed`.
    Accept { reply: Reply<RecordAudioResponse>, audio_data: Vec<u8> },
    /// Write the transcription, and report with `Event::TranscriptionSaved`.
    SaveTranscription { id: String, text: String },
    /// Ask the provider to summarise the text, and report with
    /// `Event::Summarized`.
    Summarize { text: String },
    /// Write the summary, and report with `Event::SummarySaved`.
    SaveSummary { id: String, text: String },
    /// Nothing: the work has ended, or the event was not the awaited one.
    Stop,
}

/// One submission on its way through the stages.
pub struct Ingestion {
    stage: Stage,
    id: String,
    audio_data: Vec<u8>,
    transcription: Option<String>,
}

/// An answer to a submission as plain mathematical values.
pub struct ReplyView {
    pub status: u16,
    pub success: bool,
    pub data: Option<(Seq<char>, Seq<char>)>,
    pub error: Option<Seq<char>>,
}

/// An event as the state machine sees it: a failure's reason plays no part.
pub enum EventView {
    Created(bool),
    Transcribed(Option<Seq<char>>),
    TranscriptionSaved(bool),
    Summarized(Option<Seq<char>>),
    SummarySaved(bool),
}

/// An action as plain mathematical values.
pub enum ActionView {
    Create { id: Seq<char>, title: Seq<char>, audio_data: Seq<u8> },
    Reject { reply: ReplyView },
    Accept { reply: ReplyView, audio_data: Seq<u8> },
    SaveTranscription { id: Seq<char>, text: Seq<char> },
    Summarize { text: Seq<char> },
    SaveSummary { id: Seq<char>, text: Seq<char> },
    Stop,
}

/// An ingestion as plain mathematical values.
pub struct IngestionView {
    pub stage: Stage,
    pub id: Seq<char>,
    pub audio_data: Seq<u8>,
    pub transcription: Option<Seq<char>>,
}

impl View for Reply<RecordAudioResponse> {
    type V = ReplyView;

    open spec fn view(&self) -> ReplyView {
        ReplyView {
            status: self.status,
            success: self.body.success,
            data: match self.body.data {
                Some(d) => Some((d.id@, d.message@)),
                None => None,
            },
            error: match self.body.error {
                Some(e) => Some(e@),
                None => None,
            },
        }
    }
}

impl View for Event {
    type V = EventView;

    open spec fn view(&self) -> EventView {
        match self {
            Event::Created(r) => EventView::Created(r is Ok),
            Event::Transcribed(r) => EventView::Transcribed(
                match r {
                    Ok(text) => Some(text@),
                    Err(_) => None,
                },
            ),
            Event::TranscriptionSaved(r) => EventView::TranscriptionSaved(r is Ok),
            Event::Summarized(r) => EventView::Summarized(
                match r {
                    Ok(text) => Some(text@),
                    Err(_) => None,
                },
            ),
            Event::SummarySaved(r) => EventView::SummarySaved(r is Ok),
        }
    }
}

impl View for Action {
    type V = ActionView;

    open spec fn view(&self) -> ActionView {
        match self {
            Action::Create { id, title, audio_data } => ActionView::Create {
                id: id@,
                title: title@,
                audio_data: audio_data@,
            },
            Action::Reject { reply } => ActionView::Reject { reply: reply@ },
            Action::Accept { reply, audio_data } => ActionView::Accept {
                reply: reply@,
                audio_data: audio_data@,
            },
            Action::SaveTranscription { id, text } => ActionView::SaveTranscription {
                id: id@,
                text: text@,
            },
            Action::Summarize { text } => ActionView::Summarize { text: text@ },
            Action::SaveSummary { id, text } => ActionView::SaveSummary { id: id@, text: text@ },
            Action::Stop => ActionView::Stop,
        }
    }
}

impl View for Ingestion {
    type V = IngestionView;

    closed spec fn view(&self) -> IngestionView {
        IngestionView {
            stage: self.stage,
            id: self.id@,
            audio_data: self.audio_data@,
            transcription: match self.transcription {
                Some(t) => Some(t@),
                None => None,
            },
        }
    }
}

impl ReplyView {
    /// Whether the answer has one of the two shapes of an envelope: success
    /// with data and no error, or failure with an error and no data.
    pub open spec fn well_formed(self) -> bool {
        if self.success {
            self.data is Some && self.error is None
        } else {
            self.data is None && self.error is Some
        }
    }
}

/// The answer that refuses with `status` and says why.
pub open spec fn refusal(status: u16, error: Seq<char>) -> ReplyView {
    ReplyView { status, success: false, data: None, error: Some(error) }
}

/// The answer to a submission whose record was created.
pub open spec fn acceptance(id: Seq<char>) -> ReplyView {
    ReplyView {
        status: 200,
        success: true,
        data: Some(
            (id, "Recording saved successfully. Processing transcription and summary..."@),
        ),
        error: None,
    }
}

/// The form of an id: 36 characters, lower-case hexadecimal digits in groups
/// of 8, 4, 4, 4 and 12 with a hyphen between the groups.
pub open spec fn is_hyphenated_id(id: Seq<char>) -> bool {
    &&& id.len() == 36
    &&& forall|i: int|
        0 <= i < 36 ==> if i == 8 || i == 13 || i == 18 || i == 23 {
            #[trigger] id[i] == '-'
        } else {
            ('0' <= id[i] <= '9') || ('a' <= id[i] <= 'f')
        }
}

/// How a submission starts under the id drawn for it: the record to create
/// where the audio decodes, and a refusal with no ingestion where it does not.
pub open spec fn opening(id: Seq<char>, title: Seq<char>, audio_text: Seq<u8>) -> (
    Option<IngestionView>,
    ActionView,
) {
    if accepted(audio_text) {
        (
            Some(
                IngestionView {
                    stage: Stage::Submitted,
                    id,
                    audio_data: decoded(audio_text),
                    transcription: None,
                },
            ),
            ActionView::Create { id, title, audio_data: decoded(audio_text) },
        )
    } else {
        (None, ActionView::Reject { reply: refusal(400, "Invalid audio data format"@) })
    }
}

/// The state machine: the stage reached and the action asked for when
/// `event` arrives in state `s`.
///
/// An event that the stage does not wait for changes nothing and asks for
/// nothing. A failure while the transcription is fetched or written ends in
/// `TranscriptionFailed`, one while the summary is fetched or written in
/// `SummarizationFailed`; a failed creation leaves the submission where it
/// was.
pub open spec fn step(s: IngestionView, event: EventView) -> (IngestionView, ActionView) {
    match (s.stage, event) {
        (Stage::Submitted, EventView::Created(true)) => (
            IngestionView { stage: Stage::Stored, audio_data: Seq::empty(), ..s },
            ActionView::Accept { reply: acceptance(s.id), audio_data: s.audio_data },
        ),
        (Stage::Submitted, EventView::Created(false)) => (
            s,
            ActionView::Reject { reply: refusal(500, "Failed to save recording"@) },
        ),
        (Stage::Stored, EventView::Transcribed(Some(text))) => (
            IngestionView { stage: Stage::Transcribing, transcription: Some(text), ..s },
            ActionView::SaveTranscription { id: s.id, text },
        ),
        (Stage::Stored, EventView::Transcribed(None)) => (
            IngestionView { stage: Stage::TranscriptionFailed, ..s },
            ActionView::Stop,
        ),
        (Stage::Transcribing, EventView::TranscriptionSaved(true)) => match s.transcription {
            Some(text) => (
                IngestionView { stage: Stage::Transcribed, ..s },
                ActionView::Summarize { text },
            ),
            None => (IngestionView { stage: Stage::TranscriptionFailed, ..s }, ActionView::Stop),
        },
        (Stage::Transcribing, EventView::TranscriptionSaved(false)) => (
            IngestionView { stage: Stage::TranscriptionFailed, ..s },
            ActionView::Stop,
        ),
        (Stage::Transcribed, EventView::Summarized(Some(text))) => (
            IngestionView { stage: Stage::Summarizing, ..s },
            ActionView::SaveSummary { id: s.id, text },
        ),
        (Stage::Transcribed, EventView::Summarized(None)) => (
            IngestionView { stage: Stage::SummarizationFailed, ..s },
            ActionView::Stop,
        ),
        (Stage::Summarizing, EventView::SummarySaved(true)) => (
            IngestionView { stage: Stage::Summarized, ..s },
            ActionView::Stop,
        ),
        (Stage::Summarizing, EventView::SummarySaved(false)) => (
            IngestionView { stage: Stage::SummarizationFailed, ..s },
            ActionView::Stop,
        ),
        _ => (s, ActionView::Stop),
    }
}

/// Draws a random id.
///
/// Calls `uuid::Uuid::new_v4` and writes the result with `Uuid`'s `Display`,
/// which is its hyphenated lower-case form. The contract claims that form of
/// every id, and nothing about which id comes: two calls may or may not
/// differ. `new_v4` panics where the operating system gives no random bytes.
#[verifier::external_body]
fn fresh_id() -> (id: String)
    ensures
        is_hyphenated_id(id@),
{
    uuid::Uuid::new_v4().to_string()
}

/// The refusal with `status` and `message`.
fn refuse(status: u16, message: &str) -> (reply: Reply<RecordAudioResponse>)
    ensures
        reply@ == refusal(status, message@),
{
    Reply { status, body: ApiResponse { success: false, data: None, error: Some(message.to_owned()) } }
}

/// Starts the ingestion of `payload` under the given id: decodes the audio
/// and asks for the record to be created, or refuses a submission whose
/// audio does not decode.
pub fn submit(id: String, payload: RecordAudioRequest) -> (started: (Option<Ingestion>, Action))
    ensures
        (
            match started.0 {
                Some(ingestion) => Some(ingestion@),
                None => None,
            },
            started.1@,
        ) == opening(id@, payload.title@, encode_utf8(payload.audio_data@)),
{
    match decode(payload.audio_data.as_str()) {
        Ok(audio_data) => {
            let action = Action::Create {
                id: id.clone(),
                title: payload.title,
                audio_data: slice_to_vec(audio_data.as_slice()),
            };
            (Some(Ingestion { stage: Stage::Submitted, id, audio_data, transcription: None }), action)
        },
        Err(_) => (None, Action::Reject { reply: refuse(400, "Invalid audio data format") }),
    }
}

/// Starts the ingestion of `payload` under a random id.
///
/// Which id is drawn is not determined; whatever it is, it has the
/// hyphenated form, and the submission starts under it as `submit` says.
pub fn record_audio(payload: RecordAudioRequest) -> (started: (Option<Ingestion>, Action))
    ensures
        exists|id: Seq<char>|
            is_hyphenated_id(id) && #[trigger] opening(
                id,
                payload.title@,
                encode_utf8(payload.audio_data@),
            ) == (
                match started.0 {
                    Some(ingestion) => Some(ingestion@),
                    None => None,
                },
                started.1@,
            ),
{
    let id = fresh_id();
    submit(id, payload)
}

impl Ingestion {
    /// The stage that the submission has reached.
    pub fn stage(&self) -> (stage: Stage)
        ensures
            stage == self@.stage,
    {
        self.stage
    }

    /// The id of the recording.
    pub fn id(&self) -> (id: &str)
        ensures
            id@ == self@.id,
    {
        self.id.as_str()
    }

    /// Takes in what the last action gave, moves to the next stage and says
    /// what to do next, as `step` defines it.
    pub fn advance(&mut self, event: Event) -> (action: Action)
        ensures
            (final(self)@, action@) == step(old(self)@, event@),
    {
        match (self.stage, event) {
            (Stage::Submitted, Event::Created(Ok(_))) => {
                let mut audio_data: Vec<u8> = Vec::new();
                core::mem::swap(&mut self.audio_data, &mut audio_data);
                self.stage = Stage::Stored;
                let body = ApiResponse {
                    success: true,
                    data: Some(
                        RecordAudioResponse {
                            id: self.id.clone(),
                            message: "Recording saved successfully. Processing transcription and summary...".to_owned(),
                        },
                    ),
                    error: None,
                };
                Action::Accept { reply: Reply { status: 200, body }, audio_data }
            },
            (Stage::Submitted, Event::Created(Err(_))) => Action::Reject {
                reply: refuse(500, "Failed to save recording"),
            },
            (Stage::Stored, Event::Transcribed(Ok(text))) => {
                let action = Action::SaveTranscription { id: self.id.clone(), text: text.clone() };
                self.transcription = Some(text);
                self.stage = Stage::Transcribing;
                action
            },
            (Stage::Stored, Event::Transcribed(Err(_))) => {
                self.stage = Stage::TranscriptionFailed;
                Action::Stop
            },
            (Stage::Transcribing, Event::TranscriptionSaved(Ok(_))) => match &self.transcription {
                Some(text) => {
                    let action = Action::Summarize { text: text.clone() };
                    self.stage = Stage::Transcribed;
                    action
                },
                None => {
                    self.stage = Stage::TranscriptionFailed;
                    Action::Stop
                },
            },
            (Stage::Transcribing, Event::TranscriptionSaved(Err(_))) => {
                self.stage = Stage::TranscriptionFailed;
                Action::Stop
            },
            (Stage::Transcribed, Event::Summarized(Ok(text))) => {
                self.stage = Stage::Summarizing;
                Action::SaveSummary { id: self.id.clone(), text }
            },
            (Stage::Transcribed, Event::Summarized(Err(_))) => {
                self.stage = Stage::SummarizationFailed;
                Action::Stop
            },
            (Stage::Summarizing, Event::SummarySaved(Ok(_))) => {
                self.stage = Stage::Summarized;
                Action::Stop
            },
            (Stage::Summarizing, Event::SummarySaved(Err(_))) => {
                self.stage = Stage::SummarizationFailed;
                Action::Stop
            },
            _ => Action::Stop,
        }
    }
}

/// Answers a request for the listing: the entries with status 200, or a
/// refusal with status 500 where the store failed.
pub fn get_recordings(listing: Result<Vec<RecordingListItem>, StoreError>) -> (reply: Reply<
    Vec<RecordingListItem>,
>)
    ensures
        reply.body.well_formed(),
        match listing {
            Ok(items) => {
                &&& reply.status == 200
                &&& reply.body.success
                &&& reply.body.data == Some(items)
                &&& reply.body.error is None
            },
            Err(_) => {
                &&& reply.status == 500
                &&& !reply.body.success
                &&& reply.body.data is None
                &&& reply.body.error matches Some(e) && e@ == "Failed to get recordings"@
            },
        },
{
    match listing {
        Ok(items) => Reply {
            status: 200,
            body: ApiResponse { success: true, data: Some(items), error: None },
        },
        Err(_) => Reply {
            status: 500,
            body: ApiResponse {
                success: false,
                data: None,
                error: Some("Failed to get recordings".to_owned()),
            },
        },
    }
}

/// Answers a request for one recording: the record with status 200, a
/// refusal with status 404 where the store has none of that id, and one with
/// status 500 where the store failed.
pub fn get_recording(found: Result<Option<Recording>, StoreError>) -> (reply: Reply<Recording>)
    ensures
        reply.body.well_formed(),
        match found {
            Ok(Some(record)) => {
                &&& reply.status == 200
                &&& reply.body.success
                &&& reply.body.data == Some(record)
                &&& reply.body.error is None
            },
            Ok(None) => {
                &&& reply.status == 404
                &&& !reply.body.success
                &&& reply.body.data is None
                &&& reply.body.error matches Some(e) && e@ == "Recording not found"@
            },
            Err(_) => {
                &&& reply.status == 500
                &&& !reply.body.success
                &&& reply.body.data is None
                &&& reply.body.error matches Some(e) && e@ == "Failed to get recording"@
            },
        },
{
    match found {
        Ok(Some(record)) => Reply {
            status: 200,
            body: ApiResponse { success: true, data: Some(record), error: None },
        },
        Ok(None) => Reply {
            status: 404,
            body: ApiResponse {
                success: false,
                data: None,
                error: Some("Recording not found".to_owned()),
            },
        },
        Err(_) => Reply {
            status: 500,
            body: ApiResponse {
                success: false,
                data: None,
                error: Some("Failed to get recording".to_owned()),
            },
        },
    }
}

} // verus!
