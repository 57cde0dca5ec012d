//! The two calls to the enrichment provider: what is sent, and what an answer
//! means.
//!
//! Nothing here touches the network. A caller sends what `transcription_call`
//! or `summary_call` describes, reports what came back as a `ProviderReply`,
//! and gets the text or the failure from `transcribe_audio` or
//! `summarize_text`. Neither retries.

use vstd::prelude::*;
use vstd::slice::slice_to_vec;
use vstd::string::StringExecFns;

verus! {

/// Why an enrichment call gave no text.
#[derive(Debug)]
pub enum EnrichmentError {
    /// No provider credential was configured.
    MissingCredential,
    /// The provider answered with a status other than success; the text is
    /// the body of its answer.
    ProviderError(String),
    /// No complete answer arrived.
    TransportError,
    /// The provider answered with success and nothing usable.
    EmptyResponse,
}

/// What came back from one call to the provider.
#[derive(Debug)]
pub enum ProviderReply<T> {
    /// The exchange broke off: nothing was sent, no answer came, or the
    /// answer could not be read.
    Unreachable,
    /// An answer with a status other than success, and its body.
    Refused { detail: String },
    /// An answer with a success status, and its body.
    Answered { body: T },
}

/// One message of a chat.
#[derive(Debug)]
pub struct OpenAIMessage {
    pub role: String,
    pub content: String,
}

/// The body of a chat completion request.
#[derive(Debug)]
pub struct OpenAIChatRequest {
    pub model: String,
    pub messages: Vec<OpenAIMessage>,
    pub max_tokens: u32,
}

/// The body of a successful transcription answer.
#[derive(Debug)]
pub struct OpenAITranscriptionResponse {
    pub text: String,
}

/// One alternative of a chat completion answer.
#[derive(Debug)]
pub struct OpenAIChoice {
    pub message: OpenAIMessage,
}

/// The body of a successful chat completion answer.
#[derive(Debug)]
pub struct OpenAIChatResponse {
    pub choices: Vec<OpenAIChoice>,
}

/// A transcription call: a multipart form with the audio as a file and the
/// model's name, sent with the credential.
#[derive(Debug)]
pub struct TranscriptionCall {
    pub url: String,
    pub authorization: String,
    pub file_name: String,
    pub mime: String,
    pub model: String,
    pub audio_data: Vec<u8>,
}

/// A summary call: a chat completion request, sent with the credential.
#[derive(Debug)]
pub struct SummaryCall {
    pub url: String,
    pub authorization: String,
    pub content_type: String,
    pub body: OpenAIChatRequest,
}

/// The provider credential, checked once when the service is built.
pub struct AIService {
    api_key: String,
}

/// The value of the authorization header for a credential.
pub open spec fn bearer(api_key: Seq<char>) -> Seq<char> {
    "Bearer "@ + api_key
}

/// The request that opens a summary: it asks for `text` to be summarised.
pub open spec fn summary_prompt(text: Seq<char>) -> Seq<char> {
    "Please summarize this conversation:\n\n"@ + text
}

/// What a transcription answer means.
pub open spec fn transcription_of(reply: ProviderReply<OpenAITranscriptionResponse>) -> Result<
    Seq<char>,
    EnrichmentFailure,
> {
    match reply {
        ProviderReply::Unreachable => Err(EnrichmentFailure::TransportError),
        ProviderReply::Refused { detail } => Err(EnrichmentFailure::ProviderError(detail@)),
        ProviderReply::Answered { body } => Ok(body.text@),
    }
}

/// What a summary answer means: the text of the first alternative.
pub open spec fn summary_of(reply: ProviderReply<OpenAIChatResponse>) -> Result<
    Seq<char>,
    EnrichmentFailure,
> {
    match reply {
        ProviderReply::Unreachable => Err(EnrichmentFailure::TransportError),
        ProviderReply::Refused { detail } => Err(EnrichmentFailure::ProviderError(detail@)),
        ProviderReply::Answered { body } => if body.choices@.len() == 0 {
            Err(EnrichmentFailure::EmptyResponse)
        } else {
            Ok(body.choices@[0].message.content@)
        },
    }
}

/// An `EnrichmentError` as plain mathematical values.
pub enum EnrichmentFailure {
    MissingCredential,
    ProviderError(Seq<char>),
    TransportError,
    EmptyResponse,
}

impl View for EnrichmentError {
    type V = EnrichmentFailure;

    open spec fn view(&self) -> EnrichmentFailure {
        match self {
            EnrichmentError::MissingCredential => EnrichmentFailure::MissingCredential,
            EnrichmentError::ProviderError(detail) => EnrichmentFailure::ProviderError(detail@),
            EnrichmentError::TransportError => EnrichmentFailure::TransportError,
            EnrichmentError::EmptyResponse => EnrichmentFailure::EmptyResponse,
        }
    }
}

/// A text or an enrichment failure, as plain mathematical values.
pub open spec fn outcome_of(result: Result<String, EnrichmentError>) -> Result<
    Seq<char>,
    EnrichmentFailure,
> {
    match result {
        Ok(text) => Ok(text@),
        Err(e) => Err(e@),
    }
}

impl AIService {
    /// The credential that every call is sent with.
    pub closed spec fn credential(&self) -> Seq<char> {
        self.api_key@
    }

    /// Builds the service from the configured credential, and fails with
    /// `MissingCredential` where there is none: the check is made here, before
    /// any call is described.
    pub fn new(api_key: Option<String>) -> (result: Result<AIService, EnrichmentError>)
        ensures
            match result {
                Ok(service) => api_key matches Some(key) && service.credential() == key@,
                Err(e) => api_key is None && e@ == EnrichmentFailure::MissingCredential,
            },
    {
        match api_key {
            Some(key) => Ok(AIService { api_key: key }),
            None => Err(EnrichmentError::MissingCredential),
        }
    }

    /// Describes the call that transcribes `audio_data`.
    pub fn transcription_call(&self, audio_data: &[u8]) -> (call: TranscriptionCall)
        ensures
            call.url@ == "https://api.openai.com/v1/audio/transcriptions"@,
            call.authorization@ == bearer(self.credential()),
            call.file_name@ == "audio.wav"@,
            call.mime@ == "audio/wav"@,
            call.model@ == "whisper-1"@,
            call.audio_data@ == audio_data@,
    {
        let mut authorization = "Bearer ".to_owned();
        authorization.append(self.api_key.as_str());
        TranscriptionCall {
            url: "https://api.openai.com/v1/audio/transcriptions".to_owned(),
            authorization,
            file_name: "audio.wav".to_owned(),
            mime: "audio/wav".to_owned(),
            model: "whisper-1".to_owned(),
            audio_data: slice_to_vec(audio_data),
        }
    }

    /// Says what a transcription answer means: the text on success,
    /// `ProviderError` with the body on another status, `TransportError`
    /// where no answer could be read.
    pub fn transcribe_audio(&self, reply: &ProviderReply<OpenAITranscriptionResponse>) -> (result:
        Result<String, EnrichmentError>)
        ensures
            outcome_of(result) == transcription_of(*reply),
    {
        match reply {
            ProviderReply::Unreachable => Err(EnrichmentError::TransportError),
            ProviderReply::Refused { detail } => Err(EnrichmentError::ProviderError(detail.clone())),
            ProviderReply::Answered { body } => Ok(body.text.clone()),
        }
    }

    /// Describes the call that summarises `text`: a chat of two messages, the
    /// instruction to the assistant and the request with the text, answered
    /// in at most 500 tokens.
    pub fn summary_call(&self, text: &str) -> (call: SummaryCall)
        ensures
            call.url@ == "https://api.openai.com/v1/chat/completions"@,
            call.authorization@ == bearer(self.credential()),
            call.content_type@ == "application/json"@,
            call.body.model@ == "gpt-3.5-turbo"@,
            call.body.max_tokens == 500,
            call.body.messages@.len() == 2,
            call.body.messages@[0].role@ == "system"@,
            call.body.messages@[0].content@
                == "You are a helpful assistant that creates concise summaries of conversations. Focus on the key points and main topics discussed."@,
            call.body.messages@[1].role@ == "user"@,
            call.body.messages@[1].content@ == summary_prompt(text@),
    {
        let mut authorization = "Bearer ".to_owned();
        authorization.append(self.api_key.as_str());
        let mut content = "Please summarize this conversation:\n\n".to_owned();
        content.append(text);
        let mut messages: Vec<OpenAIMessage> = Vec::new();
        messages.push(
            OpenAIMessage {
                role: "system".to_owned(),
                content: "You are a helpful assistant that creates concise summaries of conversations. Focus on the key points and main topics discussed.".to_owned(),
            },
        );
        messages.push(OpenAIMessage { role: "user".to_owned(), content });
        SummaryCall {
            url: "https://api.openai.com/v1/chat/completions".to_owned(),
            authorization,
            content_type: "application/json".to_owned(),
            body: OpenAIChatRequest { model: "gpt-3.5-turbo".to_owned(), messages, max_tokens: 500 },
        }
    }

    /// Says what a summary answer means: the text of the first alternative on
    /// success, `EmptyResponse` where a successful answer holds none,
    /// `ProviderError` with the body on another status, `TransportError`
    /// where no answer could be read.
    pub fn summarize_text(&self, reply: &ProviderReply<OpenAIChatResponse>) -> (result: Result<
        String,
        EnrichmentError,
    >)
        ensures
            outcome_of(result) == summary_of(*reply),
    {
        match reply {
            ProviderReply::Unreachable => Err(EnrichmentError::TransportError),
            ProviderReply::Refused { detail } => Err(EnrichmentError::ProviderError(detail.clone())),
            ProviderReply::Answered { body } => {
                if body.choices.len() == 0 {
                    Err(EnrichmentError::EmptyResponse)
                } else {
                    Ok(body.choices[0].message.content.clone())
                }
            },
        }
    }
}

} // verus!
