use voiceai::database::{
    get_recording, init_db, save_recording, update_summary, update_transcription, RecordingStore,
    StoreError,
};
use voiceai::handlers::{record_audio, submit, Action, Event, Ingestion, Stage};
use voiceai::models::RecordAudioRequest;
use voiceai::services::EnrichmentError;

const ACCEPTED: &str = "Recording saved successfully. Processing transcription and summary...";

fn request(title: &str, audio: &str) -> RecordAudioRequest {
    RecordAudioRequest { title: title.to_string(), audio_data: audio.to_string() }
}

fn ready() -> RecordingStore {
    let mut store = RecordingStore::new();
    init_db(&mut store).unwrap();
    store
}

/// Does what a write action asks of the store, and reports it.
fn perform(store: &mut RecordingStore, action: &Action, now: i64) -> Option<Event> {
    match action {
        Action::Create { id, title, audio_data } => {
            Some(Event::Created(save_recording(store, id, title, audio_data, now)))
        }
        Action::SaveTranscription { id, text } => {
            Some(Event::TranscriptionSaved(update_transcription(store, id, text, now)))
        }
        Action::SaveSummary { id, text } => {
            Some(Event::SummarySaved(update_summary(store, id, text, now)))
        }
        _ => None,
    }
}

fn stored(store: &mut RecordingStore, id: &str) -> Ingestion {
    let (ingestion, create) = submit(id.to_string(), request("t1", "SGVsbG8="));
    let mut ingestion = ingestion.unwrap();
    let report = perform(store, &create, 100).unwrap();
    assert!(matches!(ingestion.advance(report), Action::Accept { .. }));
    ingestion
}

#[test]
fn a_submission_is_decoded_and_asks_for_its_record() {
    let (ingestion, action) = submit("id-1".to_string(), request("t1", "SGVsbG8="));
    let ingestion = ingestion.unwrap();
    assert_eq!(ingestion.stage(), Stage::Submitted);
    assert_eq!(ingestion.id(), "id-1");
    match action {
        Action::Create { id, title, audio_data } => {
            assert_eq!(id, "id-1");
            assert_eq!(title, "t1");
            assert_eq!(audio_data, b"Hello".to_vec());
        }
        other => panic!("{:?}", other),
    }
}

#[test]
fn a_submission_that_does_not_decode_is_refused() {
    let (ingestion, action) = submit("id-1".to_string(), request("t1", "SGV*bG8="));
    assert!(ingestion.is_none());
    match action {
        Action::Reject { reply } => {
            assert_eq!(reply.status, 400);
            assert!(!reply.body.success);
            assert!(reply.body.data.is_none());
            assert_eq!(reply.body.error, Some("Invalid audio data format".to_string()));
        }
        other => panic!("{:?}", other),
    }
}

#[test]
fn an_accepted_submission_answers_with_its_id() {
    let mut store = ready();
    let (ingestion, create) = submit("id-1".to_string(), request("t1", "SGVsbG8="));
    let mut ingestion = ingestion.unwrap();
    let report = perform(&mut store, &create, 100).unwrap();
    match ingestion.advance(report) {
        Action::Accept { reply, audio_data } => {
            assert_eq!(reply.status, 200);
            assert!(reply.body.success);
            assert!(reply.body.error.is_none());
            let data = reply.body.data.unwrap();
            assert_eq!(data.id, "id-1");
            assert_eq!(data.message, ACCEPTED);
            assert_eq!(audio_data, b"Hello".to_vec());
        }
        other => panic!("{:?}", other),
    }
    assert_eq!(ingestion.stage(), Stage::Stored);
    let found = get_recording(&store, "id-1").unwrap().unwrap();
    assert_eq!(found.title, "t1");
    assert_eq!(found.audio_data, b"Hello".to_vec());
    assert_eq!(found.transcription, None);
    assert_eq!(found.summary, None);
}

#[test]
fn a_refused_creation_is_answered_with_a_failure() {
    let mut store = RecordingStore::new();
    let (ingestion, create) = submit("id-1".to_string(), request("t1", "SGVsbG8="));
    let mut ingestion = ingestion.unwrap();
    let report = perform(&mut store, &create, 100).unwrap();
    match ingestion.advance(report) {
        Action::Reject { reply } => {
            assert_eq!(reply.status, 500);
            assert!(!reply.body.success);
            assert!(reply.body.data.is_none());
            assert_eq!(reply.body.error, Some("Failed to save recording".to_string()));
        }
        other => panic!("{:?}", other),
    }
    assert_eq!(ingestion.stage(), Stage::Submitted);
}

#[test]
fn a_duplicate_id_is_answered_with_a_failure() {
    let mut store = ready();
    stored(&mut store, "id-1");
    let (ingestion, create) = submit("id-1".to_string(), request("again", "TWFu"));
    let mut ingestion = ingestion.unwrap();
    let report = perform(&mut store, &create, 200).unwrap();
    assert!(matches!(report, Event::Created(Err(StoreError::DuplicateId))));
    assert!(matches!(ingestion.advance(report), Action::Reject { .. }));
    assert_eq!(get_recording(&store, "id-1").unwrap().unwrap().title, "t1");
}

#[test]
fn enrichment_runs_to_the_summary() {
    let mut store = ready();
    let mut ingestion = stored(&mut store, "id-1");

    let save = ingestion.advance(Event::Transcribed(Ok("hello".to_string())));
    assert_eq!(ingestion.stage(), Stage::Transcribing);
    match &save {
        Action::SaveTranscription { id, text } => {
            assert_eq!(id, "id-1");
            assert_eq!(text, "hello");
        }
        other => panic!("{:?}", other),
    }
    let report = perform(&mut store, &save, 110).unwrap();
    match ingestion.advance(report) {
        Action::Summarize { text } => assert_eq!(text, "hello"),
        other => panic!("{:?}", other),
    }
    assert_eq!(ingestion.stage(), Stage::Transcribed);

    let save = ingestion.advance(Event::Summarized(Ok("greeting".to_string())));
    assert_eq!(ingestion.stage(), Stage::Summarizing);
    match &save {
        Action::SaveSummary { id, text } => {
            assert_eq!(id, "id-1");
            assert_eq!(text, "greeting");
        }
        other => panic!("{:?}", other),
    }
    let report = perform(&mut store, &save, 120).unwrap();
    assert!(matches!(ingestion.advance(report), Action::Stop));
    assert_eq!(ingestion.stage(), Stage::Summarized);

    let found = get_recording(&store, "id-1").unwrap().unwrap();
    assert_eq!(found.transcription, Some("hello".to_string()));
    assert_eq!(found.summary, Some("greeting".to_string()));
    assert_eq!(found.created_at, 100);
    assert_eq!(found.updated_at, 120);
}

#[test]
fn a_failed_transcription_ends_the_work() {
    let mut store = ready();
    let mut ingestion = stored(&mut store, "id-1");
    let action = ingestion.advance(Event::Transcribed(Err(EnrichmentError::TransportError)));
    assert!(matches!(action, Action::Stop));
    assert_eq!(ingestion.stage(), Stage::TranscriptionFailed);
    let found = get_recording(&store, "id-1").unwrap().unwrap();
    assert_eq!(found.transcription, None);
    assert_eq!(found.summary, None);
}

#[test]
fn a_failed_write_of_the_transcription_ends_the_work() {
    let mut store = ready();
    let mut ingestion = stored(&mut store, "id-1");
    ingestion.advance(Event::Transcribed(Ok("hello".to_string())));
    let action = ingestion.advance(Event::TranscriptionSaved(Err(StoreError::StoreUnavailable)));
    assert!(matches!(action, Action::Stop));
    assert_eq!(ingestion.stage(), Stage::TranscriptionFailed);
}

#[test]
fn a_failed_summary_keeps_the_transcription() {
    let mut store = ready();
    let mut ingestion = stored(&mut store, "id-1");
    let save = ingestion.advance(Event::Transcribed(Ok("hello".to_string())));
    let report = perform(&mut store, &save, 110).unwrap();
    ingestion.advance(report);
    let failure = EnrichmentError::ProviderError("overloaded".to_string());
    assert!(matches!(ingestion.advance(Event::Summarized(Err(failure))), Action::Stop));
    assert_eq!(ingestion.stage(), Stage::SummarizationFailed);

    let later = [
        Event::Summarized(Ok("late".to_string())),
        Event::SummarySaved(Ok(())),
        Event::Transcribed(Ok("again".to_string())),
        Event::TranscriptionSaved(Ok(())),
        Event::Created(Ok(())),
    ];
    for event in later {
        let action = ingestion.advance(event);
        assert!(perform(&mut store, &action, 500).is_none());
        assert!(matches!(action, Action::Stop));
        assert_eq!(ingestion.stage(), Stage::SummarizationFailed);
    }
    let found = get_recording(&store, "id-1").unwrap().unwrap();
    assert_eq!(found.transcription, Some("hello".to_string()));
    assert_eq!(found.summary, None);
    assert_eq!(found.updated_at, 110);
}

#[test]
fn a_failed_write_of_the_summary_ends_the_work() {
    let mut store = ready();
    let mut ingestion = stored(&mut store, "id-1");
    let save = ingestion.advance(Event::Transcribed(Ok("hello".to_string())));
    let report = perform(&mut store, &save, 110).unwrap();
    ingestion.advance(report);
    ingestion.advance(Event::Summarized(Ok("greeting".to_string())));
    let action = ingestion.advance(Event::SummarySaved(Err(StoreError::NotFound)));
    assert!(matches!(action, Action::Stop));
    assert_eq!(ingestion.stage(), Stage::SummarizationFailed);
}

#[test]
fn an_event_that_is_not_awaited_changes_nothing() {
    let mut store = ready();
    let mut ingestion = stored(&mut store, "id-1");
    assert!(matches!(ingestion.advance(Event::Summarized(Ok("s".to_string()))), Action::Stop));
    assert_eq!(ingestion.stage(), Stage::Stored);
    assert!(matches!(ingestion.advance(Event::SummarySaved(Ok(()))), Action::Stop));
    assert_eq!(ingestion.stage(), Stage::Stored);
    assert!(matches!(ingestion.advance(Event::Created(Ok(()))), Action::Stop));
    assert_eq!(ingestion.stage(), Stage::Stored);
}

#[test]
fn a_finished_ingestion_stays_finished() {
    let mut store = ready();
    let mut ingestion = stored(&mut store, "id-1");
    let save = ingestion.advance(Event::Transcribed(Ok("hello".to_string())));
    let report = perform(&mut store, &save, 110).unwrap();
    ingestion.advance(report);
    let save = ingestion.advance(Event::Summarized(Ok("greeting".to_string())));
    let report = perform(&mut store, &save, 120).unwrap();
    ingestion.advance(report);
    assert_eq!(ingestion.stage(), Stage::Summarized);
    assert!(matches!(ingestion.advance(Event::Transcribed(Ok("x".to_string()))), Action::Stop));
    assert_eq!(ingestion.stage(), Stage::Summarized);
    let found = get_recording(&store, "id-1").unwrap().unwrap();
    assert_eq!(found.transcription, Some("hello".to_string()));
    assert_eq!(found.summary, Some("greeting".to_string()));
}

fn is_hyphenated(id: &str) -> bool {
    id.len() == 36
        && id.chars().enumerate().all(|(i, c)| {
            if i == 8 || i == 13 || i == 18 || i == 23 {
                c == '-'
            } else {
                c.is_ascii_digit() || ('a'..='f').contains(&c)
            }
        })
}

#[test]
fn a_drawn_id_is_a_hyphenated_uuid() {
    let (ingestion, action) = record_audio(request("t1", "SGVsbG8="));
    let ingestion = ingestion.unwrap();
    assert!(is_hyphenated(ingestion.id()));
    match action {
        Action::Create { id, title, audio_data } => {
            assert_eq!(id, ingestion.id());
            assert_eq!(title, "t1");
            assert_eq!(audio_data, b"Hello".to_vec());
        }
        other => panic!("{:?}", other),
    }
}

#[test]
fn drawn_ids_differ() {
    let (first, _) = record_audio(request("a", "TWFu"));
    let (second, _) = record_audio(request("a", "TWFu"));
    assert_ne!(first.unwrap().id(), second.unwrap().id());
}

#[test]
fn a_drawn_id_does_not_save_a_submission_that_does_not_decode() {
    let (ingestion, action) = record_audio(request("t1", "no audio"));
    assert!(ingestion.is_none());
    assert!(matches!(action, Action::Reject { .. }));
}
