use voiceai::database::{
    get_all_recordings, get_recording, init_db, save_recording, update_summary,
    update_transcription, RecordingStore, StoreError,
};

fn ready() -> RecordingStore {
    let mut store = RecordingStore::new();
    assert_eq!(init_db(&mut store), Ok(()));
    store
}

#[test]
fn a_created_record_is_found_as_submitted() {
    let mut store = ready();
    assert_eq!(save_recording(&mut store, "x", "t1", b"Hello", 100), Ok(()));
    let found = get_recording(&store, "x").unwrap().unwrap();
    assert_eq!(found.id, "x");
    assert_eq!(found.title, "t1");
    assert_eq!(found.audio_data, b"Hello".to_vec());
    assert_eq!(found.transcription, None);
    assert_eq!(found.summary, None);
    assert_eq!(found.created_at, 100);
    assert_eq!(found.updated_at, 100);
}

#[test]
fn an_unknown_id_is_absent_not_an_error() {
    let mut store = ready();
    assert!(matches!(get_recording(&store, "x"), Ok(None)));
    save_recording(&mut store, "x", "t", b"a", 1).unwrap();
    assert!(matches!(get_recording(&store, "y"), Ok(None)));
}

#[test]
fn a_second_record_of_one_id_is_refused() {
    let mut store = ready();
    assert_eq!(save_recording(&mut store, "x", "first", b"a", 1), Ok(()));
    assert_eq!(save_recording(&mut store, "x", "second", b"b", 2), Err(StoreError::DuplicateId));
    let found = get_recording(&store, "x").unwrap().unwrap();
    assert_eq!(found.title, "first");
    assert_eq!(found.audio_data, b"a".to_vec());
    assert_eq!(get_all_recordings(&store).unwrap().len(), 1);
}

#[test]
fn a_transcription_shows_and_leaves_the_summary_absent() {
    let mut store = ready();
    save_recording(&mut store, "x", "t", b"a", 10).unwrap();
    assert_eq!(update_transcription(&mut store, "x", "hello", 12), Ok(()));
    let found = get_recording(&store, "x").unwrap().unwrap();
    assert_eq!(found.transcription, Some("hello".to_string()));
    assert_eq!(found.summary, None);
    assert_eq!(found.created_at, 10);
    assert_eq!(found.updated_at, 12);
    assert!(found.updated_at >= found.created_at);
    assert_eq!(found.audio_data, b"a".to_vec());
}

#[test]
fn a_summary_shows_and_keeps_the_transcription() {
    let mut store = ready();
    save_recording(&mut store, "x", "t", b"a", 10).unwrap();
    update_transcription(&mut store, "x", "hello", 12).unwrap();
    assert_eq!(update_summary(&mut store, "x", "greeting", 15), Ok(()));
    let found = get_recording(&store, "x").unwrap().unwrap();
    assert_eq!(found.transcription, Some("hello".to_string()));
    assert_eq!(found.summary, Some("greeting".to_string()));
    assert_eq!(found.updated_at, 15);
}

#[test]
fn a_write_overwrites_an_earlier_one() {
    let mut store = ready();
    save_recording(&mut store, "x", "t", b"a", 10).unwrap();
    update_transcription(&mut store, "x", "one", 11).unwrap();
    update_transcription(&mut store, "x", "two", 12).unwrap();
    let found = get_recording(&store, "x").unwrap().unwrap();
    assert_eq!(found.transcription, Some("two".to_string()));
}

#[test]
fn a_write_to_an_unknown_id_is_refused() {
    let mut store = ready();
    save_recording(&mut store, "x", "t", b"a", 10).unwrap();
    assert_eq!(update_transcription(&mut store, "y", "hello", 12), Err(StoreError::NotFound));
    assert_eq!(update_summary(&mut store, "y", "hello", 12), Err(StoreError::NotFound));
    let found = get_recording(&store, "x").unwrap().unwrap();
    assert_eq!(found.transcription, None);
    assert_eq!(found.updated_at, 10);
}

#[test]
fn a_write_touches_no_other_record() {
    let mut store = ready();
    save_recording(&mut store, "x", "tx", b"a", 10).unwrap();
    save_recording(&mut store, "y", "ty", b"b", 11).unwrap();
    update_transcription(&mut store, "y", "hello", 12).unwrap();
    let other = get_recording(&store, "x").unwrap().unwrap();
    assert_eq!(other.transcription, None);
    assert_eq!(other.updated_at, 10);
}

#[test]
fn a_store_that_was_not_initialised_is_unavailable() {
    let mut store = RecordingStore::new();
    assert_eq!(save_recording(&mut store, "x", "t", b"a", 1), Err(StoreError::StoreUnavailable));
    assert_eq!(update_transcription(&mut store, "x", "h", 1), Err(StoreError::StoreUnavailable));
    assert_eq!(update_summary(&mut store, "x", "h", 1), Err(StoreError::StoreUnavailable));
    assert!(matches!(get_recording(&store, "x"), Err(StoreError::StoreUnavailable)));
    assert!(matches!(get_all_recordings(&store), Err(StoreError::StoreUnavailable)));
}

#[test]
fn initialising_again_keeps_the_records() {
    let mut store = ready();
    save_recording(&mut store, "x", "t", b"a", 1).unwrap();
    assert_eq!(init_db(&mut store), Ok(()));
    assert!(get_recording(&store, "x").unwrap().is_some());
    assert_eq!(get_all_recordings(&store).unwrap().len(), 1);
}

#[test]
fn the_later_record_is_listed_first() {
    let mut store = ready();
    save_recording(&mut store, "a", "first", b"1", 100).unwrap();
    save_recording(&mut store, "b", "second", b"2", 200).unwrap();
    let listing = get_all_recordings(&store).unwrap();
    let ids: Vec<&str> = listing.iter().map(|e| e.id.as_str()).collect();
    assert_eq!(ids, vec!["b", "a"]);
}

#[test]
fn records_of_one_time_keep_their_order() {
    let mut store = ready();
    save_recording(&mut store, "a", "t", b"1", 5).unwrap();
    save_recording(&mut store, "b", "t", b"2", 9).unwrap();
    save_recording(&mut store, "c", "t", b"3", 5).unwrap();
    save_recording(&mut store, "d", "t", b"4", 9).unwrap();
    save_recording(&mut store, "e", "t", b"5", 7).unwrap();
    save_recording(&mut store, "f", "t", b"6", 1).unwrap();
    let listing = get_all_recordings(&store).unwrap();
    let ids: Vec<&str> = listing.iter().map(|e| e.id.as_str()).collect();
    assert_eq!(ids, vec!["b", "d", "e", "a", "c", "f"]);
}

#[test]
fn a_listing_entry_shows_all_but_the_audio() {
    let mut store = ready();
    save_recording(&mut store, "a", "title", b"1", 5).unwrap();
    update_transcription(&mut store, "a", "hello", 6).unwrap();
    update_summary(&mut store, "a", "greeting", 7).unwrap();
    let listing = get_all_recordings(&store).unwrap();
    assert_eq!(listing.len(), 1);
    assert_eq!(listing[0].id, "a");
    assert_eq!(listing[0].title, "title");
    assert_eq!(listing[0].transcription, Some("hello".to_string()));
    assert_eq!(listing[0].summary, Some("greeting".to_string()));
    assert_eq!(listing[0].created_at, 5);
    assert_eq!(listing[0].updated_at, 7);
}

#[test]
fn an_empty_store_lists_nothing() {
    let store = ready();
    assert_eq!(get_all_recordings(&store).unwrap().len(), 0);
}
