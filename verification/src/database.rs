//! The recording store: one record per id, written once and then enriched by
//! two independent updates.
//!
//! Records are kept in the order in which they were created. No operation
//! reads a clock: the caller passes the time of each write.

use crate::models::{text_of, Recording, RecordingListItem, RecordingListItemView, RecordingView};
use vstd::prelude::*;
use vstd::slice::slice_to_vec;

verus! {

/// Why a store operation did not take place.
#[derive(Debug, Clone, Copy, PartialEq, Eq, Structural)]
pub enum StoreError {
    /// A record with that id exists already.
    DuplicateId,
    /// No record has that id.
    NotFound,
    /// The store has not been initialised.
    StoreUnavailable,
}

/// The records, oldest first.
pub struct RecordingStore {
    ready: bool,
    records: Vec<Recording>,
}

/// A store as plain mathematical values.
pub struct StoreView {
    pub ready: bool,
    pub records: Seq<RecordingView>,
}

/// The views of a run of recordings.
pub open spec fn views(records: Seq<Recording>) -> Seq<RecordingView> {
    records.map_values(|r: Recording| r@)
}

/// The views of a run of listing entries.
pub open spec fn item_views(items: Seq<RecordingListItem>) -> Seq<RecordingListItemView> {
    items.map_values(|e: RecordingListItem| e@)
}

impl View for RecordingStore {
    type V = StoreView;

    closed spec fn view(&self) -> StoreView {
        StoreView { ready: self.ready, records: views(self.records@) }
    }
}

/// Whether some record has the id.
pub open spec fn holds(records: Seq<RecordingView>, id: Seq<char>) -> bool {
    exists|i: int| 0 <= i < records.len() && (#[trigger] records[i]).id == id
}

/// Whether no two records share an id.
pub open spec fn distinct_ids(records: Seq<RecordingView>) -> bool {
    forall|i: int, j: int|
        0 <= i < j < records.len() ==> (#[trigger] records[i]).id != (#[trigger] records[j]).id
}

/// The oldest record with the id.
pub open spec fn lookup(records: Seq<RecordingView>, id: Seq<char>) -> Option<RecordingView>
    decreases records.len(),
{
    if records.len() == 0 {
        None
    } else if records[0].id == id {
        Some(records[0])
    } else {
        lookup(records.drop_first(), id)
    }
}

/// A record as it is right after its creation at time `now`.
pub open spec fn fresh(id: Seq<char>, title: Seq<char>, audio_data: Seq<u8>, now: i64)
    -> RecordingView {
    RecordingView {
        id,
        title,
        audio_data,
        transcription: None,
        summary: None,
        created_at: now,
        updated_at: now,
    }
}

impl RecordingView {
    /// This record after its transcription was written at time `now`.
    pub open spec fn with_transcription(self, text: Seq<char>, now: i64) -> RecordingView {
        RecordingView { transcription: Some(text), updated_at: now, ..self }
    }

    /// This record after its summary was written at time `now`.
    pub open spec fn with_summary(self, text: Seq<char>, now: i64) -> RecordingView {
        RecordingView { summary: Some(text), updated_at: now, ..self }
    }
}

/// The records after the transcription of `id` was written at time `now`.
pub open spec fn transcribed(
    records: Seq<RecordingView>,
    id: Seq<char>,
    text: Seq<char>,
    now: i64,
) -> Seq<RecordingView> {
    Seq::new(
        records.len(),
        |i: int|
            if records[i].id == id {
                records[i].with_transcription(text, now)
            } else {
                records[i]
            },
    )
}

/// The records after the summary of `id` was written at time `now`.
pub open spec fn summarized(
    records: Seq<RecordingView>,
    id: Seq<char>,
    text: Seq<char>,
    now: i64,
) -> Seq<RecordingView> {
    Seq::new(
        records.len(),
        |i: int|
            if records[i].id == id {
                records[i].with_summary(text, now)
            } else {
                records[i]
            },
    )
}

/// How many leading entries of a listing are at least as new as `created_at`:
/// the place where an entry of that time goes, behind those of the same time.
pub open spec fn slot(listing: Seq<RecordingListItemView>, created_at: i64) -> nat
    decreases listing.len(),
{
    if listing.len() == 0 || listing[0].created_at < created_at {
        0
    } else {
        1 + slot(listing.drop_first(), created_at)
    }
}

/// The listing of the records: newest first, and among records of one time
/// the one created first comes first.
pub open spec fn newest_first(records: Seq<RecordingView>) -> Seq<RecordingListItemView>
    decreases records.len(),
{
    if records.len() == 0 {
        Seq::empty()
    } else {
        let earlier = newest_first(records.drop_last());
        let item = records.last().list_item();
        earlier.insert(slot(earlier, item.created_at) as int, item)
    }
}

/// `lookup` finds the first record with the id, and nothing where none has it.
pub proof fn lemma_lookup(records: Seq<RecordingView>, id: Seq<char>, n: int)
    requires
        0 <= n <= records.len(),
        forall|i: int| 0 <= i < n ==> (#[trigger] records[i]).id != id,
        n < records.len() ==> records[n].id == id,
    ensures
        n < records.len() ==> lookup(records, id) == Some(records[n]),
        n == records.len() ==> lookup(records, id) is None,
    decreases records.len(),
{
    if n > 0 {
        let rest = records.drop_first();
        assert forall|i: int| 0 <= i < n - 1 implies (#[trigger] rest[i]).id != id by {
            assert(rest[i] == records[i + 1]);
        }
        lemma_lookup(rest, id, n - 1);
    }
}

/// `slot` is the length of the leading run of entries at least as new.
pub proof fn lemma_slot(listing: Seq<RecordingListItemView>, created_at: i64, n: int)
    requires
        0 <= n <= listing.len(),
        forall|i: int| 0 <= i < n ==> (#[trigger] listing[i]).created_at >= created_at,
        n < listing.len() ==> listing[n].created_at < created_at,
    ensures
        slot(listing, created_at) == n,
    decreases listing.len(),
{
    if n > 0 {
        let rest = listing.drop_first();
        assert forall|i: int| 0 <= i < n - 1 implies (#[trigger] rest[i]).created_at
            >= created_at by {
            assert(rest[i] == listing[i + 1]);
        }
        lemma_slot(rest, created_at, n - 1);
    }
}

/// A copy of an optional text.
fn copy_text(text: &Option<String>) -> (copy: Option<String>)
    ensures
        text_of(copy) == text_of(*text),
{
    match text {
        Some(s) => Some(s.clone()),
        None => None,
    }
}

impl RecordingStore {
    /// A store that holds nothing and has not been initialised.
    pub fn new() -> (store: RecordingStore)
        ensures
            !store@.ready,
            store@.records.len() == 0,
    {
        RecordingStore { ready: false, records: Vec::new() }
    }
}

/// Makes the store ready for use. Records that it holds stay as they are, so
/// a second call changes nothing.
pub fn init_db(store: &mut RecordingStore) -> (result: Result<(), StoreError>)
    ensures
        result is Ok,
        final(store)@.ready,
        final(store)@.records == old(store)@.records,
{
    store.ready = true;
    Ok(())
}

/// Creates the record `id` at time `now`, with no transcription and no summary.
///
/// Fails with `StoreUnavailable` on a store that was not initialised and with
/// `DuplicateId` where a record has the id already; the store is then
/// unchanged.
pub fn save_recording(
    store: &mut RecordingStore,
    id: &str,
    title: &str,
    audio_data: &[u8],
    now: i64,
) -> (result: Result<(), StoreError>)
    ensures
        final(store)@.ready == old(store)@.ready,
        !old(store)@.ready ==> result == Err::<(), StoreError>(StoreError::StoreUnavailable),
        old(store)@.ready && holds(old(store)@.records, id@) ==> result == Err::<(), StoreError>(
            StoreError::DuplicateId,
        ),
        old(store)@.ready && !holds(old(store)@.records, id@) ==> result is Ok,
        result is Err ==> final(store)@.records == old(store)@.records,
        result is Ok ==> final(store)@.records == old(store)@.records.push(
            fresh(id@, title@, audio_data@, now),
        ),
{
    if !store.ready {
        return Err(StoreError::StoreUnavailable);
    }
    let key = id.to_owned();
    let n = store.records.len();
    let mut i: usize = 0;
    while i < n
        invariant
            n == store.records@.len(),
            0 <= i <= n,
            key@ == id@,
            store.ready,
            *store == *old(store),
            forall|k: int| 0 <= k < i ==> (#[trigger] views(store.records@)[k]).id != id@,
        decreases n - i,
    {
        if store.records[i].id == key {
            assert(views(store.records@)[i as int].id == id@);
            return Err(StoreError::DuplicateId);
        }
        i = i + 1;
    }
    let record = Recording {
        id: key,
        title: title.to_owned(),
        audio_data: slice_to_vec(audio_data),
        transcription: None,
        summary: None,
        created_at: now,
        updated_at: now,
    };
    store.records.push(record);
    assert(views(store.records@) =~= views(old(store).records@).push(
        fresh(id@, title@, audio_data@, now),
    ));
    Ok(())
}

/// Writes the transcription of the record `id` at time `now`, over any
/// earlier one.
///
/// Fails with `StoreUnavailable` on a store that was not initialised and with
/// `NotFound` where no record has the id; the store is then unchanged.
pub fn update_transcription(
    store: &mut RecordingStore,
    id: &str,
    transcription: &str,
    now: i64,
) -> (result: Result<(), StoreError>)
    ensures
        final(store)@.ready == old(store)@.ready,
        !old(store)@.ready ==> result == Err::<(), StoreError>(StoreError::StoreUnavailable),
        old(store)@.ready && !holds(old(store)@.records, id@) ==> result == Err::<(), StoreError>(
            StoreError::NotFound,
        ),
        old(store)@.ready && holds(old(store)@.records, id@) ==> result is Ok,
        result is Err ==> final(store)@.records == old(store)@.records,
        result is Ok ==> final(store)@.records == transcribed(
            old(store)@.records,
            id@,
            transcription@,
            now,
        ),
{
    if !store.ready {
        return Err(StoreError::StoreUnavailable);
    }
    let key = id.to_owned();
    let n = store.records.len();
    let mut found = false;
    let mut i: usize = 0;
    while i < n
        invariant
            n == store.records@.len(),
            n == old(store).records@.len(),
            0 <= i <= n,
            key@ == id@,
            store.ready == old(store).ready,
            found <==> exists|k: int|
                0 <= k < i && (#[trigger] views(old(store).records@)[k]).id == id@,
            forall|k: int|
                0 <= k < i ==> (#[trigger] views(store.records@)[k]) == transcribed(
                    views(old(store).records@),
                    id@,
                    transcription@,
                    now,
                )[k],
            forall|k: int| i <= k < n ==> (#[trigger] store.records@[k]) == old(store).records@[k],
        decreases n - i,
    {
        let ghost before = store.records@;
        assert(before[i as int] == old(store).records@[i as int]);
        assert(views(old(store).records@)[i as int] == before[i as int]@);
        if store.records[i].id == key {
            store.records[i].transcription = Some(transcription.to_owned());
            store.records[i].updated_at = now;
            found = true;
            assert(store.records@[i as int]@ == before[i as int]@.with_transcription(transcription@, now));
        }
        assert forall|k: int| 0 <= k < i + 1 implies (#[trigger] views(store.records@)[k])
            == transcribed(views(old(store).records@), id@, transcription@, now)[k] by {
            if k < i {
                assert(store.records@[k] == before[k]);
                assert(views(before)[k] == transcribed(
                    views(old(store).records@),
                    id@,
                    transcription@,
                    now,
                )[k]);
            }
        }
        assert forall|k: int| i + 1 <= k < n implies (#[trigger] store.records@[k]) == old(
            store,
        ).records@[k] by {
            assert(store.records@[k] == before[k]);
        }
        i = i + 1;
    }
    if found {
        assert(views(store.records@) =~= transcribed(
            views(old(store).records@),
            id@,
            transcription@,
            now,
        ));
        Ok(())
    } else {
        assert(views(store.records@) =~= views(old(store).records@));
        Err(StoreError::NotFound)
    }
}

/// Writes the summary of the record `id` at time `now`, over any earlier one.
///
/// Fails with `StoreUnavailable` on a store that was not initialised and with
/// `NotFound` where no record has the id; the store is then unchanged.
pub fn update_summary(store: &mut RecordingStore, id: &str, summary: &str, now: i64) -> (result:
    Result<(), StoreError>)
    ensures
        final(store)@.ready == old(store)@.ready,
        !old(store)@.ready ==> result == Err::<(), StoreError>(StoreError::StoreUnavailable),
        old(store)@.ready && !holds(old(store)@.records, id@) ==> result == Err::<(), StoreError>(
            StoreError::NotFound,
        ),
        old(store)@.ready && holds(old(store)@.records, id@) ==> result is Ok,
        result is Err ==> final(store)@.records == old(store)@.records,
        result is Ok ==> final(store)@.records == summarized(
            old(store)@.records,
            id@,
            summary@,
            now,
        ),
{
    if !store.ready {
        return Err(StoreError::StoreUnavailable);
    }
    let key = id.to_owned();
    let n = store.records.len();
    let mut found = false;
    let mut i: usize = 0;
    while i < n
        invariant
            n == store.records@.len(),
            n == old(store).records@.len(),
            0 <= i <= n,
            key@ == id@,
            store.ready == old(store).ready,
            found <==> exists|k: int|
                0 <= k < i && (#[trigger] views(old(store).records@)[k]).id == id@,
            forall|k: int|
                0 <= k < i ==> (#[trigger] views(store.records@)[k]) == summarized(
                    views(old(store).records@),
                    id@,
                    summary@,
                    now,
                )[k],
            forall|k: int| i <= k < n ==> (#[trigger] store.records@[k]) == old(store).records@[k],
        decreases n - i,
    {
        let ghost before = store.records@;
        assert(before[i as int] == old(store).records@[i as int]);
        assert(views(old(store).records@)[i as int] == before[i as int]@);
        if store.records[i].id == key {
            store.records[i].summary = Some(summary.to_owned());
            store.records[i].updated_at = now;
            found = true;
            assert(store.records@[i as int]@ == before[i as int]@.with_summary(summary@, now));
        }
        assert forall|k: int| 0 <= k < i + 1 implies (#[trigger] views(store.records@)[k])
            == summarized(views(old(store).records@), id@, summary@, now)[k] by {
            if k < i {
                assert(store.records@[k] == before[k]);
                assert(views(before)[k] == summarized(
                    views(old(store).records@),
                    id@,
                    summary@,
                    now,
                )[k]);
            }
        }
        assert forall|k: int| i + 1 <= k < n implies (#[trigger] store.records@[k]) == old(
            store,
        ).records@[k] by {
            assert(store.records@[k] == before[k]);
        }
        i = i + 1;
    }
    if found {
        assert(views(store.records@) =~= summarized(
            views(old(store).records@),
            id@,
            summary@,
            now,
        ));
        Ok(())
    } else {
        assert(views(store.records@) =~= views(old(store).records@));
        Err(StoreError::NotFound)
    }
}

/// Lists every record without its audio, newest first; records of one time
/// come in the order of their creation.
///
/// Fails with `StoreUnavailable` on a store that was not initialised.
pub fn get_all_recordings(store: &RecordingStore) -> (result: Result<
    Vec<RecordingListItem>,
    StoreError,
>)
    ensures
        match result {
            Ok(listing) => store@.ready && item_views(listing@) == newest_first(store@.records),
            Err(e) => !store@.ready && e == StoreError::StoreUnavailable,
        },
{
    if !store.ready {
        return Err(StoreError::StoreUnavailable);
    }
    let n = store.records.len();
    let mut listing: Vec<RecordingListItem> = Vec::new();
    let mut k: usize = 0;
    while k < n
        invariant
            n == store.records@.len(),
            0 <= k <= n,
            item_views(listing@) == newest_first(views(store.records@).take(k as int)),
        decreases n - k,
    {
        let record = &store.records[k];
        let item = RecordingListItem {
            id: record.id.clone(),
            title: record.title.clone(),
            transcription: copy_text(&record.transcription),
            summary: copy_text(&record.summary),
            created_at: record.created_at,
            updated_at: record.updated_at,
        };
        let m = listing.len();
        let mut p: usize = 0;
        while p < m && listing[p].created_at >= item.created_at
            invariant
                m == listing@.len(),
                0 <= p <= m,
                forall|i: int|
                    0 <= i < p ==> (#[trigger] item_views(listing@)[i]).created_at
                        >= item.created_at,
            decreases m - p,
        {
            p = p + 1;
        }
        proof {
            let all = views(store.records@);
            let before = item_views(listing@);
            lemma_slot(before, item.created_at, p as int);
            assert(all.take(k as int + 1).drop_last() =~= all.take(k as int));
            assert(all.take(k as int + 1).last() == all[k as int]);
            assert(item@ == all[k as int].list_item());
        }
        let ghost before = item_views(listing@);
        let ghost entry = item@;
        listing.insert(p, item);
        assert(item_views(listing@) =~= before.insert(p as int, entry));
        k = k + 1;
    }
    assert(views(store.records@).take(n as int) =~= views(store.records@));
    Ok(listing)
}

/// Finds the record `id`. That there is none is an answer, not an error.
///
/// Fails with `StoreUnavailable` on a store that was not initialised.
pub fn get_recording(store: &RecordingStore, id: &str) -> (result: Result<
    Option<Recording>,
    StoreError,
>)
    ensures
        match result {
            Ok(Some(record)) => store@.ready && lookup(store@.records, id@) == Some(record@),
            Ok(None) => store@.ready && lookup(store@.records, id@) is None,
            Err(e) => !store@.ready && e == StoreError::StoreUnavailable,
        },
{
    if !store.ready {
        return Err(StoreError::StoreUnavailable);
    }
    let key = id.to_owned();
    let n = store.records.len();
    let mut i: usize = 0;
    while i < n
        invariant
            n == store.records@.len(),
            0 <= i <= n,
            key@ == id@,
            store.ready,
            forall|k: int| 0 <= k < i ==> (#[trigger] views(store.records@)[k]).id != id@,
        decreases n - i,
    {
        if store.records[i].id == key {
            let record = &store.records[i];
            let copy = Recording {
                id: record.id.clone(),
                title: record.title.clone(),
                audio_data: slice_to_vec(record.audio_data.as_slice()),
                transcription: copy_text(&record.transcription),
                summary: copy_text(&record.summary),
                created_at: record.created_at,
                updated_at: record.updated_at,
            };
            proof {
                lemma_lookup(views(store.records@), id@, i as int);
                assert(copy@ == views(store.records@)[i as int]);
            }
            return Ok(Some(copy));
        }
        i = i + 1;
    }
    proof {
        lemma_lookup(views(store.records@), id@, n as int);
    }
    Ok(None)
}

} // verus!
