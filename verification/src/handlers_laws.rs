//! What holds of an ingestion as it moves through its stages, alone and
//! together with the store that its actions write to.

use crate::base64::{accepted, decoded};
use crate::database::{fresh, holds, lookup, summarized, transcribed};
use crate::database_laws::{
    law_creation_leaves_the_others,
    law_summary_is_found,
    law_transcription_is_found,
    law_update_leaves_the_others,
    lemma_lookup_after_push,
    lemma_lookup_finds,
};
use crate::handlers::{
    acceptance,
    opening,
    refusal,
    step,
    ActionView,
    EventView,
    IngestionView,
    Stage,
};
use crate::models::RecordingView;
use vstd::prelude::*;

verus! {

/// How far a stage is from the submission. The three stages in which the
/// work has ended are the farthest.
pub open spec fn depth(stage: Stage) -> nat {
    match stage {
        Stage::Submitted => 0,
        Stage::Stored => 1,
        Stage::Transcribing => 2,
        Stage::Transcribed => 3,
        Stage::Summarizing => 4,
        Stage::Summarized => 5,
        Stage::TranscriptionFailed => 5,
        Stage::SummarizationFailed => 5,
    }
}

/// Whether the work has ended, well or not.
pub open spec fn ended(stage: Stage) -> bool {
    stage == Stage::Summarized || stage == Stage::TranscriptionFailed || stage
        == Stage::SummarizationFailed
}

/// Whether no write to the store is under way: the ingestion waits for the
/// provider, or its work has ended.
pub open spec fn at_rest(stage: Stage) -> bool {
    stage == Stage::Stored || stage == Stage::Transcribed || ended(stage)
}

/// Law: no event takes an ingestion back. Whatever arrives, the stage stays
/// or moves farther from the submission, and the id stays.
pub proof fn law_stages_only_advance(s: IngestionView, event: EventView)
    ensures
        step(s, event).0.id == s.id,
        step(s, event).0.stage == s.stage || depth(step(s, event).0.stage) > depth(s.stage),
{
}

/// Law: once the work has ended, every event leaves the ingestion as it is
/// and asks for nothing. No failed stage is tried again.
pub proof fn law_ended_work_stays_ended(s: IngestionView, event: EventView)
    requires
        ended(s.stage),
    ensures
        step(s, event) == (s, ActionView::Stop),
{
}

/// Law: each failure has its place. An ingestion fails its transcription
/// only while the transcription is fetched or written, and its summary only
/// while the summary is fetched or written.
pub proof fn law_failures_have_their_place(s: IngestionView, event: EventView)
    requires
        step(s, event).0.stage != s.stage,
    ensures
        step(s, event).0.stage == Stage::TranscriptionFailed ==> s.stage == Stage::Stored
            || s.stage == Stage::Transcribing,
        step(s, event).0.stage == Stage::SummarizationFailed ==> s.stage == Stage::Transcribed
            || s.stage == Stage::Summarizing,
{
}

/// Law: every answer to the caller is a well-formed envelope: the answer to
/// a submission, at its opening or after any event, has data exactly where
/// it reports success and an error exactly where it does not.
pub proof fn law_answers_are_well_formed(
    s: IngestionView,
    event: EventView,
    id: Seq<char>,
    title: Seq<char>,
    audio_text: Seq<u8>,
)
    ensures
        step(s, event).1 matches ActionView::Accept { reply, .. } ==> reply.well_formed()
            && reply.success,
        step(s, event).1 matches ActionView::Reject { reply } ==> reply.well_formed()
            && !reply.success,
        opening(id, title, audio_text).1 matches ActionView::Reject { reply }
            ==> reply.well_formed() && !reply.success,
        !(opening(id, title, audio_text).1 is Accept),
{
}

/// Law: an event that a stage does not wait for changes nothing and asks
/// for nothing.
pub proof fn law_stray_events_are_ignored(s: IngestionView, event: EventView)
    requires
        !awaited(s.stage, event),
    ensures
        step(s, event) == (s, ActionView::Stop),
{
}

/// Whether `event` is the one that `stage` waits for.
pub open spec fn awaited(stage: Stage, event: EventView) -> bool {
    match (stage, event) {
        (Stage::Submitted, EventView::Created(_)) => true,
        (Stage::Stored, EventView::Transcribed(_)) => true,
        (Stage::Transcribing, EventView::TranscriptionSaved(_)) => true,
        (Stage::Transcribed, EventView::Summarized(_)) => true,
        (Stage::Summarizing, EventView::SummarySaved(_)) => true,
        _ => false,
    }
}

/// What the store makes of an action: the records after it and the event
/// that reports it, or nothing for an action that is not a write. A store
/// that is not `up` refuses every write and keeps its records.
pub open spec fn written(records: Seq<RecordingView>, action: ActionView, up: bool, now: i64)
    -> Option<(Seq<RecordingView>, EventView)> {
    match action {
        ActionView::Create { id, title, audio_data } => Some(
            if up && !holds(records, id) {
                (records.push(fresh(id, title, audio_data, now)), EventView::Created(true))
            } else {
                (records, EventView::Created(false))
            },
        ),
        ActionView::SaveTranscription { id, text } => Some(
            if up && holds(records, id) {
                (transcribed(records, id, text, now), EventView::TranscriptionSaved(true))
            } else {
                (records, EventView::TranscriptionSaved(false))
            },
        ),
        ActionView::SaveSummary { id, text } => Some(
            if up && holds(records, id) {
                (summarized(records, id, text, now), EventView::SummarySaved(true))
            } else {
                (records, EventView::SummarySaved(false))
            },
        ),
        _ => None,
    }
}

/// One turn of an ingestion against the store: the ingestion takes in
/// `event`; where it then asks for a write, the store makes the write at
/// time `now` and the ingestion takes in the store's report. Gives the
/// ingestion, its last action and the records after the turn.
pub open spec fn turn(
    s: IngestionView,
    records: Seq<RecordingView>,
    event: EventView,
    up: bool,
    now: i64,
) -> (IngestionView, ActionView, Seq<RecordingView>) {
    let (s1, a1) = step(s, event);
    match written(records, a1, up, now) {
        Some((records1, report)) => {
            let (s2, a2) = step(s1, report);
            (s2, a2, records1)
        },
        None => (s1, a1, records),
    }
}

/// Whether the stage of an ingestion tells what the store holds of its
/// recording: nothing derived up to the write of the transcription, the
/// transcription alone up to the write of the summary, both after it.
pub open spec fn in_step(s: IngestionView, records: Seq<RecordingView>) -> bool {
    match s.stage {
        Stage::Submitted => true,
        Stage::Stored | Stage::Transcribing | Stage::TranscriptionFailed => lookup(records, s.id)
            matches Some(r) && r.transcription is None && r.summary is None,
        Stage::Transcribed | Stage::Summarizing | Stage::SummarizationFailed => lookup(
            records,
            s.id,
        ) matches Some(r) && r.transcription is Some && r.transcription == s.transcription
            && r.summary is None,
        Stage::Summarized => lookup(records, s.id) matches Some(r) && r.transcription is Some
            && r.summary is Some,
    }
}

/// Law: a submission whose audio decodes, made under an id that the store
/// does not hold, is stored as submitted and accepted: the caller gets the
/// id, the audio goes on to the provider, and the record is found with the
/// decoded audio and with neither transcription nor summary.
pub proof fn law_accepted_submission_is_stored(
    records: Seq<RecordingView>,
    id: Seq<char>,
    title: Seq<char>,
    audio_text: Seq<u8>,
    now: i64,
)
    requires
        accepted(audio_text),
        !holds(records, id),
    ensures
        ({
            let (start, create) = opening(id, title, audio_text);
            let (records1, report) = written(records, create, true, now)->0;
            let (s1, reply) = step(start->0, report);
            &&& start is Some
            &&& written(records, create, true, now) is Some
            &&& s1.stage == Stage::Stored
            &&& reply == (ActionView::Accept {
                reply: acceptance(id),
                audio_data: decoded(audio_text),
            })
            &&& lookup(records1, id) == Some(fresh(id, title, decoded(audio_text), now))
            &&& in_step(s1, records1)
        }),
{
    lemma_lookup_finds(records, id);
    lemma_lookup_after_push(records, fresh(id, title, decoded(audio_text), now), id);
}

/// Law: a submission is answered with a refusal, and nothing is stored,
/// where its audio does not decode (status 400, and no ingestion starts) or
/// the store refuses to create the record (status 500, and the ingestion
/// stays where it was).
pub proof fn law_refused_submission_stores_nothing(
    records: Seq<RecordingView>,
    id: Seq<char>,
    title: Seq<char>,
    audio_text: Seq<u8>,
    up: bool,
    now: i64,
)
    ensures
        !accepted(audio_text) ==> opening(id, title, audio_text) == (
            None::<IngestionView>,
            ActionView::Reject { reply: refusal(400, "Invalid audio data format"@) },
        ),
        accepted(audio_text) && !(up && !holds(records, id)) ==> ({
            let (start, create) = opening(id, title, audio_text);
            let (records1, report) = written(records, create, up, now)->0;
            let (s1, reply) = step(start->0, report);
            &&& records1 == records
            &&& s1 == start->0
            &&& reply == (ActionView::Reject {
                reply: refusal(500, "Failed to save recording"@),
            })
        }),
{
}

/// Law: a turn keeps the stage and the store in step. From an ingestion at
/// rest whose stage tells what the store holds, any event, against a store
/// that is up or not, leads to an ingestion at rest whose stage tells what
/// the store holds, and that asks for no write.
pub proof fn law_turn_keeps_in_step(
    s: IngestionView,
    records: Seq<RecordingView>,
    event: EventView,
    up: bool,
    now: i64,
)
    requires
        at_rest(s.stage),
        in_step(s, records),
    ensures
        ({
            let (s2, a2, records2) = turn(s, records, event, up, now);
            &&& at_rest(s2.stage)
            &&& in_step(s2, records2)
            &&& s2.id == s.id
            &&& a2 is Stop || a2 is Summarize
        }),
{
    let (s1, a1) = step(s, event);
    lemma_lookup_finds(records, s.id);
    match a1 {
        ActionView::SaveTranscription { id, text } => {
            law_transcription_is_found(records, id, text, now);
        },
        ActionView::SaveSummary { id, text } => {
            law_summary_is_found(records, id, text, now);
        },
        _ => {},
    }
}

/// Law: a record never has a summary without a transcription while its
/// ingestion and the store are in step.
pub proof fn law_no_summary_without_transcription(s: IngestionView, records: Seq<RecordingView>)
    requires
        s.stage != Stage::Submitted,
        in_step(s, records),
    ensures
        lookup(records, s.id) matches Some(r) && (r.summary is Some ==> r.transcription is Some),
{
}

/// Law: a summary that fails after the transcription was written leaves the
/// record with its transcription and without a summary, and for good: the
/// ingestion has ended, and whatever arrives later, it asks for nothing and
/// the records stay as they are.
pub proof fn law_failed_summary_keeps_transcription(
    s: IngestionView,
    records: Seq<RecordingView>,
    up: bool,
    now: i64,
    later: EventView,
    later_up: bool,
    later_now: i64,
)
    requires
        s.stage == Stage::Transcribed,
        in_step(s, records),
    ensures
        ({
            let (s2, a2, records2) = turn(s, records, EventView::Summarized(None), up, now);
            &&& s2.stage == Stage::SummarizationFailed
            &&& a2 == ActionView::Stop
            &&& records2 == records
            &&& lookup(records2, s.id) matches Some(r) && r.transcription is Some
                && r.summary is None
            &&& turn(s2, records2, later, later_up, later_now) == (s2, ActionView::Stop, records2)
        }),
{
}

/// Law: a transcription that fails leaves the record as it was stored, with
/// neither text, and the ingestion ended.
pub proof fn law_failed_transcription_leaves_record(
    s: IngestionView,
    records: Seq<RecordingView>,
    up: bool,
    now: i64,
)
    requires
        s.stage == Stage::Stored,
        in_step(s, records),
    ensures
        ({
            let (s2, a2, records2) = turn(s, records, EventView::Transcribed(None), up, now);
            &&& s2.stage == Stage::TranscriptionFailed
            &&& a2 == ActionView::Stop
            &&& records2 == records
            &&& lookup(records2, s.id) matches Some(r) && r.transcription is None
                && r.summary is None
        }),
{
}

/// Law: with the provider answering and the store up, two turns take a
/// stored recording to its end: the record then holds the transcription and
/// the summary that the provider gave, and the summary was asked for the
/// text that was written as the transcription.
pub proof fn law_enrichment_completes(
    s: IngestionView,
    records: Seq<RecordingView>,
    transcription: Seq<char>,
    summary: Seq<char>,
    first: i64,
    second: i64,
)
    requires
        s.stage == Stage::Stored,
        in_step(s, records),
    ensures
        ({
            let (s1, a1, records1) = turn(
                s,
                records,
                EventView::Transcribed(Some(transcription)),
                true,
                first,
            );
            let (s2, a2, records2) = turn(
                s1,
                records1,
                EventView::Summarized(Some(summary)),
                true,
                second,
            );
            &&& s1.stage == Stage::Transcribed
            &&& a1 == (ActionView::Summarize { text: transcription })
            &&& s2.stage == Stage::Summarized
            &&& a2 == ActionView::Stop
            &&& lookup(records2, s.id) matches Some(r) && r.transcription == Some(transcription)
                && r.summary == Some(summary)
        }),
{
    lemma_lookup_finds(records, s.id);
    law_transcription_is_found(records, s.id, transcription, first);
    let records1 = transcribed(records, s.id, transcription, first);
    lemma_lookup_finds(records1, s.id);
    law_summary_is_found(records1, s.id, summary, second);
}

/// Law: what others do to other recordings does not put an ingestion out of
/// step: a record created or written under another id leaves the stage and
/// the store in step.
pub proof fn law_other_recordings_do_not_interfere(
    s: IngestionView,
    records: Seq<RecordingView>,
    added: RecordingView,
    other: Seq<char>,
    text: Seq<char>,
    now: i64,
)
    requires
        in_step(s, records),
        other != s.id,
        added.id != s.id,
    ensures
        in_step(s, records.push(added)),
        in_step(s, transcribed(records, other, text, now)),
        in_step(s, summarized(records, other, text, now)),
{
    law_creation_leaves_the_others(records, added, s.id);
    law_update_leaves_the_others(records, other, text, now, s.id);
}

} // verus!
