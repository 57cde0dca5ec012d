//! What holds of the store's operations, stated over the records as plain
//! values.

use crate::database::{
    distinct_ids,
    fresh,
    holds,
    lookup,
    newest_first,
    slot,
    summarized,
    transcribed,
};
use crate::models::{RecordingListItemView, RecordingView};
use vstd::prelude::*;

verus! {

/// The listing entries of the records, in the order of their creation.
pub open spec fn entries(records: Seq<RecordingView>) -> Seq<RecordingListItemView> {
    records.map_values(|r: RecordingView| r.list_item())
}

/// The test for an entry created at time `t`.
pub open spec fn created_at(t: i64) -> spec_fn(RecordingListItemView) -> bool {
    |e: RecordingListItemView| e.created_at == t
}

/// A lookup finds a record exactly where one has the id, and what it finds
/// has the id.
pub proof fn lemma_lookup_finds(records: Seq<RecordingView>, id: Seq<char>)
    ensures
        lookup(records, id) is Some <==> holds(records, id),
        lookup(records, id) matches Some(r) ==> r.id == id && records.contains(r),
    decreases records.len(),
{
    if records.len() > 0 {
        let rest = records.drop_first();
        lemma_lookup_finds(rest, id);
        if records[0].id == id {
            assert(records[0].id == id);
        } else {
            if holds(rest, id) {
                let i = choose|i: int| 0 <= i < rest.len() && (#[trigger] rest[i]).id == id;
                assert(records[i + 1] == rest[i]);
            }
            if holds(records, id) {
                let i = choose|i: int| 0 <= i < records.len() && (#[trigger] records[i]).id == id;
                assert(rest[i - 1] == records[i]);
            }
            if lookup(rest, id) is Some {
                let r = lookup(rest, id)->0;
                let i = choose|i: int| 0 <= i < rest.len() && rest[i] == r;
                assert(records[i + 1] == r);
            }
        }
    }
}

/// A lookup in records to which one was added: the added record where no
/// earlier one has its id, and what was found before otherwise.
pub proof fn lemma_lookup_after_push(
    records: Seq<RecordingView>,
    added: RecordingView,
    id: Seq<char>,
)
    ensures
        lookup(records.push(added), id) == if lookup(records, id) is Some {
            lookup(records, id)
        } else if added.id == id {
            Some(added)
        } else {
            None
        },
    decreases records.len(),
{
    let longer = records.push(added);
    if records.len() == 0 {
        assert(longer.drop_first() =~= Seq::<RecordingView>::empty());
    } else {
        assert(longer.drop_first() =~= records.drop_first().push(added));
        lemma_lookup_after_push(records.drop_first(), added, id);
    }
}

/// Law: a record that was just created is found under its id, with the
/// audio as submitted and with neither transcription nor summary.
pub proof fn law_created_record_is_found(
    records: Seq<RecordingView>,
    id: Seq<char>,
    title: Seq<char>,
    audio_data: Seq<u8>,
    now: i64,
)
    requires
        !holds(records, id),
    ensures
        lookup(records.push(fresh(id, title, audio_data, now)), id) == Some(
            fresh(id, title, audio_data, now),
        ),
        fresh(id, title, audio_data, now).audio_data == audio_data,
        fresh(id, title, audio_data, now).transcription is None,
        fresh(id, title, audio_data, now).summary is None,
{
    lemma_lookup_finds(records, id);
    lemma_lookup_after_push(records, fresh(id, title, audio_data, now), id);
}

/// Law: creating a record changes no lookup under another id.
pub proof fn law_creation_leaves_the_others(
    records: Seq<RecordingView>,
    added: RecordingView,
    other: Seq<char>,
)
    requires
        added.id != other,
    ensures
        lookup(records.push(added), other) == lookup(records, other),
{
    lemma_lookup_after_push(records, added, other);
}

/// Law: after the transcription of a record was written, the record is found
/// with that transcription and the time of the write, and is otherwise as it
/// was: in particular its summary is still absent where it was absent.
pub proof fn law_transcription_is_found(
    records: Seq<RecordingView>,
    id: Seq<char>,
    text: Seq<char>,
    now: i64,
)
    ensures
        lookup(transcribed(records, id, text, now), id) == match lookup(records, id) {
            Some(r) => Some(r.with_transcription(text, now)),
            None => None,
        },
    decreases records.len(),
{
    if records.len() > 0 {
        assert(transcribed(records, id, text, now).drop_first() =~= transcribed(
            records.drop_first(),
            id,
            text,
            now,
        ));
        law_transcription_is_found(records.drop_first(), id, text, now);
    }
}

/// Law: after the summary of a record was written, the record is found with
/// that summary and the time of the write, and is otherwise as it was: in
/// particular it keeps its transcription.
pub proof fn law_summary_is_found(
    records: Seq<RecordingView>,
    id: Seq<char>,
    text: Seq<char>,
    now: i64,
)
    ensures
        lookup(summarized(records, id, text, now), id) == match lookup(records, id) {
            Some(r) => Some(r.with_summary(text, now)),
            None => None,
        },
    decreases records.len(),
{
    if records.len() > 0 {
        assert(summarized(records, id, text, now).drop_first() =~= summarized(
            records.drop_first(),
            id,
            text,
            now,
        ));
        law_summary_is_found(records.drop_first(), id, text, now);
    }
}

/// Law: a write that is not made before the record's creation leaves the
/// record's time of update at or after its time of creation.
pub proof fn law_update_follows_creation(
    records: Seq<RecordingView>,
    id: Seq<char>,
    text: Seq<char>,
    now: i64,
)
    requires
        lookup(records, id) matches Some(r) && r.created_at <= now,
    ensures
        lookup(transcribed(records, id, text, now), id) matches Some(r) && r.created_at
            <= r.updated_at,
        lookup(summarized(records, id, text, now), id) matches Some(r) && r.created_at
            <= r.updated_at,
{
    law_transcription_is_found(records, id, text, now);
    law_summary_is_found(records, id, text, now);
}

/// Law: a write to one record changes no lookup under another id.
pub proof fn law_update_leaves_the_others(
    records: Seq<RecordingView>,
    id: Seq<char>,
    text: Seq<char>,
    now: i64,
    other: Seq<char>,
)
    requires
        other != id,
    ensures
        lookup(transcribed(records, id, text, now), other) == lookup(records, other),
        lookup(summarized(records, id, text, now), other) == lookup(records, other),
    decreases records.len(),
{
    if records.len() > 0 {
        assert(transcribed(records, id, text, now).drop_first() =~= transcribed(
            records.drop_first(),
            id,
            text,
            now,
        ));
        assert(summarized(records, id, text, now).drop_first() =~= summarized(
            records.drop_first(),
            id,
            text,
            now,
        ));
        law_update_leaves_the_others(records.drop_first(), id, text, now, other);
    }
}

/// Law: no write touches what was fixed at creation, and none takes a text
/// away: every record keeps its id, title, audio and time of creation, and a
/// transcription or summary that is present stays present.
pub proof fn law_writes_keep_what_was_stored(
    records: Seq<RecordingView>,
    id: Seq<char>,
    text: Seq<char>,
    now: i64,
    i: int,
)
    requires
        0 <= i < records.len(),
    ensures
        ({
            let before = records[i];
            let after = transcribed(records, id, text, now)[i];
            &&& after.id == before.id
            &&& after.title == before.title
            &&& after.audio_data == before.audio_data
            &&& after.created_at == before.created_at
            &&& after.summary == before.summary
            &&& before.transcription is Some ==> after.transcription is Some
        }),
        ({
            let before = records[i];
            let after = summarized(records, id, text, now)[i];
            &&& after.id == before.id
            &&& after.title == before.title
            &&& after.audio_data == before.audio_data
            &&& after.created_at == before.created_at
            &&& after.transcription == before.transcription
            &&& before.summary is Some ==> after.summary is Some
        }),
{
}

/// Law: the operations keep ids distinct. A creation that the store accepts
/// adds an id that no record has, and a write changes no id.
pub proof fn law_ids_stay_distinct(
    records: Seq<RecordingView>,
    id: Seq<char>,
    title: Seq<char>,
    audio_data: Seq<u8>,
    text: Seq<char>,
    now: i64,
)
    requires
        distinct_ids(records),
    ensures
        !holds(records, id) ==> distinct_ids(records.push(fresh(id, title, audio_data, now))),
        distinct_ids(transcribed(records, id, text, now)),
        distinct_ids(summarized(records, id, text, now)),
{
    if !holds(records, id) {
        let longer = records.push(fresh(id, title, audio_data, now));
        assert forall|i: int, j: int| 0 <= i < j < longer.len() implies (#[trigger] longer[i]).id
            != (#[trigger] longer[j]).id by {
            if j < records.len() {
                assert(longer[i] == records[i] && longer[j] == records[j]);
            } else {
                assert(longer[i] == records[i]);
            }
        }
    }
    let t = transcribed(records, id, text, now);
    assert forall|i: int, j: int| 0 <= i < j < t.len() implies (#[trigger] t[i]).id != (
    #[trigger] t[j]).id by {
        assert(t[i].id == records[i].id && t[j].id == records[j].id);
    }
    let s = summarized(records, id, text, now);
    assert forall|i: int, j: int| 0 <= i < j < s.len() implies (#[trigger] s[i]).id != (
    #[trigger] s[j]).id by {
        assert(s[i].id == records[i].id && s[j].id == records[j].id);
    }
}

/// `slot` splits a listing: before it every entry is at least as new as
/// `t`, and the entry at it, if there is one, is older.
pub proof fn lemma_slot_splits(listing: Seq<RecordingListItemView>, t: i64)
    ensures
        slot(listing, t) <= listing.len(),
        forall|i: int| 0 <= i < slot(listing, t) ==> (#[trigger] listing[i]).created_at >= t,
        slot(listing, t) < listing.len() ==> listing[slot(listing, t) as int].created_at < t,
    decreases listing.len(),
{
    if listing.len() > 0 && listing[0].created_at >= t {
        let rest = listing.drop_first();
        lemma_slot_splits(rest, t);
        assert forall|i: int| 0 <= i < slot(listing, t) implies (#[trigger] listing[i]).created_at
            >= t by {
            if i > 0 {
                assert(listing[i] == rest[i - 1]);
            }
        }
        if slot(listing, t) < listing.len() {
            assert(listing[slot(listing, t) as int] == rest[slot(rest, t) as int]);
        }
    }
}

/// Whether a listing runs from the newest entry to the oldest.
pub open spec fn descending(listing: Seq<RecordingListItemView>) -> bool {
    forall|i: int, j: int|
        0 <= i <= j < listing.len() ==> (#[trigger] listing[i]).created_at >= (
        #[trigger] listing[j]).created_at
}

/// Law: the listing holds one entry for each record, and runs from the
/// newest to the oldest.
pub proof fn law_listing_is_newest_first(records: Seq<RecordingView>)
    ensures
        newest_first(records).len() == records.len(),
        descending(newest_first(records)),
    decreases records.len(),
{
    if records.len() > 0 {
        let earlier = newest_first(records.drop_last());
        let item = records.last().list_item();
        let p = slot(earlier, item.created_at) as int;
        law_listing_is_newest_first(records.drop_last());
        lemma_slot_splits(earlier, item.created_at);
        let listing = earlier.insert(p, item);
        assert forall|i: int, j: int| 0 <= i <= j < listing.len() implies (
        #[trigger] listing[i]).created_at >= (#[trigger] listing[j]).created_at by {
            if i < p && j < p {
                assert(listing[i] == earlier[i] && listing[j] == earlier[j]);
            } else if i < p && j == p {
                assert(listing[i] == earlier[i]);
            } else if i < p && j > p {
                assert(listing[i] == earlier[i] && listing[j] == earlier[j - 1]);
            } else if i == p && j > p {
                assert(listing[j] == earlier[j - 1]);
                assert(earlier[p].created_at >= earlier[j - 1].created_at);
            } else if i > p {
                assert(listing[i] == earlier[i - 1] && listing[j] == earlier[j - 1]);
            }
        }
    }
}

/// No entry of a listing passes a test that each of its entries fails.
proof fn lemma_filter_none(listing: Seq<RecordingListItemView>, t: i64)
    requires
        forall|i: int| 0 <= i < listing.len() ==> (#[trigger] listing[i]).created_at != t,
    ensures
        listing.filter(created_at(t)).len() == 0,
    decreases listing.len(),
{
    reveal(Seq::filter);
    if listing.len() > 0 {
        let shorter = listing.drop_last();
        assert forall|i: int| 0 <= i < shorter.len() implies (#[trigger] shorter[i]).created_at
            != t by {
            assert(shorter[i] == listing[i]);
        }
        lemma_filter_none(shorter, t);
        assert(listing.last() == listing[listing.len() - 1]);
    }
}

/// Law: among the records created at one time, the listing keeps the order of
/// creation: its entries of that time are the records' entries of that time,
/// in the same order. With `law_listing_is_newest_first` this fixes the whole
/// listing.
pub proof fn law_listing_keeps_creation_order(records: Seq<RecordingView>, t: i64)
    ensures
        newest_first(records).filter(created_at(t)) == entries(records).filter(created_at(t)),
    decreases records.len(),
{
    reveal(Seq::filter);
    if records.len() > 0 {
        let earlier = newest_first(records.drop_last());
        let item = records.last().list_item();
        let p = slot(earlier, item.created_at) as int;
        law_listing_keeps_creation_order(records.drop_last(), t);
        law_listing_is_newest_first(records.drop_last());
        lemma_slot_splits(earlier, item.created_at);
        let head = earlier.take(p);
        let tail = earlier.skip(p);
        let one = seq![item];
        assert(earlier =~= head + tail);
        assert(earlier.insert(p, item) =~= (head + one) + tail);
        Seq::filter_distributes_over_add(head, tail, created_at(t));
        Seq::filter_distributes_over_add(head, one, created_at(t));
        Seq::filter_distributes_over_add(head + one, tail, created_at(t));
        assert(one.drop_last() =~= Seq::<RecordingListItemView>::empty());
        assert(one.last() == item);
        assert(entries(records).drop_last() =~= entries(records.drop_last()));
        assert(entries(records).last() == item);
        if item.created_at == t {
            assert forall|i: int| 0 <= i < tail.len() implies (#[trigger] tail[i]).created_at
                != t by {
                assert(tail[i] == earlier[p + i]);
                assert(earlier[p].created_at >= earlier[p + i].created_at);
            }
            lemma_filter_none(tail, t);
            assert(one.filter(created_at(t)) =~= one);
            assert(newest_first(records).filter(created_at(t)) =~= earlier.filter(
                created_at(t),
            ).push(item));
        } else {
            lemma_filter_none(one, t);
            assert(one.filter(created_at(t)) =~= Seq::<RecordingListItemView>::empty());
            assert(newest_first(records).filter(created_at(t)) =~= earlier.filter(created_at(t)));
        }
    }
}

/// Law: of two records created one after the other, at different times, into
/// an empty store, the listing shows the later one first.
pub proof fn law_later_record_is_listed_first(earlier: RecordingView, later: RecordingView)
    requires
        earlier.created_at < later.created_at,
    ensures
        newest_first(seq![earlier, later]) == seq![later.list_item(), earlier.list_item()],
{
    let both = seq![earlier, later];
    let first = seq![earlier];
    let none = Seq::<RecordingView>::empty();
    assert(both.drop_last() =~= first);
    assert(first.drop_last() =~= none);
    assert(newest_first(none) =~= Seq::<RecordingListItemView>::empty());
    assert(newest_first(first) =~= seq![earlier.list_item()]) by {
        reveal_with_fuel(newest_first, 2);
        reveal_with_fuel(slot, 2);
    }
    let one = seq![earlier.list_item()];
    assert(slot(one, later.created_at) == 0);
    assert(newest_first(both) =~= seq![later.list_item(), earlier.list_item()]);
}

} // verus!
