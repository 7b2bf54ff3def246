//! What holds of every run of updates, sweeps and broadcasts.
use vstd::prelude::*;
use crate::bus::{event_of_record, record_of_track};
use crate::event::EventView;
use crate::pattern::regex_is_match;
use crate::percent::PERCENT_FULL;
use crate::registry::{
    apply_tracks, fresh_track, has_label, label_index, lemma_label_index,
    lemma_no_label_index, registry_wf, sweep_tracks, swept, tracks_wf, updated, RegistryView,
    TrackState, TrackView, MAX_TRACKS,
};

verus! {

/// One update as a mathematical value, with the time it is applied at.
pub struct UpdateView {
    pub label: Seq<char>,
    pub percentage: u16,
    pub origin_id: Option<u32>,
    pub at: i64,
}

/// The tracks after applying `ups` in order.
pub open spec fn run_updates(ts: Seq<TrackView>, ups: Seq<UpdateView>) -> Seq<TrackView>
    decreases ups.len(),
{
    if ups.len() == 0 {
        ts
    } else {
        let u = ups.last();
        apply_tracks(run_updates(ts, ups.drop_last()), u.label, u.percentage, u.origin_id, u.at)
    }
}

/// The labels that have a track.
pub open spec fn labels_of(ts: Seq<TrackView>) -> Set<Seq<char>> {
    ts.map_values(|t: TrackView| t.label).to_set()
}

/// The labels that `ups` name.
pub open spec fn update_labels(ups: Seq<UpdateView>) -> Set<Seq<char>> {
    ups.map_values(|u: UpdateView| u.label).to_set()
}

/// One update: the tracks stay well formed; earlier tracks keep their label
/// and id, and all but the updated one are unchanged; the updated one is
/// `updated` of its prior state.
pub proof fn lemma_apply_tracks(ts: Seq<TrackView>, label: Seq<char>, percentage: u16, origin_id: Option<u32>, now: i64)
    requires
        tracks_wf(ts),
        has_label(ts, label) || ts.len() < MAX_TRACKS,
    ensures
        ({
            let nt = apply_tracks(ts, label, percentage, origin_id, now);
            let k = label_index(nt, label);
            &&& tracks_wf(nt)
            &&& has_label(nt, label)
            &&& 0 <= k < nt.len()
            &&& nt.len() == if has_label(ts, label) { ts.len() } else { ts.len() + 1 }
            &&& has_label(ts, label) ==> k == label_index(ts, label) && nt[k] == updated(ts[k], percentage, origin_id, now)
            &&& !has_label(ts, label) ==> k == ts.len() && nt[k] == updated(fresh_track(label, ts.len()), percentage, origin_id, now)
            &&& forall|i: int| 0 <= i < ts.len() && i != k ==> #[trigger] nt[i] == ts[i]
            &&& forall|i: int| 0 <= i < ts.len() ==> (#[trigger] nt[i]).label == ts[i].label
        }),
{
    let nt = apply_tracks(ts, label, percentage, origin_id, now);
    if has_label(ts, label) {
        let k = label_index(ts, label);
        assert(nt[k].label == label);
        lemma_label_index(ts, label, k);
        assert forall|a: int, b: int|
            0 <= a < nt.len() && 0 <= b < nt.len() && a != b implies #[trigger] nt[a].label != #[trigger] nt[b].label by {
            assert(nt[a].label == ts[a].label);
            assert(nt[b].label == ts[b].label);
        }
        assert(tracks_wf(nt));
        lemma_label_index(nt, label, k);
    } else {
        lemma_no_label_index(ts, label);
        let k = ts.len() as int;
        assert forall|a: int, b: int|
            0 <= a < nt.len() && 0 <= b < nt.len() && a != b implies #[trigger] nt[a].label != #[trigger] nt[b].label by {
            if a != k && b != k {
                assert(nt[a] == ts[a]);
                assert(nt[b] == ts[b]);
            } else if a == k {
                assert(nt[b] == ts[b]);
            } else {
                assert(nt[a] == ts[a]);
            }
        }
        assert(tracks_wf(nt));
        lemma_label_index(nt, label, k);
    }
}

/// Labels are distinct, so a track's position is the number of labels that
/// have a track before it.
pub proof fn lemma_labels_count(ts: Seq<TrackView>, k: int)
    requires
        tracks_wf(ts),
        0 <= k <= ts.len(),
    ensures
        labels_of(ts.subrange(0, k)).len() == k,
{
    let p = ts.subrange(0, k).map_values(|t: TrackView| t.label);
    assert forall|a: int, b: int| 0 <= a < p.len() && 0 <= b < p.len() && a != b implies p[a] != p[b] by {
        assert(p[a] == ts[a].label);
        assert(p[b] == ts[b].label);
    }
    assert(p.no_duplicates());
    p.unique_seq_to_set();
}

/// Along any run of updates a track, once created, keeps its label and its
/// sequence id; every sequence id is the number of distinct labels that had
/// a track before it; and a run from no tracks has a track for exactly the
/// labels it named.
pub proof fn law_sequence_ids(ts: Seq<TrackView>, ups: Seq<UpdateView>)
    requires
        tracks_wf(ts),
        ts.len() + ups.len() <= MAX_TRACKS,
    ensures
        ({
            let end = run_updates(ts, ups);
            &&& tracks_wf(end)
            &&& ts.len() <= end.len() <= ts.len() + ups.len()
            &&& forall|i: int| 0 <= i < ts.len() ==> (#[trigger] end[i]).label == ts[i].label
                && end[i].sequence_id == ts[i].sequence_id
            &&& forall|k: int| 0 <= k < end.len() ==> (#[trigger] end[k]).sequence_id == k
                && labels_of(end.subrange(0, k)).len() == k
            &&& labels_of(end) == labels_of(ts).union(update_labels(ups))
        }),
    decreases ups.len(),
{
    let end = run_updates(ts, ups);
    if ups.len() == 0 {
        assert(update_labels(ups) =~= Set::empty());
        assert(labels_of(end) =~= labels_of(ts).union(update_labels(ups)));
        assert forall|k: int| 0 <= k < end.len() implies (#[trigger] end[k]).sequence_id == k
            && labels_of(end.subrange(0, k)).len() == k by {
            lemma_labels_count(end, k);
        }
    } else {
        let front = ups.drop_last();
        let u = ups.last();
        law_sequence_ids(ts, front);
        let mid = run_updates(ts, front);
        lemma_apply_tracks(mid, u.label, u.percentage, u.origin_id, u.at);
        assert forall|k: int| 0 <= k < end.len() implies (#[trigger] end[k]).sequence_id == k
            && labels_of(end.subrange(0, k)).len() == k by {
            lemma_labels_count(end, k);
        }
        assert forall|i: int| 0 <= i < ts.len() implies (#[trigger] end[i]).label == ts[i].label
            && end[i].sequence_id == ts[i].sequence_id by {
            assert(mid[i].label == ts[i].label);
            assert(end[i].label == mid[i].label);
        }
        assert(ups.map_values(|v: UpdateView| v.label) =~= front.map_values(|v: UpdateView| v.label)
            + seq![u.label]);
        Seq::lemma_to_set_insert_commutes(front.map_values(|v: UpdateView| v.label), u.label);
        assert(update_labels(ups) =~= update_labels(front).insert(u.label));
        if has_label(mid, u.label) {
            let k = label_index(mid, u.label);
            assert(end.map_values(|t: TrackView| t.label) =~= mid.map_values(|t: TrackView| t.label));
            assert(mid.map_values(|t: TrackView| t.label)[k] == u.label);
            assert(labels_of(mid).contains(u.label));
            assert(labels_of(end) =~= labels_of(ts).union(update_labels(ups)));
        } else {
            assert(end.map_values(|t: TrackView| t.label) =~= mid.map_values(|t: TrackView| t.label)
                + seq![u.label]);
            Seq::lemma_to_set_insert_commutes(mid.map_values(|t: TrackView| t.label), u.label);
            assert(labels_of(end) =~= labels_of(ts).union(update_labels(ups)));
        }
    }
}

/// After an update the track of its label holds exactly the percentage it
/// gave, lower than before or not, and the origin it gave.
pub proof fn law_latest_percentage(ts: Seq<TrackView>, label: Seq<char>, percentage: u16, origin_id: Option<u32>, now: i64)
    requires
        tracks_wf(ts),
        has_label(ts, label) || ts.len() < MAX_TRACKS,
    ensures
        ({
            let nt = apply_tracks(ts, label, percentage, origin_id, now);
            &&& has_label(nt, label)
            &&& nt[label_index(nt, label)].percentage == percentage
            &&& nt[label_index(nt, label)].origin_id == origin_id
        }),
{
    lemma_apply_tracks(ts, label, percentage, origin_id, now);
}

/// An update finishes a track exactly when the track is active and the
/// percentage reaches a full bar; only then is it stamped done.
pub proof fn law_done_transition(ts: Seq<TrackView>, label: Seq<char>, percentage: u16, origin_id: Option<u32>, now: i64)
    requires
        tracks_wf(ts),
        has_label(ts, label) || ts.len() < MAX_TRACKS,
    ensures
        ({
            let nt = apply_tracks(ts, label, percentage, origin_id, now);
            let before = if has_label(ts, label) { ts[label_index(ts, label)] } else { fresh_track(label, ts.len()) };
            let after = nt[label_index(nt, label)];
            &&& (before.state == TrackState::Active && percentage >= PERCENT_FULL) ==> after.state == TrackState::Done
                && after.completed_at == Some(now)
            &&& (before.state == TrackState::Active && percentage < PERCENT_FULL) ==> after.state == TrackState::Active
            &&& before.state != TrackState::Active ==> after.state == before.state
                && after.completed_at == before.completed_at && after.abandoned_at == before.abandoned_at
        }),
{
    lemma_apply_tracks(ts, label, percentage, origin_id, now);
}

/// Along any run of updates a finished track stays as it finished: neither
/// its state nor its stamps change, whatever percentages follow.
pub proof fn law_terminal_stays(ts: Seq<TrackView>, ups: Seq<UpdateView>, k: int)
    requires
        tracks_wf(ts),
        ts.len() + ups.len() <= MAX_TRACKS,
        0 <= k < ts.len(),
        ts[k].state != TrackState::Active,
    ensures
        ({
            let end = run_updates(ts, ups);
            &&& k < end.len()
            &&& end[k].state == ts[k].state
            &&& end[k].completed_at == ts[k].completed_at
            &&& end[k].abandoned_at == ts[k].abandoned_at
        }),
    decreases ups.len(),
{
    if ups.len() > 0 {
        let front = ups.drop_last();
        let u = ups.last();
        law_terminal_stays(ts, front, k);
        law_sequence_ids(ts, front);
        let mid = run_updates(ts, front);
        lemma_apply_tracks(mid, u.label, u.percentage, u.origin_id, u.at);
    }
}

/// The final sweep creates no track and drops none; a done track is left
/// as it was, and every other track becomes abandoned, stamped with the
/// time of the sweep. Afterwards no track is active.
pub proof fn law_sweep(v: RegistryView, now: i64)
    requires
        registry_wf(v),
        !v.finalized,
    ensures
        ({
            let w = sweep_tracks(v.tracks, now);
            &&& w.len() == v.tracks.len()
            &&& registry_wf(RegistryView { tracks: w, finalized: true })
            &&& forall|i: int| 0 <= i < w.len() && v.tracks[i].state == TrackState::Done ==> #[trigger] w[i] == v.tracks[i]
            &&& forall|i: int| 0 <= i < w.len() && v.tracks[i].state != TrackState::Done ==> (#[trigger] w[i]).state
                == TrackState::Abandoned && w[i].abandoned_at == Some(now) && w[i].label == v.tracks[i].label
                && w[i].sequence_id == v.tracks[i].sequence_id && w[i].percentage == v.tracks[i].percentage
        }),
{
    let w = sweep_tracks(v.tracks, now);
    assert forall|i: int| 0 <= i < w.len() implies #[trigger] w[i] == swept(v.tracks[i], now) by {}
    assert forall|a: int, b: int|
        0 <= a < w.len() && 0 <= b < w.len() && a != b implies #[trigger] w[a].label != #[trigger] w[b].label by {
        assert(w[a].label == v.tracks[a].label);
        assert(w[b].label == v.tracks[b].label);
    }
    assert forall|i: int| 0 <= i < w.len() implies (#[trigger] w[i]).state != TrackState::Active by {
        assert(v.tracks[i].state != TrackState::Abandoned);
    }
}

/// A record published for a track, taken by a subscriber whose filter
/// matches the label and that does not rewrite labels, gives back the
/// origin, label and percentage that were sent; the record carries the
/// track's sequence id.
pub proof fn law_broadcast_round_trip(
    filter: Seq<char>,
    origin_id: u32,
    label: Seq<char>,
    sequence_id: u32,
    percentage: u16,
)
    requires
        regex_is_match(filter, label),
    ensures
        ({
            let rec = record_of_track(origin_id, label, sequence_id as nat, percentage);
            &&& rec.origin_id == origin_id && rec.label == label && rec.sequence_id == sequence_id
                && rec.percentage == percentage
            &&& event_of_record(rec, regex_is_match(filter, rec.label), false) == Some(
                EventView { origin_id: Some(origin_id), label, percentage },
            )
        }),
{
}

} // verus!
