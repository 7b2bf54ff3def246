//! The registry of tracks: one per label, in the order of first sighting.
use vstd::prelude::*;
use crate::percent::PERCENT_FULL;

verus! {

/// Where a track stands. `Done` and `Abandoned` are terminal.
#[derive(Debug, Clone, Copy, PartialEq, Eq, Structural)]
pub enum TrackState {
    Active,
    Done,
    Abandoned,
}

/// The progress of one label.
#[derive(Debug)]
pub struct Track {
    pub label: String,
    /// Position of the label in the order of first sighting, from 0.
    pub sequence_id: u32,
    /// Hundredths of a percent.
    pub percentage: u16,
    pub state: TrackState,
    /// The process that sent the latest update, when it came from elsewhere.
    pub origin_id: Option<u32>,
    /// Seconds since the Unix epoch at which the track became `Done`.
    pub completed_at: Option<i64>,
    /// Seconds since the Unix epoch at which the track became `Abandoned`.
    pub abandoned_at: Option<i64>,
}

/// A track as a mathematical value.
pub struct TrackView {
    pub label: Seq<char>,
    pub sequence_id: nat,
    pub percentage: u16,
    pub state: TrackState,
    pub origin_id: Option<u32>,
    pub completed_at: Option<i64>,
    pub abandoned_at: Option<i64>,
}

impl View for Track {
    type V = TrackView;

    open spec fn view(&self) -> TrackView {
        TrackView {
            label: self.label@,
            sequence_id: self.sequence_id as nat,
            percentage: self.percentage,
            state: self.state,
            origin_id: self.origin_id,
            completed_at: self.completed_at,
            abandoned_at: self.abandoned_at,
        }
    }
}

/// Why the registry refused an operation.
#[derive(Debug, Clone, Copy, PartialEq, Eq, Structural)]
pub enum RegistryError {
    /// The sweep has run: no update is taken any more, and no second sweep.
    Finalized,
    /// Every sequence id is taken.
    Full,
}

/// The registry as a mathematical value.
pub struct RegistryView {
    pub tracks: Seq<TrackView>,
    pub finalized: bool,
}

/// The number of distinct sequence ids.
pub const MAX_TRACKS: u64 = 0x1_0000_0000;

/// A fresh track for `label`, as created on its first sighting.
pub open spec fn fresh_track(label: Seq<char>, id: nat) -> TrackView {
    TrackView {
        label,
        sequence_id: id,
        percentage: 0,
        state: TrackState::Active,
        origin_id: None,
        completed_at: None,
        abandoned_at: None,
    }
}

/// Whether an update with this percentage finishes the track.
pub open spec fn completes(t: TrackView, percentage: u16) -> bool {
    t.state == TrackState::Active && percentage >= PERCENT_FULL
}

/// `t` after an update: the percentage and origin are taken as given; an
/// active track that reaches a full bar becomes done, stamped with `now`.
pub open spec fn updated(t: TrackView, percentage: u16, origin_id: Option<u32>, now: i64) -> TrackView {
    TrackView {
        label: t.label,
        sequence_id: t.sequence_id,
        percentage,
        state: if completes(t, percentage) { TrackState::Done } else { t.state },
        origin_id,
        completed_at: if completes(t, percentage) { Some(now) } else { t.completed_at },
        abandoned_at: t.abandoned_at,
    }
}

/// `t` after the final sweep: an active track becomes abandoned, stamped
/// with `now`.
pub open spec fn swept(t: TrackView, now: i64) -> TrackView {
    if t.state == TrackState::Active {
        TrackView { state: TrackState::Abandoned, abandoned_at: Some(now), ..t }
    } else {
        t
    }
}

pub open spec fn has_label(ts: Seq<TrackView>, label: Seq<char>) -> bool {
    exists|i: int| 0 <= i < ts.len() && #[trigger] ts[i].label == label
}

/// The position of the track of `label`, or -1 where there is none.
pub open spec fn label_index(ts: Seq<TrackView>, label: Seq<char>) -> int {
    if has_label(ts, label) {
        choose|i: int| 0 <= i < ts.len() && #[trigger] ts[i].label == label
    } else {
        -1
    }
}

/// The tracks after an update of `label`: its track is updated, or a fresh
/// one with the next sequence id is appended and updated.
pub open spec fn apply_tracks(
    ts: Seq<TrackView>,
    label: Seq<char>,
    percentage: u16,
    origin_id: Option<u32>,
    now: i64,
) -> Seq<TrackView> {
    let k = label_index(ts, label);
    if k >= 0 {
        ts.update(k, updated(ts[k], percentage, origin_id, now))
    } else {
        ts.push(updated(fresh_track(label, ts.len()), percentage, origin_id, now))
    }
}

/// The tracks after the final sweep.
pub open spec fn sweep_tracks(ts: Seq<TrackView>, now: i64) -> Seq<TrackView> {
    Seq::new(ts.len(), |i: int| swept(ts[i], now))
}

/// The stamps agree with the state.
pub open spec fn stamps_agree(t: TrackView) -> bool {
    match t.state {
        TrackState::Active => t.completed_at is None && t.abandoned_at is None,
        TrackState::Done => t.completed_at is Some && t.abandoned_at is None,
        TrackState::Abandoned => t.completed_at is None && t.abandoned_at is Some,
    }
}

/// What holds of the tracks of every registry: each sequence id is the
/// position, labels are distinct, stamps agree with the states, ids fit.
pub open spec fn tracks_wf(ts: Seq<TrackView>) -> bool {
    &&& ts.len() <= MAX_TRACKS
    &&& forall|i: int| 0 <= i < ts.len() ==> (#[trigger] ts[i]).sequence_id == i
    &&& forall|i: int, j: int|
        0 <= i < ts.len() && 0 <= j < ts.len() && i != j ==> #[trigger] ts[i].label != #[trigger] ts[j].label
    &&& forall|i: int| 0 <= i < ts.len() ==> stamps_agree(#[trigger] ts[i])
}

/// Before the sweep no track is abandoned; after it none is active.
pub open spec fn registry_wf(v: RegistryView) -> bool {
    &&& tracks_wf(v.tracks)
    &&& forall|i: int|
        0 <= i < v.tracks.len() ==> (if v.finalized {
            (#[trigger] v.tracks[i]).state != TrackState::Active
        } else {
            v.tracks[i].state != TrackState::Abandoned
        })
}

pub proof fn lemma_label_index(ts: Seq<TrackView>, label: Seq<char>, k: int)
    requires
        tracks_wf(ts),
        0 <= k < ts.len(),
        ts[k].label == label,
    ensures
        label_index(ts, label) == k,
{
    assert(has_label(ts, label));
}

pub proof fn lemma_no_label_index(ts: Seq<TrackView>, label: Seq<char>)
    requires
        forall|i: int| 0 <= i < ts.len() ==> #[trigger] ts[i].label != label,
    ensures
        label_index(ts, label) == -1,
{
}

/// The progress of every label seen, and whether the final sweep has run.
pub struct Registry {
    tracks: Vec<Track>,
    finalized: bool,
}

impl View for Registry {
    type V = RegistryView;

    closed spec fn view(&self) -> RegistryView {
        RegistryView { tracks: self.tracks@.map_values(|t: Track| t@), finalized: self.finalized }
    }
}

impl Registry {
    pub open spec fn wf(&self) -> bool {
        registry_wf(self@)
    }

    /// An empty registry.
    pub fn new() -> (r: Registry)
        ensures
            r.wf(),
            r@.tracks.len() == 0,
            !r@.finalized,
    {
        Registry { tracks: Vec::new(), finalized: false }
    }

    /// The number of tracks.
    pub fn len(&self) -> (r: usize)
        ensures
            r == self@.tracks.len(),
    {
        self.tracks.len()
    }

    /// Whether the final sweep has run.
    pub fn is_finalized(&self) -> (r: bool)
        ensures
            r == self@.finalized,
    {
        self.finalized
    }

    /// The track with sequence id `i`.
    pub fn track(&self, i: usize) -> (r: &Track)
        requires
            i < self@.tracks.len(),
        ensures
            r@ == self@.tracks[i as int],
    {
        &self.tracks[i]
    }

    /// The position of the track of `label`, if there is one.
    pub fn find(&self, label: &String) -> (r: Option<usize>)
        requires
            self.wf(),
        ensures
            r matches Some(i) ==> i == label_index(self@.tracks, label@),
            r is None <==> !has_label(self@.tracks, label@),
    {
        let mut i: usize = 0;
        while i < self.tracks.len()
            invariant
                i <= self.tracks@.len(),
                self.wf(),
                self@.tracks.len() == self.tracks@.len(),
                forall|j: int| 0 <= j < i ==> #[trigger] self@.tracks[j].label != label@,
            decreases self.tracks.len() - i,
        {
            if self.tracks[i].label == *label {
                proof {
                    assert(self@.tracks[i as int] == self.tracks@[i as int]@);
                    lemma_label_index(self@.tracks, label@, i as int);
                }
                return Some(i);
            }
            assert(self@.tracks[i as int] == self.tracks@[i as int]@);
            i = i + 1;
        }
        None
    }

    /// Takes one progress report: the track of `label` (created on first
    /// sighting with the next sequence id) gets the percentage and origin;
    /// an active track that reaches a full bar becomes done at `now`.
    /// Returns the track's sequence id.
    pub fn apply_update(&mut self, label: &String, percentage: u16, origin_id: Option<u32>, now: i64) -> (r: Result<usize, RegistryError>)
        requires
            old(self).wf(),
        ensures
            final(self).wf(),
            old(self)@.finalized ==> r == Err::<usize, RegistryError>(RegistryError::Finalized),
            !old(self)@.finalized && !has_label(old(self)@.tracks, label@)
                && old(self)@.tracks.len() == MAX_TRACKS ==> r == Err::<usize, RegistryError>(RegistryError::Full),
            r is Err ==> final(self)@ == old(self)@,
            r is Ok <==> !old(self)@.finalized && (has_label(old(self)@.tracks, label@)
                || old(self)@.tracks.len() < MAX_TRACKS),
            r matches Ok(i) ==> {
                &&& final(self)@.tracks == apply_tracks(old(self)@.tracks, label@, percentage, origin_id, now)
                &&& !final(self)@.finalized
                &&& i < final(self)@.tracks.len()
                &&& final(self)@.tracks[i as int].label == label@
            },
    {
        if self.finalized {
            return Err(RegistryError::Finalized);
        }
        let ghost ts = self@.tracks;
        let found = self.find(label);
        let i = match found {
            Some(i) => i,
            None => {
                if self.tracks.len() as u64 >= MAX_TRACKS {
                    return Err(RegistryError::Full);
                }
                let id = self.tracks.len() as u32;
                self.tracks.push(Track {
                    label: label.clone(),
                    sequence_id: id,
                    percentage: 0,
                    state: TrackState::Active,
                    origin_id: None,
                    completed_at: None,
                    abandoned_at: None,
                });
                assert(self@.tracks =~= ts.push(fresh_track(label@, ts.len())));
                id as usize
            },
        };
        let ghost mid = self@.tracks;
        let t = &mut self.tracks[i];
        let finishing = t.state == TrackState::Active && percentage >= PERCENT_FULL;
        t.percentage = percentage;
        t.origin_id = origin_id;
        if finishing {
            t.state = TrackState::Done;
            t.completed_at = Some(now);
        }
        proof {
            assert(self@.tracks =~= mid.update(i as int, updated(mid[i as int], percentage, origin_id, now)));
            if found is None {
                lemma_no_label_index(ts, label@);
            }
            let nt = self@.tracks;
            assert forall|a: int, b: int|
                0 <= a < nt.len() && 0 <= b < nt.len() && a != b implies #[trigger] nt[a].label != #[trigger] nt[b].label by {
                assert(nt[a].label == mid[a].label);
                assert(nt[b].label == mid[b].label);
                if found is None {
                    if a == ts.len() {
                        assert(mid[b] == ts[b]);
                    } else if b == ts.len() {
                        assert(mid[a] == ts[a]);
                    } else {
                        assert(mid[a] == ts[a]);
                        assert(mid[b] == ts[b]);
                    }
                }
            }
        }
        Ok(i)
    }

    /// The final sweep: every active track becomes abandoned at `now`, and
    /// the registry takes no further update. It runs once; a second call is
    /// refused and changes nothing.
    pub fn finalize_all(&mut self, now: i64) -> (r: Result<(), RegistryError>)
        requires
            old(self).wf(),
        ensures
            final(self).wf(),
            r is Err <==> old(self)@.finalized,
            r is Err ==> r == Err::<(), RegistryError>(RegistryError::Finalized) && final(self)@ == old(self)@,
            r is Ok ==> final(self)@.finalized && final(self)@.tracks == sweep_tracks(old(self)@.tracks, now),
    {
        if self.finalized {
            return Err(RegistryError::Finalized);
        }
        let ghost ts = self@.tracks;
        let mut i: usize = 0;
        while i < self.tracks.len()
            invariant
                !self.finalized,
                self@.tracks.len() == ts.len(),
                i <= ts.len(),
                registry_wf(RegistryView { tracks: ts, finalized: false }),
                forall|j: int| 0 <= j < i ==> #[trigger] self@.tracks[j] == swept(ts[j], now),
                forall|j: int| i <= j < ts.len() ==> #[trigger] self@.tracks[j] == ts[j],
            decreases ts.len() - i,
        {
            assert(self@.tracks[i as int] == self.tracks@[i as int]@);
            let ghost before = self@.tracks;
            if self.tracks[i].state == TrackState::Active {
                let t = &mut self.tracks[i];
                t.state = TrackState::Abandoned;
                t.abandoned_at = Some(now);
            }
            proof {
                assert forall|j: int| 0 <= j < ts.len() && j != i implies #[trigger] self@.tracks[j] == before[j] by {
                    assert(self@.tracks[j] == self.tracks@[j]@);
                }
                assert(self@.tracks[i as int] == self.tracks@[i as int]@);
            }
            i = i + 1;
        }
        self.finalized = true;
        assert(self@.tracks =~= sweep_tracks(ts, now));
        Ok(())
    }
}

} // verus!
