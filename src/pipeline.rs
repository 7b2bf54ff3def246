//! The decisions of the event loop: each event is applied to the registry
//! and mirrored when a publisher is present; the end of the source brings
//! the final sweep. Reading events, drawing and sending are left to the
//! caller.
use vstd::prelude::*;
use crate::bus::{record_of_track, BusRecord, Publisher};
use crate::event::ProgressEvent;
use crate::registry::{
    apply_tracks, completes, fresh_track, has_label, label_index, sweep_tracks, Registry,
    RegistryError, TrackView, MAX_TRACKS,
};

verus! {

/// The track an update of `label` starts from: its existing track, or the
/// fresh one it creates.
pub open spec fn prior_track(ts: Seq<TrackView>, label: Seq<char>) -> TrackView {
    if has_label(ts, label) {
        ts[label_index(ts, label)]
    } else {
        fresh_track(label, ts.len())
    }
}

/// What the caller does after an event was applied.
#[derive(Debug)]
pub struct Outcome {
    /// The sequence id of the updated track.
    pub index: usize,
    /// The track became done with this event.
    pub completed: bool,
    /// The record to send, where there is a publisher.
    pub record: Option<BusRecord>,
}

/// The state of one run: the registry, and the publisher if there is one.
pub struct Pipeline {
    pub registry: Registry,
    pub publisher: Option<Publisher>,
}

impl Pipeline {
    pub open spec fn wf(&self) -> bool {
        self.registry.wf()
    }

    /// A run with no track yet.
    pub fn new(publisher: Option<Publisher>) -> (r: Pipeline)
        ensures
            r.wf(),
            r.registry@.tracks.len() == 0,
            !r.registry@.finalized,
            r.publisher == publisher,
    {
        Pipeline { registry: Registry::new(), publisher }
    }

    /// Applies one event at time `now`; returns the track's sequence id,
    /// whether the track became done, and the record to mirror.
    pub fn handle_event(&mut self, ev: &ProgressEvent, now: i64) -> (r: Result<Outcome, RegistryError>)
        requires
            old(self).wf(),
        ensures
            final(self).wf(),
            final(self).publisher == old(self).publisher,
            old(self).registry@.finalized ==> r == Err::<Outcome, RegistryError>(RegistryError::Finalized),
            r is Err ==> final(self).registry@ == old(self).registry@,
            r is Ok <==> !old(self).registry@.finalized && (has_label(old(self).registry@.tracks, ev.label@)
                || old(self).registry@.tracks.len() < MAX_TRACKS),
            r matches Ok(o) ==> {
                let ts = old(self).registry@.tracks;
                let nt = final(self).registry@.tracks;
                &&& nt == apply_tracks(ts, ev.label@, ev.percentage, ev.origin_id, now)
                &&& !final(self).registry@.finalized
                &&& o.index < nt.len()
                &&& nt[o.index as int].label == ev.label@
                &&& o.completed == completes(prior_track(ts, ev.label@), ev.percentage)
                &&& (o.record is None <==> old(self).publisher is None)
                &&& (o.record matches Some(rec) ==> rec@ == record_of_track(
                    old(self).publisher->Some_0.origin_id,
                    ev.label@,
                    o.index as nat,
                    ev.percentage,
                ))
            },
    {
        let ghost ts = self.registry@.tracks;
        let before = self.registry.find(&ev.label);
        let was_active = match before {
            Some(i) => self.registry.track(i).state == crate::registry::TrackState::Active,
            None => true,
        };
        let i = match self.registry.apply_update(&ev.label, ev.percentage, ev.origin_id, now) {
            Ok(i) => i,
            Err(e) => return Err(e),
        };
        let completed = was_active && ev.percentage >= crate::percent::PERCENT_FULL;
        proof {
            let nt = self.registry@.tracks;
            if has_label(ts, ev.label@) {
                let k = label_index(ts, ev.label@);
                crate::registry::lemma_label_index(nt, ev.label@, i as int);
                crate::registry::lemma_label_index(nt, ev.label@, k);
            } else {
                crate::registry::lemma_no_label_index(ts, ev.label@);
            }
        }
        let record = match &self.publisher {
            Some(p) => {
                let t = self.registry.track(i);
                Some(p.record_for(t))
            },
            None => None,
        };
        Ok(Outcome { index: i, completed, record })
    }

    /// The end of the source: the final sweep at `now`. It runs once.
    pub fn finish(&mut self, now: i64) -> (r: Result<(), RegistryError>)
        requires
            old(self).wf(),
        ensures
            final(self).wf(),
            final(self).publisher == old(self).publisher,
            r is Err <==> old(self).registry@.finalized,
            r is Err ==> final(self).registry@ == old(self).registry@,
            r is Ok ==> final(self).registry@.finalized && final(self).registry@.tracks == sweep_tracks(
                old(self).registry@.tracks,
                now,
            ),
    {
        self.registry.finalize_all(now)
    }
}

} // verus!
