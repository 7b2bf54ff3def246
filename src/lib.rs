//! Aggregation of labelled progress reports: parsing of report lines, a
//! registry of per-label tracks with their state machine, and the records
//! exchanged with other processes over a publish/subscribe bus.

pub mod percent;
pub mod registry;
pub mod pattern;
pub mod event;
pub mod bus;
pub mod pipeline;
pub mod laws;
pub mod display;

pub use percent::{parse_percentage, ParseError, PERCENT_FULL};
pub use registry::{Registry, RegistryError, Track, TrackState, MAX_TRACKS};
pub use pattern::{Matcher, PatternError};
pub use event::{event_from_groups, parse_line, ProgressEvent};
pub use bus::{event_from_record, make_origin_label, BusRecord, Publisher, Subscriber};
pub use pipeline::{Outcome, Pipeline};
pub use display::fit_label;
