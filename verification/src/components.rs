//! Focus cells of the timeline view, the organ's keyboard art, and small drawing helpers.

pub mod piano;
pub mod region_audio;
pub mod region_midi;
pub mod timeline_meter;
pub mod timeline_nav;
pub mod track_header;
