//! The four cached entity kinds, each keyed by a remote-assigned numeric
//! identifier, plus the outcome type for a remote fetch.
//!
//! Entities are immutable cached snapshots: once fetched they are only ever
//! replaced whole by a re-fetch, never mutated field by field. Timestamps
//! are held as Unix seconds; list-valued descriptive attributes are held as
//! plain vectors. All of it is opaque cached payload except the identifiers
//! and, for a content record, the byte size and content hash.

use vstd::prelude::*;

verus! {

/// A known file instance: the entity a content hash resolves to, with its
/// owning Work, Segment and Group identifiers and descriptive payload.
pub struct ContentRecord {
    pub fid: u32,
    pub aid: u32,
    pub eid: u32,
    pub gid: u32,
    pub state: i16,
    pub size: i64,
    pub ed2k: String,
    pub colour_depth: String,
    pub quality: String,
    pub source: String,
    pub audio_codec_list: Vec<String>,
    pub audio_bitrate_list: Vec<i32>,
    pub video_codec: Vec<String>,
    pub video_bitrate: Vec<String>,
    pub video_resolution: Vec<String>,
    pub dub_language: String,
    pub sub_language: String,
    pub length_in_seconds: i32,
    pub description: String,
    pub aired_date: i64,
}

/// A series entity.
pub struct Work {
    pub aid: u32,
    pub dateflags: i32,
    pub year: String,
    pub atype: String,
    pub related_aid_list: Vec<u32>,
    pub related_aid_type: Vec<String>,
    pub romaji_name: String,
    pub kanji_name: String,
    pub english_name: String,
    pub short_name_list: Vec<String>,
    pub episodes: i32,
    pub special_ep_count: i32,
    pub air_date: Option<i64>,
    pub end_date: Option<i64>,
    pub picname: String,
    pub nsfw: bool,
    pub ann_id: i32,
    pub characterid_list: Vec<u32>,
    pub specials_count: i32,
    pub credits_count: i32,
    pub other_count: i32,
    pub trailer_count: i32,
    pub parody_count: i32,
}

/// An episode entity, with an advisory back-reference to its Work.
pub struct Segment {
    pub eid: u32,
    pub aid: u32,
    pub length: i32,
    pub rating: i32,
    pub votes: i32,
    pub epno: String,
    pub eng: String,
    pub romaji: String,
    pub kanji: String,
    pub aired: i64,
    pub etype: i32,
}

/// A release-group entity, independent of Work and Segment.
pub struct Group {
    pub gid: u32,
    pub rating: i32,
    pub votes: i32,
    pub acount: i32,
    pub fcount: i32,
    pub name: String,
    pub short: String,
    pub irc_channel: String,
    pub irc_server: String,
    pub url: String,
    pub picname: String,
    pub foundeddate: i64,
    pub disbandeddate: i64,
    pub dateflags: i16,
    pub lastreleasedate: i64,
    pub lastactivitydate: i64,
    pub grouprelations: String,
}

/// What a remote lookup came back with. `NotFound` is the catalog's defined
/// "unknown" answer and is recoverable; `Failed` is a session-level fault
/// (authentication, transport, malformed response) and is fatal for the run.
pub enum FetchOutcome<T> {
    Found(T),
    NotFound,
    Failed,
}

/// The fatal error of a run: the remote session itself is broken, so no
/// further files may be processed.
#[derive(Debug)]
pub enum SessionError {
    RemoteSession,
}

} // verus!
