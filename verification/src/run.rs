//! Normalizing one raw run payload into a flat record.
//!
//! A raw run is the already-deserialized shape of the service's nested
//! `run` object: identifiers, an optional video container, the realtime
//! duration string, and the player references. Normalization parses the
//! duration, selects the preferred video link, and resolves every player
//! reference, failing fast on any inconsistency rather than patching it
//! over.

use vstd::prelude::*;

use crate::duration::{parse_duration, parse_duration_spec, ParsedDuration};
use crate::error::{res_view, Error};
use crate::player::{resolve_all, resolve_all_spec, PlayerIdentity, PlayerIdentityView, PlayerRef,
    PlayerRefView};
use crate::video::{select_video, select_video_spec};

verus! {

/// A raw run as the records payload carries it, flattened of its
/// one-field wrapper object: the video container is already reduced to
/// its list of candidate URIs, `None` standing for a null or absent
/// container.
#[derive(Debug, Clone, PartialEq)]
pub struct RawRun {
    pub id: String,
    pub weblink: String,
    pub videos: Option<Vec<String>>,
    pub realtime: String,
    pub submitted: String,
    pub players: Vec<PlayerRef>,
}

/// The mathematical shadow of a [`RawRun`].
pub struct RawRunView {
    pub id: Seq<char>,
    pub weblink: Seq<char>,
    pub videos: Option<Seq<Seq<char>>>,
    pub realtime: Seq<char>,
    pub submitted: Seq<char>,
    pub players: Seq<PlayerRefView>,
}

impl View for RawRun {
    type V = RawRunView;

    open spec fn view(&self) -> RawRunView {
        RawRunView {
            id: self.id@,
            weblink: self.weblink@,
            videos: self.videos.deep_view(),
            realtime: self.realtime@,
            submitted: self.submitted@,
            players: self.players.deep_view(),
        }
    }
}

impl DeepView for RawRun {
    type V = RawRunView;

    open spec fn deep_view(&self) -> RawRunView {
        self.view()
    }
}

/// A normalized run: flat, typed, and never mutated after construction.
#[derive(Debug, Clone, PartialEq)]
pub struct Run {
    pub id: String,
    pub weblink: String,
    pub video_uri: String,
    pub duration: ParsedDuration,
    pub submitted_at: String,
    pub players: Vec<PlayerIdentity>,
}

/// The mathematical shadow of a [`Run`].
pub struct RunView {
    pub id: Seq<char>,
    pub weblink: Seq<char>,
    pub video_uri: Seq<char>,
    pub duration: ParsedDuration,
    pub submitted_at: Seq<char>,
    pub players: Seq<PlayerIdentityView>,
}

impl View for Run {
    type V = RunView;

    open spec fn view(&self) -> RunView {
        RunView {
            id: self.id@,
            weblink: self.weblink@,
            video_uri: self.video_uri@,
            duration: self.duration,
            submitted_at: self.submitted_at@,
            players: self.players.deep_view(),
        }
    }
}

impl DeepView for Run {
    type V = RunView;

    open spec fn deep_view(&self) -> RunView {
        self.view()
    }
}

/// The flat record a raw run normalizes to: its duration parsed, its
/// video link selected, and every player reference resolved, in order.
/// A run with no player references, a reference lacking its tag's field,
/// and an unparsable duration each fail the whole normalization.
pub open spec fn normalize_run_spec(raw: RawRunView) -> Result<RunView, Error> {
    if raw.players.len() == 0 {
        Err(Error::MalformedPlayerReference)
    } else {
        match parse_duration_spec(raw.realtime) {
            Err(e) => Err(e),
            Ok(duration) => match resolve_all_spec(raw.players) {
                Err(e) => Err(e),
                Ok(ids) => Ok(
                    RunView {
                        id: raw.id,
                        weblink: raw.weblink,
                        video_uri: match raw.videos {
                            Some(uris) => select_video_spec(uris),
                            None => Seq::empty(),
                        },
                        duration,
                        submitted_at: raw.submitted,
                        players: ids,
                    },
                ),
            },
        }
    }
}

/// Normalize one raw run into a flat [`Run`] record.
pub fn normalize_run(raw: &RawRun) -> (res: Result<Run, Error>)
    ensures
        res_view(res) == normalize_run_spec(raw@),
{
    if raw.players.len() == 0 {
        return Err(Error::MalformedPlayerReference);
    }
    let duration = match parse_duration(raw.realtime.as_str()) {
        Ok(d) => d,
        Err(e) => {
            return Err(e);
        },
    };
    let players = match resolve_all(&raw.players) {
        Ok(ids) => ids,
        Err(e) => {
            return Err(e);
        },
    };
    let video_uri = match &raw.videos {
        Some(uris) => select_video(uris),
        None => String::new(),
    };
    Ok(Run {
        id: raw.id.clone(),
        weblink: raw.weblink.clone(),
        video_uri,
        duration,
        submitted_at: raw.submitted.clone(),
        players,
    })
}

} // verus!
