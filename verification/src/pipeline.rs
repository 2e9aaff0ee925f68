//! The download as a state machine.
//!
//! The machine decides; its host acts. Each `Action` names one thing for
//! the host to do: fetch, post, read the clock, open or write the output,
//! report progress. The host does it and hands back the `Event` that tells
//! how it went. The machine never waits, reads or writes by itself, and it
//! holds no more than one segment at a time.

use vstd::prelude::*;
use crate::cipher::decrypt;
use crate::cipher::decrypted;
use crate::error::DownloadError;
use crate::keys::KeyCache;
use crate::locator::api_body;
use crate::locator::api_endpoint;
use crate::locator::api_headers;
use crate::locator::api_manifest;
use crate::locator::api_request;
use crate::locator::entry_of;
use crate::locator::locate_in_api_response;
use crate::locator::locate_in_page;
use crate::locator::page_manifest;
use crate::locator::parse_entry;
use crate::locator::ApiRequest;
use crate::locator::EntryReference;
use crate::locator::EntryView;
use crate::locator::Located;
use crate::locator::LocatedView;
use crate::address::pair_views;
use crate::master::select_best;
use crate::master::selected_stream;
use crate::media::parse_segments;
use crate::media::parsed_segments;
use crate::media::segment_views;
use crate::media::Segment;
use crate::media::SegmentView;

verus! {

/// How far a download has come: `completed` of `total` segments.
#[derive(Clone, Copy, Debug, PartialEq, Eq, Structural)]
pub struct DownloadProgress {
    pub completed: usize,
    pub total: usize,
}

/// What the host reports back.
#[derive(Debug)]
pub enum Event {
    /// The text that was asked for.
    Text(String),
    /// The bytes that were asked for.
    Bytes(Vec<u8>),
    /// The time, in milliseconds since the epoch.
    Clock(u64),
    /// What was to be done is done.
    Done,
    /// It could not be done.
    Failed,
}

/// What the host is to do next.
#[derive(Debug)]
pub enum Action {
    /// Fetch this address as text.
    GetText(String),
    /// Read the clock.
    ReadClock,
    /// Post this question and hand back the answer as text.
    PostJson(ApiRequest),
    /// Open the output.
    OpenSink,
    /// Tell the user how far the download has come.
    Report(DownloadProgress),
    /// Fetch this segment as bytes.
    GetSegment(String),
    /// Fetch this key as bytes.
    GetKey(String),
    /// Append these bytes to the output.
    Write(Vec<u8>),
    /// Stop: the download has ended, well or with this error.
    Finish(Result<(), DownloadError>),
}

/// What an `Event` holds.
pub enum EventView {
    Text(Seq<char>),
    Bytes(Seq<u8>),
    Clock(u64),
    Done,
    Failed,
}

/// What an `ApiRequest` holds.
pub struct ApiRequestView {
    pub url: Seq<char>,
    pub headers: Seq<(Seq<char>, Seq<char>)>,
    pub body: Seq<char>,
}

/// What an `Action` holds.
pub enum ActionView {
    GetText(Seq<char>),
    ReadClock,
    PostJson(ApiRequestView),
    OpenSink,
    /// The numbers of a `DownloadProgress`.
    Report { completed: nat, total: nat },
    GetSegment(Seq<char>),
    GetKey(Seq<char>),
    Write(Seq<u8>),
    Finish(Result<(), DownloadError>),
}

impl View for Event {
    type V = EventView;

    open spec fn view(&self) -> EventView {
        match self {
            Event::Text(text) => EventView::Text(text@),
            Event::Bytes(bytes) => EventView::Bytes(bytes@),
            Event::Clock(ms) => EventView::Clock(*ms),
            Event::Done => EventView::Done,
            Event::Failed => EventView::Failed,
        }
    }
}

impl View for ApiRequest {
    type V = ApiRequestView;

    open spec fn view(&self) -> ApiRequestView {
        ApiRequestView { url: self.url@, headers: pair_views(self.headers@), body: self.body@ }
    }
}

impl View for Action {
    type V = ActionView;

    open spec fn view(&self) -> ActionView {
        match self {
            Action::GetText(url) => ActionView::GetText(url@),
            Action::ReadClock => ActionView::ReadClock,
            Action::PostJson(request) => ActionView::PostJson(request@),
            Action::OpenSink => ActionView::OpenSink,
            Action::Report(progress) => ActionView::Report {
                completed: progress.completed as nat,
                total: progress.total as nat,
            },
            Action::GetSegment(url) => ActionView::GetSegment(url@),
            Action::GetKey(url) => ActionView::GetKey(url@),
            Action::Write(bytes) => ActionView::Write(bytes@),
            Action::Finish(outcome) => ActionView::Finish(*outcome),
        }
    }
}

/// Where a download stands: what the machine waits for.
enum Stage {
    Page,
    Clock,
    Api,
    Master(String),
    Media(String),
    Sink,
    Reported(usize),
    SegmentData(usize),
    KeyData(usize, Vec<u8>),
    Written(usize),
    Finished(Result<(), DownloadError>),
}

/// What a stage holds. The number in the stages of a segment is the index
/// of that segment.
pub enum StageView {
    /// Waiting for the page.
    Page,
    /// Waiting for the time.
    Clock,
    /// Waiting for the answer of the service.
    Api,
    /// Waiting for the master playlist, asked for at this address.
    Master(Seq<char>),
    /// Waiting for the media playlist, asked for at this address.
    Media(Seq<char>),
    /// Waiting for the output to be opened.
    Sink,
    /// Waiting for the progress of this segment to be reported.
    Reported(nat),
    /// Waiting for the bytes of this segment.
    SegmentData(nat),
    /// Waiting for the key of this segment, whose bytes are held.
    KeyData(nat, Seq<u8>),
    /// Waiting for this segment to be written.
    Written(nat),
    /// Ended, with this outcome.
    Finished(Result<(), DownloadError>),
}

impl View for Stage {
    type V = StageView;

    closed spec fn view(&self) -> StageView {
        match self {
            Stage::Page => StageView::Page,
            Stage::Clock => StageView::Clock,
            Stage::Api => StageView::Api,
            Stage::Master(url) => StageView::Master(url@),
            Stage::Media(url) => StageView::Media(url@),
            Stage::Sink => StageView::Sink,
            Stage::Reported(i) => StageView::Reported(*i as nat),
            Stage::SegmentData(i) => StageView::SegmentData(*i as nat),
            Stage::KeyData(i, data) => StageView::KeyData(*i as nat, data@),
            Stage::Written(i) => StageView::Written(*i as nat),
            Stage::Finished(outcome) => StageView::Finished(*outcome),
        }
    }
}

/// One download in progress.
pub struct Pipeline {
    entry: EntryReference,
    stage: Stage,
    segments: Vec<Segment>,
    keys: KeyCache,
}

/// What a `Pipeline` holds.
pub struct PipelineView {
    pub entry: EntryView,
    pub stage: StageView,
    pub segments: Seq<SegmentView>,
    pub keys: Map<Seq<char>, Seq<u8>>,
}

/// The index of the segment that a stage is about, if it is about one.
pub open spec fn segment_index(stage: StageView) -> Option<nat> {
    match stage {
        StageView::Reported(i) => Some(i),
        StageView::SegmentData(i) => Some(i),
        StageView::KeyData(i, _) => Some(i),
        StageView::Written(i) => Some(i),
        _ => None,
    }
}

/// A state makes sense: the segment that its stage is about exists, and
/// where a key is waited for that segment is encrypted and the cache does
/// not hold its key yet.
pub open spec fn coherent(state: PipelineView) -> bool {
    &&& segment_index(state.stage) matches Some(i) ==> i < state.segments.len()
    &&& state.stage matches StageView::KeyData(i, _) ==> {
        &&& state.segments[i as int].encryption is Some
        &&& !state.keys.contains_key(state.segments[i as int].encryption.unwrap().key_url)
    }
}

/// The state and the action of a download that ends here with `outcome`.
pub open spec fn ending(state: PipelineView, outcome: Result<(), DownloadError>) -> (
    PipelineView,
    ActionView,
) {
    (PipelineView { stage: StageView::Finished(outcome), ..state }, ActionView::Finish(outcome))
}

/// The state and the action that take up segment `i`: its progress is
/// reported; after the last segment the download ends well.
pub open spec fn taking_up(state: PipelineView, i: nat) -> (PipelineView, ActionView) {
    if i < state.segments.len() {
        (
            PipelineView { stage: StageView::Reported(i), ..state },
            ActionView::Report { completed: i + 1, total: state.segments.len() },
        )
    } else {
        ending(state, Ok(()))
    }
}

/// The state and the action once the bytes `data` of segment `i` and its
/// key are at hand: the plaintext is written, or the download ends with
/// `DecryptionFailed`.
pub open spec fn decrypting(
    state: PipelineView,
    i: nat,
    data: Seq<u8>,
    key: Seq<u8>,
    iv: Seq<u8>,
) -> (PipelineView, ActionView) {
    match decrypted(data, key, iv) {
        Some(plain) => (
            PipelineView { stage: StageView::Written(i), ..state },
            ActionView::Write(plain),
        ),
        None => ending(state, Err(DownloadError::DecryptionFailed)),
    }
}

/// The question put to the service for `entry` at the time `timestamp_ms`.
pub open spec fn request_for(entry: EntryView, timestamp_ms: u64) -> ApiRequestView {
    ApiRequestView {
        url: api_endpoint(),
        headers: api_headers(entry),
        body: api_body(entry, timestamp_ms),
    }
}

/// The state that follows `state` on `event`, and the action to take.
///
/// In order: the page is read, and the service asked where the page gives
/// nothing or cannot be had; the master playlist gives the stream, the
/// media playlist the segments; the output is opened; then for each
/// segment its progress is reported, its bytes are fetched, its key too
/// unless the cache holds it, and what is decrypted, or the bytes as they
/// came, is written. A failure ends the download with its error; so does an
/// event of a kind that was not waited for, as a failed transport. Once
/// ended, a download answers every event with its outcome.
pub open spec fn next(state: PipelineView, event: EventView) -> (PipelineView, ActionView) {
    match state.stage {
        StageView::Finished(outcome) => (state, ActionView::Finish(outcome)),
        StageView::Page => match event {
            EventView::Text(page) => match page_manifest(page) {
                LocatedView::Direct(url) => (
                    PipelineView { stage: StageView::Master(url), ..state },
                    ActionView::GetText(url),
                ),
                LocatedView::NeedsApiFallback(_) => (
                    PipelineView { stage: StageView::Clock, ..state },
                    ActionView::ReadClock,
                ),
            },
            EventView::Failed => (
                PipelineView { stage: StageView::Clock, ..state },
                ActionView::ReadClock,
            ),
            _ => ending(state, Err(DownloadError::TransportError)),
        },
        StageView::Clock => match event {
            EventView::Clock(ms) => (
                PipelineView { stage: StageView::Api, ..state },
                ActionView::PostJson(request_for(state.entry, ms)),
            ),
            _ => ending(state, Err(DownloadError::TransportError)),
        },
        StageView::Api => match event {
            EventView::Text(body) => match api_manifest(body) {
                Some(url) => (
                    PipelineView { stage: StageView::Master(url), ..state },
                    ActionView::GetText(url),
                ),
                None => ending(state, Err(DownloadError::ManifestNotFound)),
            },
            _ => ending(state, Err(DownloadError::TransportError)),
        },
        StageView::Master(base) => match event {
            EventView::Text(playlist) => match selected_stream(playlist, base) {
                Ok(url) => (
                    PipelineView { stage: StageView::Media(url), ..state },
                    ActionView::GetText(url),
                ),
                Err(e) => ending(state, Err(e)),
            },
            _ => ending(state, Err(DownloadError::TransportError)),
        },
        StageView::Media(base) => match event {
            EventView::Text(playlist) => match parsed_segments(playlist, base) {
                Ok(segments) => (
                    PipelineView { stage: StageView::Sink, segments, ..state },
                    ActionView::OpenSink,
                ),
                Err(e) => ending(state, Err(e)),
            },
            _ => ending(state, Err(DownloadError::TransportError)),
        },
        StageView::Sink => match event {
            EventView::Done => taking_up(state, 0),
            EventView::Failed => ending(state, Err(DownloadError::SinkWriteError)),
            _ => ending(state, Err(DownloadError::TransportError)),
        },
        StageView::Reported(i) => match event {
            EventView::Done => (
                PipelineView { stage: StageView::SegmentData(i), ..state },
                ActionView::GetSegment(state.segments[i as int].url),
            ),
            _ => ending(state, Err(DownloadError::TransportError)),
        },
        StageView::SegmentData(i) => match event {
            EventView::Bytes(data) => match state.segments[i as int].encryption {
                None => (
                    PipelineView { stage: StageView::Written(i), ..state },
                    ActionView::Write(data),
                ),
                Some(protection) => if state.keys.contains_key(protection.key_url) {
                    decrypting(state, i, data, state.keys[protection.key_url], protection.iv)
                } else {
                    (
                        PipelineView { stage: StageView::KeyData(i, data), ..state },
                        ActionView::GetKey(protection.key_url),
                    )
                },
            },
            _ => ending(state, Err(DownloadError::TransportError)),
        },
        StageView::KeyData(i, data) => match event {
            EventView::Bytes(key) => {
                let protection = state.segments[i as int].encryption.unwrap();
                decrypting(
                    PipelineView { keys: state.keys.insert(protection.key_url, key), ..state },
                    i,
                    data,
                    key,
                    protection.iv,
                )
            },
            EventView::Failed => ending(state, Err(DownloadError::InvalidKeyData)),
            _ => ending(state, Err(DownloadError::TransportError)),
        },
        StageView::Written(i) => match event {
            EventView::Done => taking_up(state, i + 1),
            EventView::Failed => ending(state, Err(DownloadError::SinkWriteError)),
            _ => ending(state, Err(DownloadError::TransportError)),
        },
    }
}

impl Pipeline {
    #[verifier::type_invariant]
    spec fn well_formed(self) -> bool {
        coherent(self@)
    }

    /// What the pipeline holds.
    pub closed spec fn view(&self) -> PipelineView {
        PipelineView {
            entry: self.entry@,
            stage: self.stage@,
            segments: segment_views(self.segments@),
            keys: self.keys@,
        }
    }

    /// What a download of `entry` starts with: waiting for the page, with no
    /// segments and no keys.
    pub open spec fn starting(entry: EntryView) -> PipelineView {
        PipelineView {
            entry,
            stage: StageView::Page,
            segments: Seq::empty(),
            keys: Map::empty(),
        }
    }

    /// Begins the download of the video at `entry_url`: the first action is
    /// to fetch that page. An address that is no URL, or has no path to
    /// take the video's identifier from, fails with `InvalidEntryUrl`.
    pub fn start(entry_url: &str) -> (r: Result<(Pipeline, Action), DownloadError>)
        ensures
            match r {
                Ok((pipeline, action)) => {
                    &&& entry_of(entry_url@) is Ok
                    &&& pipeline@ == Self::starting(entry_of(entry_url@).unwrap())
                    &&& action@ == ActionView::GetText(entry_url@)
                    &&& coherent(pipeline@)
                },
                Err(e) => e == DownloadError::InvalidEntryUrl && entry_of(entry_url@) is Err,
            },
    {
        match parse_entry(entry_url) {
            Err(_) => Err(DownloadError::InvalidEntryUrl),
            Ok(entry) => {
                let pipeline = Pipeline {
                    entry,
                    stage: Stage::Page,
                    segments: Vec::new(),
                    keys: KeyCache::new(),
                };
                assert(segment_views(pipeline.segments@) =~= Seq::<SegmentView>::empty());
                Ok((pipeline, Action::GetText(entry_url.to_owned())))
            },
        }
    }

    /// Whether the download has ended.
    pub fn is_finished(&self) -> (r: bool)
        ensures
            r == (self@.stage is Finished),
    {
        match &self.stage {
            Stage::Finished(_) => true,
            _ => false,
        }
    }

    /// The number of segments of the video; 0 until the media playlist has
    /// been read.
    pub fn segment_count(&self) -> (r: usize)
        ensures
            r == self@.segments.len(),
    {
        self.segments.len()
    }

    /// Takes the event that answers the last action and says what to do
    /// next: see `next`.
    pub fn step(self, event: Event) -> (r: (Pipeline, Action))
        ensures
            (r.0@, r.1@) == next(self@, event@),
            coherent(self@),
            coherent(r.0@),
    {
        proof {
            use_type_invariant(&self);
        }
        let ghost before = self@;
        let Pipeline { entry, stage, segments, keys } = self;
        assert(before.stage == stage@ && before.segments.len() == segments@.len());
        match stage {
            Stage::Finished(outcome) => (
                Pipeline { entry, stage: Stage::Finished(outcome), segments, keys },
                Action::Finish(outcome),
            ),
            Stage::Page => match event {
                Event::Text(page) => match locate_in_page(page.as_str()) {
                    Located::Direct(url) => {
                        let ask = url.clone();
                        (
                            Pipeline { entry, stage: Stage::Master(url), segments, keys },
                            Action::GetText(ask),
                        )
                    },
                    Located::NeedsApiFallback(_) => (
                        Pipeline { entry, stage: Stage::Clock, segments, keys },
                        Action::ReadClock,
                    ),
                },
                Event::Failed => (
                    Pipeline { entry, stage: Stage::Clock, segments, keys },
                    Action::ReadClock,
                ),
                _ => Self::end(entry, segments, keys, Err(DownloadError::TransportError)),
            },
            Stage::Clock => match event {
                Event::Clock(ms) => {
                    let request = api_request(&entry, ms);
                    (
                        Pipeline { entry, stage: Stage::Api, segments, keys },
                        Action::PostJson(request),
                    )
                },
                _ => Self::end(entry, segments, keys, Err(DownloadError::TransportError)),
            },
            Stage::Api => match event {
                Event::Text(body) => match locate_in_api_response(body.as_str()) {
                    Ok(url) => {
                        let ask = url.clone();
                        (
                            Pipeline { entry, stage: Stage::Master(url), segments, keys },
                            Action::GetText(ask),
                        )
                    },
                    Err(e) => Self::end(entry, segments, keys, Err(e)),
                },
                _ => Self::end(entry, segments, keys, Err(DownloadError::TransportError)),
            },
            Stage::Master(base) => match event {
                Event::Text(playlist) => match select_best(playlist.as_str(), base.as_str()) {
                    Ok(url) => {
                        let ask = url.clone();
                        (
                            Pipeline { entry, stage: Stage::Media(url), segments, keys },
                            Action::GetText(ask),
                        )
                    },
                    Err(e) => Self::end(entry, segments, keys, Err(e)),
                },
                _ => Self::end(entry, segments, keys, Err(DownloadError::TransportError)),
            },
            Stage::Media(base) => match event {
                Event::Text(playlist) => match parse_segments(playlist.as_str(), base.as_str()) {
                    Ok(found) => (
                        Pipeline { entry, stage: Stage::Sink, segments: found, keys },
                        Action::OpenSink,
                    ),
                    Err(e) => Self::end(entry, segments, keys, Err(e)),
                },
                _ => Self::end(entry, segments, keys, Err(DownloadError::TransportError)),
            },
            Stage::Sink => match event {
                Event::Done => Self::take_up(entry, segments, keys, 0),
                Event::Failed => Self::end(
                    entry,
                    segments,
                    keys,
                    Err(DownloadError::SinkWriteError),
                ),
                _ => Self::end(entry, segments, keys, Err(DownloadError::TransportError)),
            },
            Stage::Reported(i) => match event {
                Event::Done => {
                    let ask = segments[i].url.clone();
                    (
                        Pipeline { entry, stage: Stage::SegmentData(i), segments, keys },
                        Action::GetSegment(ask),
                    )
                },
                _ => Self::end(entry, segments, keys, Err(DownloadError::TransportError)),
            },
            Stage::SegmentData(i) => match event {
                Event::Bytes(data) => {
                    let held = match &segments[i].encryption {
                        None => None,
                        Some(protection) => Some(
                            (protection.key_url.clone(), keys.contains(protection.key_url.as_str())),
                        ),
                    };
                    match held {
                        None => (
                            Pipeline { entry, stage: Stage::Written(i), segments, keys },
                            Action::Write(data),
                        ),
                        Some((key_url, true)) => Self::decrypt_and_write(
                            entry,
                            segments,
                            keys,
                            i,
                            data,
                        ),
                        Some((key_url, false)) => (
                            Pipeline { entry, stage: Stage::KeyData(i, data), segments, keys },
                            Action::GetKey(key_url),
                        ),
                    }
                },
                _ => Self::end(entry, segments, keys, Err(DownloadError::TransportError)),
            },
            Stage::KeyData(i, data) => match event {
                Event::Bytes(key) => {
                    let key_url = match &segments[i].encryption {
                        Some(protection) => protection.key_url.clone(),
                        None => String::new(),
                    };
                    let mut keys = keys;
                    keys.insert(key_url, key);
                    Self::decrypt_and_write(entry, segments, keys, i, data)
                },
                Event::Failed => Self::end(
                    entry,
                    segments,
                    keys,
                    Err(DownloadError::InvalidKeyData),
                ),
                _ => Self::end(entry, segments, keys, Err(DownloadError::TransportError)),
            },
            Stage::Written(i) => match event {
                Event::Done => {
                    let count: usize = segments.len();
                    assert(i < count);
                    Self::take_up(entry, segments, keys, i + 1)
                },
                Event::Failed => Self::end(
                    entry,
                    segments,
                    keys,
                    Err(DownloadError::SinkWriteError),
                ),
                _ => Self::end(entry, segments, keys, Err(DownloadError::TransportError)),
            },
        }
    }

    /// Ends the download.
    fn end(
        entry: EntryReference,
        segments: Vec<Segment>,
        keys: KeyCache,
        outcome: Result<(), DownloadError>,
    ) -> (r: (Pipeline, Action))
        ensures
            r.0.entry == entry,
            r.0.segments == segments,
            r.0.keys == keys,
            r.0.stage@ == StageView::Finished(outcome),
            r.1@ == ActionView::Finish(outcome),
    {
        (Pipeline { entry, stage: Stage::Finished(outcome), segments, keys }, Action::Finish(outcome))
    }

    /// Takes up segment `i`, or ends the download after the last.
    fn take_up(entry: EntryReference, segments: Vec<Segment>, keys: KeyCache, i: usize) -> (r: (
        Pipeline,
        Action,
    ))
        requires
            i <= segments@.len(),
        ensures
            r.0.entry == entry,
            r.0.segments == segments,
            r.0.keys == keys,
            i < segments@.len() ==> r.0.stage@ == StageView::Reported(i as nat) && r.1@
                == (ActionView::Report { completed: (i + 1) as nat, total: segments@.len() }),
            i >= segments@.len() ==> r.0.stage@ == StageView::Finished(Ok(())) && r.1@
                == ActionView::Finish(Ok(())),
    {
        if i < segments.len() {
            let progress = DownloadProgress { completed: i + 1, total: segments.len() };
            (Pipeline { entry, stage: Stage::Reported(i), segments, keys }, Action::Report(progress))
        } else {
            Self::end(entry, segments, keys, Ok(()))
        }
    }

    /// Decrypts the bytes of segment `i` with its key, which the cache
    /// holds.
    fn decrypt_and_write(
        entry: EntryReference,
        segments: Vec<Segment>,
        keys: KeyCache,
        i: usize,
        data: Vec<u8>,
    ) -> (r: (Pipeline, Action))
        requires
            i < segments@.len(),
            segments@[i as int].encryption is Some,
            keys@.contains_key(segments@[i as int].encryption.unwrap().key_url@),
        ensures
            r.0.entry == entry,
            r.0.segments == segments,
            r.0.keys == keys,
            ({
                let protection = segments@[i as int].encryption.unwrap();
                match decrypted(data@, keys@[protection.key_url@], protection.iv@) {
                    Some(plain) => r.0.stage@ == StageView::Written(i as nat) && r.1@
                        == ActionView::Write(plain),
                    None => r.0.stage@ == StageView::Finished(
                        Err(DownloadError::DecryptionFailed),
                    ) && r.1@ == ActionView::Finish(Err(DownloadError::DecryptionFailed)),
                }
            }),
    {
        let outcome = match &segments[i].encryption {
            Some(protection) => match keys.get(protection.key_url.as_str()) {
                Some(key) => decrypt(data.as_slice(), key.as_slice(), protection.iv.as_slice()),
                None => Err(DownloadError::DecryptionFailed),
            },
            None => Err(DownloadError::DecryptionFailed),
        };
        match outcome {
            Ok(plain) => (
                Pipeline { entry, stage: Stage::Written(i), segments, keys },
                Action::Write(plain),
            ),
            Err(e) => Self::end(entry, segments, keys, Err(DownloadError::DecryptionFailed)),
        }
    }
}

} // verus!
