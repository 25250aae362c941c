//! One selectable quality of a video and the tracks it is made of.

use vstd::prelude::*;
use vstd::string::StringExecFns;
use crate::downloader_error::{DownloaderError, DownloaderErrorView};
use crate::playlist::media_playlist::{MediaPlaylist, MediaPlaylistView};
use crate::text::{stem, stem_of};

verus! {

/// The program that combines the tracks of a variant into one file.
pub const MUXER: &'static str = "ffmpeg";

/// The extension of the file that the muxer writes.
pub const CONTAINER_EXTENSION: &'static str = ".mp4";

/// One of the two tracks of a variant.
#[derive(Debug, Clone, Copy, PartialEq, Eq, Structural)]
pub enum Track {
    Video,
    Audio,
}

/// How far the download of a variant has come: the step whose outcome is
/// awaited.
#[derive(Debug, Clone, Copy, PartialEq, Eq, Structural)]
pub enum DownloadPhase {
    ResolvingVideo,
    ResolvingAudio,
    WritingVideo,
    WritingAudio,
    Muxing,
    RemovingAudio,
    RemovingVideo,
    Done,
}

/// What the download of a variant has settled so far.
pub struct DownloadState {
    /// The step whose outcome is awaited.
    pub phase: DownloadPhase,
    /// The temporary file of the video track.
    pub video_name: String,
    /// The temporary file of the audio track, once that track is resolved.
    pub audio_name: Option<String>,
    /// The file that the muxer is to write.
    pub output_name: String,
    /// The first failure since the muxer was started, if any.
    pub failure: Option<DownloaderError>,
}

/// What a `DownloadState` holds.
pub struct DownloadStateView {
    pub phase: DownloadPhase,
    pub video_name: Seq<char>,
    pub audio_name: Option<Seq<char>>,
    pub output_name: Seq<char>,
    pub failure: Option<DownloaderErrorView>,
}

impl View for DownloadState {
    type V = DownloadStateView;

    open spec fn view(&self) -> DownloadStateView {
        DownloadStateView {
            phase: self.phase,
            video_name: self.video_name@,
            audio_name: self.audio_name.deep_view(),
            output_name: self.output_name@,
            failure: match self.failure {
                Some(error) => Some(error@),
                None => None,
            },
        }
    }
}

/// What is to be done next for a download. Each action but `Finish` is
/// answered with the event that tells how it went.
pub enum DownloadAction {
    /// Resolve the media manifest at `url` into the given track.
    Resolve { track: Track, url: String },
    /// Write the bytes of the given track, which is resolved, to `path`.
    Write { track: Track, path: String },
    /// Run `MUXER` with the given arguments.
    Mux { arguments: Vec<String> },
    /// Remove the temporary file at `path`.
    Remove { path: String },
    /// The download has ended, with the path of the final file or a failure.
    Finish(Result<String, DownloaderError>),
}

/// What a `DownloadAction` holds.
pub enum DownloadActionView {
    Resolve { track: Track, url: Seq<char> },
    Write { track: Track, path: Seq<char> },
    Mux { arguments: Seq<Seq<char>> },
    Remove { path: Seq<char> },
    Finish(Result<Seq<char>, DownloaderErrorView>),
}

impl View for DownloadAction {
    type V = DownloadActionView;

    open spec fn view(&self) -> DownloadActionView {
        match self {
            DownloadAction::Resolve { track, url } => DownloadActionView::Resolve {
                track: *track,
                url: url@,
            },
            DownloadAction::Write { track, path } => DownloadActionView::Write {
                track: *track,
                path: path@,
            },
            DownloadAction::Mux { arguments } => DownloadActionView::Mux {
                arguments: arguments.deep_view(),
            },
            DownloadAction::Remove { path } => DownloadActionView::Remove { path: path@ },
            DownloadAction::Finish(Ok(path)) => DownloadActionView::Finish(Ok(path@)),
            DownloadAction::Finish(Err(error)) => DownloadActionView::Finish(Err(error@)),
        }
    }
}

/// How an action went.
pub enum DownloadEvent {
    /// A media manifest was resolved into a track, or could not be.
    Resolved(Result<MediaPlaylist, DownloaderError>),
    /// A temporary file was written, or could not be.
    Written(bool),
    /// The muxer ran and left with the given status; `None` where it could
    /// not be started or left without one.
    Muxed(Option<i32>),
    /// A temporary file was removed, or could not be.
    Removed(bool),
}

/// What a `DownloadEvent` holds.
pub enum DownloadEventView {
    Resolved(Result<MediaPlaylistView, DownloaderErrorView>),
    Written(bool),
    Muxed(Option<i32>),
    Removed(bool),
}

impl View for DownloadEvent {
    type V = DownloadEventView;

    open spec fn view(&self) -> DownloadEventView {
        match self {
            DownloadEvent::Resolved(Ok(playlist)) => DownloadEventView::Resolved(Ok(playlist@)),
            DownloadEvent::Resolved(Err(error)) => DownloadEventView::Resolved(Err(error@)),
            DownloadEvent::Written(done) => DownloadEventView::Written(*done),
            DownloadEvent::Muxed(status) => DownloadEventView::Muxed(*status),
            DownloadEvent::Removed(done) => DownloadEventView::Removed(*done),
        }
    }
}

/// The arguments with which the muxer combines the given files into
/// `output` without encoding anew: both tracks where there is audio, the
/// video alone where there is none.
pub open spec fn mux_arguments_of(
    video: Seq<char>,
    audio: Option<Seq<char>>,
    output: Seq<char>,
) -> Seq<Seq<char>> {
    match audio {
        Some(audio) => seq!["-i"@, video, "-i"@, audio, "-c"@, "copy"@, "-y"@, output],
        None => seq!["-i"@, video, "-c"@, "copy"@, "-y"@, output],
    }
}

/// The name of the final file of a variant: the name of its video track, `_`,
/// its resolution and `CONTAINER_EXTENSION`.
pub open spec fn output_name_of(video_name: Seq<char>, resolution: Seq<char>) -> Seq<char> {
    video_name + "_"@ + resolution + CONTAINER_EXTENSION@
}

/// The outcome that ends a download: the final file, unless something has
/// failed since the muxer was started.
pub open spec fn outcome_of(state: DownloadStateView) -> Result<Seq<char>, DownloaderErrorView> {
    match state.failure {
        Some(error) => Err(error),
        None => Ok(state.output_name),
    }
}

/// The failure on record after a step since the muxer was started: the first
/// one stays.
pub open spec fn failure_after(
    before: Option<DownloaderErrorView>,
    went_well: bool,
    otherwise: DownloaderErrorView,
) -> Option<DownloaderErrorView> {
    match before {
        Some(error) => Some(error),
        None => if went_well {
            None
        } else {
            Some(otherwise)
        },
    }
}

/// The state in which a download begins.
pub open spec fn initial_state() -> DownloadStateView {
    DownloadStateView {
        phase: DownloadPhase::ResolvingVideo,
        video_name: Seq::empty(),
        audio_name: None,
        output_name: Seq::empty(),
        failure: None,
    }
}

/// The action with which a download begins.
pub open spec fn initial_action(variant: MasterPlaylistView) -> DownloadActionView {
    DownloadActionView::Resolve { track: Track::Video, url: variant.video_media_url }
}

/// The state of a download that has ended.
pub open spec fn ended(state: DownloadStateView) -> DownloadStateView {
    DownloadStateView { phase: DownloadPhase::Done, ..state }
}

/// One step of a download: what the variant and the state become once `event`
/// has answered the pending action, and what is to be done next.
///
/// Both tracks are resolved before anything is written; a track that cannot
/// be resolved, or a file that cannot be written, ends the download with that
/// failure. Once the muxer has been started, every temporary file that was
/// written is removed, whatever happens, and only then the download ends:
/// with `FfmpegError` where the muxer did not leave with status 0, else with
/// `IOError` where a file could not be removed, else with the final file. An
/// event that does not answer the pending action counts as its failure.
pub open spec fn next_step(
    variant: MasterPlaylistView,
    state: DownloadStateView,
    event: DownloadEventView,
) -> (MasterPlaylistView, DownloadStateView, DownloadActionView) {
    match state.phase {
        DownloadPhase::ResolvingVideo => match event {
            DownloadEventView::Resolved(Ok(track)) => {
                let video_name = stem_of(track.name);
                let resolved = MasterPlaylistView { video_media_playlist: Some(track), ..variant };
                let named = DownloadStateView {
                    video_name,
                    output_name: output_name_of(video_name, variant.resolution),
                    ..state
                };
                match variant.audio_media_url {
                    Some(url) => (
                        resolved,
                        DownloadStateView { phase: DownloadPhase::ResolvingAudio, ..named },
                        DownloadActionView::Resolve { track: Track::Audio, url },
                    ),
                    None => (
                        resolved,
                        DownloadStateView { phase: DownloadPhase::WritingVideo, ..named },
                        DownloadActionView::Write { track: Track::Video, path: video_name },
                    ),
                }
            },
            DownloadEventView::Resolved(Err(error)) => (
                variant,
                ended(state),
                DownloadActionView::Finish(Err(error)),
            ),
            _ => (
                variant,
                ended(state),
                DownloadActionView::Finish(Err(DownloaderErrorView::FetchError)),
            ),
        },
        DownloadPhase::ResolvingAudio => match event {
            DownloadEventView::Resolved(Ok(track)) => (
                MasterPlaylistView { audio_media_playlist: Some(track), ..variant },
                DownloadStateView {
                    phase: DownloadPhase::WritingVideo,
                    audio_name: Some(stem_of(track.name)),
                    ..state
                },
                DownloadActionView::Write { track: Track::Video, path: state.video_name },
            ),
            DownloadEventView::Resolved(Err(error)) => (
                variant,
                ended(state),
                DownloadActionView::Finish(Err(error)),
            ),
            _ => (
                variant,
                ended(state),
                DownloadActionView::Finish(Err(DownloaderErrorView::FetchError)),
            ),
        },
        DownloadPhase::WritingVideo => match (event, state.audio_name) {
            (DownloadEventView::Written(true), Some(audio_name)) => (
                variant,
                DownloadStateView { phase: DownloadPhase::WritingAudio, ..state },
                DownloadActionView::Write { track: Track::Audio, path: audio_name },
            ),
            (DownloadEventView::Written(true), None) => (
                variant,
                DownloadStateView { phase: DownloadPhase::Muxing, ..state },
                DownloadActionView::Mux {
                    arguments: mux_arguments_of(state.video_name, None, state.output_name),
                },
            ),
            _ => (
                variant,
                ended(state),
                DownloadActionView::Finish(Err(DownloaderErrorView::IOError)),
            ),
        },
        DownloadPhase::WritingAudio => match event {
            DownloadEventView::Written(true) => (
                variant,
                DownloadStateView { phase: DownloadPhase::Muxing, ..state },
                DownloadActionView::Mux {
                    arguments: mux_arguments_of(
                        state.video_name,
                        state.audio_name,
                        state.output_name,
                    ),
                },
            ),
            _ => (
                variant,
                ended(state),
                DownloadActionView::Finish(Err(DownloaderErrorView::IOError)),
            ),
        },
        DownloadPhase::Muxing => {
            let failure = failure_after(
                state.failure,
                event == DownloadEventView::Muxed(Some(0i32)),
                DownloaderErrorView::FfmpegError,
            );
            match state.audio_name {
                Some(audio_name) => (
                    variant,
                    DownloadStateView { phase: DownloadPhase::RemovingAudio, failure, ..state },
                    DownloadActionView::Remove { path: audio_name },
                ),
                None => (
                    variant,
                    DownloadStateView { phase: DownloadPhase::RemovingVideo, failure, ..state },
                    DownloadActionView::Remove { path: state.video_name },
                ),
            }
        },
        DownloadPhase::RemovingAudio => (
            variant,
            DownloadStateView {
                phase: DownloadPhase::RemovingVideo,
                failure: failure_after(
                    state.failure,
                    event == DownloadEventView::Removed(true),
                    DownloaderErrorView::IOError,
                ),
                ..state
            },
            DownloadActionView::Remove { path: state.video_name },
        ),
        DownloadPhase::RemovingVideo => {
            let last = DownloadStateView {
                phase: DownloadPhase::Done,
                failure: failure_after(
                    state.failure,
                    event == DownloadEventView::Removed(true),
                    DownloaderErrorView::IOError,
                ),
                ..state
            };
            (variant, last, DownloadActionView::Finish(outcome_of(last)))
        },
        DownloadPhase::Done => (
            variant,
            state,
            DownloadActionView::Finish(Err(DownloaderErrorView::InvalidInputError)),
        ),
    }
}

/// One quality level: where its tracks are listed and, once it has been
/// downloaded, what they hold.
pub struct MasterPlaylist {
    /// The resolution as the manifest writes it, width `x` height.
    pub resolution: String,
    video_media_playlist: Option<MediaPlaylist>,
    audio_media_playlist: Option<MediaPlaylist>,
    video_media_url: String,
    audio_media_url: Option<String>,
}

/// What a `MasterPlaylist` holds.
pub struct MasterPlaylistView {
    pub resolution: Seq<char>,
    pub video_media_playlist: Option<MediaPlaylistView>,
    pub audio_media_playlist: Option<MediaPlaylistView>,
    pub video_media_url: Seq<char>,
    pub audio_media_url: Option<Seq<char>>,
}

impl View for MasterPlaylist {
    type V = MasterPlaylistView;

    closed spec fn view(&self) -> MasterPlaylistView {
        MasterPlaylistView {
            resolution: self.resolution@,
            video_media_playlist: self.video_media_playlist.deep_view(),
            audio_media_playlist: self.audio_media_playlist.deep_view(),
            video_media_url: self.video_media_url@,
            audio_media_url: self.audio_media_url.deep_view(),
        }
    }
}

impl DeepView for MasterPlaylist {
    type V = MasterPlaylistView;

    open spec fn deep_view(&self) -> MasterPlaylistView {
        self@
    }
}

impl MasterPlaylist {
    /// The variant whose tracks are listed at the given locations. Nothing is
    /// fetched: the tracks stay unresolved and the resolution empty.
    pub fn from_urls(video_url: String, audio_url: Option<String>) -> (made: Result<
        MasterPlaylist,
        DownloaderError,
    >)
        ensures
            made matches Ok(playlist) && playlist@ == (MasterPlaylistView {
                resolution: Seq::empty(),
                video_media_playlist: None,
                audio_media_playlist: None,
                video_media_url: video_url@,
                audio_media_url: audio_url.deep_view(),
            }),
    {
        Ok(
            MasterPlaylist {
                resolution: String::new(),
                video_media_playlist: None,
                audio_media_playlist: None,
                video_media_url: video_url,
                audio_media_url: audio_url,
            },
        )
    }

    /// Where the video track is listed.
    pub fn video_media_url(&self) -> (url: &String)
        ensures
            url@ == self@.video_media_url,
    {
        &self.video_media_url
    }

    /// Where the audio track is listed, if the variant has one.
    pub fn audio_media_url(&self) -> (url: &Option<String>)
        ensures
            url.deep_view() == self@.audio_media_url,
    {
        &self.audio_media_url
    }

    /// The resolution as the manifest writes it.
    pub fn resolution(&self) -> (resolution: &String)
        ensures
            resolution@ == self@.resolution,
    {
        &self.resolution
    }

    /// Gives the variant its resolution and leaves the rest as it is.
    pub fn set_resolution(&mut self, resolution: String)
        ensures
            final(self)@ == (MasterPlaylistView { resolution: resolution@, ..old(self)@ }),
    {
        self.resolution = resolution;
    }

    /// The video track, once the variant has been downloaded.
    pub fn video_media_playlist(&self) -> (track: &Option<MediaPlaylist>)
        ensures
            track.deep_view() == self@.video_media_playlist,
    {
        &self.video_media_playlist
    }

    /// The audio track, once the variant has been downloaded with one.
    pub fn audio_media_playlist(&self) -> (track: &Option<MediaPlaylist>)
        ensures
            track.deep_view() == self@.audio_media_playlist,
    {
        &self.audio_media_playlist
    }

    /// Begins a download of the variant: nothing is settled yet, and the
    /// video track is to be resolved first.
    pub fn begin_download(&self) -> (begun: (DownloadState, DownloadAction))
        ensures
            begun.0@ == initial_state(),
            begun.1@ == initial_action(self@),
    {
        (
            DownloadState {
                phase: DownloadPhase::ResolvingVideo,
                video_name: String::new(),
                audio_name: None,
                output_name: String::new(),
                failure: None,
            },
            DownloadAction::Resolve { track: Track::Video, url: self.video_media_url.clone() },
        )
    }

    /// Takes the download of the variant one step further: `event` tells how
    /// the pending action went, and the result tells what is settled now and
    /// what is to be done next. A resolved track is kept in the variant, in
    /// place of one resolved before.
    pub fn advance(&mut self, state: DownloadState, event: DownloadEvent) -> (next: (
        DownloadState,
        DownloadAction,
    ))
        ensures
            (final(self)@, next.0@, next.1@) == next_step(old(self)@, state@, event@),
    {
        let mut state = state;
        match state.phase {
            DownloadPhase::ResolvingVideo => match event {
                DownloadEvent::Resolved(Ok(track)) => {
                    state.video_name = stem(track.name().as_str());
                    state.output_name = output_name(
                        state.video_name.as_str(),
                        self.resolution.as_str(),
                    );
                    self.video_media_playlist = Some(track);
                    match &self.audio_media_url {
                        Some(url) => {
                            state.phase = DownloadPhase::ResolvingAudio;
                            (state, DownloadAction::Resolve { track: Track::Audio, url: url.clone() })
                        },
                        None => {
                            state.phase = DownloadPhase::WritingVideo;
                            let path = state.video_name.clone();
                            (state, DownloadAction::Write { track: Track::Video, path })
                        },
                    }
                },
                DownloadEvent::Resolved(Err(error)) => {
                    state.phase = DownloadPhase::Done;
                    (state, DownloadAction::Finish(Err(error)))
                },
                _ => {
                    state.phase = DownloadPhase::Done;
                    (state, DownloadAction::Finish(Err(DownloaderError::FetchError)))
                },
            },
            DownloadPhase::ResolvingAudio => match event {
                DownloadEvent::Resolved(Ok(track)) => {
                    state.audio_name = Some(stem(track.name().as_str()));
                    self.audio_media_playlist = Some(track);
                    state.phase = DownloadPhase::WritingVideo;
                    let path = state.video_name.clone();
                    (state, DownloadAction::Write { track: Track::Video, path })
                },
                DownloadEvent::Resolved(Err(error)) => {
                    state.phase = DownloadPhase::Done;
                    (state, DownloadAction::Finish(Err(error)))
                },
                _ => {
                    state.phase = DownloadPhase::Done;
                    (state, DownloadAction::Finish(Err(DownloaderError::FetchError)))
                },
            },
            DownloadPhase::WritingVideo => {
                let written = match event {
                    DownloadEvent::Written(true) => true,
                    _ => false,
                };
                if !written {
                    state.phase = DownloadPhase::Done;
                    return (state, DownloadAction::Finish(Err(DownloaderError::IOError)));
                }
                match &state.audio_name {
                    Some(audio_name) => {
                        let path = audio_name.clone();
                        state.phase = DownloadPhase::WritingAudio;
                        (state, DownloadAction::Write { track: Track::Audio, path })
                    },
                    None => {
                        let arguments = mux_arguments(
                            state.video_name.as_str(),
                            None,
                            state.output_name.as_str(),
                        );
                        state.phase = DownloadPhase::Muxing;
                        (state, DownloadAction::Mux { arguments })
                    },
                }
            },
            DownloadPhase::WritingAudio => {
                let written = match event {
                    DownloadEvent::Written(true) => true,
                    _ => false,
                };
                if !written {
                    state.phase = DownloadPhase::Done;
                    return (state, DownloadAction::Finish(Err(DownloaderError::IOError)));
                }
                let arguments = mux_arguments(
                    state.video_name.as_str(),
                    as_text(&state.audio_name),
                    state.output_name.as_str(),
                );
                state.phase = DownloadPhase::Muxing;
                (state, DownloadAction::Mux { arguments })
            },
            DownloadPhase::Muxing => {
                let muxed = match event {
                    DownloadEvent::Muxed(Some(0)) => true,
                    _ => false,
                };
                state.failure = record(state.failure, muxed, DownloaderError::FfmpegError);
                match &state.audio_name {
                    Some(audio_name) => {
                        let path = audio_name.clone();
                        state.phase = DownloadPhase::RemovingAudio;
                        (state, DownloadAction::Remove { path })
                    },
                    None => {
                        let path = state.video_name.clone();
                        state.phase = DownloadPhase::RemovingVideo;
                        (state, DownloadAction::Remove { path })
                    },
                }
            },
            DownloadPhase::RemovingAudio => {
                let removed = match event {
                    DownloadEvent::Removed(true) => true,
                    _ => false,
                };
                state.failure = record(state.failure, removed, DownloaderError::IOError);
                let path = state.video_name.clone();
                state.phase = DownloadPhase::RemovingVideo;
                (state, DownloadAction::Remove { path })
            },
            DownloadPhase::RemovingVideo => {
                let removed = match event {
                    DownloadEvent::Removed(true) => true,
                    _ => false,
                };
                state.failure = record(state.failure, removed, DownloaderError::IOError);
                state.phase = DownloadPhase::Done;
                let outcome = match &state.failure {
                    Some(error) => Err(error.duplicate()),
                    None => Ok(state.output_name.clone()),
                };
                (state, DownloadAction::Finish(outcome))
            },
            DownloadPhase::Done => (
                state,
                DownloadAction::Finish(Err(DownloaderError::InvalidInputError)),
            ),
        }
    }
}

/// An optional text, borrowed.
fn as_text(text: &Option<String>) -> (borrowed: Option<&str>)
    ensures
        borrowed.deep_view() == text.deep_view(),
{
    match text {
        Some(text) => Some(text.as_str()),
        None => None,
    }
}

/// Keeps the first failure on record.
fn record(before: Option<DownloaderError>, went_well: bool, otherwise: DownloaderError) -> (after:
    Option<DownloaderError>)
    ensures
        (match after {
            Some(error) => Some(error@),
            None => None,
        }) == failure_after(
            match before {
                Some(error) => Some(error@),
                None => None,
            },
            went_well,
            otherwise@,
        ),
{
    match before {
        Some(error) => Some(error),
        None => if went_well {
            None
        } else {
            Some(otherwise)
        },
    }
}

/// Names the final file of a variant.
pub fn output_name(video_name: &str, resolution: &str) -> (name: String)
    ensures
        name@ == output_name_of(video_name@, resolution@),
{
    String::from_str(video_name).concat("_").concat(resolution).concat(CONTAINER_EXTENSION)
}

/// Makes the arguments with which the muxer combines the given files into
/// `output`.
pub fn mux_arguments(video: &str, audio: Option<&str>, output: &str) -> (arguments: Vec<String>)
    ensures
        arguments.deep_view() == mux_arguments_of(video@, audio.deep_view(), output@),
{
    let mut arguments: Vec<String> = Vec::new();
    arguments.push(String::from_str("-i"));
    arguments.push(String::from_str(video));
    match audio {
        Some(audio) => {
            arguments.push(String::from_str("-i"));
            arguments.push(String::from_str(audio));
        },
        None => {},
    }
    arguments.push(String::from_str("-c"));
    arguments.push(String::from_str("copy"));
    arguments.push(String::from_str("-y"));
    arguments.push(String::from_str(output));
    assert(arguments.deep_view() =~= mux_arguments_of(video@, audio.deep_view(), output@));
    arguments
}

/// Whether a download is one of a variant without audio that has had
/// nothing to do with audio so far.
pub open spec fn video_only(variant: MasterPlaylistView, state: DownloadStateView) -> bool {
    &&& variant.audio_media_url is None
    &&& state.audio_name is None
    &&& state.phase != DownloadPhase::ResolvingAudio
    &&& state.phase != DownloadPhase::WritingAudio
    &&& state.phase != DownloadPhase::RemovingAudio
}

/// Remux only: a download of a variant without audio begins as one that has
/// nothing to do with audio.
pub proof fn lemma_video_only_begins(variant: MasterPlaylistView)
    requires
        variant.audio_media_url is None,
    ensures
        video_only(variant, initial_state()),
        initial_action(variant) matches DownloadActionView::Resolve { track: Track::Video, .. },
{
}

/// Remux only: a download of a variant without audio stays one that has
/// nothing to do with audio. No step asks for an audio track to be resolved,
/// written or removed, and the muxer is given the video file as its one
/// input.
pub proof fn lemma_video_only_stays_video_only(
    variant: MasterPlaylistView,
    state: DownloadStateView,
    event: DownloadEventView,
)
    requires
        video_only(variant, state),
    ensures
        video_only(next_step(variant, state, event).0, next_step(variant, state, event).1),
        !(next_step(variant, state, event).2 matches DownloadActionView::Resolve {
            track: Track::Audio,
            ..
        }),
        !(next_step(variant, state, event).2 matches DownloadActionView::Write {
            track: Track::Audio,
            ..
        }),
        next_step(variant, state, event).2 matches DownloadActionView::Remove { path } ==> path
            == state.video_name,
        next_step(variant, state, event).2 matches DownloadActionView::Mux { arguments }
            ==> arguments == seq![
            "-i"@,
            state.video_name,
            "-c"@,
            "copy"@,
            "-y"@,
            state.output_name,
        ],
{
}

/// Remux only, said of a whole download: a variant without audio whose video
/// track is resolved and written has the muxer run once, with the video file
/// as its one input, copying the streams into the file whose path the
/// download hands out at its end. Nothing is asked for an audio track, only
/// the video file is removed, and the variant's audio stays as it was.
pub proof fn lemma_video_only_download(
    variant: MasterPlaylistView,
    track: MediaPlaylistView,
    muxed: DownloadEventView,
    removed: DownloadEventView,
)
    requires
        variant.audio_media_url is None,
    ensures
        ({
            let name = stem_of(track.name);
            let output = output_name_of(name, variant.resolution);
            let one = next_step(variant, initial_state(), DownloadEventView::Resolved(Ok(track)));
            let two = next_step(one.0, one.1, DownloadEventView::Written(true));
            let three = next_step(two.0, two.1, muxed);
            let four = next_step(three.0, three.1, removed);
            &&& initial_action(variant) == DownloadActionView::Resolve {
                track: Track::Video,
                url: variant.video_media_url,
            }
            &&& one.2 == DownloadActionView::Write { track: Track::Video, path: name }
            &&& two.2 == DownloadActionView::Mux {
                arguments: seq!["-i"@, name, "-c"@, "copy"@, "-y"@, output],
            }
            &&& three.2 == DownloadActionView::Remove { path: name }
            &&& four.2 == DownloadActionView::Finish(
                if muxed != DownloadEventView::Muxed(Some(0i32)) {
                    Err(DownloaderErrorView::FfmpegError)
                } else if removed != DownloadEventView::Removed(true) {
                    Err(DownloaderErrorView::IOError)
                } else {
                    Ok(output)
                },
            )
            &&& four.1.phase == DownloadPhase::Done
            &&& four.0 == (MasterPlaylistView { video_media_playlist: Some(track), ..variant })
        }),
{
}

/// A whole download of a variant with audio: both tracks are resolved before
/// anything is written, the muxer is run once with the two files as its
/// inputs, and both files are removed before the download ends.
pub proof fn lemma_download_with_audio(
    variant: MasterPlaylistView,
    video: MediaPlaylistView,
    audio: MediaPlaylistView,
    muxed: DownloadEventView,
    audio_removed: DownloadEventView,
    video_removed: DownloadEventView,
)
    requires
        variant.audio_media_url is Some,
    ensures
        ({
            let video_name = stem_of(video.name);
            let audio_name = stem_of(audio.name);
            let output = output_name_of(video_name, variant.resolution);
            let one = next_step(variant, initial_state(), DownloadEventView::Resolved(Ok(video)));
            let two = next_step(one.0, one.1, DownloadEventView::Resolved(Ok(audio)));
            let three = next_step(two.0, two.1, DownloadEventView::Written(true));
            let four = next_step(three.0, three.1, DownloadEventView::Written(true));
            let five = next_step(four.0, four.1, muxed);
            let six = next_step(five.0, five.1, audio_removed);
            let seven = next_step(six.0, six.1, video_removed);
            &&& one.2 == DownloadActionView::Resolve {
                track: Track::Audio,
                url: variant.audio_media_url->0,
            }
            &&& two.2 == DownloadActionView::Write { track: Track::Video, path: video_name }
            &&& three.2 == DownloadActionView::Write { track: Track::Audio, path: audio_name }
            &&& four.2 == DownloadActionView::Mux {
                arguments: seq![
                    "-i"@,
                    video_name,
                    "-i"@,
                    audio_name,
                    "-c"@,
                    "copy"@,
                    "-y"@,
                    output,
                ],
            }
            &&& five.2 == DownloadActionView::Remove { path: audio_name }
            &&& six.2 == DownloadActionView::Remove { path: video_name }
            &&& seven.2 == DownloadActionView::Finish(
                if muxed != DownloadEventView::Muxed(Some(0i32)) {
                    Err(DownloaderErrorView::FfmpegError)
                } else if audio_removed != DownloadEventView::Removed(true) || video_removed
                    != DownloadEventView::Removed(true) {
                    Err(DownloaderErrorView::IOError)
                } else {
                    Ok(output)
                },
            )
            &&& seven.0 == (MasterPlaylistView {
                video_media_playlist: Some(video),
                audio_media_playlist: Some(audio),
                ..variant
            })
        }),
{
}

/// The number of steps that a download in the given phase can still take.
pub open spec fn steps_left(phase: DownloadPhase) -> nat {
    match phase {
        DownloadPhase::ResolvingVideo => 7,
        DownloadPhase::ResolvingAudio => 6,
        DownloadPhase::WritingVideo => 5,
        DownloadPhase::WritingAudio => 4,
        DownloadPhase::Muxing => 3,
        DownloadPhase::RemovingAudio => 2,
        DownloadPhase::RemovingVideo => 1,
        DownloadPhase::Done => 0,
    }
}

/// Every download ends: each step brings it nearer to its end, and a step
/// ends it exactly where the action that it asks for is `Finish`.
pub proof fn lemma_download_makes_progress(
    variant: MasterPlaylistView,
    state: DownloadStateView,
    event: DownloadEventView,
)
    requires
        state.phase != DownloadPhase::Done,
    ensures
        steps_left(next_step(variant, state, event).1.phase) < steps_left(state.phase),
        next_step(variant, state, event).2 is Finish <==> next_step(variant, state, event).1.phase
            == DownloadPhase::Done,
{
}

/// Cleanup: once the muxer has been started, the temporary files that were
/// written are removed before the download ends, whatever the muxer and the
/// removals report.
pub proof fn lemma_cleanup_follows_mux(
    variant: MasterPlaylistView,
    state: DownloadStateView,
    muxed: DownloadEventView,
    first: DownloadEventView,
    second: DownloadEventView,
)
    requires
        state.phase == DownloadPhase::Muxing,
    ensures
        ({
            let one = next_step(variant, state, muxed);
            let two = next_step(one.0, one.1, first);
            let three = next_step(two.0, two.1, second);
            match state.audio_name {
                Some(audio_name) => {
                    &&& one.2 == DownloadActionView::Remove { path: audio_name }
                    &&& two.2 == DownloadActionView::Remove { path: state.video_name }
                    &&& three.2 is Finish
                    &&& three.1.phase == DownloadPhase::Done
                },
                None => {
                    &&& one.2 == DownloadActionView::Remove { path: state.video_name }
                    &&& two.2 is Finish
                    &&& two.1.phase == DownloadPhase::Done
                },
            }
        }),
{
}

/// The final file is handed out only where the muxer left with status 0 and
/// every removal went well; a muxer that did not is reported as
/// `FfmpegError`, whatever the removals report.
pub proof fn lemma_outcome_after_mux(
    variant: MasterPlaylistView,
    state: DownloadStateView,
    muxed: DownloadEventView,
    removed: DownloadEventView,
)
    requires
        state.phase == DownloadPhase::Muxing,
        state.audio_name is None,
        state.failure is None,
    ensures
        ({
            let one = next_step(variant, state, muxed);
            let two = next_step(one.0, one.1, removed);
            two.2 == DownloadActionView::Finish(
                if muxed != DownloadEventView::Muxed(Some(0i32)) {
                    Err(DownloaderErrorView::FfmpegError)
                } else if removed != DownloadEventView::Removed(true) {
                    Err(DownloaderErrorView::IOError)
                } else {
                    Ok(state.output_name)
                },
            )
        }),
{
}

} // verus!
