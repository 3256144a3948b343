//! The handle that controls the playback of one stream of samples.

use vstd::prelude::*;
use crate::error::CreationError;
use crate::event_loop::{EventLoop, SamplesStream};
use crate::format::{ChannelsCount, Format, FormatView, SampleFormat, SamplesRate};
use crate::host::{Endpoint, Host};
use crate::protocol::StreamState;

verus! {

/// Whether the device is to consume what has been committed.
#[derive(Debug, Clone, Copy, PartialEq, Eq, Structural)]
pub enum PlaybackState {
    Paused,
    Playing,
}

/// Controls a sound output. A typical application has one `Voice` for each
/// sound it wants to output.
///
/// Each `Voice` is bound to one format for good, and starts out paused.
pub struct Voice {
    format: Format,
    state: PlaybackState,
}

/// What a `Voice` stands for.
pub ghost struct VoiceView {
    pub format: FormatView,
    pub state: PlaybackState,
}

impl VoiceView {
    /// The voice after `play`.
    pub open spec fn played(self) -> VoiceView {
        VoiceView { state: PlaybackState::Playing, ..self }
    }

    /// The voice after `pause`.
    pub open spec fn paused(self) -> VoiceView {
        VoiceView { state: PlaybackState::Paused, ..self }
    }
}

impl View for Voice {
    type V = VoiceView;

    closed spec fn view(&self) -> VoiceView {
        VoiceView { format: self.format@, state: self.state }
    }
}

impl Voice {
    /// Builds a new voice on the device of `endpoint`, together with the
    /// stream of its fill requests, which `event_loop` drives from now on.
    ///
    /// Fails with `DeviceNotAvailable` if the device is not connected to
    /// `host`, and else with `FormatNotSupported` if `format` is not a valid
    /// format that the device offers; `event_loop` is then left as it was.
    pub fn new(
        host: &Host,
        endpoint: &Endpoint,
        format: &Format,
        event_loop: &mut EventLoop,
    ) -> (created: Result<(Voice, SamplesStream), CreationError>)
        ensures
            final(event_loop).wf(),
            match host@.accepts(endpoint@.index, format@) {
                Ok(()) => created matches Ok((voice, stream)) && voice@ == (VoiceView {
                    format: format@,
                    state: PlaybackState::Paused,
                }) && stream@ == old(event_loop)@.len() && final(event_loop)@ == old(
                    event_loop,
                )@.push(
                    StreamState::fresh(
                        format@.data_type,
                        format@.channels.len(),
                        host@.devices[endpoint@.index as int].max_frames,
                    ),
                ),
                Err(error) => created is Err && created->Err_0 == error && final(event_loop)@
                    == old(event_loop)@,
            },
    {
        proof {
            use_type_invariant(&*event_loop);
        }
        let device_frames = match host.accept(endpoint, format) {
            Ok(frames) => frames,
            Err(error) => {
                return Err(error);
            },
        };
        let stream = event_loop.register(format.data_type, format.channels.len(), device_frames);
        let voice = Voice { format: format.clone(), state: PlaybackState::Paused };
        Ok((voice, stream))
    }

    /// Returns the format used by the voice.
    pub fn format(&self) -> (format: &Format)
        ensures
            format@ == self@.format,
    {
        &self.format
    }

    /// Returns the number of channels, as far as sixteen bits can count it.
    pub fn get_channels(&self) -> (count: ChannelsCount)
        ensures
            count == self@.format.channels.len() % 0x10000,
    {
        (self.format.channels.len() % 0x10000) as ChannelsCount
    }

    /// Returns the number of frames that are played per second.
    pub fn get_samples_rate(&self) -> (rate: SamplesRate)
        ensures
            rate == self@.format.samples_rate,
    {
        self.format.samples_rate
    }

    /// Returns the encoding of the samples that the voice takes.
    pub fn get_samples_format(&self) -> (data_type: SampleFormat)
        ensures
            data_type == self@.format.data_type,
    {
        self.format.data_type
    }

    /// Returns whether the voice is playing or paused.
    pub fn state(&self) -> (state: PlaybackState)
        ensures
            state == self@.state,
    {
        self.state
    }

    /// Tells the device to start consuming what has been committed.
    ///
    /// Has no effect if the voice was already playing.
    pub fn play(&mut self)
        ensures
            final(self)@ == old(self)@.played(),
    {
        self.state = PlaybackState::Playing;
    }

    /// Tells the device to stop consuming.
    ///
    /// Has no effect if the voice was already paused. Nothing that was
    /// committed is lost: after `play` the playback resumes where it was.
    pub fn pause(&mut self)
        ensures
            final(self)@ == old(self)@.paused(),
    {
        self.state = PlaybackState::Paused;
    }
}

/// A voice that is played and then paused is paused, whatever it was before,
/// and is bound to the format it had.
pub proof fn lemma_play_then_pause(voice: VoiceView)
    ensures
        voice.played().paused().state == PlaybackState::Paused,
        voice.played().paused().format == voice.format,
        voice.played().paused() == voice.paused(),
{
}

/// Pausing twice is the same as pausing once.
pub proof fn lemma_pause_is_idempotent(voice: VoiceView)
    ensures
        voice.paused().paused() == voice.paused(),
{
}

/// Playing twice is the same as playing once.
pub proof fn lemma_play_is_idempotent(voice: VoiceView)
    ensures
        voice.played().played() == voice.played(),
{
}

} // verus!
