//! A uniform model of audio output: endpoints and the formats they offer,
//! voices bound to one format, and the fill protocol by which a reactor hands
//! write-only buffers to the consumer of each voice.

pub mod buffer;
pub mod error;
pub mod event_loop;
pub mod format;
pub mod host;
pub mod protocol;
pub mod voice;

pub use buffer::{Buffer, BufferView, UnknownTypeBuffer};
pub use error::{CreationError, FormatsEnumerationError};
pub use event_loop::{EventLoop, Notification, Poll, SamplesStream};
pub use format::{ChannelPosition, ChannelsCount, Format, FormatView, SampleFormat, SamplesRate};
pub use host::{
    get_default_endpoint, get_endpoints_list, DeviceView, Endpoint, EndpointView,
    EndpointsIterator, Host, HostView, SupportedFormatsIterator,
};
pub use protocol::{StreamEvent, StreamOp, StreamState};
pub use voice::{PlaybackState, Voice, VoiceView};
