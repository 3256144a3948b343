//! Value types that describe a stream of samples: channel layout, rate and
//! sample encoding.

use vstd::prelude::*;
use vstd::std_specs::cmp::PartialEqSpecImpl;

verus! {

/// Number of channels.
pub type ChannelsCount = u16;

/// Possible position of a channel.
#[derive(Debug, Copy, Clone, PartialEq, Eq, Hash, Structural)]
pub enum ChannelPosition {
    FrontLeft,
    FrontRight,
    FrontCenter,
    LowFrequency,
    BackLeft,
    BackRight,
    FrontLeftOfCenter,
    FrontRightOfCenter,
    BackCenter,
    SideLeft,
    SideRight,
    TopCenter,
    TopFrontLeft,
    TopFrontCenter,
    TopFrontRight,
    TopBackLeft,
    TopBackCenter,
    TopBackRight,
}

/// Number of frames played per second.
#[derive(Debug, Clone, Copy, PartialEq, Eq, PartialOrd, Ord, Structural)]
pub struct SamplesRate(pub u32);

/// Encoding of one sample.
#[derive(Debug, Clone, Copy, PartialEq, Eq, Structural)]
pub enum SampleFormat {
    /// Signed 16-bit integers.
    I16,
    /// Unsigned 16-bit integers.
    U16,
    /// 32-bit floating point numbers, carried as their IEEE 754 bit patterns.
    F32,
}

/// Describes a format: the layout of the channels, in order, the rate and the
/// encoding of the samples.
#[derive(Debug)]
pub struct Format {
    pub channels: Vec<ChannelPosition>,
    pub samples_rate: SamplesRate,
    pub data_type: SampleFormat,
}

/// What a `Format` stands for.
pub ghost struct FormatView {
    pub channels: Seq<ChannelPosition>,
    pub samples_rate: SamplesRate,
    pub data_type: SampleFormat,
}

impl FormatView {
    /// A format that a voice can be bound to names at least one channel and
    /// has a positive rate.
    pub open spec fn is_valid(self) -> bool {
        self.channels.len() > 0 && self.samples_rate.0 > 0
    }
}

impl View for Format {
    type V = FormatView;

    open spec fn view(&self) -> FormatView {
        FormatView {
            channels: self.channels@,
            samples_rate: self.samples_rate,
            data_type: self.data_type,
        }
    }
}

impl Format {
    /// Whether the format names at least one channel and has a positive rate.
    pub fn is_valid(&self) -> (valid: bool)
        ensures
            valid == self@.is_valid(),
    {
        self.channels.len() > 0 && self.samples_rate.0 > 0
    }
}

impl Clone for Format {
    fn clone(&self) -> (copy: Format)
        ensures
            copy@ == self@,
    {
        let mut channels: Vec<ChannelPosition> = Vec::new();
        let mut i: usize = 0;
        while i < self.channels.len()
            invariant
                i <= self.channels.len(),
                channels@ == self.channels@.take(i as int),
            decreases self.channels.len() - i,
        {
            channels.push(self.channels[i]);
            i += 1;
        }
        assert(self.channels@.take(i as int) == self.channels@);
        Format { channels, samples_rate: self.samples_rate, data_type: self.data_type }
    }
}

impl PartialEq for Format {
    fn eq(&self, other: &Format) -> (equal: bool) {
        if self.channels.len() != other.channels.len() {
            return false;
        }
        let mut i: usize = 0;
        while i < self.channels.len()
            invariant
                i <= self.channels.len(),
                self.channels.len() == other.channels.len(),
                self.channels@.take(i as int) == other.channels@.take(i as int),
            decreases self.channels.len() - i,
        {
            if self.channels[i] != other.channels[i] {
                return false;
            }
            assert(self.channels@.take(i + 1) == self.channels@.take(i as int).push(
                self.channels@[i as int],
            ));
            assert(other.channels@.take(i + 1) == other.channels@.take(i as int).push(
                other.channels@[i as int],
            ));
            i += 1;
        }
        assert(self.channels@.take(i as int) == self.channels@);
        assert(other.channels@.take(i as int) == other.channels@);
        self.samples_rate == other.samples_rate && self.data_type == other.data_type
    }
}

impl PartialEqSpecImpl for Format {
    open spec fn obeys_eq_spec() -> bool {
        true
    }

    open spec fn eq_spec(&self, other: &Format) -> bool {
        self@ == other@
    }
}

impl Eq for Format {

}

} // verus!
