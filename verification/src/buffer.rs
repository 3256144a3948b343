//! The buffers that a stream hands to its consumer: write-only, of one
//! sample type each, and tagged with the fill cycle they belong to.

use vstd::prelude::*;
use crate::format::SampleFormat;

verus! {

/// Represents a buffer that must be filled with audio data.
///
/// The samples can be written and never read. Nothing reaches the device
/// before the buffer is finished, so finish it as soon as possible.
#[must_use]
pub struct Buffer<T> {
    stream: usize,
    cycle: u64,
    samples: Vec<T>,
}

/// What a `Buffer` stands for.
pub ghost struct BufferView<T> {
    /// The stream that handed the buffer out.
    pub stream: nat,
    /// The number of the fill cycle that the buffer belongs to.
    pub cycle: nat,
    /// The samples as they stand now.
    pub samples: Seq<T>,
}

impl<T> View for Buffer<T> {
    type V = BufferView<T>;

    closed spec fn view(&self) -> BufferView<T> {
        BufferView {
            stream: self.stream as nat,
            cycle: self.cycle as nat,
            samples: self.samples@,
        }
    }
}

/// `len` samples that are all `sample`.
pub open spec fn uniform<T>(len: nat, sample: T) -> Seq<T> {
    Seq::new(len, |i: int| sample)
}

/// `samples` with its first places overwritten by `source`, as far as both
/// reach.
pub open spec fn overwritten<T>(samples: Seq<T>, source: Seq<T>) -> Seq<T> {
    Seq::new(
        samples.len(),
        |i: int|
            if i < source.len() {
                source[i]
            } else {
                samples[i]
            },
    )
}

impl<T: Copy> Buffer<T> {
    /// A buffer of `len` samples for fill cycle `cycle` of `stream`, all of
    /// them `sample`.
    pub(crate) fn new(stream: usize, cycle: u64, len: usize, sample: T) -> (buffer: Buffer<T>)
        ensures
            buffer@.stream == stream,
            buffer@.cycle == cycle,
            buffer@.samples == uniform(len as nat, sample),
    {
        let mut samples: Vec<T> = Vec::new();
        let mut i: usize = 0;
        while i < len
            invariant
                i <= len,
                samples@ == uniform(i as nat, sample),
            decreases len - i,
        {
            samples.push(sample);
            i += 1;
            assert(samples@ == uniform(i as nat, sample));
        }
        Buffer { stream, cycle, samples }
    }

    /// The stream, the fill cycle and the samples of the buffer.
    pub(crate) fn into_parts(self) -> (parts: (usize, u64, Vec<T>))
        ensures
            parts.0 == self@.stream,
            parts.1 == self@.cycle,
            parts.2@ == self@.samples,
    {
        (self.stream, self.cycle, self.samples)
    }

    /// The length of the buffer in number of samples.
    pub fn len(&self) -> (len: usize)
        ensures
            len == self@.samples.len(),
    {
        self.samples.len()
    }

    /// The number of the stream that handed the buffer out.
    pub fn stream(&self) -> (stream: usize)
        ensures
            stream == self@.stream,
    {
        self.stream
    }

    /// The number of the fill cycle that the buffer belongs to. The first
    /// buffer of a stream has number 0.
    pub fn cycle(&self) -> (cycle: u64)
        ensures
            cycle == self@.cycle,
    {
        self.cycle
    }

    /// Writes `sample` at `index`. Returns whether there is such a place; if
    /// there is none, nothing is written.
    pub fn write(&mut self, index: usize, sample: T) -> (written: bool)
        ensures
            written == (index < old(self)@.samples.len()),
            written ==> final(self)@ == (BufferView {
                samples: old(self)@.samples.update(index as int, sample),
                ..old(self)@
            }),
            !written ==> final(self)@ == old(self)@,
    {
        if index < self.samples.len() {
            self.samples.set(index, sample);
            true
        } else {
            false
        }
    }

    /// Writes `sample` at every place.
    pub fn fill(&mut self, sample: T)
        ensures
            final(self)@ == (BufferView {
                samples: uniform(old(self)@.samples.len(), sample),
                ..old(self)@
            }),
    {
        let len = self.samples.len();
        let mut i: usize = 0;
        while i < len
            invariant
                i <= len,
                len == self.samples.len(),
                self.stream == old(self).stream,
                self.cycle == old(self).cycle,
                forall|j: int| 0 <= j < i ==> self.samples@[j] == sample,
            decreases len - i,
        {
            self.samples.set(i, sample);
            i += 1;
        }
        assert(self.samples@ == uniform(len as nat, sample));
    }

    /// Copies samples from the start of `source` to the start of the buffer,
    /// as many as both hold, and returns how many that was. What is left of
    /// `source` belongs in the buffers of later fill cycles.
    pub fn write_from(&mut self, source: &[T]) -> (written: usize)
        ensures
            written == if source@.len() <= old(self)@.samples.len() {
                source@.len()
            } else {
                old(self)@.samples.len()
            },
            final(self)@ == (BufferView {
                samples: overwritten(old(self)@.samples, source@),
                ..old(self)@
            }),
    {
        let len = self.samples.len();
        let count = if source.len() <= len {
            source.len()
        } else {
            len
        };
        let mut i: usize = 0;
        while i < count
            invariant
                i <= count,
                count <= len,
                count <= source@.len(),
                len == self.samples.len(),
                len == old(self).samples.len(),
                self.stream == old(self).stream,
                self.cycle == old(self).cycle,
                forall|j: int| 0 <= j < i ==> self.samples@[j] == source@[j],
                forall|j: int| i <= j < len ==> self.samples@[j] == old(self).samples@[j],
            decreases count - i,
        {
            self.samples.set(i, source[i]);
            i += 1;
        }
        assert(self.samples@ == overwritten(old(self).samples@, source@));
        count
    }
}

/// A buffer whose sample type is known only when the program runs: match on
/// it to get at the buffer to fill.
pub enum UnknownTypeBuffer {
    /// Samples whose format is `u16`.
    U16(Buffer<u16>),
    /// Samples whose format is `i16`.
    I16(Buffer<i16>),
    /// Samples whose format is 32-bit floating point, written as the bit
    /// patterns of the numbers.
    F32(Buffer<u32>),
}

impl UnknownTypeBuffer {
    /// The encoding of the samples.
    pub open spec fn spec_data_type(self) -> SampleFormat {
        match self {
            UnknownTypeBuffer::U16(_) => SampleFormat::U16,
            UnknownTypeBuffer::I16(_) => SampleFormat::I16,
            UnknownTypeBuffer::F32(_) => SampleFormat::F32,
        }
    }

    /// The stream that handed the buffer out.
    pub open spec fn spec_stream(self) -> nat {
        match self {
            UnknownTypeBuffer::U16(buffer) => buffer@.stream,
            UnknownTypeBuffer::I16(buffer) => buffer@.stream,
            UnknownTypeBuffer::F32(buffer) => buffer@.stream,
        }
    }

    /// The number of the fill cycle that the buffer belongs to.
    pub open spec fn spec_cycle(self) -> nat {
        match self {
            UnknownTypeBuffer::U16(buffer) => buffer@.cycle,
            UnknownTypeBuffer::I16(buffer) => buffer@.cycle,
            UnknownTypeBuffer::F32(buffer) => buffer@.cycle,
        }
    }

    /// The number of samples.
    pub open spec fn spec_len(self) -> nat {
        match self {
            UnknownTypeBuffer::U16(buffer) => buffer@.samples.len(),
            UnknownTypeBuffer::I16(buffer) => buffer@.samples.len(),
            UnknownTypeBuffer::F32(buffer) => buffer@.samples.len(),
        }
    }

    /// Whether every sample is zero.
    pub open spec fn is_zeroed(self) -> bool {
        match self {
            UnknownTypeBuffer::U16(buffer) => buffer@.samples == uniform(
                buffer@.samples.len(),
                0u16,
            ),
            UnknownTypeBuffer::I16(buffer) => buffer@.samples == uniform(
                buffer@.samples.len(),
                0i16,
            ),
            UnknownTypeBuffer::F32(buffer) => buffer@.samples == uniform(
                buffer@.samples.len(),
                0u32,
            ),
        }
    }

    /// Returns the length of the buffer in number of samples.
    pub fn len(&self) -> (len: usize)
        ensures
            len == self.spec_len(),
    {
        match self {
            UnknownTypeBuffer::U16(buffer) => buffer.len(),
            UnknownTypeBuffer::I16(buffer) => buffer.len(),
            UnknownTypeBuffer::F32(buffer) => buffer.len(),
        }
    }

    /// Returns the encoding of the samples.
    pub fn data_type(&self) -> (data_type: SampleFormat)
        ensures
            data_type == self.spec_data_type(),
    {
        match self {
            UnknownTypeBuffer::U16(_) => SampleFormat::U16,
            UnknownTypeBuffer::I16(_) => SampleFormat::I16,
            UnknownTypeBuffer::F32(_) => SampleFormat::F32,
        }
    }
}

} // verus!
