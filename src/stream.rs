use crate::pixel::{
    checked_frame_size, format_for_upper_tag, frame_size_of, source_format, uppercase_of,
    PixelFormat,
};
use crate::ring::{
    ring_capacity, ring_capacity_len, ring_contents, ring_new, ring_occupied_len, ring_pop_slice,
    ring_push_slice, ring_vacant_len, ByteRing,
};
use vstd::prelude::*;

verus! {

/// Errors of the frame stream.
#[derive(Clone, Copy, Debug, PartialEq, Eq, Structural)]
pub enum StreamError {
    /// The dimensions, format or frame count give no usable ring.
    ConfigurationError,
    /// A frame of the wrong length was offered.
    FrameSizeMismatch { expected: usize, actual: usize },
    /// The ring has no room for another whole frame.
    BufferFull,
    /// The ring took fewer bytes than it had room for.
    PartialWrite,
    /// No conversion is known from the source layout to the target layout.
    ConversionUnsupported,
}

/// One whole frame taken from the stream, in its source layout. When
/// `format` differs from `target` the caller converts it before encoding.
#[derive(Clone, Debug)]
pub struct RawFrame {
    pub format: PixelFormat,
    pub target: PixelFormat,
    pub data: Vec<u8>,
}

/// The abstract state of a stream.
pub ghost struct StreamModel {
    pub width: nat,
    pub height: nat,
    pub src: PixelFormat,
    pub dst: PixelFormat,
    pub frame_size: nat,
    pub capacity: nat,
    /// Bytes written and not yet read, oldest first.
    pub contents: Seq<u8>,
}

/// Stages raw frames between capture and encoding: a fixed-capacity byte
/// ring that is written and read a whole frame at a time.
pub struct ObStream {
    width: u32,
    height: u32,
    src_pixel: PixelFormat,
    dst_pixel: PixelFormat,
    buffer: ByteRing,
    frame_size: usize,
    temp_buffer: Vec<u8>,
}

/// When a stream can be built: non-empty frames and a ring of at most
/// `isize::MAX` bytes with room for at least one frame.
pub open spec fn stream_config_ok(
    format: PixelFormat,
    width: int,
    height: int,
    buffer_frames: int,
) -> bool {
    let frame_size = frame_size_of(format, width, height);
    &&& frame_size > 0
    &&& buffer_frames > 0
    &&& frame_size * buffer_frames <= isize::MAX
}

/// The stream that `ObStream::new` builds from a configuration it accepts.
pub open spec fn initial_model(
    format: PixelFormat,
    width: int,
    height: int,
    buffer_frames: int,
) -> StreamModel {
    StreamModel {
        width: width as nat,
        height: height as nat,
        src: format,
        dst: PixelFormat::Nv12,
        frame_size: frame_size_of(format, width, height) as nat,
        capacity: (frame_size_of(format, width, height) * buffer_frames) as nat,
        contents: Seq::empty(),
    }
}

/// Writing a frame: it must be one frame long and there must be room for
/// all of it; then its bytes are appended.
pub open spec fn write_outcome(s: StreamModel, data: Seq<u8>) -> (StreamModel, Result<
    (),
    StreamError,
>) {
    if data.len() != s.frame_size {
        (
            s,
            Err(
                StreamError::FrameSizeMismatch {
                    expected: s.frame_size as usize,
                    actual: data.len() as usize,
                },
            ),
        )
    } else if s.capacity - s.contents.len() < s.frame_size {
        (s, Err(StreamError::BufferFull))
    } else {
        (StreamModel { contents: s.contents + data, ..s }, Ok(()))
    }
}

/// Reading a frame: nothing while less than a frame is held; otherwise the
/// oldest frame's bytes leave the ring, and are handed out when the source
/// layout is one the stream can deliver (NV12 as it is, BGRA for
/// conversion).
pub open spec fn read_outcome(s: StreamModel) -> (StreamModel, Result<
    Option<Seq<u8>>,
    StreamError,
>) {
    if s.contents.len() < s.frame_size {
        (s, Ok(None))
    } else {
        let rest = StreamModel { contents: s.contents.skip(s.frame_size as int), ..s };
        match s.src {
            PixelFormat::Nv12 | PixelFormat::Bgra => (
                rest,
                Ok(Some(s.contents.take(s.frame_size as int))),
            ),
            _ => (rest, Err(StreamError::ConversionUnsupported)),
        }
    }
}

/// What a caller of `read_frame` sees of its result: the frame's bytes.
pub open spec fn frame_bytes_of(r: Result<Option<RawFrame>, StreamError>) -> Result<
    Option<Seq<u8>>,
    StreamError,
> {
    match r {
        Ok(Some(f)) => Ok(Some(f.data@)),
        Ok(None) => Ok(None),
        Err(e) => Err(e),
    }
}

impl View for ObStream {
    type V = StreamModel;

    closed spec fn view(&self) -> StreamModel {
        StreamModel {
            width: self.width as nat,
            height: self.height as nat,
            src: self.src_pixel,
            dst: self.dst_pixel,
            frame_size: self.frame_size as nat,
            capacity: ring_capacity(self.buffer),
            contents: ring_contents(self.buffer),
        }
    }
}

/// The state invariant of a stream, in terms of its model.
pub open spec fn model_wf(s: StreamModel) -> bool {
    &&& s.frame_size > 0
    &&& s.frame_size == frame_size_of(s.src, s.width as int, s.height as int)
    &&& s.dst == PixelFormat::Nv12
    &&& s.capacity % s.frame_size == 0
    &&& s.frame_size <= s.capacity <= isize::MAX
    &&& s.contents.len() <= s.capacity
}

impl ObStream {
    /// Well-formedness: the model's invariant, and a scratch buffer one
    /// frame long.
    pub closed spec fn wf(&self) -> bool {
        &&& model_wf(self@)
        &&& self.temp_buffer@.len() == self.frame_size
    }

    /// A well-formed stream's model meets the model invariant.
    pub proof fn lemma_wf_model(&self)
        requires
            self.wf(),
        ensures
            model_wf(self@),
    {
    }

    /// Builds a stream for `width` by `height` frames whose layout is named
    /// by `src_format` ("NV12" in any case, else BGRA), with room for
    /// `buffer_frames` frames; frames are delivered for NV12 encoding.
    pub fn new(width: u32, height: u32, buffer_frames: usize, src_format: &str) -> (r: Result<
        ObStream,
        StreamError,
    >)
        ensures
            match r {
                Ok(s) => {
                    let format = format_for_upper_tag(uppercase_of(src_format@));
                    &&& stream_config_ok(format, width as int, height as int, buffer_frames as int)
                    &&& s.wf()
                    &&& s@ == initial_model(format, width as int, height as int, buffer_frames as int)
                },
                Err(e) => {
                    &&& e == StreamError::ConfigurationError
                    &&& !stream_config_ok(
                        format_for_upper_tag(uppercase_of(src_format@)),
                        width as int,
                        height as int,
                        buffer_frames as int,
                    )
                },
            },
    {
        let src_pixel = source_format(src_format);
        Self::with_format(width, height, buffer_frames, src_pixel)
    }

    /// Builds a stream for frames already known to be in `src_pixel`.
    pub fn with_format(
        width: u32,
        height: u32,
        buffer_frames: usize,
        src_pixel: PixelFormat,
    ) -> (r: Result<ObStream, StreamError>)
        ensures
            match r {
                Ok(s) => {
                    &&& stream_config_ok(src_pixel, width as int, height as int, buffer_frames as int)
                    &&& s.wf()
                    &&& s@ == initial_model(src_pixel, width as int, height as int, buffer_frames as int)
                },
                Err(e) => {
                    &&& e == StreamError::ConfigurationError
                    &&& !stream_config_ok(src_pixel, width as int, height as int, buffer_frames as int)
                },
            },
    {
        let dst_pixel = PixelFormat::Nv12;
        let frame_size = match checked_frame_size(src_pixel, width, height) {
            Some(n) => n,
            None => {
                proof {
                    let fs = frame_size_of(src_pixel, width as int, height as int);
                    if buffer_frames > 0 {
                        assert(fs * buffer_frames >= fs) by (nonlinear_arith)
                            requires
                                fs >= 0,
                                buffer_frames >= 1,
                        ;
                    }
                }
                return Err(StreamError::ConfigurationError);
            },
        };
        if frame_size == 0 || buffer_frames == 0 {
            return Err(StreamError::ConfigurationError);
        }
        let buffer_size = match frame_size.checked_mul(buffer_frames) {
            Some(n) => n,
            None => {
                return Err(StreamError::ConfigurationError);
            },
        };
        if buffer_size > isize::MAX as usize {
            return Err(StreamError::ConfigurationError);
        }
        proof {
            assert(frame_size <= buffer_size) by (nonlinear_arith)
                requires
                    buffer_size == frame_size * buffer_frames,
                    buffer_frames >= 1,
                    frame_size >= 0,
            ;
            assert(buffer_size % frame_size == 0) by (nonlinear_arith)
                requires
                    buffer_size == frame_size * buffer_frames,
                    frame_size > 0,
                    buffer_frames >= 0,
            {
                vstd::arithmetic::div_mod::lemma_mod_multiples_basic(buffer_frames as int, frame_size as int);
                assert(buffer_frames * frame_size == frame_size * buffer_frames);
            }
        }
        let buffer = ring_new(buffer_size);
        let temp_buffer = vec![0u8; frame_size];
        let s = ObStream {
            width,
            height,
            src_pixel,
            dst_pixel,
            buffer,
            frame_size,
            temp_buffer,
        };
        proof {
            assert(s@ == initial_model(src_pixel, width as int, height as int, buffer_frames as int));
        }
        Ok(s)
    }

    /// Size of one frame of `pixel` at `width` by `height`.
    pub fn calculate_frame_size(pixel: PixelFormat, width: u32, height: u32) -> (r: usize)
        requires
            frame_size_of(pixel, width as int, height as int) <= usize::MAX,
        ensures
            r == frame_size_of(pixel, width as int, height as int),
    {
        checked_frame_size(pixel, width, height).unwrap()
    }

    /// Pushes raw bytes with no regard to frame boundaries, as many as fit,
    /// and returns how many were taken.
    pub fn write_slice(&mut self, data: &[u8]) -> (n: usize)
        requires
            old(self).wf(),
        ensures
            final(self).wf(),
            n == if data@.len() <= old(self)@.capacity - old(self)@.contents.len() {
                data@.len() as int
            } else {
                old(self)@.capacity - old(self)@.contents.len()
            },
            final(self)@ == (StreamModel {
                contents: old(self)@.contents + data@.take(n as int),
                ..old(self)@
            }),
    {
        let n = ring_push_slice(&mut self.buffer, data);
        proof {
            assert(self@ == (StreamModel {
                contents: old(self)@.contents + data@.take(n as int),
                ..old(self)@
            }));
        }
        n
    }

    /// Takes the oldest whole frame out of the ring, or `None` while less
    /// than a frame is held.
    pub fn read_frame(&mut self) -> (r: Result<Option<RawFrame>, StreamError>)
        requires
            old(self).wf(),
        ensures
            final(self).wf(),
            (final(self)@, frame_bytes_of(r)) == read_outcome(old(self)@),
            match r {
                Ok(Some(f)) => f.format == old(self)@.src && f.target == old(self)@.dst,
                _ => true,
            },
    {
        if ring_occupied_len(&self.buffer) < self.frame_size {
            return Ok(None);
        }
        ring_pop_slice(&mut self.buffer, &mut self.temp_buffer);
        proof {
            assert(self.temp_buffer@ =~= old(self)@.contents.take(self.frame_size as int));
        }
        match self.src_pixel {
            PixelFormat::Nv12 | PixelFormat::Bgra => {
                let data = self.temp_buffer.clone();
                proof {
                    assert(data@ =~= self.temp_buffer@);
                }
                Ok(Some(RawFrame { format: self.src_pixel, target: self.dst_pixel, data }))
            },
            _ => Err(StreamError::ConversionUnsupported),
        }
    }

    /// The number of whole frames held.
    pub fn available_frames(&self) -> (r: usize)
        requires
            self.wf(),
        ensures
            r == self@.contents.len() / self@.frame_size,
    {
        ring_occupied_len(&self.buffer) / self.frame_size
    }

    /// Bytes held, bytes vacant and capacity, for diagnostics.
    pub fn buffer_info(&self) -> (r: (usize, usize, usize))
        requires
            self.wf(),
        ensures
            r.0 == self@.contents.len(),
            r.1 == self@.capacity - self@.contents.len(),
            r.2 == self@.capacity,
    {
        (
            ring_occupied_len(&self.buffer),
            ring_vacant_len(&self.buffer),
            ring_capacity_len(&self.buffer),
        )
    }

    /// Whether a whole frame fits in the vacant space.
    pub fn can_write_frame(&self) -> (r: bool)
        requires
            self.wf(),
        ensures
            r == (self@.capacity - self@.contents.len() >= self@.frame_size),
    {
        ring_vacant_len(&self.buffer) >= self.frame_size
    }

    /// Appends one whole frame, which must be exactly one frame long and fit
    /// in the vacant space.
    pub fn write_frame(&mut self, frame_data: &[u8]) -> (r: Result<(), StreamError>)
        requires
            old(self).wf(),
        ensures
            final(self).wf(),
            (final(self)@, r) == write_outcome(old(self)@, frame_data@),
    {
        let len = frame_data.len();
        if len != self.frame_size {
            return Err(StreamError::FrameSizeMismatch { expected: self.frame_size, actual: len });
        }
        if !self.can_write_frame() {
            return Err(StreamError::BufferFull);
        }
        let written = self.write_slice(frame_data);
        if written != len {
            Err(StreamError::PartialWrite)
        } else {
            proof {
                assert(frame_data@.take(len as int) =~= frame_data@);
            }
            Ok(())
        }
    }

    pub fn width(&self) -> (r: u32)
        ensures
            r == self@.width,
    {
        self.width
    }

    pub fn height(&self) -> (r: u32)
        ensures
            r == self@.height,
    {
        self.height
    }

    pub fn src_pixel(&self) -> (r: PixelFormat)
        ensures
            r == self@.src,
    {
        self.src_pixel
    }

    pub fn dst_pixel(&self) -> (r: PixelFormat)
        ensures
            r == self@.dst,
    {
        self.dst_pixel
    }

    pub fn frame_size(&self) -> (r: usize)
        ensures
            r == self@.frame_size,
    {
        self.frame_size
    }
}

/// A frame written into an empty stream is, byte for byte, the frame that
/// the next read hands out, and the stream is empty again afterwards. This
/// holds for the source layouts a stream delivers (NV12, and BGRA, which
/// the caller converts).
pub proof fn lemma_write_then_read(s: StreamModel, data: Seq<u8>)
    requires
        model_wf(s),
        s.contents.len() == 0,
        data.len() == s.frame_size,
        s.src == PixelFormat::Nv12 || s.src == PixelFormat::Bgra,
    ensures
        write_outcome(s, data).1 == Ok::<(), StreamError>(()),
        read_outcome(write_outcome(s, data).0).1 == Ok::<Option<Seq<u8>>, StreamError>(Some(data)),
        read_outcome(write_outcome(s, data).0).0 == s,
{
    let written = write_outcome(s, data).0;
    assert(written.contents =~= data);
    assert(written.contents.take(s.frame_size as int) =~= data);
    assert(written.contents.skip(s.frame_size as int) =~= s.contents);
}

/// Writing and reading keep the model invariant: the held bytes never
/// exceed the capacity, so after every write and read the whole frames
/// available are the held bytes divided by the frame size.
pub proof fn lemma_outcomes_keep_invariant(s: StreamModel, data: Seq<u8>)
    requires
        model_wf(s),
    ensures
        model_wf(write_outcome(s, data).0),
        model_wf(read_outcome(s).0),
{
}

} // verus!
