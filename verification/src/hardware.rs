//! Audio sources and sinks, the voice-activity GPIO input, and the devices the satellite
//! can use for them.
use std::time::Duration;

use vstd::prelude::*;

use crate::audio::AudioFormat;
use crate::pcm::{pcm_bytes, samples_to_pcm16le};

verus! {

/// Errors of audio devices and files.
#[derive(Debug)]
pub enum AudioError {
    Io(std::io::Error),
    WavFormat(String),
    EndOfStream,
    DeviceUnavailable(String),
    Alsa(String),
}

/// Abstraction over mic input, so that a WAV file can stand in for a microphone.
pub trait AudioSource {
    /// Read one frame of PCM audio.
    fn read_frame(&mut self) -> Result<Vec<u8>, AudioError>;

    /// Prepare the source for capture.
    fn start(&mut self) -> Result<(), AudioError>;

    /// Stop capturing.
    fn stop(&mut self) -> Result<(), AudioError>;
}

/// Abstraction over speaker output.
pub trait AudioSink {
    /// Write one frame of PCM audio.
    fn write_frame(&mut self, pcm: &[u8]) -> Result<(), AudioError>;

    /// Prepare the sink for playback in the given format (the server's audio-start).
    fn start(&mut self, format: AudioFormat) -> Result<(), AudioError>;

    /// Stop playback.
    fn stop(&mut self) -> Result<(), AudioError>;
}

/// Abstraction over a GPIO pin used for voice activity detection.
pub trait GpioInput {
    /// Whether the trigger pin is currently high.
    fn is_high(&self) -> bool;

    /// Wait until the pin goes high or the timeout expires; true if the pin went high.
    fn wait_for_high(&self, timeout: Duration) -> bool;
}

/// Whether `e` is the device-unavailable error with message `msg`.
pub open spec fn is_unavailable(e: AudioError, msg: Seq<char>) -> bool {
    e matches AudioError::DeviceUnavailable(m) && m@ == msg
}

/// The frame read at `position`: the next `frame_size` bytes, padded with zero bytes when the
/// data runs out first.
pub open spec fn frame_at(data: Seq<u8>, position: int, frame_size: int) -> Seq<u8> {
    Seq::new(
        frame_size as nat,
        |i: int|
            if position + i < data.len() {
                data[position + i]
            } else {
                0u8
            },
    )
}

/// Reads PCM audio (a WAV file's samples) as if it were a microphone, one frame at a time.
/// After the data is exhausted, reads give `EndOfStream`.
pub struct WavFileSource {
    samples: Vec<u8>,
    position: usize,
    frame_size: usize,
    chunk_ms: u32,
    running: bool,
}

/// The observable state of a file source.
pub struct WavSourceView {
    pub data: Seq<u8>,
    pub position: nat,
    pub frame_size: nat,
    pub chunk_ms: u32,
    pub running: bool,
}

impl View for WavFileSource {
    type V = WavSourceView;

    closed spec fn view(&self) -> WavSourceView {
        WavSourceView {
            data: self.samples@,
            position: self.position as nat,
            frame_size: self.frame_size as nat,
            chunk_ms: self.chunk_ms,
            running: self.running,
        }
    }
}

impl WavFileSource {
    #[verifier::type_invariant]
    spec fn inv(self) -> bool {
        self.position <= self.samples@.len()
    }

    /// A stopped source over the given 16-bit samples, in frames of `frame_size` bytes
    /// lasting `chunk_ms` milliseconds each.
    pub fn from_samples(samples: &[i16], frame_size: usize, chunk_ms: u32) -> (r: WavFileSource)
        requires
            samples@.len() * 2 <= usize::MAX,
        ensures
            r@.data == pcm_bytes(samples@),
            r@.position == 0,
            r@.frame_size == frame_size,
            r@.chunk_ms == chunk_ms,
            !r@.running,
    {
        let mut bytes: Vec<u8> = Vec::new();
        samples_to_pcm16le(samples, &mut bytes);
        WavFileSource { samples: bytes, position: 0, frame_size, chunk_ms, running: false }
    }

    /// How long one frame lasts, in milliseconds.
    pub fn frame_duration_ms(&self) -> (r: u32)
        ensures
            r == self@.chunk_ms,
    {
        self.chunk_ms
    }
}

impl AudioSource for WavFileSource {
    /// The next frame, padded with silence at the end of the data. The position then moves
    /// on by one frame (it stops at the end of the data).
    fn read_frame(&mut self) -> (r: Result<Vec<u8>, AudioError>)
        ensures
            !old(self)@.running ==> (r matches Err(e) && is_unavailable(e, "source not started"@))
                && final(self)@ == old(self)@,
            old(self)@.running && old(self)@.position >= old(self)@.data.len() ==> (r matches Err(
                AudioError::EndOfStream,
            )) && final(self)@ == old(self)@,
            old(self)@.running && old(self)@.position < old(self)@.data.len() ==> {
                &&& r matches Ok(frame) && frame@ == frame_at(
                    old(self)@.data,
                    old(self)@.position as int,
                    old(self)@.frame_size as int,
                )
                &&& final(self)@ == (WavSourceView {
                    position: if old(self)@.position + old(self)@.frame_size < old(self)@.data.len() {
                        (old(self)@.position + old(self)@.frame_size) as nat
                    } else {
                        old(self)@.data.len()
                    },
                    ..old(self)@
                })
            },
    {
        proof {
            use_type_invariant(&*self);
        }
        if !self.running {
            return Err(AudioError::DeviceUnavailable("source not started".to_owned()));
        }
        let len = self.samples.len();
        if self.position >= len {
            return Err(AudioError::EndOfStream);
        }
        let end = if self.frame_size < len - self.position {
            self.position + self.frame_size
        } else {
            len
        };
        let mut frame: Vec<u8> = Vec::new();
        let mut i: usize = self.position;
        let ghost start = self.position as int;
        while i < end
            invariant
                start <= i <= end <= len,
                len == self.samples@.len(),
                frame@.len() == i - start,
                forall|k: int| 0 <= k < frame@.len() ==> frame@[k] == self.samples@[start + k],
            decreases end - i,
        {
            frame.push(self.samples[i]);
            i = i + 1;
        }
        while frame.len() < self.frame_size
            invariant
                frame@.len() <= self.frame_size,
                frame@.len() >= end - start,
                start <= end <= len,
                len == self.samples@.len(),
                end == (if self.frame_size < len - start {
                    start + self.frame_size
                } else {
                    len as int
                }),
                forall|k: int| 0 <= k < end - start ==> frame@[k] == self.samples@[start + k],
                forall|k: int| end - start <= k < frame@.len() ==> frame@[k] == 0u8,
            decreases self.frame_size - frame@.len(),
        {
            let ghost prev = frame@;
            frame.push(0u8);
            assert forall|k: int| end - start <= k < frame@.len() implies frame@[k] == 0u8 by {
                if k < prev.len() {
                    assert(frame@[k] == prev[k]);
                }
            }
        }
        assert(frame@ =~= frame_at(self.samples@, start, self.frame_size as int));
        self.position = end;
        Ok(frame)
    }

    /// Rewind to the start of the data and begin.
    fn start(&mut self) -> (r: Result<(), AudioError>)
        ensures
            r is Ok,
            final(self)@ == (WavSourceView { position: 0, running: true, ..old(self)@ }),
    {
        self.position = 0;
        self.running = true;
        Ok(())
    }

    /// Stop; later reads fail until the next start.
    fn stop(&mut self) -> (r: Result<(), AudioError>)
        ensures
            r is Ok,
            final(self)@ == (WavSourceView { running: false, ..old(self)@ }),
    {
        proof {
            use_type_invariant(&*self);
        }
        self.running = false;
        Ok(())
    }
}

/// Discards all audio written to it.
#[derive(Debug, Clone, Copy, PartialEq, Eq, Structural)]
pub struct NullSink;

impl AudioSink for NullSink {
    fn write_frame(&mut self, pcm: &[u8]) -> (r: Result<(), AudioError>)
        ensures
            r is Ok,
    {
        Ok(())
    }

    fn start(&mut self, format: AudioFormat) -> (r: Result<(), AudioError>)
        ensures
            r is Ok,
    {
        Ok(())
    }

    fn stop(&mut self) -> (r: Result<(), AudioError>)
        ensures
            r is Ok,
    {
        Ok(())
    }
}

/// Auto-triggering GPIO for testing: it fires at once when waited on and always reads low;
/// the silence timeout of the main loop ends the stream.
#[derive(Debug, Clone, Copy, PartialEq, Eq, Structural)]
pub struct AutoGpio;

impl AutoGpio {
    /// The auto-triggering input.
    pub fn new() -> (r: AutoGpio)
        ensures
            r == AutoGpio,
    {
        AutoGpio
    }
}

impl GpioInput for AutoGpio {
    fn is_high(&self) -> (r: bool)
        ensures
            !r,
    {
        false
    }

    fn wait_for_high(&self, timeout: Duration) -> (r: bool)
        ensures
            r,
    {
        true
    }
}

} // verus!
