//! ALSA capture and playback devices: their settings and the state of the device handle.
//!
//! This build has no ALSA backend: opening a device reports it unavailable, and reading or
//! writing before a successful start reports that the device was not started.
use vstd::prelude::*;

use crate::audio::AudioFormat;
use crate::hardware::{is_unavailable, AudioError, AudioSink, AudioSource};
use crate::pcm::{pcm_bytes, samples_to_pcm16le};

verus! {

/// ALSA PCM capture source for a real microphone. The device opens on `start()` and closes
/// on `stop()`; each read returns one period.
pub struct AlsaSource {
    device: String,
    open: bool,
    frame_size: usize,
    period_frames: u32,
    rate: u32,
    channels: u16,
}

/// Frames per capture period: the frame size in bytes over two bytes per sample per
/// channel, as `as u32` narrows it.
pub open spec fn capture_period_frames(frame_size: usize, channels: u16) -> u32 {
    (frame_size as int / (2 * channels as int)) as u32
}

impl AlsaSource {
    /// A closed capture source for `device`.
    pub fn new(device: &str, rate: u32, channels: u16, frame_size: usize) -> (r: AlsaSource)
        requires
            channels > 0,
        ensures
            !r.is_open_spec(),
            r.period_frames_spec() == capture_period_frames(frame_size, channels),
    {
        let bytes_per_frame = 2 * channels as usize;
        let period_frames = (frame_size / bytes_per_frame) as u32;
        AlsaSource { device: device.to_owned(), open: false, frame_size, period_frames, rate, channels }
    }

    /// Whether the device is open.
    pub closed spec fn is_open_spec(&self) -> bool {
        self.open
    }

    /// Frames per period.
    pub closed spec fn period_frames_spec(&self) -> u32 {
        self.period_frames
    }

    /// Whether the device is open.
    pub fn is_open(&self) -> (r: bool)
        ensures
            r == self.is_open_spec(),
    {
        self.open
    }

    /// Frames per period.
    pub fn period_frames(&self) -> (r: u32)
        ensures
            r == self.period_frames_spec(),
    {
        self.period_frames
    }
}

impl AudioSource for AlsaSource {
    fn read_frame(&mut self) -> (r: Result<Vec<u8>, AudioError>)
        ensures
            !old(self).is_open_spec() ==> (r matches Err(e) && is_unavailable(e, "capture device not started"@)),
    {
        if !self.open {
            return Err(AudioError::DeviceUnavailable("capture device not started".to_owned()));
        }
        Err(AudioError::Alsa("no ALSA backend".to_owned()))
    }

    fn start(&mut self) -> (r: Result<(), AudioError>)
        ensures
            r is Err,
            !final(self).is_open_spec(),
            final(self).period_frames_spec() == old(self).period_frames_spec(),
    {
        let mut msg = self.device.clone();
        msg.push_str(": no ALSA backend");
        self.open = false;
        Err(AudioError::DeviceUnavailable(msg))
    }

    fn stop(&mut self) -> (r: Result<(), AudioError>)
        ensures
            r is Ok,
            !final(self).is_open_spec(),
            final(self).period_frames_spec() == old(self).period_frames_spec(),
    {
        self.open = false;
        Ok(())
    }
}

/// ALSA PCM playback sink for a real speaker. The device opens on `start()` with the format
/// of the server's audio-start and is reopened when the format changes.
pub struct AlsaSink {
    device: String,
    open: bool,
    current_format: Option<AudioFormat>,
}

impl AlsaSink {
    /// A closed playback sink for `device`.
    pub fn new(device: &str) -> (r: AlsaSink)
        ensures
            r.device_spec() == device@,
            !r.is_open_spec(),
            r.current_format_spec() is None,
    {
        AlsaSink { device: device.to_owned(), open: false, current_format: None }
    }

    /// The name of the playback device.
    pub closed spec fn device_spec(&self) -> Seq<char> {
        self.device@
    }

    /// Whether the device is open.
    pub closed spec fn is_open_spec(&self) -> bool {
        self.open
    }

    /// The format the device was opened with.
    pub closed spec fn current_format_spec(&self) -> Option<AudioFormat> {
        self.current_format
    }

    /// Whether the device is open.
    pub fn is_open(&self) -> (r: bool)
        ensures
            r == self.is_open_spec(),
    {
        self.open
    }

    /// The format the device was opened with.
    pub fn current_format(&self) -> (r: Option<AudioFormat>)
        ensures
            r == self.current_format_spec(),
    {
        self.current_format
    }
}

impl AudioSink for AlsaSink {
    fn write_frame(&mut self, pcm: &[u8]) -> (r: Result<(), AudioError>)
        ensures
            !old(self).is_open_spec() ==> (r matches Err(e) && is_unavailable(e, "playback device not started"@)),
    {
        if !self.open {
            return Err(AudioError::DeviceUnavailable("playback device not started".to_owned()));
        }
        Err(AudioError::Alsa("no ALSA backend".to_owned()))
    }

    fn start(&mut self, format: AudioFormat) -> (r: Result<(), AudioError>)
        ensures
            r is Err,
            !final(self).is_open_spec(),
    {
        let mut msg = self.device.clone();
        msg.push_str(": no ALSA backend");
        self.open = false;
        Err(AudioError::DeviceUnavailable(msg))
    }

    fn stop(&mut self) -> (r: Result<(), AudioError>)
        ensures
            r is Ok,
            final(self).is_open_spec() == old(self).is_open_spec(),
            final(self).current_format_spec() == old(self).current_format_spec(),
    {
        Ok(())
    }
}

// ============================================================================
// Device parameters and data
// ============================================================================

/// `bytes` padded with zero bytes up to `len` (unchanged when already as long).
pub open spec fn pad_to(bytes: Seq<u8>, len: nat) -> Seq<u8> {
    if bytes.len() < len {
        bytes + Seq::new((len - bytes.len()) as nat, |i: int| 0u8)
    } else {
        bytes
    }
}

/// A captured period as the source returns it: the first `frames_read` frames of
/// interleaved samples as PCM16LE bytes, padded with zero bytes to the frame size.
pub fn capture_frame_bytes(buf: &[i16], frames_read: usize, channels: u16, frame_size: usize) -> (r: Vec<u8>)
    requires
        frames_read * channels <= buf@.len(),
        buf@.len() * 2 <= usize::MAX,
    ensures
        r@ == pad_to(pcm_bytes(buf@.take(frames_read * channels)), frame_size as nat),
{
    let n = frames_read * channels as usize;
    let mut read: Vec<i16> = Vec::new();
    let mut i: usize = 0;
    while i < n
        invariant
            i <= n <= buf@.len(),
            read@ == buf@.take(i as int),
        decreases n - i,
    {
        read.push(buf[i]);
        i = i + 1;
        assert(read@ =~= buf@.take(i as int));
    }
    let mut bytes: Vec<u8> = Vec::new();
    samples_to_pcm16le(read.as_slice(), &mut bytes);
    let ghost data = bytes@;
    if bytes.len() < frame_size {
        while bytes.len() < frame_size
            invariant
                data.len() < frame_size,
                data.len() <= bytes@.len() <= frame_size,
                bytes@ == data + Seq::new((bytes@.len() - data.len()) as nat, |k: int| 0u8),
            decreases frame_size - bytes@.len(),
        {
            bytes.push(0u8);
            assert(bytes@ =~= data + Seq::new((bytes@.len() - data.len()) as nat, |k: int| 0u8));
        }
    }
    bytes
}

/// Capture buffer size in frames: five periods, about 100 ms of margin.
pub fn capture_buffer_frames(period_frames: u32) -> (r: u32)
    requires
        period_frames * 5 <= u32::MAX,
    ensures
        r == period_frames * 5,
{
    period_frames * 5
}

/// Playback period in frames: 20 ms at the stream's rate.
pub fn playback_period_frames(rate: u32) -> (r: u32)
    requires
        rate * 20 <= u32::MAX,
    ensures
        r == rate * 20 / 1000,
{
    rate * 20 / 1000
}

/// Playback buffer size in frames: four periods.
pub fn playback_buffer_frames(period_frames: u32) -> (r: u32)
    requires
        period_frames * 4 <= u32::MAX,
    ensures
        r == period_frames * 4,
{
    period_frames * 4
}

/// Whether starting playback in `format` can reuse the open device: it is open and was
/// opened in that very format; otherwise it is reopened.
pub fn sink_reuses_device(open: bool, current: Option<AudioFormat>, format: AudioFormat) -> (r: bool)
    ensures
        r == (open && current == Some(format)),
{
    match current {
        Some(f) => open && f.rate == format.rate && f.width == format.width && f.channels == format.channels,
        None => false,
    }
}

} // verus!
