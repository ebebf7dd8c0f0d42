//! Audio pipeline statistics keys and PCM16LE sample conversion.
use vstd::prelude::*;

verus! {

/// Statistics reported by pipeline stages.
#[derive(Debug, Clone, Copy, PartialEq, Eq, Structural)]
pub enum StatKey {
    NoiseFloor,
    DutyCycle,
    CurrentGain,
    ClippingCount,
    EnergyRemoved,
    ProcessUs,
    AnalyzeUs,
    Energy,
    AttackThreshold,
    SustainThreshold,
    Triggered,
    Phase,
    HoldCounter,
    ZeroCrossingRate,
    SpeechBandRatio,
    SpectralCentroid,
    SpectralFlatness,
}

/// The name a statistic is reported under.
pub open spec fn stat_name(key: StatKey) -> Seq<char> {
    match key {
        StatKey::NoiseFloor => "noise_floor"@,
        StatKey::DutyCycle => "duty_cycle"@,
        StatKey::CurrentGain => "agc_gain"@,
        StatKey::ClippingCount => "clipping_count"@,
        StatKey::EnergyRemoved => "energy_removed"@,
        StatKey::ProcessUs => "process_us"@,
        StatKey::AnalyzeUs => "analyze_us"@,
        StatKey::Energy => "energy"@,
        StatKey::AttackThreshold => "attack_threshold"@,
        StatKey::SustainThreshold => "sustain_threshold"@,
        StatKey::Triggered => "triggered"@,
        StatKey::Phase => "phase"@,
        StatKey::HoldCounter => "hold_counter"@,
        StatKey::ZeroCrossingRate => "zcr"@,
        StatKey::SpeechBandRatio => "speech_band_ratio"@,
        StatKey::SpectralCentroid => "spectral_centroid"@,
        StatKey::SpectralFlatness => "spectral_flatness"@,
    }
}

impl StatKey {
    /// The name this statistic is reported under.
    pub fn name(self) -> (r: &'static str)
        ensures
            r@ == stat_name(self),
    {
        match self {
            StatKey::NoiseFloor => "noise_floor",
            StatKey::DutyCycle => "duty_cycle",
            StatKey::CurrentGain => "agc_gain",
            StatKey::ClippingCount => "clipping_count",
            StatKey::EnergyRemoved => "energy_removed",
            StatKey::ProcessUs => "process_us",
            StatKey::AnalyzeUs => "analyze_us",
            StatKey::Energy => "energy",
            StatKey::AttackThreshold => "attack_threshold",
            StatKey::SustainThreshold => "sustain_threshold",
            StatKey::Triggered => "triggered",
            StatKey::Phase => "phase",
            StatKey::HoldCounter => "hold_counter",
            StatKey::ZeroCrossingRate => "zcr",
            StatKey::SpeechBandRatio => "speech_band_ratio",
            StatKey::SpectralCentroid => "spectral_centroid",
            StatKey::SpectralFlatness => "spectral_flatness",
        }
    }
}

/// Different statistics are reported under different names, so a name identifies its
/// statistic.
pub proof fn lemma_stat_names_distinct(a: StatKey, b: StatKey)
    requires
        a != b,
    ensures
        stat_name(a) != stat_name(b),
{
    reveal_strlit("noise_floor");
    reveal_strlit("duty_cycle");
    reveal_strlit("agc_gain");
    reveal_strlit("clipping_count");
    reveal_strlit("energy_removed");
    reveal_strlit("process_us");
    reveal_strlit("analyze_us");
    reveal_strlit("energy");
    reveal_strlit("attack_threshold");
    reveal_strlit("sustain_threshold");
    reveal_strlit("triggered");
    reveal_strlit("phase");
    reveal_strlit("hold_counter");
    reveal_strlit("zcr");
    reveal_strlit("speech_band_ratio");
    reveal_strlit("spectral_centroid");
    reveal_strlit("spectral_flatness");
    let x = stat_name(a);
    let y = stat_name(b);
    if x == y {
        assert(x.len() == y.len());
        assert(x[0] == y[0]);
        assert(x[1] == y[1]);
        assert(x[3] == y[3]);
        assert(x[9] == y[9]);
    }
}

/// Every statistic's name is non-empty and written in lower-case ASCII letters and
/// underscores.
pub proof fn lemma_stat_name_form(k: StatKey)
    ensures
        stat_name(k).len() > 0,
        forall|i: int| 0 <= i < stat_name(k).len() ==> ('a' <= #[trigger] stat_name(k)[i] <= 'z' || stat_name(k)[i] == '_'),
{
    reveal_strlit("noise_floor");
    reveal_strlit("duty_cycle");
    reveal_strlit("agc_gain");
    reveal_strlit("clipping_count");
    reveal_strlit("energy_removed");
    reveal_strlit("process_us");
    reveal_strlit("analyze_us");
    reveal_strlit("energy");
    reveal_strlit("attack_threshold");
    reveal_strlit("sustain_threshold");
    reveal_strlit("triggered");
    reveal_strlit("phase");
    reveal_strlit("hold_counter");
    reveal_strlit("zcr");
    reveal_strlit("speech_band_ratio");
    reveal_strlit("spectral_centroid");
    reveal_strlit("spectral_flatness");
}

/// The low byte of a sample in little-endian order.
pub open spec fn le_lo(s: i16) -> u8 {
    ((s as u16) & 0xff) as u8
}

/// The high byte of a sample in little-endian order.
pub open spec fn le_hi(s: i16) -> u8 {
    ((s as u16) >> 8u16) as u8
}

/// The sample with the given little-endian bytes.
pub open spec fn from_le(lo: u8, hi: u8) -> i16 {
    (((hi as u16) << 8u16) | (lo as u16)) as i16
}

/// A sample's two bytes give the sample back.
pub proof fn lemma_le_round_trip(s: i16)
    ensures
        from_le(le_lo(s), le_hi(s)) == s,
{
    assert((((((s as u16) >> 8u16) as u8) as u16) << 8u16 | ((((s as u16) & 0xff) as u8) as u16)) as i16
        == s) by (bit_vector);
}

/// The PCM16LE bytes of a sequence of samples: two bytes per sample, low byte first.
pub open spec fn pcm_bytes(samples: Seq<i16>) -> Seq<u8> {
    Seq::new(
        2 * samples.len(),
        |i: int|
            if i % 2 == 0 {
                le_lo(samples[i / 2])
            } else {
                le_hi(samples[i / 2])
            },
    )
}

/// The samples of PCM16LE bytes: one per complete pair of bytes; an odd last byte is
/// ignored.
pub open spec fn pcm_samples(bytes: Seq<u8>) -> Seq<i16> {
    Seq::new(bytes.len() / 2, |i: int| from_le(bytes[2 * i], bytes[2 * i + 1]))
}

/// Converting samples to PCM16LE bytes and back gives the samples.
pub proof fn lemma_pcm_round_trip(samples: Seq<i16>)
    ensures
        pcm_samples(pcm_bytes(samples)) == samples,
{
    let b = pcm_bytes(samples);
    assert(b.len() / 2 == samples.len());
    assert forall|i: int| 0 <= i < samples.len() implies #[trigger] pcm_samples(b)[i] == samples[i] by {
        assert((2 * i) % 2 == 0 && (2 * i) / 2 == i);
        assert((2 * i + 1) % 2 == 1 && (2 * i + 1) / 2 == i);
        lemma_le_round_trip(samples[i]);
    }
    assert(pcm_samples(b) =~= samples);
}

/// Decode PCM16LE bytes into `out`, replacing what it held.
pub fn pcm16le_to_samples(bytes: &[u8], out: &mut Vec<i16>)
    ensures
        final(out)@ == pcm_samples(bytes@),
{
    out.clear();
    let len = bytes.len();
    let n = len / 2;
    let mut i: usize = 0;
    while i < n
        invariant
            len == bytes@.len(),
            n == len / 2,
            i <= n,
            out@ == pcm_samples(bytes@).subrange(0, i as int),
        decreases n - i,
    {
        assert(2 * i + 1 < len);
        let lo = bytes[2 * i];
        let hi = bytes[2 * i + 1];
        let s = #[verifier::truncate] ((((hi as u16) << 8u16) | (lo as u16)) as i16);
        out.push(s);
        proof {
            assert(pcm_samples(bytes@).subrange(0, i + 1) =~= pcm_samples(bytes@).subrange(0, i as int).push(s));
        }
        i = i + 1;
    }
    proof {
        assert(pcm_samples(bytes@).subrange(0, n as int) =~= pcm_samples(bytes@));
    }
}

/// Encode samples as PCM16LE bytes into `out`, replacing what it held.
pub fn samples_to_pcm16le(samples: &[i16], out: &mut Vec<u8>)
    requires
        samples@.len() * 2 <= usize::MAX,
    ensures
        final(out)@ == pcm_bytes(samples@),
{
    out.clear();
    let mut i: usize = 0;
    while i < samples.len()
        invariant
            i <= samples@.len(),
            samples@.len() * 2 <= usize::MAX,
            out@ == pcm_bytes(samples@).subrange(0, 2 * i),
        decreases samples@.len() - i,
    {
        let u = samples[i] as u16;
        let lo = (u & 0xff) as u8;
        let hi = (u >> 8u16) as u8;
        out.push(lo);
        out.push(hi);
        proof {
            let target = pcm_bytes(samples@);
            assert((2 * i) % 2 == 0 && (2 * i) / 2 == i as int);
            assert((2 * i + 1) % 2 == 1 && (2 * i + 1) / 2 == i as int);
            assert(target[2 * i] == lo);
            assert(target[2 * i + 1] == hi);
            assert(target.subrange(0, 2 * (i + 1)) =~= target.subrange(0, 2 * i).push(lo).push(hi));
        }
        i = i + 1;
    }
    proof {
        assert(pcm_bytes(samples@).subrange(0, 2 * samples@.len() as int) =~= pcm_bytes(samples@));
    }
}

} // verus!
