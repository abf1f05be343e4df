//! Audio loading, resampling, and playback functionality.

use crate::rounding::{
    divide_to, lemma_lift, lemma_pow2_divides, lemma_round_at_least, lemma_round_at_most,
    lemma_round_bounds, lemma_round_grows, lemma_rounded_at_most, lemma_rounded_exact,
    lemma_rounded_grows, lemma_unit, lift, is_pow2, quotient, round_half_even, round_to, rounded,
    unit, SINGLE,
};
use crate::single::{
    convert_mono, convert_stereo, converted, law_stereo_of_equal_channels, mean_converted,
    mono_samples, stereo_samples,
};
use crate::text::{decimal, decimal_text};
use vstd::prelude::*;
use vstd::string::*;

verus! {

/// The sample rate of the device in Hz.
pub const VOLCA_SAMPLERATE: u32 = 31250;

/// The speed at which a sample plays at the sample rate of the device. Speeds
/// are fixed-point numbers: this one stands for 1.0.
pub const UNITY_SPEED: u16 = 16384;

/// The speed at which the device plays at `rate` Hz: `rate` over the device's
/// rate, rounded to single precision, in fixed point; no more than fits.
pub open spec fn speed_for_rate(rate: nat) -> nat {
    let r = rounded(rate, SINGLE as nat);
    let speed = (quotient(r, VOLCA_SAMPLERATE as nat, SINGLE as nat) * UNITY_SPEED as nat) / lift(
        r,
        VOLCA_SAMPLERATE as nat,
        SINGLE as nat,
    );
    if speed > u16::MAX {
        u16::MAX as nat
    } else {
        speed
    }
}

/// The rate in Hz at which the device plays at a speed.
pub open spec fn rate_for_speed(speed: nat) -> nat {
    (VOLCA_SAMPLERATE as nat * speed) / UNITY_SPEED as nat
}

/// The mean of two samples, rounded toward zero.
pub open spec fn mixed(a: i16, b: i16) -> int {
    if a + b < 0 {
        -((-(a + b)) / 2)
    } else {
        (a + b) / 2
    }
}

/// Interleaved stereo samples mixed to mono. A last sample without its
/// counterpart is left out.
pub open spec fn mono(samples: Seq<i16>) -> Seq<i16> {
    Seq::new(samples.len() / 2, |i: int| mixed(samples[2 * i], samples[2 * i + 1]) as i16)
}

/// The speed that goes with samples loaded at a rate. What is faster than the
/// device is resampled to the device's rate and played at unity speed.
pub open spec fn wav_speed(rate: nat) -> nat {
    if rate > VOLCA_SAMPLERATE {
        UNITY_SPEED as nat
    } else {
        speed_for_rate(rate)
    }
}

/// Computes [`speed_for_rate`].
pub fn speed_of(rate: u32) -> (r: u16)
    ensures
        r == speed_for_rate(rate as nat),
{
    let rate: u128 = round_to(rate as u128, SINGLE);
    let (numerator, scale) = divide_to(rate, VOLCA_SAMPLERATE as u128, SINGLE);
    let speed: u128 = numerator * (UNITY_SPEED as u128) / scale;
    if speed > u16::MAX as u128 {
        u16::MAX
    } else {
        speed as u16
    }
}

/// The effective sample rate, in Hz, of playback at a speed.
pub fn playback_rate(speed: u16) -> (r: u32)
    ensures
        r == rate_for_speed(speed as nat),
{
    let rate: u32 = VOLCA_SAMPLERATE * (speed as u32) / (UNITY_SPEED as u32);
    rate
}

/// Copies samples.
pub fn copy_samples(samples: &[i16]) -> (r: Vec<i16>)
    ensures
        r@ == samples@,
{
    let mut out: Vec<i16> = Vec::new();
    let mut i: usize = 0;
    while i < samples.len()
        invariant
            i <= samples@.len(),
            out@ == samples@.take(i as int),
        decreases samples@.len() - i,
    {
        out.push(samples[i]);
        i = i + 1;
        assert(out@ =~= samples@.take(i as int));
    }
    assert(out@ =~= samples@);
    out
}

/// Stores original sample data for lossless resampling across different rates.
pub struct OriginalSample {
    /// Original samples at original sample rate.
    pub samples: Vec<i16>,
    /// Original sample rate (e.g., 44100, 16000).
    pub original_sample_rate: u32,
    /// Current playback speed (for display rate).
    pub current_speed: u16,
}

/// The content of an [`OriginalSample`].
#[verifier::ext_equal]
pub struct OriginalContent {
    pub samples: Seq<i16>,
    pub original_sample_rate: u32,
    pub current_speed: u16,
}

impl View for OriginalSample {
    type V = OriginalContent;

    open spec fn view(&self) -> OriginalContent {
        OriginalContent {
            samples: self.samples@,
            original_sample_rate: self.original_sample_rate,
            current_speed: self.current_speed,
        }
    }
}

impl Clone for OriginalSample {
    fn clone(&self) -> (r: OriginalSample)
        ensures
            r@ == self@,
    {
        OriginalSample {
            samples: copy_samples(self.samples.as_slice()),
            original_sample_rate: self.original_sample_rate,
            current_speed: self.current_speed,
        }
    }
}

/// What a resampling that was asked for comes to, given the samples or the
/// error that it ended with and the speed that goes with the new rate.
pub open spec fn resample_outcome(
    resampled: Result<Vec<i16>, String>,
    speed: nat,
    r: Result<(Vec<i16>, u16), String>,
) -> bool {
    match resampled {
        Ok(samples) => r matches Ok(pair) && pair.0 == samples && pair.1 == speed,
        Err(e) => r matches Err(text) && text@ == "Resample failed: "@ + e@,
    }
}

/// `r` is what resampling to a rate comes to: where the audio has that rate, a
/// copy; else what `resampler` makes of the samples.
pub open spec fn resampled_by<F: FnOnce(&[i16], u32, u32) -> Result<Vec<i16>, String>>(
    samples: Seq<i16>,
    from_rate: u32,
    to_rate: u32,
    resampler: F,
    r: Result<Vec<i16>, String>,
) -> bool {
    if from_rate == to_rate {
        r matches Ok(copy) && copy@ == samples
    } else {
        exists|input: &[i16]|
            input@ == samples && #[trigger] call_ensures(resampler, (input, from_rate, to_rate), r)
    }
}

/// `r` is what resampling `audio` to a rate comes to, with the speed that goes
/// with the rate.
pub open spec fn resampled_to<F: FnOnce(&[i16], u32, u32) -> Result<Vec<i16>, String>>(
    audio: OriginalContent,
    target_rate: u32,
    resampler: F,
    r: Result<(Vec<i16>, u16), String>,
) -> bool {
    if target_rate == audio.original_sample_rate {
        r matches Ok(pair) && pair.0@ == audio.samples && pair.1 == speed_for_rate(
            target_rate as nat,
        )
    } else {
        exists|resampled: Result<Vec<i16>, String>|
            #[trigger] resampled_by(
                audio.samples,
                audio.original_sample_rate,
                target_rate,
                resampler,
                resampled,
            ) && resample_outcome(resampled, speed_for_rate(target_rate as nat), r)
    }
}

/// Pairs resampled audio with its speed, or says that resampling failed.
pub fn finish_resample(resampled: Result<Vec<i16>, String>, speed: u16) -> (r: Result<
    (Vec<i16>, u16),
    String,
>)
    ensures
        resample_outcome(resampled, speed as nat, r),
{
    match resampled {
        Ok(samples) => Ok((samples, speed)),
        Err(e) => Err("Resample failed: ".to_owned().concat(e.as_str())),
    }
}

impl OriginalSample {
    /// The current effective sample rate, in Hz over [`UNITY_SPEED`], rounded
    /// to single precision.
    pub fn current_sample_rate(&self) -> (r: u32)
        ensures
            r == rounded(VOLCA_SAMPLERATE as nat * self.current_speed as nat, SINGLE as nat),
    {
        let rate: u128 = VOLCA_SAMPLERATE as u128 * self.current_speed as u128;
        let r: u128 = round_to(rate, SINGLE);
        r as u32
    }

    /// Resample to target rate, returning (resampled_samples, new_speed).
    /// `resampler` is asked only where the rates differ.
    pub fn resample_to<F: FnOnce(&[i16], u32, u32) -> Result<Vec<i16>, String>>(
        &self,
        target_rate: u32,
        resampler: F,
    ) -> (r: Result<(Vec<i16>, u16), String>)
        requires
            target_rate != self.original_sample_rate ==> forall|input: &[i16]|
                input@ == self.samples@ ==> #[trigger] call_requires(
                    resampler,
                    (input, self.original_sample_rate, target_rate),
                ),
        ensures
            resampled_to(self@, target_rate, resampler, r),
    {
        let speed: u16 = speed_of(target_rate);
        if target_rate == self.original_sample_rate {
            return Ok((copy_samples(self.samples.as_slice()), speed));
        }
        let resampled = resample_audio(
            self.samples.as_slice(),
            self.original_sample_rate,
            target_rate,
            resampler,
        );
        assert(resampled_by(
            self@.samples,
            self@.original_sample_rate,
            target_rate,
            resampler,
            resampled,
        ));
        finish_resample(resampled, speed)
    }
}

/// Resample audio from source rate to target rate. `resampler` is asked only
/// where the rates differ.
pub fn resample_audio<F: FnOnce(&[i16], u32, u32) -> Result<Vec<i16>, String>>(
    samples: &[i16],
    from_rate: u32,
    to_rate: u32,
    resampler: F,
) -> (r: Result<Vec<i16>, String>)
    requires
        from_rate != to_rate ==> call_requires(resampler, (samples, from_rate, to_rate)),
    ensures
        resampled_by(samples@, from_rate, to_rate, resampler, r),
{
    if from_rate == to_rate {
        return Ok(copy_samples(samples));
    }
    resampler(samples, from_rate, to_rate)
}

/// Mixes interleaved stereo samples to mono.
pub fn mix_to_mono(samples: &[i16]) -> (r: Vec<i16>)
    ensures
        r@ == mono(samples@),
{
    let mut out: Vec<i16> = Vec::new();
    let len: usize = samples.len();
    let half: usize = len / 2;
    let mut i: usize = 0;
    while i < half
        invariant
            len == samples@.len(),
            half == len / 2,
            i <= half,
            out@ == mono(samples@).take(i as int),
        decreases half - i,
    {
        let sum: i32 = samples[2 * i] as i32 + samples[2 * i + 1] as i32;
        let mean: i32 = if sum < 0 {
            -((-sum) / 2)
        } else {
            sum / 2
        };
        out.push(mean as i16);
        i = i + 1;
        assert(out@ =~= mono(samples@).take(i as int));
    }
    assert(mono(samples@).take(half as int) =~= mono(samples@));
    out
}

/// What a WAV file says about its samples.
#[derive(Clone, Copy, Debug, PartialEq, Eq, Structural)]
pub struct WavFormat {
    pub channels: u16,
    pub sample_rate: u32,
    pub bits_per_sample: u16,
    /// The samples are floating point numbers, not integers.
    pub float: bool,
}

/// How the samples of a WAV file become mono 16-bit samples.
#[derive(Clone, Copy, Debug, PartialEq, Eq, Structural)]
pub enum WavLayout {
    /// 16-bit integers, one channel: as they are.
    IntMono,
    /// 16-bit integers, two channels: mixed.
    IntStereo,
    /// 32-bit floating point, one channel: converted.
    FloatMono,
    /// 32-bit floating point, two channels: mixed and converted.
    FloatStereo,
}

/// The layout of a format, if it is one that can be loaded.
pub open spec fn layout_of(format: WavFormat) -> Option<WavLayout> {
    if !format.float && format.bits_per_sample == 16 && format.channels == 1 {
        Some(WavLayout::IntMono)
    } else if !format.float && format.bits_per_sample == 16 && format.channels == 2 {
        Some(WavLayout::IntStereo)
    } else if format.float && format.bits_per_sample == 32 && format.channels == 1 {
        Some(WavLayout::FloatMono)
    } else if format.float && format.bits_per_sample == 32 && format.channels == 2 {
        Some(WavLayout::FloatStereo)
    } else {
        None
    }
}

/// What is said of a format that cannot be loaded.
pub open spec fn unsupported_text(format: WavFormat) -> Seq<char> {
    "Unsupported WAV format: "@ + decimal(format.bits_per_sample as nat) + " bit "@ + (
    if format.float {
        "Float"@
    } else {
        "Int"@
    }) + ", "@ + decimal(format.channels as nat) + " channels"@
}

/// Decides how the samples of a WAV file are to be read.
pub fn wav_layout(format: WavFormat) -> (r: Result<WavLayout, String>)
    ensures
        match layout_of(format) {
            Some(layout) => r == Ok::<WavLayout, String>(layout),
            None => r matches Err(text) && text@ == unsupported_text(format),
        },
{
    match (format.float, format.bits_per_sample, format.channels) {
        (false, 16, 1) => Ok(WavLayout::IntMono),
        (false, 16, 2) => Ok(WavLayout::IntStereo),
        (true, 32, 1) => Ok(WavLayout::FloatMono),
        (true, 32, 2) => Ok(WavLayout::FloatStereo),
        _ => {
            let kind = if format.float {
                "Float"
            } else {
                "Int"
            };
            let text: String = "Unsupported WAV format: ".to_owned().concat(
                decimal_text(format.bits_per_sample as u64).as_str(),
            ).concat(" bit ").concat(kind).concat(", ").concat(
                decimal_text(format.channels as u64).as_str(),
            ).concat(" channels");
            Err(text)
        },
    }
}

/// What `hound::WavReader::new` and `hound::WavReader::spec` make of the bytes
/// of a file: channels, sample rate, bits per sample and whether the samples
/// are floating point, or the text of the error.
pub uninterp spec fn wav_header(bytes: Seq<u8>) -> Result<(u16, u32, u16, bool), Seq<char>>;

/// What `hound::WavReader::samples` yields as `i16` for the bytes of a file,
/// all of it, or the text of the first error.
pub uninterp spec fn wav_samples(bytes: Seq<u8>) -> Result<Seq<i16>, Seq<char>>;

/// Reads the header of a WAV file with `hound::WavReader::new` and
/// `hound::WavReader::spec`. The contract names the four values, or the text of
/// the error.
#[verifier::external_body]
fn read_header(bytes: &[u8]) -> (r: Result<WavFormat, String>)
    ensures
        match wav_header(bytes@) {
            Ok(h) => r == Ok::<WavFormat, String>(
                WavFormat { channels: h.0, sample_rate: h.1, bits_per_sample: h.2, float: h.3 },
            ),
            Err(e) => r matches Err(text) && text@ == e,
        },
{
    let spec = hound::WavReader::new(bytes).map_err(|e| e.to_string())?.spec();
    Ok(WavFormat {
        channels: spec.channels,
        sample_rate: spec.sample_rate,
        bits_per_sample: spec.bits_per_sample,
        float: match spec.sample_format {
            hound::SampleFormat::Float => true,
            hound::SampleFormat::Int => false,
        },
    })
}

/// Reads the samples of a WAV file with `hound::WavReader::samples`. The
/// contract names the samples, or the text of the first error.
#[verifier::external_body]
fn read_samples(bytes: &[u8]) -> (r: Result<Vec<i16>, String>)
    ensures
        match wav_samples(bytes@) {
            Ok(s) => r matches Ok(v) && v@ == s,
            Err(e) => r matches Err(text) && text@ == e,
        },
{
    let mut reader = hound::WavReader::new(bytes).map_err(|e| e.to_string())?;
    reader.samples::<i16>().collect::<Result<Vec<i16>, hound::Error>>().map_err(|e| e.to_string())
}

/// What loading comes to, given the mono samples, or the error that reading
/// them ended with, and the rate that they were recorded at.
pub open spec fn wav_outcome(
    samples: Result<Seq<i16>, Seq<char>>,
    rate: u32,
    r: Result<(u32, Vec<i16>, u16), String>,
) -> bool {
    match samples {
        Ok(s) => r matches Ok(loaded) && loaded.0 == rate && loaded.1@ == s && loaded.2
            == wav_speed(rate as nat),
        Err(e) => r matches Err(text) && text@ == "Failed to read samples: "@ + e,
    }
}

/// The samples and the error text of a result.
pub open spec fn sample_result(r: Result<Vec<i16>, String>) -> Result<Seq<i16>, Seq<char>> {
    match r {
        Ok(samples) => Ok(samples@),
        Err(e) => Err(e@),
    }
}

/// Puts together what loading a WAV file returns: the original sample rate, the
/// samples at that rate, and the speed that goes with it.
pub fn finish_wav(samples: Result<Vec<i16>, String>, rate: u32) -> (r: Result<
    (u32, Vec<i16>, u16),
    String,
>)
    ensures
        wav_outcome(sample_result(samples), rate, r),
{
    match samples {
        Ok(samples) => {
            let speed: u16 = if rate > VOLCA_SAMPLERATE {
                UNITY_SPEED
            } else {
                speed_of(rate)
            };
            Ok((rate, samples, speed))
        },
        Err(e) => Err("Failed to read samples: ".to_owned().concat(e.as_str())),
    }
}

/// The mono samples of a floating point file, given the bits of its samples.
pub open spec fn float_samples(
    layout: WavLayout,
    bits: Result<Vec<u32>, String>,
) -> Result<Seq<i16>, Seq<char>> {
    match bits {
        Ok(bits) => Ok(
            if layout == WavLayout::FloatStereo {
                stereo_samples(bits@)
            } else {
                mono_samples(bits@)
            },
        ),
        Err(e) => Err(e@),
    }
}

/// Makes mono samples of the bits of the samples of a floating point file.
pub fn convert_float(layout: WavLayout, bits: Result<Vec<u32>, String>) -> (r: Result<
    Vec<i16>,
    String,
>)
    ensures
        sample_result(r) == float_samples(layout, bits),
{
    match bits {
        Ok(bits) => Ok(
            if layout == WavLayout::FloatStereo {
                convert_stereo(bits.as_slice())
            } else {
                convert_mono(bits.as_slice())
            },
        ),
        Err(e) => Err(e),
    }
}

/// `r` is what loading the bytes of a WAV file comes to, with `read_float` for
/// the samples of a floating point file.
pub open spec fn wav_loaded<F: FnOnce(&[u8]) -> Result<Vec<u32>, String>>(
    bytes: &[u8],
    read_float: F,
    r: Result<(u32, Vec<i16>, u16), String>,
) -> bool {
    match wav_header(bytes@) {
        Err(e) => r matches Err(text) && text@ == "Failed to open WAV: "@ + e,
        Ok(h) => {
            let format = WavFormat {
                channels: h.0,
                sample_rate: h.1,
                bits_per_sample: h.2,
                float: h.3,
            };
            match layout_of(format) {
                None => r matches Err(text) && text@ == unsupported_text(format),
                Some(WavLayout::IntMono) => wav_outcome(wav_samples(bytes@), h.1, r),
                Some(WavLayout::IntStereo) => wav_outcome(
                    match wav_samples(bytes@) {
                        Ok(s) => Ok(mono(s)),
                        Err(e) => Err(e),
                    },
                    h.1,
                    r,
                ),
                Some(layout) => exists|bits: Result<Vec<u32>, String>| #[trigger]
                    call_ensures(read_float, (bytes,), bits) && wav_outcome(
                        float_samples(layout, bits),
                        h.1,
                        r,
                    ),
            }
        },
    }
}

/// Load the bytes of a WAV file and keep its samples at the original rate.
/// Returns (original_sample_rate, samples_at_original_rate,
/// speed_for_original_rate). `read_float` is asked for the samples of a
/// floating point file, of all channels as they come, by their bits.
pub fn load_wav_file<F: FnOnce(&[u8]) -> Result<Vec<u32>, String>>(
    bytes: &[u8],
    read_float: F,
) -> (r: Result<(u32, Vec<i16>, u16), String>)
    requires
        call_requires(read_float, (bytes,)),
    ensures
        wav_loaded(bytes, read_float, r),
{
    let format: WavFormat = match read_header(bytes) {
        Ok(format) => format,
        Err(e) => {
            return Err("Failed to open WAV: ".to_owned().concat(e.as_str()));
        },
    };
    let layout: WavLayout = match wav_layout(format) {
        Ok(layout) => layout,
        Err(e) => {
            return Err(e);
        },
    };
    match layout {
        WavLayout::IntMono => finish_wav(read_samples(bytes), format.sample_rate),
        WavLayout::IntStereo => {
            let samples: Result<Vec<i16>, String> = match read_samples(bytes) {
                Ok(all) => Ok(mix_to_mono(all.as_slice())),
                Err(e) => Err(e),
            };
            finish_wav(samples, format.sample_rate)
        },
        _ => finish_wav(convert_float(layout, read_float(bytes)), format.sample_rate),
    }
}

/// What the receiver of the stop signal finds.
#[derive(Clone, Copy, Debug, PartialEq, Eq, Structural)]
pub enum StopSignal {
    /// A stop was asked for.
    Stop,
    /// Nobody is left who could ask for a stop.
    Disconnected,
    /// Nothing was asked for.
    Empty,
}

/// What a playback does next.
#[derive(Clone, Copy, Debug, PartialEq, Eq, Structural)]
pub enum PlaybackStep {
    /// End; everything was played.
    Completed,
    /// Silence the output and end; playback was stopped early.
    Stopped,
    /// Look again after a pause.
    Continue,
}

/// The pause between two looks at a playback, in milliseconds.
pub const PLAYBACK_POLL_MS: u64 = 50;

/// Decides how a playback goes on. Playback that has run out has completed,
/// whatever the signal.
pub fn playback_step(output_empty: bool, signal: StopSignal) -> (r: PlaybackStep)
    ensures
        r == (if output_empty {
            PlaybackStep::Completed
        } else if signal == StopSignal::Empty {
            PlaybackStep::Continue
        } else {
            PlaybackStep::Stopped
        }),
{
    if output_empty {
        return PlaybackStep::Completed;
    }
    match signal {
        StopSignal::Stop => PlaybackStep::Stopped,
        StopSignal::Disconnected => PlaybackStep::Stopped,
        StopSignal::Empty => PlaybackStep::Continue,
    }
}

/// The speed for a rate is the exact one, cut off to fixed point, up to the
/// rounding of the ratio: never below that, and above it by less than one
/// hundredth.
pub proof fn law_speed_is_exact(rate: nat)
    requires
        rate < 125000,
    ensures
        (UNITY_SPEED as nat * rate) / VOLCA_SAMPLERATE as nat <= speed_for_rate(rate),
        VOLCA_SAMPLERATE as nat * speed_for_rate(rate) <= UNITY_SPEED as nat * rate + 256,
{
    let d = VOLCA_SAMPLERATE as nat;
    let s = SINGLE as nat;
    lemma_rounded_exact(rate, s);
    let u = lift(rate, d, s);
    let m = quotient(rate, d, s);
    if rate == 0 {
        assert(u == 1);
        assert(m == 0);
    } else {
        lemma_lift(rate, d, s);
        assert(u >= 0x10_0000) by (nonlinear_arith)
            requires
                2 * (rate * u) >= 31250 * 0x100_0000,
                0 < rate < 125000,
        ;
        lemma_round_bounds(rate * u, d);
        assert(is_pow2(16384)) by {
            reveal_with_fuel(is_pow2, 15);
        }
        lemma_pow2_divides(16384, u);
        let w = u / 16384;
        let n = (16384 * rate) / d;
        assert(n * d <= 16384 * rate);
        assert((n * w) * d <= rate * u) by (nonlinear_arith)
            requires
                n * d <= 16384 * rate,
                u == 16384 * w,
        ;
        lemma_round_at_least(rate * u, d, n * w);
        assert(n * w <= m);
        let raw = (m * 16384) / u;
        assert(n * u <= m * 16384) by (nonlinear_arith)
            requires
                n * w <= m,
                u == 16384 * w,
        ;
        vstd::arithmetic::div_mod::lemma_fundamental_div_mod((m * 16384) as int, u as int);
        let rest = (m * 16384) % u;
        assert(n <= raw) by (nonlinear_arith)
            requires
                n * u <= m * 16384,
                m * 16384 == u * raw + rest,
                rest < u,
        ;
        assert(d * raw <= 16384 * rate + 256) by (nonlinear_arith)
            requires
                u * raw <= m * 16384,
                2 * (d * m) <= 2 * (rate * u) + d,
                d == 31250,
                u >= 0x10_0000,
        ;
    }
}

/// The rate of the device has unity speed.
pub proof fn law_device_rate_is_unity()
    ensures
        speed_for_rate(VOLCA_SAMPLERATE as nat) == UNITY_SPEED,
{
    law_speed_is_exact(VOLCA_SAMPLERATE as nat);
}

/// What is played at the speed for a rate is played at that rate, up to two Hz
/// below it, and never faster.
pub proof fn law_speed_gives_rate(rate: nat)
    requires
        rate <= 125000,
    ensures
        rate_for_speed(speed_for_rate(rate)) <= rate <= rate_for_speed(speed_for_rate(rate)) + 2,
{
    if rate < 125000 {
        law_speed_is_exact(rate);
    } else {
        law_speed_saturates(rate);
    }
}

/// Rates of four times the device's rate and more have the largest speed.
pub proof fn law_speed_saturates(rate: nat)
    requires
        125000 <= rate <= u32::MAX,
    ensures
        speed_for_rate(rate) == u16::MAX,
{
    let d = VOLCA_SAMPLERATE as nat;
    let s = SINGLE as nat;
    let r = rounded(rate, s);
    let w = unit(rate, s);
    if rate < s {
        lemma_rounded_exact(rate, s);
    } else {
        lemma_unit(rate, s);
        lemma_round_bounds(rate, w);
        assert(round_half_even(rate, w) * w == w * round_half_even(rate, w)) by (nonlinear_arith);
        assert(s * w <= 2 * rate);
        assert(w <= rate) by (nonlinear_arith)
            requires
                s * w <= 2 * rate,
                s >= 2,
        ;
        assert(0x100_0000 * w <= 2 * rate);
    }
    assert(125000 <= r <= 0x1_8000_0000);
    lemma_lift(r, d, s);
    let u = lift(r, d, s);
    let m = quotient(r, d, s);
    if u <= 0x10_0000 {
        lemma_round_at_least(r * u, d, s / 2);
        assert(65536 * u <= m * 16384);
    } else {
        assert(is_pow2(16384)) by {
            reveal_with_fuel(is_pow2, 15);
        }
        lemma_pow2_divides(16384, u);
        let k = u / 16384;
        assert((65536 * k) * d <= r * u) by (nonlinear_arith)
            requires
                r >= 125000,
                d == 31250,
                u == 16384 * k,
        ;
        lemma_round_at_least(r * u, d, 65536 * k);
    }
    assert((m * 16384) / u >= 65536) by (nonlinear_arith)
        requires
            65536 * u <= m * 16384,
            u > 0,
    ;
}

/// A higher rate never has a lower speed.
pub proof fn law_speed_grows(a: nat, b: nat)
    requires
        a <= b <= u32::MAX,
    ensures
        speed_for_rate(a) <= speed_for_rate(b),
{
    let d = VOLCA_SAMPLERATE as nat;
    let s = SINGLE as nat;
    let (x, y) = (rounded(a, s), rounded(b, s));
    lemma_rounded_grows(a, b, s);
    assert(b <= (0x100_0000 - 1) * 512) by (nonlinear_arith)
        requires
            b <= 0xffff_ffff,
    ;
    assert(is_pow2(512)) by {
        reveal_with_fuel(is_pow2, 10);
    }
    lemma_rounded_at_most(b, 0xff_ffff, 512, s);
    if x > 0 {
        lemma_lift(x, d, s);
        lemma_lift(y, d, s);
        let (u, w) = (lift(x, d, s), lift(y, d, s));
        let (m, n) = (quotient(x, d, s), quotient(y, d, s));
        assert(m * w <= n * u) by {
            if u == w {
                assert(x * u <= y * w) by (nonlinear_arith)
                    requires
                        x <= y,
                        u == w,
                ;
                lemma_round_grows(x * u, y * w, d);
                assert(m * w <= n * u) by (nonlinear_arith)
                    requires
                        m <= n,
                        u == w,
                ;
            } else if w < u {
                lemma_pow2_divides(w, u);
                let k = u / w;
                assert(s * d == d * s) by (nonlinear_arith);
                lemma_round_at_most(x * u, d, s);
                lemma_round_at_least(y * w, d, s / 2);
                assert(m * w <= n * u) by (nonlinear_arith)
                    requires
                        m <= 0x100_0000,
                        n >= 0x80_0000,
                        u == w * k,
                        w < u,
                ;
            } else {
                lemma_pow2_divides(u, w);
                let k = w / u;
                assert(false) by (nonlinear_arith)
                    requires
                        w == u * k,
                        u < w,
                        u > 0,
                        2 * (x * u) >= d * s,
                        y * w < d * s,
                        x <= y,
                ;
            }
        }
        let (p, q) = ((m * 16384) / u, (n * 16384) / w);
        vstd::arithmetic::div_mod::lemma_fundamental_div_mod((m * 16384) as int, u as int);
        vstd::arithmetic::div_mod::lemma_fundamental_div_mod((n * 16384) as int, w as int);
        let rest = (n * 16384) % w;
        assert(p <= q) by (nonlinear_arith)
            requires
                m * w <= n * u,
                u * p <= m * 16384,
                n * 16384 == w * q + rest,
                rest < w,
                u > 0,
                w > 0,
        ;
    } else {
        assert(quotient(0, d, s) == 0);
    }
}

/// Samples that are loaded never play faster than the device's rate.
pub proof fn law_loaded_speed_at_most_unity(rate: nat)
    ensures
        wav_speed(rate) <= UNITY_SPEED,
{
    if rate <= VOLCA_SAMPLERATE {
        law_speed_is_exact(rate);
    }
}

/// The mean of two samples lies between them and does not depend on which of
/// them comes first; equal samples are left as they are.
pub proof fn law_mix_between(a: i16, b: i16)
    ensures
        mixed(a, b) == mixed(b, a),
        a <= b ==> a <= mixed(a, b) <= b,
        mixed(a, a) == a,
{
}

/// Mixing a file whose channels agree gives one of them.
pub proof fn law_mix_of_equal_channels(channel: Seq<i16>)
    ensures
        mono(doubled(channel)) == channel,
{
    let both = doubled(channel);
    assert forall|i: int| 0 <= i < channel.len() implies mono(both)[i] == channel[i] by {
        assert(both[2 * i] == channel[i]);
        assert(both[2 * i + 1] == channel[i]);
    }
    assert(mono(both) =~= channel);
}

/// Every sample twice: both channels of a file, interleaved, if they agree.
pub open spec fn doubled<T>(channel: Seq<T>) -> Seq<T> {
    Seq::new(2 * channel.len(), |i: int| channel[i / 2])
}

/// The content of what was loaded, or the text of the error.
pub open spec fn loaded_content(r: Result<(u32, Vec<i16>, u16), String>) -> Result<
    (u32, Seq<i16>, u16),
    Seq<char>,
> {
    match r {
        Ok(l) => Ok((l.0, l.1@, l.2)),
        Err(e) => Err(e@),
    }
}

/// A file of 16-bit integers whose two channels agree loads as the file of one
/// of them does: nothing is lost, and each frame gives one sample.
pub proof fn law_int_file_of_equal_channels<F: FnOnce(&[u8]) -> Result<Vec<u32>, String>>(
    single: &[u8],
    dual: &[u8],
    rate: u32,
    channel: Seq<i16>,
    read_float: F,
    r_single: Result<(u32, Vec<i16>, u16), String>,
    r_dual: Result<(u32, Vec<i16>, u16), String>,
)
    requires
        wav_header(single@) == Ok::<(u16, u32, u16, bool), Seq<char>>((1, rate, 16, false)),
        wav_header(dual@) == Ok::<(u16, u32, u16, bool), Seq<char>>((2, rate, 16, false)),
        wav_samples(single@) == Ok::<Seq<i16>, Seq<char>>(channel),
        wav_samples(dual@) == Ok::<Seq<i16>, Seq<char>>(doubled(channel)),
        wav_loaded(single, read_float, r_single),
        wav_loaded(dual, read_float, r_dual),
    ensures
        r_single is Ok,
        loaded_content(r_dual) == loaded_content(r_single),
{
    law_mix_of_equal_channels(channel);
}

/// A floating point file whose two channels agree loads as the file of one of
/// them does, whatever the values.
pub proof fn law_float_file_of_equal_channels<F: FnOnce(&[u8]) -> Result<Vec<u32>, String>>(
    single: &[u8],
    dual: &[u8],
    rate: u32,
    channel: Seq<u32>,
    read_float: F,
    r_single: Result<(u32, Vec<i16>, u16), String>,
    r_dual: Result<(u32, Vec<i16>, u16), String>,
)
    requires
        wav_header(single@) == Ok::<(u16, u32, u16, bool), Seq<char>>((1, rate, 32, true)),
        wav_header(dual@) == Ok::<(u16, u32, u16, bool), Seq<char>>((2, rate, 32, true)),
        forall|bits: Result<Vec<u32>, String>| #[trigger]
            call_ensures(read_float, (single,), bits) ==> (bits matches Ok(b) && b@ == channel),
        forall|bits: Result<Vec<u32>, String>| #[trigger]
            call_ensures(read_float, (dual,), bits) ==> (bits matches Ok(b) && b@ == doubled(
                channel,
            )),
        wav_loaded(single, read_float, r_single),
        wav_loaded(dual, read_float, r_dual),
    ensures
        r_single is Ok,
        loaded_content(r_dual) == loaded_content(r_single),
{
    law_stereo_of_equal_channels(channel);
}

/// Audio is resampled whenever its rate is not the one wanted: what comes back
/// is what the resampler gave for exactly these samples and these two rates.
/// Only audio that has the rate already comes back as it is.
pub proof fn law_resampler_is_asked<F: FnOnce(&[i16], u32, u32) -> Result<Vec<i16>, String>>(
    samples: Seq<i16>,
    from_rate: u32,
    to_rate: u32,
    resampler: F,
    r: Result<Vec<i16>, String>,
)
    requires
        resampled_by(samples, from_rate, to_rate, resampler, r),
    ensures
        from_rate != to_rate ==> exists|input: &[i16]|
            input@ == samples && #[trigger] call_ensures(resampler, (input, from_rate, to_rate), r),
        from_rate == to_rate ==> (r matches Ok(copy) && copy@ == samples),
{
}

/// Resampling kept audio to a rate gives what the resampler makes of its samples
/// from their own rate to that rate, or the samples themselves if they have it
/// already, and the speed at which the device plays at that rate.
pub proof fn law_resampled_plays_at_the_rate<
    F: FnOnce(&[i16], u32, u32) -> Result<Vec<i16>, String>,
>(
    audio: OriginalContent,
    target_rate: u32,
    resampler: F,
    r: Result<(Vec<i16>, u16), String>,
)
    requires
        resampled_to(audio, target_rate, resampler, r),
    ensures
        target_rate == audio.original_sample_rate ==> (r matches Ok(pair) && pair.0@
            == audio.samples),
        target_rate != audio.original_sample_rate ==> exists|
            input: &[i16],
            given: Result<Vec<i16>, String>,
        |
            input@ == audio.samples && #[trigger] call_ensures(
                resampler,
                (input, audio.original_sample_rate, target_rate),
                given,
            ) && match given {
                Ok(v) => r matches Ok(pair) && pair.0@ == v@,
                Err(_) => r is Err,
            },
        r matches Ok(pair) ==> {
            &&& target_rate < 125000 ==> (16384 * target_rate) / 31250 <= pair.1 && 31250 * pair.1
                <= 16384 * target_rate + 256
            &&& target_rate >= 125000 ==> pair.1 == 65535
            &&& target_rate == 31250 ==> pair.1 == 16384
        },
{
    if target_rate < 125000 {
        law_speed_is_exact(target_rate as nat);
    } else {
        law_speed_saturates(target_rate as nat);
    }
    if target_rate != audio.original_sample_rate {
        let given = choose|given: Result<Vec<i16>, String>|
            #[trigger] resampled_by(
                audio.samples,
                audio.original_sample_rate,
                target_rate,
                resampler,
                given,
            ) && resample_outcome(given, speed_for_rate(target_rate as nat), r);
        law_resampler_is_asked(
            audio.samples,
            audio.original_sample_rate,
            target_rate,
            resampler,
            given,
        );
    }
}

/// The mix of two samples is their mean, cut off toward zero: doubled, it is
/// their sum or one short of it, on the side of zero.
pub proof fn law_mix_is_the_mean(a: i16, b: i16)
    ensures
        ({
            let twice = 2 * mixed(a, b);
            let sum = a + b;
            &&& -1 <= sum - twice <= 1
            &&& sum >= 0 ==> 0 <= twice <= sum
            &&& sum <= 0 ==> sum <= twice <= 0
        }),
{
}

/// Mixing gives one sample for each whole frame, the mean of its two samples,
/// cut off toward zero.
pub proof fn law_frames_are_averaged(samples: Seq<i16>)
    ensures
        2 * mono(samples).len() <= samples.len() < 2 * mono(samples).len() + 2,
        forall|i: int|
            0 <= i < mono(samples).len() ==> {
                let twice = 2 * #[trigger] mono(samples)[i];
                let sum = samples[2 * i] + samples[2 * i + 1];
                &&& -1 <= sum - twice <= 1
                &&& sum >= 0 ==> 0 <= twice <= sum
                &&& sum <= 0 ==> sum <= twice <= 0
            },
{
    assert forall|i: int| 0 <= i < mono(samples).len() implies {
        let twice = 2 * #[trigger] mono(samples)[i];
        let sum = samples[2 * i] + samples[2 * i + 1];
        &&& -1 <= sum - twice <= 1
        &&& sum >= 0 ==> 0 <= twice <= sum
        &&& sum <= 0 ==> sum <= twice <= 0
    } by {
        law_mix_is_the_mean(samples[2 * i], samples[2 * i + 1]);
    }
}

/// The rate at which a speed plays is the largest whole number of Hz that is not
/// above the speed's share of the device's rate.
pub proof fn law_rate_of_speed(speed: nat)
    ensures
        16384 * rate_for_speed(speed) <= 31250 * speed < 16384 * (rate_for_speed(speed) + 1),
{
}

/// The speed of a file: unity above the device's rate, else the one that plays
/// at the file's own rate.
pub proof fn law_speed_of_file(rate: nat)
    ensures
        rate > 31250 ==> wav_speed(rate) == 16384,
        rate <= 31250 ==> (16384 * rate) / 31250 <= wav_speed(rate) && 31250 * wav_speed(rate)
            <= 16384 * rate + 256,
{
    if rate <= 31250 {
        law_speed_is_exact(rate);
    }
}

/// A file is loaded if and only if it is one of the four kinds that can be and
/// its samples can be read. What is loaded has the rate of the file, the speed
/// that goes with it, and the samples of a mono file of integers as they are, of
/// a stereo file of integers the means of the frames, of a floating point file
/// the conversions of its samples or of the means of its frames.
pub proof fn law_loaded_is_the_file<F: FnOnce(&[u8]) -> Result<Vec<u32>, String>>(
    bytes: &[u8],
    channels: u16,
    rate: u32,
    bits: u16,
    float: bool,
    read_float: F,
    r: Result<(u32, Vec<i16>, u16), String>,
)
    requires
        wav_header(bytes@) == Ok::<(u16, u32, u16, bool), Seq<char>>((channels, rate, bits, float)),
        wav_loaded(bytes, read_float, r),
    ensures
        r matches Ok(l) ==> {
            &&& l.0 == rate
            &&& rate > 31250 ==> l.2 == 16384
            &&& rate <= 31250 ==> (16384 * rate) / 31250 <= l.2 && 31250 * l.2 <= 16384 * rate + 256
            &&& channels == 1 || channels == 2
            &&& bits == (if float {
                32u16
            } else {
                16u16
            })
        },
        !float && bits == 16 && channels == 1 ==> match wav_samples(bytes@) {
            Ok(s) => r matches Ok(l) && l.1@ == s,
            Err(_) => r is Err,
        },
        !float && bits == 16 && channels == 2 ==> match wav_samples(bytes@) {
            Ok(s) => {
                &&& r matches Ok(l)
                &&& 2 * l.1@.len() <= s.len() < 2 * l.1@.len() + 2
                &&& forall|i: int|
                    0 <= i < l.1@.len() ==> {
                        let twice = 2 * #[trigger] l.1@[i];
                        let sum = s[2 * i] + s[2 * i + 1];
                        &&& -1 <= sum - twice <= 1
                        &&& sum >= 0 ==> 0 <= twice <= sum
                        &&& sum <= 0 ==> sum <= twice <= 0
                    }
            },
            Err(_) => r is Err,
        },
        float && bits == 32 && (channels == 1 || channels == 2) ==> exists|
            given: Result<Vec<u32>, String>,
        |
            #[trigger] call_ensures(read_float, (bytes,), given) && match given {
                Ok(v) => {
                    &&& r matches Ok(l)
                    &&& channels == 1 ==> l.1@.len() == v@.len() && forall|i: int|
                        0 <= i < v@.len() ==> #[trigger] l.1@[i] == converted(v@[i])
                    &&& channels == 2 ==> 2 * l.1@.len() <= v@.len() < 2 * l.1@.len() + 2
                        && forall|i: int|
                        0 <= i < l.1@.len() ==> #[trigger] l.1@[i] == mean_converted(
                            v@[2 * i],
                            v@[2 * i + 1],
                        )
                },
                Err(_) => r is Err,
            },
        !(channels == 1 || channels == 2) || bits != (if float {
            32u16
        } else {
            16u16
        }) ==> r is Err,
{
    law_speed_of_file(rate as nat);
    if !float && bits == 16 && channels == 2 {
        if let Ok(s) = wav_samples(bytes@) {
            law_frames_are_averaged(s);
        }
    }
}

/// A file whose header cannot be read is not loaded.
pub proof fn law_no_header_no_file<F: FnOnce(&[u8]) -> Result<Vec<u32>, String>>(
    bytes: &[u8],
    read_float: F,
    r: Result<(u32, Vec<i16>, u16), String>,
)
    requires
        wav_header(bytes@) is Err,
        wav_loaded(bytes, read_float, r),
    ensures
        r is Err,
{
}

/// The content of kept audio has its samples, its rate and its speed.
pub proof fn law_content_of_audio(audio: OriginalSample)
    ensures
        audio@.samples == audio.samples@,
        audio@.original_sample_rate == audio.original_sample_rate,
        audio@.current_speed == audio.current_speed,
{
}

/// Resampling that succeeded is paired with its speed; its error is passed on.
pub proof fn law_resampling_is_passed_on(
    resampled: Result<Vec<i16>, String>,
    speed: nat,
    r: Result<(Vec<i16>, u16), String>,
)
    requires
        resample_outcome(resampled, speed, r),
    ensures
        resampled matches Ok(v) ==> (r matches Ok(pair) && pair.0@ == v@ && pair.1 == speed),
        resampled matches Err(e) ==> (r matches Err(text) && text@.len() >= e@.len() && text@.skip(
            text@.len() - e@.len(),
        ) == e@),
{
    if let Err(e) = resampled {
        if let Err(text) = r {
            assert(text@.skip(text@.len() - e@.len()) =~= e@);
        }
    }
}

/// A file can be loaded exactly if it has one or two channels of 16-bit integers
/// or of 32-bit floating point numbers; its layout tells which.
pub proof fn law_layouts(format: WavFormat)
    ensures
        layout_of(format) is Some <==> (format.channels == 1 || format.channels == 2)
            && format.bits_per_sample == (if format.float {
            32u16
        } else {
            16u16
        }),
        layout_of(format) matches Some(layout) ==> {
            &&& (layout == WavLayout::FloatMono || layout == WavLayout::FloatStereo)
                == format.float
            &&& (layout == WavLayout::IntStereo || layout == WavLayout::FloatStereo) == (
            format.channels == 2)
        },
{
}

/// A playback that has run out has completed; before that it goes on as long as
/// nobody asked for a stop and somebody still could.
pub proof fn law_playback_runs_until_stopped(
    output_empty: bool,
    signal: StopSignal,
    r: PlaybackStep,
)
    requires
        call_ensures(playback_step, (output_empty, signal), r),
    ensures
        r == PlaybackStep::Completed <==> output_empty,
        r == PlaybackStep::Continue <==> !output_empty && signal == StopSignal::Empty,
{
}

} // verus!
