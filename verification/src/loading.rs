//! Loading a WAV file into a slot.

use crate::audio::{
    load_wav_file, resample_audio, resampled_by, wav_loaded, OriginalContent, OriginalSample,
    VOLCA_SAMPLERATE,
};
use crate::effects::{acts, Act, Effect};
use crate::state::{AppState, Content, Row, SampleInfo, TOTAL_SLOTS};
use vstd::prelude::*;
use vstd::string::*;
use vstd::utf8::{encode_scalar, encode_utf8};

verus! {

/// The longest name of a sample, in characters.
pub const MAX_NAME_LENGTH: usize = 24;

/// The name under which a file is shown, by the stem of its file name.
pub open spec fn display_name(stem: Option<Seq<char>>) -> Seq<char> {
    let name = match stem {
        Some(stem) => stem,
        None => "Untitled"@,
    };
    if name.len() > MAX_NAME_LENGTH {
        name.take(MAX_NAME_LENGTH as int)
    } else {
        name
    }
}

/// Computes [`display_name`].
pub fn name_of_file(stem: Option<&str>) -> (r: String)
    ensures
        r@ == display_name(
            match stem {
                Some(stem) => Some(stem@),
                None => None,
            },
        ),
{
    let name: &str = match stem {
        Some(stem) => stem,
        None => "Untitled",
    };
    proof {
        lemma_no_more_chars_than_bytes(name@);
    }
    if name.as_bytes().len() > MAX_NAME_LENGTH && name.unicode_len() > MAX_NAME_LENGTH {
        let cut: &str = name.substring_char(0, MAX_NAME_LENGTH);
        assert(cut@ =~= name@.take(MAX_NAME_LENGTH as int));
        cut.to_owned()
    } else {
        name.to_owned()
    }
}

/// Whether a WAV file can be loaded with a slot selected.
pub fn can_load_wav(selected: i32) -> (r: bool)
    ensures
        r == (0 <= selected < TOTAL_SLOTS),
{
    !(selected < 0 || selected >= TOTAL_SLOTS as i32)
}

/// What is done when the bytes of a chosen file could not be read.
pub fn wav_unreadable(e: &str) -> (r: Vec<Effect>)
    ensures
        acts(r@) == seq![Act::Log("Failed to load WAV: Failed to open WAV: "@ + e@)],
{
    let mut fx: Vec<Effect> = Vec::new();
    fx.push(Effect::Log("Failed to load WAV: Failed to open WAV: ".to_owned().concat(e)));
    assert(acts(fx@) =~= seq![Act::Log("Failed to load WAV: Failed to open WAV: "@ + e@)]);
    fx
}

/// A WAV file that was read: its sample rate, its samples at that rate, and the
/// speed that goes with it.
pub struct Loaded {
    pub rate: u32,
    pub samples: Seq<i16>,
    pub speed: u16,
}

impl Loaded {
    /// The audio data that is kept of the file.
    pub open spec fn audio(self) -> OriginalContent {
        OriginalContent {
            samples: self.samples,
            original_sample_rate: self.rate,
            current_speed: self.speed,
        }
    }
}

impl Content {
    /// The state after a file was loaded and resampled for the device.
    pub open spec fn after_load(
        self,
        slot: i32,
        name: Seq<char>,
        loaded: Loaded,
        resampled: Seq<i16>,
    ) -> Content {
        self.with_audio(slot as u8, loaded.audio()).with_row(
            slot as int,
            Row {
                slot,
                name,
                length: resampled.len() as i32,
                speed: loaded.speed as i32,
                has_sample: true,
                name_edited: true,
            },
        )
    }
}

/// What is done after a file was loaded and resampled for the device.
pub open spec fn load_acts(name: Seq<char>, loaded: Loaded, resampled: Seq<i16>) -> Seq<Act> {
    seq![
        Act::SetSelectedName(name),
        Act::SetSelectedLength(resampled.len() as i32 as int),
        Act::ShowWaveform(resampled),
        Act::ShowSamples,
        Act::LogLoaded {
            name,
            sample_count: loaded.samples.len(),
            rate: loaded.rate,
            speed: loaded.speed,
        },
    ]
}

/// The state and what is done, given what resampling came to.
pub open spec fn load_outcome(
    before: Content,
    slot: i32,
    name: Seq<char>,
    loaded: Loaded,
    resampled: Result<Vec<i16>, String>,
    after: Content,
    done: Seq<Act>,
) -> bool {
    match resampled {
        Ok(samples) => {
            &&& after == before.after_load(slot, name, loaded, samples@)
            &&& done == load_acts(name, loaded, samples@)
        },
        Err(e) => {
            &&& after == before
            &&& done == seq![Act::Log("Failed to resample WAV: "@ + e@)]
        },
    }
}

impl AppState {
    /// Puts a file that was read into a slot, given what resampling it for the
    /// device came to.
    pub fn wav_resampled(
        &mut self,
        slot: i32,
        name: String,
        rate: u32,
        samples: Vec<i16>,
        speed: u16,
        resampled: Result<Vec<i16>, String>,
    ) -> (r: Vec<Effect>)
        requires
            0 <= slot < TOTAL_SLOTS,
        ensures
            load_outcome(
                old(self)@,
                slot,
                name@,
                (Loaded { rate, samples: samples@, speed }),
                resampled,
                final(self)@,
                acts(r@),
            ),
    {
        let mut fx: Vec<Effect> = Vec::new();
        let resampled: Vec<i16> = match resampled {
            Ok(resampled) => resampled,
            Err(e) => {
                fx.push(Effect::Log("Failed to resample WAV: ".to_owned().concat(e.as_str())));
                assert(acts(fx@) =~= seq![Act::Log("Failed to resample WAV: "@ + e@)]);
                return fx;
            },
        };
        let ghost loaded = Loaded { rate, samples: samples@, speed };
        let sample_count: usize = samples.len();
        let length: i32 = #[verifier::truncate] (resampled.len() as i32);
        self.keep_audio(
            slot as u8,
            OriginalSample { samples, original_sample_rate: rate, current_speed: speed },
        );
        let info = SampleInfo {
            slot,
            name: name.clone(),
            length,
            speed: speed as i32,
            has_sample: true,
            name_edited: true,
        };
        self.set_row(slot as usize, info);
        fx.push(Effect::SetSelectedName(name.clone()));
        fx.push(Effect::SetSelectedLength(length));
        fx.push(Effect::ShowWaveform(resampled));
        fx.push(Effect::ShowSamples);
        fx.push(Effect::LogLoaded { name, sample_count, rate, speed });
        assert(acts(fx@) =~= load_acts(name@, loaded, resampled@));
        fx
    }

    /// Loads the bytes of a WAV file into a slot. `read_float` is asked for the
    /// bits of the samples of a floating point file, `resampler` where the file has not the
    /// rate of the device.
    pub fn wav_chosen<
        F: FnOnce(&[u8]) -> Result<Vec<u32>, String>,
        G: FnOnce(&[i16], u32, u32) -> Result<Vec<i16>, String>,
    >(
        &mut self,
        slot: i32,
        stem: Option<&str>,
        bytes: &[u8],
        read_float: F,
        resampler: G,
    ) -> (r: Vec<Effect>)
        requires
            0 <= slot < TOTAL_SLOTS,
            call_requires(read_float, (bytes,)),
            forall|samples: &[i16], from_rate: u32| #[trigger]
                call_requires(resampler, (samples, from_rate, VOLCA_SAMPLERATE)),
        ensures
            exists|loaded: Result<(u32, Vec<i16>, u16), String>| #[trigger]
                wav_loaded(bytes, read_float, loaded) && match loaded {
                    Err(e) => final(self)@ == old(self)@ && acts(r@) == seq![
                        Act::Log("Failed to load WAV: "@ + e@),
                    ],
                    Ok(l) => exists|resampled: Result<Vec<i16>, String>| #[trigger]
                        resampled_by(l.1@, l.0, VOLCA_SAMPLERATE, resampler, resampled)
                            && load_outcome(
                            old(self)@,
                            slot,
                            display_name(
                                match stem {
                                    Some(stem) => Some(stem@),
                                    None => None,
                                },
                            ),
                            (Loaded { rate: l.0, samples: l.1@, speed: l.2 }),
                            resampled,
                            final(self)@,
                            acts(r@),
                        ),
                },
    {
        let loaded: Result<(u32, Vec<i16>, u16), String> = load_wav_file(bytes, read_float);
        let ghost result = loaded;
        match loaded {
            Err(e) => {
                let mut fx: Vec<Effect> = Vec::new();
                fx.push(Effect::Log("Failed to load WAV: ".to_owned().concat(e.as_str())));
                assert(acts(fx@) =~= seq![Act::Log("Failed to load WAV: "@ + e@)]);
                assert(wav_loaded(bytes, read_float, result));
                fx
            },
            Ok((rate, samples, speed)) => {
                let name: String = name_of_file(stem);
                let resampled: Result<Vec<i16>, String> = resample_audio(
                    samples.as_slice(),
                    rate,
                    VOLCA_SAMPLERATE,
                    resampler,
                );
                assert(wav_loaded(bytes, read_float, result));
                assert(resampled_by(samples@, rate, VOLCA_SAMPLERATE, resampler, resampled));
                self.wav_resampled(slot, name, rate, samples, speed, resampled)
            },
        }
    }
}

proof fn lemma_no_more_chars_than_bytes(text: Seq<char>)
    ensures
        text.len() <= encode_utf8(text).len(),
    decreases text.len(),
{
    if text.len() > 0 {
        vstd::utf8::char_is_scalar(text[0]);
        assert(encode_scalar(text[0] as u32).len() >= 1);
        lemma_no_more_chars_than_bytes(text.drop_first());
    }
}

/// A file is shown under a name of no more than [`MAX_NAME_LENGTH`]
/// characters, which is the beginning of its own name; one that fits is kept.
pub proof fn law_name_is_short(stem: Seq<char>)
    ensures
        display_name(Some(stem)).len() <= MAX_NAME_LENGTH,
        display_name(Some(stem)).is_prefix_of(stem),
        stem.len() <= MAX_NAME_LENGTH ==> display_name(Some(stem)) == stem,
{
}

/// A file that was loaded into a slot is there: the slot has a sample under the
/// file's name, marked as not saved, and can be played with the file's own
/// samples at the speed that goes with them. No other row and no other audio
/// data changes.
pub proof fn law_loaded_is_playable(
    before: Content,
    slot: i32,
    name: Seq<char>,
    loaded: Loaded,
    resampled: Seq<i16>,
    other: int,
)
    requires
        before.wf(),
        0 <= slot < TOTAL_SLOTS,
        0 <= other < TOTAL_SLOTS,
        other != slot,
    ensures
        ({
            let after = before.after_load(slot, name, loaded, resampled);
            &&& after.wf()
            &&& after.playable(slot as int)
            &&& after.rows[slot as int].name == name
            &&& after.rows[slot as int].name_edited
            &&& after.play_acts(slot as int).last() == (Act::StartPlayback {
                samples: loaded.samples,
                speed: loaded.speed,
            })
            &&& after.rows[other] == before.rows[other]
            &&& after.playable(other) == before.playable(other)
            &&& after.play_acts(other) == before.play_acts(other)
        }),
{
    let after = before.after_load(slot, name, loaded, resampled);
    assert(after.downloaded.dom().contains(slot as u8));
    assert(other as u8 != slot as u8);
}

/// A name that is too long is cut to exactly the longest that is shown; a file
/// without a name is shown as untitled.
pub proof fn law_name_is_cut(stem: Seq<char>)
    ensures
        stem.len() > 24 ==> display_name(Some(stem)) == stem.take(24),
        stem.len() <= 24 ==> display_name(Some(stem)) == stem,
        display_name(None) == "Untitled"@,
{
    reveal_strlit("Untitled");
}

/// Loading keeps the samples, the rate and the speed of the file itself for the
/// slot, and no other data changes; the row of the slot gets the name, the length
/// after resampling and the speed, and the marks of a sample that is not saved.
pub proof fn law_load_is_into_the_slot(
    before: Content,
    slot: i32,
    name: Seq<char>,
    loaded: Loaded,
    resampled: Seq<i16>,
    other: int,
)
    requires
        before.wf(),
        0 <= slot < 200,
        0 <= other < 200,
    ensures
        ({
            let after = before.after_load(slot, name, loaded, resampled);
            let audio = after.downloaded[slot as u8];
            let row = after.rows[slot as int];
            &&& after.rows.len() == 200
            &&& after.downloaded.dom().contains(slot as u8)
            &&& audio.samples == loaded.samples
            &&& audio.original_sample_rate == loaded.rate
            &&& audio.current_speed == loaded.speed
            &&& row.slot == slot
            &&& row.name == name
            &&& resampled.len() <= i32::MAX ==> row.length == resampled.len()
            &&& row.speed == loaded.speed
            &&& row.has_sample
            &&& row.name_edited
            &&& other != slot ==> after.rows[other] == before.rows[other]
            &&& other != slot ==> after.downloaded.dom().contains(other as u8)
                == before.downloaded.dom().contains(other as u8)
            &&& other != slot ==> after.downloaded[other as u8] == before.downloaded[other as u8]
            &&& after == (Content { rows: after.rows, downloaded: after.downloaded, ..before })
        }),
{
    assert(other != slot ==> other as u8 != slot as u8);
}

/// What is shown of a file that was loaded: its name, the length and the waveform
/// of what was resampled; and it is said how many samples the file has and at
/// what rate and speed.
pub proof fn law_load_is_shown(
    name: Seq<char>,
    loaded: Loaded,
    resampled: Seq<i16>,
    n: Seq<char>,
    length: int,
    samples: Seq<i16>,
    count: nat,
    rate: u32,
    speed: u16,
)
    ensures
        ({
            let done = load_acts(name, loaded, resampled);
            &&& done.contains(Act::SetSelectedName(n)) <==> n == name
            &&& resampled.len() <= i32::MAX ==> (done.contains(Act::SetSelectedLength(length))
                <==> length == resampled.len())
            &&& done.contains(Act::ShowWaveform(samples)) <==> samples == resampled
            &&& done.contains(Act::ShowSamples)
            &&& done.contains(Act::LogLoaded { name: n, sample_count: count, rate, speed }) <==> n
                == name && count == loaded.samples.len() && rate == loaded.rate && speed
                == loaded.speed
        }),
{
    let done = load_acts(name, loaded, resampled);
    assert(done[0] == Act::SetSelectedName(name));
    assert(done[1] == Act::SetSelectedLength(resampled.len() as i32 as int));
    assert(done[2] == Act::ShowWaveform(resampled));
    assert(done[3] == Act::ShowSamples);
    assert(done[4] == (Act::LogLoaded {
        name,
        sample_count: loaded.samples.len(),
        rate: loaded.rate,
        speed: loaded.speed,
    }));
}

/// A file goes into the slot exactly if it could be resampled; else the state
/// stays as it is, and nothing is done but to say why.
pub proof fn law_load_only_if_resampled(
    before: Content,
    slot: i32,
    name: Seq<char>,
    loaded: Loaded,
    resampled: Result<Vec<i16>, String>,
    after: Content,
    done: Seq<Act>,
)
    requires
        before.wf(),
        0 <= slot < 200,
        load_outcome(before, slot, name, loaded, resampled, after, done),
    ensures
        resampled matches Ok(v) ==> {
            &&& after.downloaded[slot as u8].samples == loaded.samples
            &&& after.rows[slot as int].has_sample
            &&& v@.len() <= i32::MAX ==> after.rows[slot as int].length == v@.len()
            &&& done.contains(Act::ShowWaveform(v@))
        },
        resampled is Err ==> after == before && done.len() == 1 && (done[0] is Log),
{
    if let Ok(v) = resampled {
        law_load_is_into_the_slot(before, slot, name, loaded, v@, 0);
        law_load_is_shown(name, loaded, v@, name, 0, v@, 0, 0, 0);
    }
}

} // verus!
