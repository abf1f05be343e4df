//! Uploading a WAV file: it is loaded into a slot and written to the device.

use crate::audio::{
    load_wav_file, resample_audio, resampled_by, wav_loaded, VOLCA_SAMPLERATE,
};
use crate::effects::{acts, Act, Effect};
use crate::loading::{
    can_load_wav, display_name, law_load_is_into_the_slot, load_acts, name_of_file, Loaded,
};
use crate::state::{AppState, Content, TOTAL_SLOTS};
use crate::text::{signed_decimal, signed_text};
use vstd::prelude::*;
use vstd::string::*;

verus! {

/// The upload button: lets the user choose a file, if there is such a slot.
pub fn upload_clicked(slot: i32) -> (r: Vec<Effect>)
    ensures
        acts(r@) == ({
            let said = seq![
                Act::Log("Upload to slot "@ + signed_decimal(slot as int) + " clicked"@),
            ];
            if 0 <= slot < TOTAL_SLOTS {
                said.push(Act::ChooseUpload(slot as int))
            } else {
                said
            }
        }),
{
    let mut fx: Vec<Effect> = Vec::new();
    let text: String = "Upload to slot ".to_owned().concat(signed_text(slot).as_str()).concat(
        " clicked",
    );
    let ghost said = text@;
    fx.push(Effect::Log(text));
    assert(acts(fx@) =~= seq![Act::Log(said)]);
    if can_load_wav(slot) {
        fx.push(Effect::ChooseUpload(slot));
        assert(acts(fx@) =~= seq![Act::Log(said), Act::ChooseUpload(slot as int)]);
    }
    fx
}

/// The state and what is done, given what resampling came to: a file that was
/// loaded is written to the device as the save button would.
pub open spec fn upload_outcome(
    before: Content,
    slot: i32,
    name: Seq<char>,
    loaded: Loaded,
    resampled: Result<Vec<i16>, String>,
    after: Content,
    done: Seq<Act>,
) -> bool {
    match resampled {
        Ok(samples) => {
            &&& after == before.after_load(slot, name, loaded, samples@)
            &&& done == load_acts(name, loaded, samples@) + after.save_acts(slot as int)
        },
        Err(e) => {
            &&& after == before
            &&& done == seq![Act::Log("Failed to resample WAV: "@ + e@)]
        },
    }
}

impl AppState {
    /// Puts a file that was read into a slot and writes it to the device, given
    /// what resampling it for the device came to.
    pub fn upload_resampled(
        &mut self,
        slot: i32,
        name: String,
        rate: u32,
        samples: Vec<i16>,
        speed: u16,
        resampled: Result<Vec<i16>, String>,
    ) -> (r: Vec<Effect>)
        requires
            old(self)@.wf(),
            0 <= slot < TOTAL_SLOTS,
        ensures
            final(self)@.wf(),
            upload_outcome(
                old(self)@,
                slot,
                name@,
                (Loaded { rate, samples: samples@, speed }),
                resampled,
                final(self)@,
                acts(r@),
            ),
    {
        let succeeded: bool = resampled.is_ok();
        let mut fx: Vec<Effect> = self.wav_resampled(slot, name, rate, samples, speed, resampled);
        if succeeded {
            let ghost loaded = fx@;
            let mut more: Vec<Effect> = self.save_to_device_clicked(slot);
            let ghost saved = more@;
            fx.append(&mut more);
            assert(acts(fx@) =~= acts(loaded) + acts(saved));
        }
        fx
    }

    /// Uploads the bytes of a WAV file to a slot. `read_float` is asked for the
    /// bits of the samples of a floating point file, `resampler` where the file has not the
    /// rate of the device.
    pub fn upload_chosen<
        F: FnOnce(&[u8]) -> Result<Vec<u32>, String>,
        G: FnOnce(&[i16], u32, u32) -> Result<Vec<i16>, String>,
    >(
        &mut self,
        slot: i32,
        stem: Option<&str>,
        bytes: &[u8],
        read_float: F,
        resampler: G,
    ) -> (r: Vec<Effect>)
        requires
            old(self)@.wf(),
            0 <= slot < TOTAL_SLOTS,
            call_requires(read_float, (bytes,)),
            forall|samples: &[i16], from_rate: u32| #[trigger]
                call_requires(resampler, (samples, from_rate, VOLCA_SAMPLERATE)),
        ensures
            final(self)@.wf(),
            exists|loaded: Result<(u32, Vec<i16>, u16), String>| #[trigger]
                wav_loaded(bytes, read_float, loaded) && match loaded {
                    Err(e) => final(self)@ == old(self)@ && acts(r@) == seq![
                        Act::Log("Failed to load WAV: "@ + e@),
                    ],
                    Ok(l) => exists|resampled: Result<Vec<i16>, String>| #[trigger]
                        resampled_by(l.1@, l.0, VOLCA_SAMPLERATE, resampler, resampled)
                            && upload_outcome(
                            old(self)@,
                            slot,
                            display_name(
                                match stem {
                                    Some(stem) => Some(stem@),
                                    None => None,
                                },
                            ),
                            (Loaded { rate: l.0, samples: l.1@, speed: l.2 }),
                            resampled,
                            final(self)@,
                            acts(r@),
                        ),
                },
    {
        let loaded: Result<(u32, Vec<i16>, u16), String> = load_wav_file(bytes, read_float);
        let ghost result = loaded;
        match loaded {
            Err(e) => {
                let mut fx: Vec<Effect> = Vec::new();
                fx.push(Effect::Log("Failed to load WAV: ".to_owned().concat(e.as_str())));
                assert(acts(fx@) =~= seq![Act::Log("Failed to load WAV: "@ + e@)]);
                assert(wav_loaded(bytes, read_float, result));
                fx
            },
            Ok((rate, samples, speed)) => {
                let name: String = name_of_file(stem);
                let resampled: Result<Vec<i16>, String> = resample_audio(
                    samples.as_slice(),
                    rate,
                    VOLCA_SAMPLERATE,
                    resampler,
                );
                assert(wav_loaded(bytes, read_float, result));
                assert(resampled_by(samples@, rate, VOLCA_SAMPLERATE, resampler, resampled));
                self.upload_resampled(slot, name, rate, samples, speed, resampled)
            },
        }
    }
}

/// A file that was uploaded is in its slot and goes to the device under its
/// name.
pub proof fn law_uploaded_is_written(
    before: Content,
    slot: i32,
    name: Seq<char>,
    loaded: Loaded,
    resampled: Vec<i16>,
    after: Content,
    done: Seq<Act>,
)
    requires
        before.wf(),
        0 <= slot < TOTAL_SLOTS,
        upload_outcome(before, slot, name, loaded, Ok(resampled), after, done),
    ensures
        after.has_sample(slot as int),
        after.downloaded[slot as u8] == loaded.audio(),
        done.last() == (Act::SaveSample { slot: slot as u8, name }),
{
}

/// An upload writes the file to its own slot under its name exactly if it could
/// be resampled; else the state stays as it is and nothing is written.
pub proof fn law_upload_only_if_resampled(
    before: Content,
    slot: i32,
    name: Seq<char>,
    loaded: Loaded,
    resampled: Result<Vec<i16>, String>,
    after: Content,
    done: Seq<Act>,
    k: u8,
    n: Seq<char>,
)
    requires
        before.wf(),
        0 <= slot < 200,
        upload_outcome(before, slot, name, loaded, resampled, after, done),
    ensures
        done.contains(Act::SaveSample { slot: k, name: n }) <==> resampled is Ok && k == slot && n
            == name,
        resampled matches Ok(v) ==> {
            &&& after.downloaded[slot as u8].samples == loaded.samples
            &&& after.downloaded[slot as u8].original_sample_rate == loaded.rate
            &&& after.rows[slot as int].has_sample
            &&& after.rows[slot as int].name == name
        },
        resampled is Err ==> after == before && done.len() == 1 && (done[0] is Log),
{
    if let Ok(v) = resampled {
        law_load_is_into_the_slot(before, slot, name, loaded, v@, 0);
        assert(done[7] == Act::SaveSample { slot: slot as u8, name });
    }
}

} // verus!
