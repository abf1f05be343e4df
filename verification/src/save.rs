//! Writing a sample to the device: its header, then its audio data, each of
//! which the device has to acknowledge.

use crate::audio::{
    law_device_rate_is_unity, law_resampled_plays_at_the_rate, resampled_to, OriginalContent, OriginalSample, UNITY_SPEED,
    VOLCA_SAMPLERATE,
};
use crate::callbacks::NO_SLOT;
use crate::download::clear_loading_slot;
use crate::effects::{acts, Act, Effect};
use crate::proto::{DataContent, HeaderContent, SampleData, SampleHeader};
use crate::state::{AppState, Content};
use crate::text::{signed_decimal, signed_text};
use vstd::prelude::*;
use vstd::string::*;

verus! {

/// How long the device may take to acknowledge, in milliseconds.
pub const STATUS_TIMEOUT_MS: u64 = 500;

/// The level of every sample that is written.
pub const FULL_LEVEL: u16 = 65535;

/// How far the writing of a sample has come.
#[derive(Clone, Copy, Debug, PartialEq, Eq, Structural)]
pub enum SaveStage {
    /// The header is to be sent.
    SendHeader,
    /// The header was sent; the device is to acknowledge it.
    AwaitHeaderStatus,
    /// The audio data is to be sent.
    SendData,
    /// The audio data was sent; the device is to acknowledge it.
    AwaitDataStatus,
    /// The sample was written.
    Saved,
    /// The sample was not written.
    Failed,
}

/// Why a step of the writing failed, with the text of the error.
#[derive(Debug)]
pub enum SaveFailure {
    /// A message could not be sent.
    NotSent(String),
    /// The device refused what was sent.
    Refused(String),
    /// The device did not answer in time, or not properly.
    NoStatus(String),
}

/// What is to be written of a sample.
#[derive(Debug)]
pub struct PreparedSave {
    pub header: SampleHeader,
    pub data: SampleData,
}

/// A sample on its way to the device.
#[derive(Debug)]
pub struct SaveTransfer {
    pub header: SampleHeader,
    pub data: SampleData,
    pub stage: SaveStage,
}

/// The stage after a step that succeeded, or did not.
pub open spec fn next_stage(stage: SaveStage, succeeded: bool) -> SaveStage {
    match stage {
        SaveStage::Saved => SaveStage::Saved,
        SaveStage::Failed => SaveStage::Failed,
        _ if !succeeded => SaveStage::Failed,
        SaveStage::SendHeader => SaveStage::AwaitHeaderStatus,
        SaveStage::AwaitHeaderStatus => SaveStage::SendData,
        SaveStage::SendData => SaveStage::AwaitDataStatus,
        SaveStage::AwaitDataStatus => SaveStage::Saved,
    }
}

/// What is said of a failure at a stage.
pub open spec fn failure_text(stage: SaveStage, failure: SaveFailure) -> Seq<char> {
    let part = match stage {
        SaveStage::SendHeader | SaveStage::AwaitHeaderStatus => "header"@,
        _ => "data"@,
    };
    match failure {
        SaveFailure::NotSent(e) => "Failed to send "@ + part + ": "@ + e@,
        SaveFailure::Refused(e) => "Device NAK after "@ + part + ": "@ + e@,
        SaveFailure::NoStatus(e) => "Failed to receive ACK after "@ + part + ": "@ + e@,
    }
}

/// Says what failed at a stage.
pub fn describe_failure(stage: SaveStage, failure: SaveFailure) -> (r: String)
    ensures
        r@ == failure_text(stage, failure),
{
    let part: &str = match stage {
        SaveStage::SendHeader => "header",
        SaveStage::AwaitHeaderStatus => "header",
        _ => "data",
    };
    let (said, e): (&str, String) = match failure {
        SaveFailure::NotSent(e) => ("Failed to send ", e),
        SaveFailure::Refused(e) => ("Device NAK after ", e),
        SaveFailure::NoStatus(e) => ("Failed to receive ACK after ", e),
    };
    said.to_owned().concat(part).concat(": ").concat(e.as_str())
}

impl SaveTransfer {
    /// Takes up what the current step came to. Returns what is to be said of a
    /// failure.
    pub fn advance(&mut self, outcome: Result<(), SaveFailure>) -> (r: Option<String>)
        ensures
            final(self).header == old(self).header,
            final(self).data == old(self).data,
            final(self).stage == next_stage(old(self).stage, outcome is Ok),
            match outcome {
                Ok(_) => r is None,
                Err(failure) => r matches Some(text) && text@ == failure_text(
                    old(self).stage,
                    failure,
                ),
            },
    {
        let stage: SaveStage = self.stage;
        match outcome {
            Ok(_) => {
                self.stage = match stage {
                    SaveStage::SendHeader => SaveStage::AwaitHeaderStatus,
                    SaveStage::AwaitHeaderStatus => SaveStage::SendData,
                    SaveStage::SendData => SaveStage::AwaitDataStatus,
                    SaveStage::AwaitDataStatus => SaveStage::Saved,
                    SaveStage::Saved => SaveStage::Saved,
                    SaveStage::Failed => SaveStage::Failed,
                };
                None
            },
            Err(failure) => {
                if stage != SaveStage::Saved {
                    self.stage = SaveStage::Failed;
                }
                Some(describe_failure(stage, failure))
            },
        }
    }

    /// What is done when the writing has ended: a name that was saved is no
    /// longer marked as edited.
    pub fn finish(&self) -> (r: Vec<Effect>)
        ensures
            acts(r@) == finished_acts(self.header.sample_no as int, self.stage),
    {
        if self.stage == SaveStage::Saved {
            let mut fx: Vec<Effect> = Vec::new();
            fx.push(Effect::ClearNameEdited(self.header.sample_no as i32));
            fx.push(Effect::SetLoadingSlot(NO_SLOT));
            assert(acts(fx@) =~= finished_acts(self.header.sample_no as int, self.stage));
            fx
        } else {
            clear_loading_slot()
        }
    }
}

/// What is done when the writing has ended at a stage.
pub open spec fn finished_acts(slot: int, stage: SaveStage) -> Seq<Act> {
    if stage == SaveStage::Saved {
        seq![Act::ClearNameEdited(slot), Act::SetLoadingSlot(NO_SLOT as int)]
    } else {
        seq![Act::SetLoadingSlot(NO_SLOT as int)]
    }
}

/// The header that is written with some audio data.
pub open spec fn saved_header(slot: u8, name: Seq<char>, samples: Seq<i16>, speed: u16) ->
    HeaderContent {
    HeaderContent {
        sample_no: slot,
        name,
        length: samples.len() as u32,
        level: FULL_LEVEL,
        speed,
    }
}

/// `r` is what is to be written, or why there is nothing, given what resampling
/// for the device came to.
pub open spec fn save_prepared(
    slot: u8,
    name: Seq<char>,
    resampled: Result<(Vec<i16>, u16), String>,
    r: Result<PreparedSave, String>,
) -> bool {
    match resampled {
        Err(e) => r matches Err(text) && text@ == "Resampling for save failed: "@ + e@,
        Ok((samples, speed)) => r matches Ok(prepared) && prepared.header@ == saved_header(
            slot,
            name,
            samples@,
            speed,
        ) && prepared.data@ == (DataContent { sample_no: slot, data: samples@ }),
    }
}

/// Makes up what is written of a sample, given what resampling it for the
/// device came to.
pub fn prepare_save(
    slot: u8,
    name: String,
    resampled: Result<(Vec<i16>, u16), String>,
) -> (r: Result<PreparedSave, String>)
    ensures
        save_prepared(slot, name@, resampled, r),
{
    let (samples, speed): (Vec<i16>, u16) = match resampled {
        Ok(pair) => pair,
        Err(e) => {
            return Err("Resampling for save failed: ".to_owned().concat(e.as_str()));
        },
    };
    let header = SampleHeader {
        sample_no: slot,
        name,
        length: #[verifier::truncate] (samples.len() as u32),
        level: FULL_LEVEL,
        speed,
    };
    Ok(PreparedSave { header, data: SampleData { sample_no: slot, data: samples } })
}

/// Begins to write a sample, of which `audio` is kept, under a name. The audio
/// data is resampled for the device first; `resampler` is asked only where it has
/// another rate.
pub fn begin_save<F: FnOnce(&[i16], u32, u32) -> Result<Vec<i16>, String>>(
    audio: Option<&OriginalSample>,
    slot: u8,
    name: String,
    resampler: F,
) -> (r: Result<PreparedSave, String>)
    requires
        forall|samples: &[i16], from_rate: u32| #[trigger]
            call_requires(resampler, (samples, from_rate, VOLCA_SAMPLERATE)),
    ensures
        match audio {
            None => r matches Err(text) && text@
                == "Sample not downloaded. Download first before saving."@,
            Some(audio) => exists|resampled: Result<(Vec<i16>, u16), String>| #[trigger]
                resampled_to(audio@, VOLCA_SAMPLERATE, resampler, resampled) && save_prepared(
                    slot,
                    name@,
                    resampled,
                    r,
                ),
        },
{
    match audio {
        Some(audio) => {
            let resampled: Result<(Vec<i16>, u16), String> = audio.resample_to(
                VOLCA_SAMPLERATE,
                resampler,
            );
            assert(resampled_to(audio@, VOLCA_SAMPLERATE, resampler, resampled));
            prepare_save(slot, name, resampled)
        },
        None => Err("Sample not downloaded. Download first before saving.".to_owned()),
    }
}

impl PreparedSave {
    /// The transfer to begin with, if there is a device.
    pub fn start(self, device_present: bool) -> (r: Result<SaveTransfer, String>)
        ensures
            device_present ==> r == Ok::<SaveTransfer, String>(
                SaveTransfer {
                    header: self.header,
                    data: self.data,
                    stage: SaveStage::SendHeader,
                },
            ),
            !device_present ==> (r matches Err(text) && text@ == "Device not connected"@),
    {
        if device_present {
            Ok(
                SaveTransfer {
                    header: self.header,
                    data: self.data,
                    stage: SaveStage::SendHeader,
                },
            )
        } else {
            Err("Device not connected".to_owned())
        }
    }
}

impl Content {
    /// What the save button of a slot does.
    pub open spec fn save_acts(self, slot: int) -> Seq<Act> {
        if self.has_sample(slot) {
            let name = self.rows[slot].name;
            seq![
                Act::SetLoadingSlot(slot),
                Act::Log(
                    "Saving sample info for slot "@ + signed_decimal(slot) + ": \""@ + name
                        + "\"..."@,
                ),
                Act::SaveSample { slot: slot as u8, name },
            ]
        } else {
            seq![Act::Log("Cannot save slot "@ + signed_decimal(slot) + ": no sample exists"@)]
        }
    }
}

impl AppState {
    /// The save button.
    pub fn save_to_device_clicked(&self, slot: i32) -> (r: Vec<Effect>)
        requires
            self@.wf(),
        ensures
            acts(r@) == self@.save_acts(slot as int),
    {
        let mut fx: Vec<Effect> = Vec::new();
        match self.existing_sample(slot) {
            Some(sample) => {
                fx.push(Effect::SetLoadingSlot(slot));
                fx.push(
                    Effect::Log(
                        "Saving sample info for slot ".to_owned().concat(
                            signed_text(slot).as_str(),
                        ).concat(": \"").concat(sample.name.as_str()).concat("\"..."),
                    ),
                );
                fx.push(Effect::SaveSample { slot: slot as u8, name: sample.name });
            },
            None => {
                fx.push(
                    Effect::Log(
                        "Cannot save slot ".to_owned().concat(signed_text(slot).as_str()).concat(
                            ": no sample exists",
                        ),
                    ),
                );
            },
        }
        assert(acts(fx@) =~= self@.save_acts(slot as int));
        fx
    }
}

/// The stage after some steps, each of which succeeded or did not.
pub open spec fn after_steps(stage: SaveStage, steps: Seq<bool>) -> SaveStage
    decreases steps.len(),
{
    if steps.len() == 0 {
        stage
    } else {
        next_stage(after_steps(stage, steps.drop_last()), steps.last())
    }
}

/// All of the first `n` steps succeeded.
pub open spec fn all_succeeded(steps: Seq<bool>, n: int) -> bool {
    forall|i: int| 0 <= i < n ==> #[trigger] steps[i]
}

/// A sample counts as saved if and only if all four steps succeeded: the header
/// was sent and acknowledged, then the audio data was sent and acknowledged. The
/// audio data is never sent before the header was acknowledged. Once a step
/// failed, nothing more is sent.
pub proof fn law_saved_only_when_acknowledged(steps: Seq<bool>)
    ensures
        ({
            let stage = after_steps(SaveStage::SendHeader, steps);
            &&& stage == SaveStage::Saved <==> steps.len() >= 4 && all_succeeded(steps, 4)
            &&& stage == SaveStage::SendData <==> steps.len() == 2 && all_succeeded(steps, 2)
            &&& stage == SaveStage::AwaitDataStatus <==> steps.len() == 3 && all_succeeded(steps, 3)
            &&& stage == SaveStage::AwaitHeaderStatus <==> steps.len() == 1 && all_succeeded(
                steps,
                1,
            )
            &&& stage == SaveStage::SendHeader <==> steps.len() == 0
        }),
    decreases steps.len(),
{
    if steps.len() > 0 {
        let front = steps.drop_last();
        law_saved_only_when_acknowledged(front);
        assert forall|n: int| 0 <= n <= front.len() implies all_succeeded(front, n)
            == all_succeeded(steps, n) by {
            assert(forall|i: int| 0 <= i < n ==> front[i] == steps[i]);
            if all_succeeded(front, n) {
                assert forall|i: int| 0 <= i < n implies #[trigger] steps[i] by {
                    assert(front[i]);
                }
            }
            if all_succeeded(steps, n) {
                assert forall|i: int| 0 <= i < n implies #[trigger] front[i] by {
                    assert(steps[i]);
                }
            }
        }
        let n = steps.len() as int;
        assert(steps.last() == steps[n - 1]);
        assert(all_succeeded(steps, n) == (all_succeeded(steps, n - 1) && steps[n - 1])) by {
            if all_succeeded(steps, n - 1) && steps[n - 1] {
                assert forall|i: int| 0 <= i < n implies #[trigger] steps[i] by {
                    if i < n - 1 {
                        assert(steps[i]);
                    }
                }
            }
            if all_succeeded(steps, n) {
                assert(steps[n - 1]);
            }
        }
    }
}

/// Writing that has ended, well or badly, stays as it ended.
pub proof fn law_ended_stays_ended(stage: SaveStage, steps: Seq<bool>)
    requires
        stage == SaveStage::Saved || stage == SaveStage::Failed,
    ensures
        after_steps(stage, steps) == stage,
    decreases steps.len(),
{
    if steps.len() > 0 {
        law_ended_stays_ended(stage, steps.drop_last());
    }
}

/// Entering a name marks the row as edited and changes nothing else of it;
/// saving it takes the mark away and keeps the name.
pub proof fn law_edit_then_save(state: Content, slot: int, name: Seq<char>)
    requires
        state.has_slot(slot),
    ensures
        ({
            let edited = state.after_name_edit(slot, name);
            let saved = edited.after_name_saved(slot);
            &&& edited.rows[slot].name_edited
            &&& edited.rows[slot].name == name
            &&& !saved.rows[slot].name_edited
            &&& saved.rows[slot].name == name
            &&& saved.rows[slot].has_sample == state.rows[slot].has_sample
            &&& saved.rows[slot].length == state.rows[slot].length
            &&& saved.rows[slot].speed == state.rows[slot].speed
            &&& forall|other: int|
                0 <= other < state.rows.len() && other != slot ==> saved.rows[other]
                    == state.rows[other]
            &&& edited.save_acts(slot).last() == (if state.rows[slot].has_sample {
                Act::SaveSample { slot: slot as u8, name }
            } else {
                Act::Log("Cannot save slot "@ + signed_decimal(slot) + ": no sample exists"@)
            })
        }),
{
}

/// The header that is written describes the audio data that is written: the same
/// slot, and the number of samples, up to what a header can hold.
pub proof fn law_header_describes_data(
    slot: u8,
    name: Seq<char>,
    resampled: Result<(Vec<i16>, u16), String>,
    r: Result<PreparedSave, String>,
)
    requires
        save_prepared(slot, name, resampled, r),
    ensures
        r matches Ok(prepared) ==> {
            &&& prepared.header@.sample_no == prepared.data@.sample_no == slot
            &&& prepared.header@.name == name
            &&& prepared.data@.data.len() <= u32::MAX ==> prepared.header@.length
                == prepared.data@.data.len()
        },
{
}

/// A sample that came from the device goes back as it came: with its samples,
/// at unity speed and full level, whatever a resampler would do.
pub proof fn law_device_samples_are_not_resampled<
    F: FnOnce(&[i16], u32, u32) -> Result<Vec<i16>, String>,
>(
    audio: OriginalContent,
    slot: u8,
    name: Seq<char>,
    resampler: F,
    resampled: Result<(Vec<i16>, u16), String>,
    r: Result<PreparedSave, String>,
)
    requires
        audio.original_sample_rate == VOLCA_SAMPLERATE,
        resampled_to(audio, VOLCA_SAMPLERATE, resampler, resampled),
        save_prepared(slot, name, resampled, r),
    ensures
        r matches Ok(prepared) && prepared.data@.data == audio.samples && prepared.header@
            == saved_header(slot, name, audio.samples, UNITY_SPEED),
{
    law_device_rate_is_unity();
}

/// The save button writes exactly the sample of its slot, under the name in its
/// row, if there is one, and shows that slot as being worked on; else it writes
/// nothing.
pub proof fn law_save_is_of_the_slot(state: Content, slot: int, k: u8, name: Seq<char>, s: int)
    requires
        state.wf(),
    ensures
        ({
            let present = 0 <= slot < 200 && state.rows[slot].has_sample;
            let done = state.save_acts(slot);
            &&& done.contains(Act::SaveSample { slot: k, name }) <==> present && k == slot && name
                == state.rows[slot].name
            &&& done.contains(Act::SetLoadingSlot(s)) <==> present && s == slot
        }),
{
    let done = state.save_acts(slot);
    if state.has_sample(slot) {
        assert(done[0] == Act::SetLoadingSlot(slot));
        assert(done[2] == Act::SaveSample { slot: slot as u8, name: state.rows[slot].name });
    }
}

/// What is written of a sample is its audio at the rate of the device: the kept
/// samples themselves if that is their rate, else what the resampler makes of
/// them from their own rate. The header gives the slot, the name, the number of
/// samples as far as it can hold it, full level, and unity speed, at which the
/// device plays them as long as they are. If the resampler fails, nothing is
/// written.
pub proof fn law_written_audio_has_the_device_rate<
    F: FnOnce(&[i16], u32, u32) -> Result<Vec<i16>, String>,
>(
    audio: OriginalContent,
    slot: u8,
    name: Seq<char>,
    resampler: F,
    resampled: Result<(Vec<i16>, u16), String>,
    r: Result<PreparedSave, String>,
)
    requires
        resampled_to(audio, VOLCA_SAMPLERATE, resampler, resampled),
        save_prepared(slot, name, resampled, r),
    ensures
        r matches Ok(prepared) ==> {
            &&& prepared.header@.sample_no == slot
            &&& prepared.data@.sample_no == slot
            &&& prepared.header@.name == name
            &&& prepared.header@.level == 65535
            &&& prepared.header@.speed == 16384
            &&& prepared.data@.data.len() <= u32::MAX ==> prepared.header@.length
                == prepared.data@.data.len()
        },
        audio.original_sample_rate == 31250 ==> (r matches Ok(prepared) && prepared.data@.data
            == audio.samples),
        audio.original_sample_rate != 31250 ==> exists|
            input: &[i16],
            given: Result<Vec<i16>, String>,
        |
            input@ == audio.samples && #[trigger] call_ensures(
                resampler,
                (input, audio.original_sample_rate, 31250u32),
                given,
            ) && match given {
                Ok(v) => r matches Ok(prepared) && prepared.data@.data == v@,
                Err(_) => r is Err,
            },
{
    law_resampled_plays_at_the_rate(audio, VOLCA_SAMPLERATE, resampler, resampled);
}

/// When the writing has ended no slot is shown as being worked on; the mark of an
/// edited name goes exactly if the sample was saved, and only from its own slot.
pub proof fn law_mark_goes_when_saved(slot: int, stage: SaveStage, s: int)
    ensures
        finished_acts(slot, stage).contains(Act::ClearNameEdited(s)) <==> stage == SaveStage::Saved
            && s == slot,
        finished_acts(slot, stage).contains(Act::SetLoadingSlot(s)) <==> s == -1,
{
    let done = finished_acts(slot, stage);
    assert(done.last() == Act::SetLoadingSlot(-1));
    if stage == SaveStage::Saved {
        assert(done[0] == Act::ClearNameEdited(slot));
    }
}

/// What is said of a failure ends with its reason.
pub proof fn law_reason_is_said(stage: SaveStage, failure: SaveFailure)
    ensures
        ({
            let reason = match failure {
                SaveFailure::NotSent(e) => e@,
                SaveFailure::Refused(e) => e@,
                SaveFailure::NoStatus(e) => e@,
            };
            let text = failure_text(stage, failure);
            &&& text.len() >= reason.len()
            &&& text.skip(text.len() - reason.len()) == reason
        }),
{
    let reason = match failure {
        SaveFailure::NotSent(e) => e@,
        SaveFailure::Refused(e) => e@,
        SaveFailure::NoStatus(e) => e@,
    };
    let text = failure_text(stage, failure);
    assert(text.skip(text.len() - reason.len()) =~= reason);
}

} // verus!
