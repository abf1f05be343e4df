//! Deleting a sample. To the device a slot is empty when its header has length
//! zero.

use crate::audio::UNITY_SPEED;
use crate::effects::{acts, Act, Effect};
use crate::proto::{HeaderContent, SampleHeader};
use crate::save::{describe_failure, failure_text, SaveFailure, SaveStage, FULL_LEVEL};
use crate::scan::{counted, scanned_row};
use crate::state::{empty_row, AppState, Content, SampleInfo, TOTAL_SLOTS};
use crate::text::{
    decimal, decimal_text, law_occurs, occurs, signed_decimal, signed_text,
};
use vstd::prelude::*;
use vstd::string::*;

verus! {

impl Content {
    /// The state after the device has emptied a slot.
    pub open spec fn after_delete(self, slot: int) -> Content {
        if self.has_sample(slot) {
            self.with_row(slot, empty_row(slot as i32)).without_audio(slot as u8)
        } else {
            self
        }
    }

    /// What the delete button of a slot does.
    pub open spec fn delete_acts(self, slot: int) -> Seq<Act> {
        if self.has_sample(slot) {
            seq![
                Act::Log("Delete slot "@ + signed_decimal(slot) + ": "@ + self.rows[slot].name),
                Act::DeleteSample(slot as u8),
            ]
        } else {
            Seq::empty()
        }
    }
}

impl AppState {
    /// The delete button: asks the device to empty the slot. Nothing changes
    /// before it has done so. Does nothing if there is no sample.
    pub fn delete_clicked(&self, slot: i32) -> (r: Vec<Effect>)
        requires
            self@.wf(),
        ensures
            acts(r@) == self@.delete_acts(slot as int),
    {
        let mut fx: Vec<Effect> = Vec::new();
        if let Some(sample) = self.existing_sample(slot) {
            fx.push(
                Effect::Log(
                    "Delete slot ".to_owned().concat(signed_text(slot).as_str()).concat(
                        ": ",
                    ).concat(sample.name.as_str()),
                ),
            );
            fx.push(Effect::DeleteSample(slot as u8));
        }
        assert(acts(fx@) =~= self@.delete_acts(slot as int));
        fx
    }

    /// The device has emptied a slot, or failed to. Only if it has, the row is
    /// emptied and the audio data forgotten.
    pub fn delete_finished(&mut self, slot: u8, outcome: Result<(), SaveFailure>) -> (r: Vec<
        Effect,
    >)
        requires
            old(self)@.wf(),
        ensures
            final(self)@.wf(),
            match outcome {
                Ok(_) => {
                    &&& final(self)@ == old(self)@.after_delete(slot as int)
                    &&& acts(r@) == seq![Act::ShowSamples]
                },
                Err(failure) => {
                    &&& final(self)@ == old(self)@
                    &&& acts(r@) == seq![Act::Log(deletion_failure(slot, failure))]
                },
            },
    {
        let mut fx: Vec<Effect> = Vec::new();
        match outcome {
            Ok(_) => {
                if self.existing_sample(slot as i32).is_some() {
                    let info = SampleInfo {
                        slot: slot as i32,
                        name: String::new(),
                        length: 0,
                        speed: 0,
                        has_sample: false,
                        name_edited: false,
                    };
                    assert(info@ =~= empty_row(slot as i32));
                    self.set_row(slot as usize, info);
                    self.forget_audio(slot);
                }
                fx.push(Effect::ShowSamples);
                assert(acts(fx@) =~= seq![Act::ShowSamples]);
            },
            Err(failure) => {
                let ghost text = deletion_failure(slot, failure);
                fx.push(
                    Effect::Log(
                        "Failed to delete slot ".to_owned().concat(
                            decimal_text(slot as u64).as_str(),
                        ).concat(": ").concat(
                            describe_failure(SaveStage::SendHeader, failure).as_str(),
                        ),
                    ),
                );
                assert(acts(fx@) =~= seq![Act::Log(text)]);
            },
        }
        fx
    }
}

/// What is said when a slot could not be emptied.
pub open spec fn deletion_failure(slot: u8, failure: SaveFailure) -> Seq<char> {
    "Failed to delete slot "@ + decimal(slot as nat) + ": "@ + failure_text(
        SaveStage::SendHeader,
        failure,
    )
}

/// The header of an empty slot.
pub open spec fn empty_header(slot: u8) -> HeaderContent {
    HeaderContent {
        sample_no: slot,
        name: ""@,
        length: 0,
        level: FULL_LEVEL,
        speed: UNITY_SPEED,
    }
}

/// Begins to empty a slot of the device: the header by which it is told. Without
/// a device there is nobody to tell.
pub fn begin_delete(slot: u8, device_present: bool) -> (r: Result<SampleHeader, SaveFailure>)
    ensures
        match r {
            Ok(header) => device_present && header@ == empty_header(slot),
            Err(failure) => !device_present && (failure matches SaveFailure::NotSent(e) && e@
                == "Device not connected"@),
        },
{
    if !device_present {
        return Err(SaveFailure::NotSent("Device not connected".to_owned()));
    }
    Ok(
        SampleHeader {
            sample_no: slot,
            name: "".to_owned(),
            length: 0,
            level: FULL_LEVEL,
            speed: UNITY_SPEED,
        },
    )
}

/// Deleting asks the device to empty the slot exactly when there is a sample.
pub proof fn law_delete_asks_the_device(state: Content, slot: int)
    requires
        state.wf(),
    ensures
        state.has_sample(slot) <==> state.delete_acts(slot).contains(
            Act::DeleteSample(slot as u8),
        ),
{
    if state.has_sample(slot) {
        assert(state.delete_acts(slot)[1] == Act::DeleteSample(slot as u8));
    }
}

/// After the device has emptied a slot, it is empty and cannot be played or saved,
/// and deleting once more does nothing. No other slot changes, nor its audio
/// data, nor anything else.
pub proof fn law_deleted_is_gone(state: Content, slot: int, other: int)
    requires
        state.wf(),
        state.has_sample(slot),
        0 <= other < TOTAL_SLOTS,
        other != slot,
    ensures
        ({
            let after = state.after_delete(slot);
            &&& after.wf()
            &&& !after.has_sample(slot)
            &&& !after.playable(slot)
            &&& !after.downloaded.dom().contains(slot as u8)
            &&& after.after_delete(slot) == after
            &&& after.delete_acts(slot) == Seq::<Act>::empty()
            &&& after.rows[other] == state.rows[other]
            &&& after.downloaded.dom().contains(other as u8) == state.downloaded.dom().contains(
                other as u8,
            )
            &&& state.downloaded.dom().contains(other as u8) ==> after.downloaded[other as u8]
                == state.downloaded[other as u8]
            &&& after == (Content {
                rows: after.rows,
                downloaded: after.downloaded,
                ..state
            })
        }),
{
    assert(other as u8 != slot as u8);
}

/// Deleting a slot that has no sample changes nothing and does nothing.
pub proof fn law_nothing_to_delete(state: Content, slot: int)
    requires
        !state.has_sample(slot),
    ensures
        state.after_delete(slot) == state,
        state.delete_acts(slot) == Seq::<Act>::empty(),
{
}

/// A device that took over the header of a deletion scans as empty there: what
/// it answers with leaves the slot without a sample, and is not counted.
pub proof fn law_deleted_scans_as_empty(slot: u8)
    ensures
        !scanned_row(slot as int, Some(empty_header(slot))).has_sample,
        counted(Some(empty_header(slot))) == 0,
{
}

/// The delete button asks the device to empty exactly the slot whose button it
/// is, if it has a sample; else nothing.
pub proof fn law_delete_is_of_the_slot(state: Content, slot: int, k: u8)
    requires
        state.wf(),
    ensures
        state.delete_acts(slot).contains(Act::DeleteSample(k)) <==> 0 <= slot < 200
            && state.rows[slot].has_sample && k == slot,
{
    if state.has_sample(slot) {
        assert(state.delete_acts(slot)[1] == Act::DeleteSample(slot as u8));
    }
}

/// Of all slots, exactly the one that the device has emptied loses its sample and
/// its audio data.
pub proof fn law_only_the_slot_is_emptied(state: Content, slot: int, other: int)
    requires
        state.wf(),
        0 <= slot < 200,
        0 <= other < 200,
    ensures
        ({
            let after = state.after_delete(slot);
            &&& after.rows.len() == 200
            &&& after.rows[other].has_sample == (state.rows[other].has_sample && other != slot)
            &&& other != slot ==> after.rows[other] == state.rows[other]
            &&& state.rows[slot].has_sample ==> (after.downloaded.dom().contains(other as u8)
                == (state.downloaded.dom().contains(other as u8) && other != slot))
            &&& !state.rows[slot].has_sample ==> after == state
            &&& other == slot && state.rows[slot].has_sample ==> {
                &&& after.rows[other].slot == other
                &&& after.rows[other].name.len() == 0
                &&& after.rows[other].length == 0
                &&& !after.rows[other].name_edited
            }
        }),
{
    assert(other != slot ==> other as u8 != slot as u8);
}

/// The device is told of an empty slot by a header of that slot with length
/// zero.
pub proof fn law_empty_header(slot: u8)
    ensures
        empty_header(slot).sample_no == slot,
        empty_header(slot).length == 0,
{
}

/// What is said of a deletion that failed names the slot and ends with what
/// failed.
pub proof fn law_failed_deletion_is_said(slot: u8, failure: SaveFailure)
    ensures
        ({
            let text = deletion_failure(slot, failure);
            let reason = failure_text(SaveStage::SendHeader, failure);
            &&& occurs(decimal(slot as nat), text)
            &&& text.len() >= reason.len()
            &&& text.skip(text.len() - reason.len()) == reason
        }),
{
    let text = deletion_failure(slot, failure);
    let reason = failure_text(SaveStage::SendHeader, failure);
    let tail = ": "@ + reason;
    law_occurs(decimal(slot as nat), "Failed to delete slot "@, tail, text);
    assert("Failed to delete slot "@ + decimal(slot as nat) + tail =~= text);
    assert(text.skip(text.len() - reason.len()) =~= reason);
}

} // verus!
