//! Fetching a sample from the device.

use crate::audio::{copy_samples, OriginalContent, OriginalSample, VOLCA_SAMPLERATE};
use crate::callbacks::NO_SLOT;
use crate::effects::{acts, Act, Effect};
use crate::proto::{DataContent, HeaderContent, SampleData, SampleHeader};
use crate::state::{AppState, Content, TOTAL_SLOTS};
use vstd::prelude::*;

verus! {

/// Shows that no slot is being worked on any more.
pub fn clear_loading_slot() -> (r: Vec<Effect>)
    ensures
        acts(r@) == seq![Act::SetLoadingSlot(NO_SLOT as int)],
{
    let mut fx: Vec<Effect> = Vec::new();
    fx.push(Effect::SetLoadingSlot(NO_SLOT));
    assert(acts(fx@) =~= seq![Act::SetLoadingSlot(NO_SLOT as int)]);
    fx
}

/// What is shown of a sample that was fetched; its name and length too if they
/// are to be refreshed.
pub open spec fn downloaded_acts(
    slot: int,
    waveform: Seq<i16>,
    header_speed: u16,
    refreshed: Option<(Seq<char>, u32)>,
) -> Seq<Act> {
    (match refreshed {
        Some((name, length)) => seq![
            Act::UpdateFromDevice {
                slot,
                name,
                length: length as i32,
                speed: header_speed as i32,
            },
        ],
        None => Seq::empty(),
    }) + seq![Act::ShowWaveform(waveform), Act::SetLoadingSlot(NO_SLOT as int)]
}

/// The content of the name and length of a sample.
pub open spec fn info_content(info: Option<(String, u32)>) -> Option<(Seq<char>, u32)> {
    match info {
        Some((name, length)) => Some((name@, length)),
        None => None,
    }
}

/// Update UI after downloading a sample from the device.
pub fn update_ui_after_download(
    slot: i32,
    waveform_data: Vec<i16>,
    header_speed: u16,
    update_sample_info: Option<(String, u32)>,
) -> (r: Vec<Effect>)
    ensures
        acts(r@) == downloaded_acts(
            slot as int,
            waveform_data@,
            header_speed,
            info_content(update_sample_info),
        ),
{
    let ghost refreshed = info_content(update_sample_info);
    let mut fx: Vec<Effect> = Vec::new();
    if let Some((name, length)) = update_sample_info {
        fx.push(
            Effect::UpdateFromDevice {
                slot,
                name,
                length: #[verifier::truncate] (length as i32),
                speed: header_speed as i32,
            },
        );
    }
    fx.push(Effect::ShowWaveform(waveform_data));
    fx.push(Effect::SetLoadingSlot(NO_SLOT));
    assert(acts(fx@) =~= downloaded_acts(slot as int, waveform_data@, header_speed, refreshed));
    fx
}

/// A download that waits for the header of the sample.
#[derive(Clone, Copy, Debug, PartialEq, Eq, Structural)]
pub struct HeaderWanted {
    pub slot: u8,
    /// The row of the slot is to be refreshed as well.
    pub refresh: bool,
}

/// A download that has the header and waits for the audio data.
#[derive(Debug)]
pub struct DataWanted {
    pub slot: u8,
    pub refresh: bool,
    pub header: SampleHeader,
}

/// Begins a download. Without a device there is nothing to do but to say that
/// the slot is no longer worked on.
pub fn begin_download(slot: u8, refresh: bool, device_present: bool) -> (r: Result<
    HeaderWanted,
    Vec<Effect>,
>)
    ensures
        match r {
            Ok(wanted) => device_present && wanted == (HeaderWanted { slot, refresh }),
            Err(fx) => !device_present && acts(fx@) == seq![Act::SetLoadingSlot(NO_SLOT as int)],
        },
{
    if device_present {
        Ok(HeaderWanted { slot, refresh })
    } else {
        Err(clear_loading_slot())
    }
}

impl HeaderWanted {
    /// The device has answered the request for the header, or failed to.
    pub fn header_received(self, reply: Result<SampleHeader, String>) -> (r: Result<
        DataWanted,
        Vec<Effect>,
    >)
        ensures
            match reply {
                Ok(header) => r == Ok::<DataWanted, Vec<Effect>>(
                    DataWanted { slot: self.slot, refresh: self.refresh, header },
                ),
                Err(_) => r matches Err(fx) && acts(fx@) == seq![
                    Act::SetLoadingSlot(NO_SLOT as int),
                ],
            },
    {
        match reply {
            Ok(header) => Ok(DataWanted { slot: self.slot, refresh: self.refresh, header }),
            Err(_) => Err(clear_loading_slot()),
        }
    }
}

/// The audio data that is kept of a sample that was fetched.
pub open spec fn fetched_audio(header: HeaderContent, data: DataContent) -> OriginalContent {
    OriginalContent {
        samples: data.data,
        original_sample_rate: VOLCA_SAMPLERATE,
        current_speed: header.speed,
    }
}

impl AppState {
    /// The device has sent the audio data, or failed to.
    pub fn data_received(&mut self, wanted: DataWanted, reply: Result<SampleData, String>) -> (r:
        Vec<Effect>)
        ensures
            match reply {
                Ok(data) => {
                    &&& final(self)@ == old(self)@.with_audio(
                        wanted.slot,
                        fetched_audio(wanted.header@, data@),
                    )
                    &&& acts(r@) == downloaded_acts(
                        wanted.slot as int,
                        data.data@,
                        wanted.header.speed,
                        if wanted.refresh {
                            Some((wanted.header.name@, wanted.header.length))
                        } else {
                            None
                        },
                    )
                },
                Err(_) => {
                    &&& final(self)@ == old(self)@
                    &&& acts(r@) == seq![Act::SetLoadingSlot(NO_SLOT as int)]
                },
            },
    {
        match reply {
            Ok(data) => {
                let speed: u16 = wanted.header.speed;
                let shown: Vec<i16> = copy_samples(data.data.as_slice());
                let audio = OriginalSample {
                    samples: data.data,
                    original_sample_rate: VOLCA_SAMPLERATE,
                    current_speed: speed,
                };
                self.keep_audio(wanted.slot, audio);
                let refreshed: Option<(String, u32)> = if wanted.refresh {
                    Some((wanted.header.name, wanted.header.length))
                } else {
                    None
                };
                update_ui_after_download(wanted.slot as i32, shown, speed, refreshed)
            },
            Err(_) => clear_loading_slot(),
        }
    }
}

/// A sample that was fetched is there to be played, with the data that came and
/// at the speed that the device gave. No row changes by that, and no other audio
/// data.
pub proof fn law_downloaded_is_playable(
    before: Content,
    slot: u8,
    header: HeaderContent,
    data: DataContent,
    other: int,
)
    requires
        before.wf(),
        before.has_sample(slot as int),
        0 <= other < TOTAL_SLOTS,
        other != slot,
    ensures
        ({
            let after = before.with_audio(slot, fetched_audio(header, data));
            &&& after.wf()
            &&& after.rows == before.rows
            &&& after.playable(slot as int)
            &&& after.play_acts(slot as int).last() == (Act::StartPlayback {
                samples: data.data,
                speed: header.speed,
            })
            &&& after.playable(other) == before.playable(other)
            &&& after.play_acts(other) == before.play_acts(other)
        }),
{
    assert(other as u8 != slot);
}

/// Once a sample was fetched, selecting its slot shows it and fetches nothing.
pub proof fn law_fetched_only_once(
    before: Content,
    slot: u8,
    header: HeaderContent,
    data: DataContent,
    refresh: bool,
)
    requires
        before.wf(),
        before.has_sample(slot as int),
    ensures
        ({
            let after = before.with_audio(slot, fetched_audio(header, data));
            let done = after.select_acts(slot as int);
            &&& done.contains(Act::ShowWaveform(data.data))
            &&& !done.contains(Act::Download { slot, refresh })
        }),
{
    let after = before.with_audio(slot, fetched_audio(header, data));
    let done = after.select_acts(slot as int);
    assert(done[done.len() - 2] == Act::ShowWaveform(data.data));
}

/// What is kept of a sample that was fetched: all of the data, at the rate of the
/// device and at the speed that the device gave.
pub proof fn law_fetched_is_kept(header: HeaderContent, data: DataContent)
    ensures
        fetched_audio(header, data).samples == data.data,
        fetched_audio(header, data).original_sample_rate == 31250,
        fetched_audio(header, data).current_speed == header.speed,
{
}

/// After a download exactly the data that came is drawn, no slot is shown as
/// being worked on, and a row is brought up to date exactly if that was asked
/// for: that of the slot, with the name, length and speed that the device gave.
pub proof fn law_download_is_shown(
    slot: int,
    waveform: Seq<i16>,
    speed: u16,
    refreshed: Option<(Seq<char>, u32)>,
    samples: Seq<i16>,
    s: int,
    name: Seq<char>,
    length: i32,
    v: i32,
)
    ensures
        ({
            let done = downloaded_acts(slot, waveform, speed, refreshed);
            &&& done.contains(Act::ShowWaveform(samples)) <==> samples == waveform
            &&& done.contains(Act::SetLoadingSlot(s)) <==> s == -1
            &&& done.last() == Act::SetLoadingSlot(-1)
            &&& done.contains(Act::UpdateFromDevice { slot: s, name, length, speed: v }) ==> {
                &&& refreshed matches Some((n, l))
                &&& s == slot
                &&& name == n
                &&& l <= i32::MAX ==> length == l
                &&& v == speed
            }
            &&& refreshed matches Some((n, l)) ==> done.contains(
                Act::UpdateFromDevice { slot, name: n, length: l as i32, speed: speed as i32 },
            )
        }),
{
    let done = downloaded_acts(slot, waveform, speed, refreshed);
    let n = done.len();
    assert(done[n - 1] == Act::SetLoadingSlot(-1));
    assert(done[n - 2] == Act::ShowWaveform(waveform));
    if let Some((m, l)) = refreshed {
        assert(done[0] == (Act::UpdateFromDevice {
            slot,
            name: m,
            length: l as i32,
            speed: speed as i32,
        }));
    }
}

/// The name and the length that are brought up to date are those given.
pub proof fn law_info_is_kept(info: Option<(String, u32)>)
    ensures
        info matches Some((name, length)) ==> info_content(info) == Some((name@, length)),
        info is None ==> info_content(info) is None,
{
}

} // verus!
