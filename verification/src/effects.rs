//! What the application does to the display and to the outside world, as plain
//! values in the order in which it is to be done.

use crate::state::PlaybackInfo;
use vstd::prelude::*;

verus! {

/// One thing to do.
#[allow(inconsistent_fields)]
#[derive(Debug)]
pub enum Effect {
    /// Write a message to the log.
    Log(String),
    /// Write to the log which sample is played and for how long.
    LogPlaying { name: String, sample_count: usize, rate: u32 },
    /// Write to the log which file was loaded, its length and its rate.
    LogLoaded { name: String, sample_count: usize, rate: u32, speed: u16 },
    /// Show whether the device is connected.
    SetConnected(bool),
    /// Let go of the device.
    CloseDevice,
    /// Try to connect to the device, on the user's behalf or by itself.
    OpenDevice { automatic: bool },
    /// Scan all slots of the device.
    ScanSamples,
    /// Show whether a scan is under way.
    SetScanning(bool),
    /// Hand the rows of all slots to the display.
    ShowSamples,
    /// Hand the lines of the log to the display.
    ShowLogs,
    /// Show a text as the log.
    SetLogText(String),
    /// Show that a slot is being worked on; none if negative.
    SetLoadingSlot(i32),
    /// Tell the running playback to stop.
    SendStop,
    /// Show whether a sample is played.
    SetPlaying(bool),
    /// Put the playback position back to the start.
    ResetPosition,
    /// Show how far a playback has come in the time since it began.
    SetPosition { elapsed_ns: u64, info: PlaybackInfo },
    /// Go to a page of slots.
    SetPage(i32),
    /// Select a slot.
    SetSelectedSlot(i32),
    /// Show the name of the selected sample.
    SetSelectedName(String),
    /// Show the length of the selected sample.
    SetSelectedLength(i32),
    /// Draw the waveform of these samples.
    ShowWaveform(Vec<i16>),
    /// Remove the waveform.
    ClearWaveform,
    /// Put zoom and scroll position of the waveform back.
    ResetZoom,
    /// Fetch a sample from the device.
    Download { slot: u8, refresh: bool },
    /// Play samples at a speed.
    StartPlayback { samples: Vec<i16>, speed: u16 },
    /// Write a sample to the device under a name.
    SaveSample { slot: u8, name: String },
    /// Let the user choose a WAV file to upload to a slot.
    ChooseUpload(i32),
    /// Tell the device that a slot is empty.
    DeleteSample(u8),
    /// Put what the device says about a sample into its row.
    UpdateFromDevice { slot: i32, name: String, length: i32, speed: i32 },
    /// Note that the name of a sample was saved.
    ClearNameEdited(i32),
}

/// The content of an [`Effect`].
#[allow(inconsistent_fields)]
pub enum Act {
    Log(Seq<char>),
    LogPlaying { name: Seq<char>, sample_count: nat, rate: u32 },
    LogLoaded { name: Seq<char>, sample_count: nat, rate: u32, speed: u16 },
    SetConnected(bool),
    CloseDevice,
    OpenDevice { automatic: bool },
    ScanSamples,
    SetScanning(bool),
    ShowSamples,
    ShowLogs,
    SetLogText(Seq<char>),
    SetLoadingSlot(int),
    SendStop,
    SetPlaying(bool),
    ResetPosition,
    SetPosition { elapsed_ns: u64, info: PlaybackInfo },
    SetPage(int),
    SetSelectedSlot(int),
    SetSelectedName(Seq<char>),
    SetSelectedLength(int),
    ShowWaveform(Seq<i16>),
    ClearWaveform,
    ResetZoom,
    Download { slot: u8, refresh: bool },
    StartPlayback { samples: Seq<i16>, speed: u16 },
    SaveSample { slot: u8, name: Seq<char> },
    ChooseUpload(int),
    DeleteSample(u8),
    UpdateFromDevice { slot: int, name: Seq<char>, length: i32, speed: i32 },
    ClearNameEdited(int),
}

impl View for Effect {
    type V = Act;

    open spec fn view(&self) -> Act {
        match *self {
            Effect::Log(message) => Act::Log(message@),
            Effect::LogPlaying { name, sample_count, rate } => Act::LogPlaying {
                name: name@,
                sample_count: sample_count as nat,
                rate,
            },
            Effect::LogLoaded { name, sample_count, rate, speed } => Act::LogLoaded {
                name: name@,
                sample_count: sample_count as nat,
                rate,
                speed,
            },
            Effect::SetConnected(on) => Act::SetConnected(on),
            Effect::CloseDevice => Act::CloseDevice,
            Effect::OpenDevice { automatic } => Act::OpenDevice { automatic },
            Effect::ScanSamples => Act::ScanSamples,
            Effect::SetScanning(on) => Act::SetScanning(on),
            Effect::ShowSamples => Act::ShowSamples,
            Effect::ShowLogs => Act::ShowLogs,
            Effect::SetLogText(text) => Act::SetLogText(text@),
            Effect::SetLoadingSlot(slot) => Act::SetLoadingSlot(slot as int),
            Effect::SendStop => Act::SendStop,
            Effect::SetPlaying(on) => Act::SetPlaying(on),
            Effect::ResetPosition => Act::ResetPosition,
            Effect::SetPosition { elapsed_ns, info } => Act::SetPosition { elapsed_ns, info },
            Effect::SetPage(page) => Act::SetPage(page as int),
            Effect::SetSelectedSlot(slot) => Act::SetSelectedSlot(slot as int),
            Effect::SetSelectedName(name) => Act::SetSelectedName(name@),
            Effect::SetSelectedLength(length) => Act::SetSelectedLength(length as int),
            Effect::ShowWaveform(samples) => Act::ShowWaveform(samples@),
            Effect::ClearWaveform => Act::ClearWaveform,
            Effect::ResetZoom => Act::ResetZoom,
            Effect::Download { slot, refresh } => Act::Download { slot, refresh },
            Effect::StartPlayback { samples, speed } => Act::StartPlayback {
                samples: samples@,
                speed,
            },
            Effect::SaveSample { slot, name } => Act::SaveSample { slot, name: name@ },
            Effect::ChooseUpload(slot) => Act::ChooseUpload(slot as int),
            Effect::DeleteSample(slot) => Act::DeleteSample(slot),
            Effect::UpdateFromDevice { slot, name, length, speed } => Act::UpdateFromDevice {
                slot: slot as int,
                name: name@,
                length,
                speed,
            },
            Effect::ClearNameEdited(slot) => Act::ClearNameEdited(slot as int),
        }
    }
}

/// The contents of some effects.
pub open spec fn acts(effects: Seq<Effect>) -> Seq<Act> {
    effects.map_values(|e: Effect| e@)
}

/// The contents of effects are those of each, in order.
pub proof fn law_contents_in_order(effects: Seq<Effect>, i: int)
    requires
        0 <= i < effects.len(),
    ensures
        acts(effects).len() == effects.len(),
        acts(effects)[i] == effects[i]@,
{
}

/// The content of an effect is what the effect holds.
pub proof fn law_content_of_effect(effect: Effect)
    ensures
        match effect@ {
            Act::Log(m) => effect matches Effect::Log(x) && x@ == m,
            Act::LogPlaying { name, sample_count, rate } => effect matches Effect::LogPlaying {
                name: n,
                sample_count: c,
                rate: r,
            } && n@ == name && c == sample_count && r == rate,
            Act::LogLoaded { name, sample_count, rate, speed } => effect matches Effect::LogLoaded {
                name: n,
                sample_count: c,
                rate: r,
                speed: s,
            } && n@ == name && c == sample_count && r == rate && s == speed,
            Act::SetConnected(on) => effect == Effect::SetConnected(on),
            Act::CloseDevice => effect is CloseDevice,
            Act::OpenDevice { automatic } => effect == (Effect::OpenDevice { automatic }),
            Act::ScanSamples => effect is ScanSamples,
            Act::SetScanning(on) => effect == Effect::SetScanning(on),
            Act::ShowSamples => effect is ShowSamples,
            Act::ShowLogs => effect is ShowLogs,
            Act::SetLogText(t) => effect matches Effect::SetLogText(x) && x@ == t,
            Act::SetLoadingSlot(s) => effect matches Effect::SetLoadingSlot(x) && x == s,
            Act::SendStop => effect is SendStop,
            Act::SetPlaying(on) => effect == Effect::SetPlaying(on),
            Act::ResetPosition => effect is ResetPosition,
            Act::SetPosition { elapsed_ns, info } => effect == (Effect::SetPosition {
                elapsed_ns,
                info,
            }),
            Act::SetPage(p) => effect matches Effect::SetPage(x) && x == p,
            Act::SetSelectedSlot(s) => effect matches Effect::SetSelectedSlot(x) && x == s,
            Act::SetSelectedName(n) => effect matches Effect::SetSelectedName(x) && x@ == n,
            Act::SetSelectedLength(l) => effect matches Effect::SetSelectedLength(x) && x == l,
            Act::ShowWaveform(s) => effect matches Effect::ShowWaveform(x) && x@ == s,
            Act::ClearWaveform => effect is ClearWaveform,
            Act::ResetZoom => effect is ResetZoom,
            Act::Download { slot, refresh } => effect == (Effect::Download { slot, refresh }),
            Act::StartPlayback { samples, speed } => effect matches Effect::StartPlayback {
                samples: x,
                speed: s,
            } && x@ == samples && s == speed,
            Act::SaveSample { slot, name } => effect matches Effect::SaveSample {
                slot: s,
                name: n,
            } && s == slot && n@ == name,
            Act::ChooseUpload(s) => effect matches Effect::ChooseUpload(x) && x == s,
            Act::DeleteSample(s) => effect == Effect::DeleteSample(s),
            Act::UpdateFromDevice { slot, name, length, speed } => effect
                matches Effect::UpdateFromDevice { slot: s, name: n, length: l, speed: v } && s
                == slot && n@ == name && l == length && v == speed,
            Act::ClearNameEdited(s) => effect matches Effect::ClearNameEdited(x) && x == s,
        },
{
}

} // verus!
