//! What the application does when the user acts.

use crate::audio::{
    copy_samples, law_rate_of_speed, playback_rate, rate_for_speed, OriginalContent,
};
use crate::effects::{acts, Act, Effect};
use crate::state::{initial, AppState, Content, PlaybackInfo, Row, SampleInfo};
use crate::text::{decimal, decimal_text, law_occurs, occurs, signed_decimal, signed_text};
use vstd::prelude::*;
use vstd::string::*;

verus! {

/// No slot is being worked on.
pub const NO_SLOT: i32 = -1;

/// What is done first when the application starts.
pub open spec fn startup_acts() -> Seq<Act> {
    seq![
        Act::ShowSamples,
        Act::SetLoadingSlot(NO_SLOT as int),
        Act::SetConnected(false),
        Act::SetScanning(false),
        Act::SetPage(0),
        Act::ShowLogs,
        Act::SetLogText(""@),
        Act::Log("Application started"@),
        Act::Log("Auto-connecting to Volca Sample 2..."@),
        Act::OpenDevice { automatic: true },
    ]
}

/// Starts the application: an empty display and a first attempt to connect.
pub fn startup() -> (r: Vec<Effect>)
    ensures
        acts(r@) == startup_acts(),
{
    let mut fx: Vec<Effect> = Vec::new();
    fx.push(Effect::ShowSamples);
    fx.push(Effect::SetLoadingSlot(NO_SLOT));
    fx.push(Effect::SetConnected(false));
    fx.push(Effect::SetScanning(false));
    fx.push(Effect::SetPage(0));
    fx.push(Effect::ShowLogs);
    fx.push(Effect::SetLogText("".to_owned()));
    fx.push(Effect::Log("Application started".to_owned()));
    fx.push(Effect::Log("Auto-connecting to Volca Sample 2...".to_owned()));
    fx.push(Effect::OpenDevice { automatic: true });
    assert(acts(fx@) =~= startup_acts());
    fx
}

/// What the connect button does.
pub open spec fn connect_acts(is_connected: bool) -> Seq<Act> {
    if is_connected {
        seq![
            Act::Log("Disconnecting from device..."@),
            Act::CloseDevice,
            Act::SetConnected(false),
            Act::Log("Disconnected."@),
        ]
    } else {
        seq![
            Act::Log("Attempting to connect to Volca Sample 2..."@),
            Act::OpenDevice { automatic: false },
        ]
    }
}

/// The connect button: lets go of the device, or tries to connect to it.
pub fn connect_clicked(is_connected: bool) -> (r: Vec<Effect>)
    ensures
        acts(r@) == connect_acts(is_connected),
{
    let mut fx: Vec<Effect> = Vec::new();
    if is_connected {
        fx.push(Effect::Log("Disconnecting from device...".to_owned()));
        fx.push(Effect::CloseDevice);
        fx.push(Effect::SetConnected(false));
        fx.push(Effect::Log("Disconnected.".to_owned()));
    } else {
        fx.push(Effect::Log("Attempting to connect to Volca Sample 2...".to_owned()));
        fx.push(Effect::OpenDevice { automatic: false });
    }
    assert(acts(fx@) =~= connect_acts(is_connected));
    fx
}

/// What follows an attempt to connect: the firmware version, or the error.
pub open spec fn connected_acts(
    automatic: bool,
    outcome: Result<Seq<char>, Seq<char>>,
) -> Seq<Act> {
    match outcome {
        Ok(firmware) => {
            let said = seq![
                Act::SetConnected(true),
                Act::Log("Successfully connected! Firmware: "@ + firmware),
            ];
            if automatic {
                said.push(Act::Log("Auto-scanning all sample slots..."@)).push(Act::ScanSamples)
            } else {
                said.push(Act::ScanSamples)
            }
        },
        Err(e) => {
            let text = if automatic {
                "Auto-connect failed: "@ + e + ". Click Connect to retry."@
            } else {
                "Failed to connect: "@ + e
            };
            seq![Act::Log(text), Act::SetConnected(false)]
        },
    }
}

/// An attempt to connect has ended; `automatic` is the one at the start.
pub fn connect_finished(automatic: bool, outcome: Result<String, String>) -> (r: Vec<Effect>)
    ensures
        acts(r@) == connected_acts(
            automatic,
            match outcome {
                Ok(firmware) => Ok(firmware@),
                Err(e) => Err(e@),
            },
        ),
{
    let mut fx: Vec<Effect> = Vec::new();
    match outcome {
        Ok(firmware) => {
            fx.push(Effect::SetConnected(true));
            fx.push(
                Effect::Log(
                    "Successfully connected! Firmware: ".to_owned().concat(firmware.as_str()),
                ),
            );
            if automatic {
                fx.push(Effect::Log("Auto-scanning all sample slots...".to_owned()));
            }
            fx.push(Effect::ScanSamples);
            assert(acts(fx@) =~= connected_acts(automatic, Ok(firmware@)));
        },
        Err(e) => {
            let text: String = if automatic {
                "Auto-connect failed: ".to_owned().concat(e.as_str()).concat(
                    ". Click Connect to retry.",
                )
            } else {
                "Failed to connect: ".to_owned().concat(e.as_str())
            };
            fx.push(Effect::Log(text));
            fx.push(Effect::SetConnected(false));
            assert(acts(fx@) =~= connected_acts(automatic, Err(e@)));
        },
    }
    fx
}

/// The scan button.
pub fn refresh_clicked() -> (r: Vec<Effect>)
    ensures
        acts(r@) == seq![
            Act::Log("Scan button clicked - scanning all samples..."@),
            Act::ScanSamples,
        ],
{
    let mut fx: Vec<Effect> = Vec::new();
    fx.push(Effect::Log("Scan button clicked - scanning all samples...".to_owned()));
    fx.push(Effect::ScanSamples);
    assert(acts(fx@) =~= seq![
        Act::Log("Scan button clicked - scanning all samples..."@),
        Act::ScanSamples,
    ]);
    fx
}

/// The page before the current one, if there is one.
pub fn prev_page_clicked(current: i32) -> (r: Option<i32>)
    ensures
        current > 0 ==> r == Some((current - 1) as i32),
        current <= 0 ==> r is None,
{
    if current > 0 {
        Some(current - 1)
    } else {
        None
    }
}

/// The page after the current one, if there is one.
pub fn next_page_clicked(current: i32, total: i32) -> (r: Option<i32>)
    ensures
        current + 1 < total ==> r == Some((current + 1) as i32),
        current + 1 >= total ==> r is None,
{
    if (current as i64) < total as i64 - 1 {
        Some(current + 1)
    } else {
        None
    }
}

/// Whether the log is shown after the button was clicked.
pub fn toggle_debug_log(shown: bool) -> (r: bool)
    ensures
        r == !shown,
{
    !shown
}

impl Content {
    /// The state after a running playback was told to stop.
    pub open spec fn silenced(self) -> Content {
        Content { can_stop: false, is_playing: false, playback_info: None, ..self }
    }

    /// What is done to tell a running playback to stop.
    pub open spec fn silence_acts(self) -> Seq<Act> {
        let shown = seq![Act::SetPlaying(false), Act::ResetPosition];
        if self.can_stop {
            seq![Act::SendStop] + shown
        } else {
            shown
        }
    }

    /// What the download button of a slot does.
    pub open spec fn download_acts(self, slot: int) -> Seq<Act> {
        if self.has_sample(slot) {
            self.silence_acts() + seq![
                Act::SetLoadingSlot(slot),
                Act::Log(
                    "Refreshing slot "@ + signed_decimal(slot) + ": "@ + self.rows[slot].name
                        + "..."@,
                ),
                Act::Download { slot: slot as u8, refresh: true },
            ]
        } else {
            seq![
                Act::Log("Slot "@ + signed_decimal(slot) + " is empty, nothing to download"@),
            ]
        }
    }

    /// The samples of a slot can be played: they are there, and here.
    pub open spec fn playable(self, slot: int) -> bool {
        self.has_sample(slot) && self.downloaded.dom().contains(slot as u8)
    }

    /// The playback of the samples of a slot.
    pub open spec fn playback_of(self, slot: int, now_ns: u64) -> PlaybackInfo {
        PlaybackInfo {
            started_ns: now_ns,
            sample_count: self.downloaded[slot as u8].samples.len() as usize,
            rate: rate_for_speed(self.downloaded[slot as u8].current_speed as nat) as u32,
        }
    }

    /// The state after the play button was clicked with a slot selected.
    pub open spec fn after_play(self, slot: int, now_ns: u64) -> Content {
        if self.playable(slot) {
            Content {
                can_stop: true,
                is_playing: true,
                playback_info: Some(self.playback_of(slot, now_ns)),
                ..self
            }
        } else {
            self
        }
    }

    /// What the play button does with a slot selected.
    pub open spec fn play_acts(self, slot: int) -> Seq<Act> {
        if slot < 0 {
            seq![Act::Log("No sample selected"@)]
        } else if !self.has_sample(slot) {
            Seq::empty()
        } else if !self.playable(slot) {
            seq![Act::Log("Sample not downloaded yet. Click the refresh button first."@)]
        } else {
            let audio = self.downloaded[slot as u8];
            seq![
                Act::LogPlaying {
                    name: self.rows[slot].name,
                    sample_count: audio.samples.len(),
                    rate: rate_for_speed(audio.current_speed as nat) as u32,
                },
                Act::SetPlaying(true),
                Act::ResetPosition,
                Act::StartPlayback { samples: audio.samples, speed: audio.current_speed },
            ]
        }
    }

    /// What selecting a slot does.
    pub open spec fn select_acts(self, slot: int) -> Seq<Act> {
        let selected = seq![Act::SetSelectedSlot(slot)];
        if !self.has_sample(slot) {
            selected
        } else {
            let row = self.rows[slot];
            let named = selected + seq![
                Act::SetSelectedName(row.name),
                Act::SetSelectedLength(row.length as int),
            ] + self.silence_acts();
            let intro = "Selected slot "@ + signed_decimal(slot) + ": "@ + row.name;
            let shown = if self.downloaded.dom().contains(slot as u8) {
                let samples = self.downloaded[slot as u8].samples;
                seq![
                    Act::Log(intro + " ("@ + decimal(samples.len()) + " samples)"@),
                    Act::ShowWaveform(samples),
                ]
            } else {
                seq![
                    Act::Log(intro + " (downloading...)"@),
                    Act::ClearWaveform,
                    Act::SetLoadingSlot(slot),
                    Act::Download { slot: slot as u8, refresh: false },
                ]
            };
            named + shown + seq![Act::ResetZoom]
        }
    }

    /// The state after work on a slot has begun: if there is a sample, what is
    /// played was told to stop.
    pub open spec fn silenced_for(self, slot: int) -> Content {
        if self.has_sample(slot) {
            self.silenced()
        } else {
            self
        }
    }

    /// The state after a name was entered for a slot.
    pub open spec fn after_name_edit(self, slot: int, name: Seq<char>) -> Content {
        if self.has_slot(slot) {
            self.with_row(slot, Row { name, name_edited: true, ..self.rows[slot] })
        } else {
            self
        }
    }

    /// The state after the name of a sample was saved.
    pub open spec fn after_name_saved(self, slot: int) -> Content {
        if self.has_slot(slot) {
            self.with_row(slot, Row { name_edited: false, ..self.rows[slot] })
        } else {
            self
        }
    }
}

impl AppState {
    /// The row of a slot that has a sample.
    pub fn existing_sample(&self, slot: i32) -> (r: Option<SampleInfo>)
        ensures
            match r {
                Some(sample) => self@.has_sample(slot as int) && sample@ == self@.rows[slot as int],
                None => !self@.has_sample(slot as int),
            },
    {
        match self.get_sample(slot) {
            Some(sample) => if sample.has_sample {
                Some(sample)
            } else {
                None
            },
            None => None,
        }
    }

    fn silence(&mut self, fx: &mut Vec<Effect>)
        ensures
            final(self)@ == old(self)@.silenced(),
            acts(final(fx)@) == acts(old(fx)@) + old(self)@.silence_acts(),
    {
        let ghost before = self@;
        let ghost done = fx@;
        if self.can_stop {
            self.can_stop = false;
            fx.push(Effect::SendStop);
        }
        self.is_playing = false;
        self.playback_info = None;
        fx.push(Effect::SetPlaying(false));
        fx.push(Effect::ResetPosition);
        assert(self@ =~= before.silenced());
        assert(acts(fx@) =~= acts(done) + before.silence_acts());
    }

    /// The download button: refreshes a sample from the device.
    pub fn download_clicked(&mut self, slot: i32) -> (r: Vec<Effect>)
        requires
            old(self)@.wf(),
        ensures
            final(self)@ == old(self)@.silenced_for(slot as int),
            acts(r@) == old(self)@.download_acts(slot as int),
    {
        let ghost before = self@;
        let mut fx: Vec<Effect> = Vec::new();
        let sample: SampleInfo = match self.existing_sample(slot) {
            Some(sample) => sample,
            None => {
                fx.push(
                    Effect::Log(
                        "Slot ".to_owned().concat(signed_text(slot).as_str()).concat(
                            " is empty, nothing to download",
                        ),
                    ),
                );
                assert(acts(fx@) =~= before.download_acts(slot as int));
                return fx;
            },
        };
        self.silence(&mut fx);
        assert(acts(fx@) =~= before.silence_acts());
        fx.push(Effect::SetLoadingSlot(slot));
        fx.push(
            Effect::Log(
                "Refreshing slot ".to_owned().concat(signed_text(slot).as_str()).concat(
                    ": ",
                ).concat(sample.name.as_str()).concat("..."),
            ),
        );
        fx.push(Effect::Download { slot: slot as u8, refresh: true });
        assert(acts(fx@) =~= before.download_acts(slot as int));
        fx
    }

    /// The play button, with a slot selected; none if negative.
    pub fn play_clicked(&mut self, selected: i32, now_ns: u64) -> (r: Vec<Effect>)
        requires
            old(self)@.wf(),
        ensures
            final(self)@ == old(self)@.after_play(selected as int, now_ns),
            acts(r@) == old(self)@.play_acts(selected as int),
    {
        let ghost before = self@;
        let mut fx: Vec<Effect> = Vec::new();
        if selected < 0 {
            fx.push(Effect::Log("No sample selected".to_owned()));
            assert(acts(fx@) =~= before.play_acts(selected as int));
            return fx;
        }
        let sample: SampleInfo = match self.existing_sample(selected) {
            Some(sample) => sample,
            None => {
                assert(acts(fx@) =~= Seq::<Act>::empty());
                return fx;
            },
        };
        let kept: Option<(Vec<i16>, u16)> = match self.audio_of(selected as u8) {
            Some(audio) => Some((copy_samples(audio.samples.as_slice()), audio.current_speed)),
            None => None,
        };
        match kept {
            None => {
                fx.push(
                    Effect::Log(
                        "Sample not downloaded yet. Click the refresh button first.".to_owned(),
                    ),
                );
            },
            Some((samples, speed)) => {
                let sample_count: usize = samples.len();
                let rate: u32 = playback_rate(speed);
                fx.push(Effect::LogPlaying { name: sample.name, sample_count, rate });
                self.can_stop = true;
                self.is_playing = true;
                self.playback_info = Some(
                    PlaybackInfo { started_ns: now_ns, sample_count, rate },
                );
                fx.push(Effect::SetPlaying(true));
                fx.push(Effect::ResetPosition);
                fx.push(Effect::StartPlayback { samples, speed });
            },
        }
        assert(self@ =~= before.after_play(selected as int, now_ns));
        assert(acts(fx@) =~= before.play_acts(selected as int));
        fx
    }

    /// A playback has ended, by itself or because it was told to.
    pub fn playback_finished(&mut self)
        ensures
            final(self)@ == (Content { is_playing: false, playback_info: None, ..old(self)@ }),
    {
        self.is_playing = false;
        self.playback_info = None;
    }

    /// The stop button.
    pub fn stop_clicked(&mut self) -> (r: Vec<Effect>)
        ensures
            final(self)@ == (Content { can_stop: false, ..old(self)@ }),
            acts(r@) == (if old(self)@.can_stop {
                seq![Act::SendStop, Act::Log("Stopping playback..."@)]
            } else {
                Seq::empty()
            }),
    {
        let ghost before = self@;
        let mut fx: Vec<Effect> = Vec::new();
        if self.can_stop {
            self.can_stop = false;
            fx.push(Effect::SendStop);
            fx.push(Effect::Log("Stopping playback...".to_owned()));
            assert(acts(fx@) =~= seq![Act::SendStop, Act::Log("Stopping playback..."@)]);
        } else {
            assert(acts(fx@) =~= Seq::<Act>::empty());
        }
        assert(self@ =~= (Content { can_stop: false, ..before }));
        fx
    }

    /// The regular look at the playback: brings the display up to date.
    pub fn timer_tick(&self, shown_playing: bool, now_ns: u64) -> (r: Vec<Effect>)
        ensures
            acts(r@) == (if shown_playing != self.is_playing {
                if self.is_playing {
                    seq![Act::SetPlaying(true)]
                } else {
                    seq![Act::SetPlaying(false), Act::ResetPosition]
                }
            } else {
                Seq::empty()
            }) + (match self.playback_info {
                Some(info) if self.is_playing => seq![
                    Act::SetPosition {
                        elapsed_ns: (if now_ns < info.started_ns {
                            0
                        } else {
                            now_ns - info.started_ns
                        }) as u64,
                        info,
                    },
                ],
                _ => Seq::empty(),
            }),
    {
        let mut fx: Vec<Effect> = Vec::new();
        if shown_playing != self.is_playing {
            fx.push(Effect::SetPlaying(self.is_playing));
            if !self.is_playing {
                fx.push(Effect::ResetPosition);
            }
        }
        assert(acts(fx@) =~= (if shown_playing != self.is_playing {
            if self.is_playing {
                seq![Act::SetPlaying(true)]
            } else {
                seq![Act::SetPlaying(false), Act::ResetPosition]
            }
        } else {
            Seq::empty()
        }));
        let ghost first = fx@;
        if self.is_playing {
            if let Some(info) = self.playback_info {
                let elapsed_ns: u64 = now_ns.saturating_sub(info.started_ns);
                fx.push(Effect::SetPosition { elapsed_ns, info });
                assert(acts(fx@) =~= acts(first).push(Act::SetPosition { elapsed_ns, info }));
            }
        }
        fx
    }

    /// A pad was selected: shows its sample, which is fetched from the device
    /// if it is not here yet.
    pub fn pad_selected(&mut self, slot: i32) -> (r: Vec<Effect>)
        requires
            old(self)@.wf(),
        ensures
            final(self)@ == old(self)@.silenced_for(slot as int),
            acts(r@) == old(self)@.select_acts(slot as int),
    {
        let ghost before = self@;
        let mut fx: Vec<Effect> = Vec::new();
        fx.push(Effect::SetSelectedSlot(slot));
        let sample: SampleInfo = match self.existing_sample(slot) {
            Some(sample) => sample,
            None => {
                assert(acts(fx@) =~= before.select_acts(slot as int));
                return fx;
            },
        };
        fx.push(Effect::SetSelectedName(sample.name.clone()));
        fx.push(Effect::SetSelectedLength(sample.length));
        self.silence(&mut fx);
        let ghost named = seq![Act::SetSelectedSlot(slot as int)] + seq![
            Act::SetSelectedName(before.rows[slot as int].name),
            Act::SetSelectedLength(before.rows[slot as int].length as int),
        ] + before.silence_acts();
        assert(acts(fx@) =~= named);
        let intro: String = "Selected slot ".to_owned().concat(signed_text(slot).as_str()).concat(
            ": ",
        ).concat(sample.name.as_str());
        let kept: Option<Vec<i16>> = match self.audio_of(slot as u8) {
            Some(audio) => Some(copy_samples(audio.samples.as_slice())),
            None => None,
        };
        match kept {
            Some(samples) => {
                fx.push(
                    Effect::Log(
                        intro.concat(" (").concat(
                            decimal_text(samples.len() as u64).as_str(),
                        ).concat(" samples)"),
                    ),
                );
                fx.push(Effect::ShowWaveform(samples));
            },
            None => {
                fx.push(Effect::Log(intro.concat(" (downloading...)")));
                fx.push(Effect::ClearWaveform);
                fx.push(Effect::SetLoadingSlot(slot));
                fx.push(Effect::Download { slot: slot as u8, refresh: false });
            },
        }
        assert(self@.downloaded == before.downloaded);
        fx.push(Effect::ResetZoom);
        assert(acts(fx@) =~= before.select_acts(slot as int));
        fx
    }

    /// The samples to draw again when the size of the display has changed.
    pub fn regenerate_waveform(&self, selected: i32) -> (r: Vec<Effect>)
        requires
            self@.wf(),
        ensures
            acts(r@) == (if self@.playable(selected as int) {
                seq![Act::ShowWaveform(self@.downloaded[selected as u8].samples)]
            } else {
                Seq::empty()
            }),
    {
        let mut fx: Vec<Effect> = Vec::new();
        if self.existing_sample(selected).is_some() {
            if let Some(audio) = self.audio_of(selected as u8) {
                fx.push(Effect::ShowWaveform(copy_samples(audio.samples.as_slice())));
                assert(acts(fx@) =~= seq![
                    Act::ShowWaveform(self@.downloaded[selected as u8].samples),
                ]);
                return fx;
            }
        }
        assert(acts(fx@) =~= Seq::<Act>::empty());
        fx
    }

    /// A name was entered for a slot.
    pub fn name_edit_accepted(&mut self, slot: i32, new_name: &str) -> (r: Vec<Effect>)
        ensures
            final(self)@ == old(self)@.after_name_edit(slot as int, new_name@),
            acts(r@) == ({
                let said = seq![
                    Act::Log(
                        "Name edited for slot "@ + signed_decimal(slot as int) + ": \""@ + new_name@
                            + "\" (not yet saved)"@,
                    ),
                ];
                if old(self)@.has_slot(slot as int) {
                    said.push(Act::ShowSamples)
                } else {
                    said
                }
            }),
    {
        let ghost before = self@;
        let mut fx: Vec<Effect> = Vec::new();
        let text: String = "Name edited for slot ".to_owned().concat(
            signed_text(slot).as_str(),
        ).concat(": \"").concat(new_name).concat("\" (not yet saved)");
        let ghost said = text@;
        fx.push(Effect::Log(text));
        assert(acts(fx@) =~= seq![Act::Log(said)]);
        if let Some(sample) = self.get_sample(slot) {
            let mut sample: SampleInfo = sample;
            sample.name = new_name.to_owned();
            sample.name_edited = true;
            assert(sample@ =~= (Row {
                name: new_name@,
                name_edited: true,
                ..before.rows[slot as int]
            }));
            self.set_row(slot as usize, sample);
            fx.push(Effect::ShowSamples);
            assert(acts(fx@) =~= seq![Act::Log(said), Act::ShowSamples]);
        }
        fx
    }

    /// The name of a sample was saved to the device.
    pub fn clear_name_edited_flag(&mut self, slot: i32) -> (r: Vec<Effect>)
        ensures
            final(self)@ == old(self)@.after_name_saved(slot as int),
            acts(r@) == (if old(self)@.has_slot(slot as int) {
                seq![Act::ShowSamples]
            } else {
                Seq::empty()
            }),
    {
        let ghost before = self@;
        let mut fx: Vec<Effect> = Vec::new();
        if let Some(sample) = self.get_sample(slot) {
            let mut sample: SampleInfo = sample;
            sample.name_edited = false;
            assert(sample@ =~= (Row { name_edited: false, ..before.rows[slot as int] }));
            self.set_row(slot as usize, sample);
            fx.push(Effect::ShowSamples);
            assert(acts(fx@) =~= seq![Act::ShowSamples]);
        } else {
            assert(acts(fx@) =~= Seq::<Act>::empty());
        }
        fx
    }

    /// Puts what the device says about a sample into its row.
    pub fn update_sample_from_device(
        &mut self,
        slot: i32,
        name: String,
        length: i32,
        speed: i32,
    ) -> (r: Vec<Effect>)
        requires
            old(self)@.wf(),
        ensures
            final(self)@ == old(self)@.with_row(
                slot as int,
                (Row { slot, name: name@, length, speed, has_sample: true, name_edited: false }),
            ),
            acts(r@) == seq![Act::ShowSamples],
    {
        let ghost text = name@;
        let info = SampleInfo { slot, name, length, speed, has_sample: true, name_edited: false };
        assert(info@ =~= (Row {
            slot,
            name: text,
            length,
            speed,
            has_sample: true,
            name_edited: false,
        }));
        self.update_sample(slot, info);
        let mut fx: Vec<Effect> = Vec::new();
        fx.push(Effect::ShowSamples);
        assert(acts(fx@) =~= seq![Act::ShowSamples]);
        fx
    }
}

impl Content {
    /// What is known of a playback is known exactly while one is under way.
    pub open spec fn playback_tracked(self) -> bool {
        self.is_playing == self.playback_info.is_some()
    }
}

/// What is known of a playback is known exactly while one is under way: that
/// holds at the start, and every action keeps it.
pub proof fn law_playback_is_tracked(
    state: Content,
    slot: int,
    row: Row,
    name: Seq<char>,
    audio_slot: u8,
    audio: OriginalContent,
    now_ns: u64,
)
    requires
        state.playback_tracked(),
    ensures
        initial().playback_tracked(),
        state.silenced_for(slot).playback_tracked(),
        state.after_play(slot, now_ns).playback_tracked(),
        (Content { can_stop: false, ..state }).playback_tracked(),
        (Content { is_playing: false, playback_info: None, ..state }).playback_tracked(),
        state.after_name_edit(slot, name).playback_tracked(),
        state.after_name_saved(slot).playback_tracked(),
        state.with_row(slot, row).playback_tracked(),
        state.with_audio(audio_slot, audio).playback_tracked(),
        state.after_delete(slot).playback_tracked(),
{
}

/// Every action keeps a row for each slot of the device.
pub proof fn law_slots_are_kept(
    state: Content,
    slot: int,
    row: Row,
    name: Seq<char>,
    audio_slot: u8,
    audio: OriginalContent,
    now_ns: u64,
)
    requires
        state.wf(),
    ensures
        initial().wf(),
        state.silenced_for(slot).wf(),
        state.after_play(slot, now_ns).wf(),
        state.after_name_edit(slot, name).wf(),
        state.after_name_saved(slot).wf(),
        state.with_row(slot, row).wf(),
        state.with_audio(audio_slot, audio).wf(),
        state.after_delete(slot).wf(),
{
}

/// Playback is started exactly when the slot has a sample whose audio data is
/// here, and can then be stopped; else nothing changes.
pub proof fn law_play_needs_data(state: Content, slot: int, now_ns: u64)
    requires
        state.wf(),
    ensures
        (exists|samples: Seq<i16>, speed: u16|
            #[trigger] state.play_acts(slot).contains(Act::StartPlayback { samples, speed }))
            <==> state.playable(slot),
        state.playable(slot) ==> state.after_play(slot, now_ns).can_stop && state.after_play(
            slot,
            now_ns,
        ).is_playing,
        !state.playable(slot) ==> state.after_play(slot, now_ns) == state,
{
    if state.playable(slot) {
        let audio = state.downloaded[slot as u8];
        let start = Act::StartPlayback { samples: audio.samples, speed: audio.current_speed };
        assert(state.play_acts(slot)[3] == start);
        assert(state.play_acts(slot).contains(start));
    }
}

/// Selecting or refreshing a sample ends what is being played: the player is
/// told to stop if it still can be, and nothing plays afterwards.
pub proof fn law_switching_stops_playback(state: Content, slot: int)
    requires
        state.wf(),
        state.has_sample(slot),
    ensures
        !state.silenced_for(slot).is_playing,
        !state.silenced_for(slot).can_stop,
        state.can_stop ==> state.select_acts(slot).contains(Act::SendStop)
            && state.download_acts(slot).contains(Act::SendStop),
{
    if state.can_stop {
        assert(state.select_acts(slot)[3] == Act::SendStop);
        assert(state.download_acts(slot)[0] == Act::SendStop);
    }
}

/// The download button asks for a refreshing download of exactly the slot whose
/// button it is, and shows that slot as being worked on, if it has a sample.
/// Else it asks for no download at all.
pub proof fn law_download_is_of_the_slot(state: Content, slot: int, k: u8, refresh: bool, s: int)
    requires
        state.wf(),
    ensures
        ({
            let present = 0 <= slot < 200 && state.rows[slot].has_sample;
            let done = state.download_acts(slot);
            &&& done.contains(Act::Download { slot: k, refresh }) <==> present && k == slot
                && refresh
            &&& done.contains(Act::SetLoadingSlot(s)) <==> present && s == slot
        }),
{
    let done = state.download_acts(slot);
    let n = done.len();
    if state.has_sample(slot) {
        assert(done[n - 1] == Act::Download { slot: slot as u8, refresh: true });
        assert(done[n - 3] == Act::SetLoadingSlot(slot));
    }
}

/// Selecting a slot selects exactly that slot. If it has a sample, its own name
/// and length are shown, and either the audio data kept for it is drawn or, if
/// there is none, that very sample is downloaded without touching its row.
pub proof fn law_select_shows_the_slot(
    state: Content,
    slot: int,
    k: u8,
    refresh: bool,
    name: Seq<char>,
    length: int,
    samples: Seq<i16>,
    s: int,
)
    requires
        state.wf(),
    ensures
        ({
            let present = 0 <= slot < 200 && state.rows[slot].has_sample;
            let here = state.downloaded.dom().contains(slot as u8);
            let done = state.select_acts(slot);
            &&& done.contains(Act::SetSelectedSlot(s)) <==> s == slot
            &&& done.contains(Act::SetSelectedName(name)) <==> present && name
                == state.rows[slot].name
            &&& done.contains(Act::SetSelectedLength(length)) <==> present && length
                == state.rows[slot].length
            &&& done.contains(Act::ShowWaveform(samples)) <==> present && here && samples
                == state.downloaded[slot as u8].samples
            &&& done.contains(Act::ClearWaveform) <==> present && !here
            &&& done.contains(Act::Download { slot: k, refresh }) <==> present && !here && k == slot
                && !refresh
            &&& done.contains(Act::SetLoadingSlot(s)) <==> present && !here && s == slot
            &&& done.contains(Act::ResetZoom) <==> present
        }),
{
    let done = state.select_acts(slot);
    let n = done.len();
    assert(done[0] == Act::SetSelectedSlot(slot));
    if state.has_sample(slot) {
        assert(done[1] == Act::SetSelectedName(state.rows[slot].name));
        assert(done[2] == Act::SetSelectedLength(state.rows[slot].length as int));
        assert(done[n - 1] == Act::ResetZoom);
        if state.downloaded.dom().contains(slot as u8) {
            assert(done[n - 2] == Act::ShowWaveform(state.downloaded[slot as u8].samples));
        } else {
            assert(done[n - 2] == Act::Download { slot: slot as u8, refresh: false });
            assert(done[n - 3] == Act::SetLoadingSlot(slot));
            assert(done[n - 4] == Act::ClearWaveform);
        }
    }
}

/// The play button plays exactly the audio data kept for the selected slot, at
/// its own speed, if the slot has a sample and its data is here; else nothing. It
/// is noted when that began, how many samples there are, and their rate: the
/// largest whole number of Hz not above what the speed stands for. Nothing else
/// changes.
pub proof fn law_play_plays_the_slot(
    state: Content,
    slot: int,
    samples: Seq<i16>,
    speed: u16,
    now_ns: u64,
)
    requires
        state.wf(),
    ensures
        ({
            let present = 0 <= slot < 200 && state.rows[slot].has_sample
                && state.downloaded.dom().contains(slot as u8);
            let audio = state.downloaded[slot as u8];
            let after = state.after_play(slot, now_ns);
            &&& state.play_acts(slot).contains(Act::StartPlayback { samples, speed }) <==> present
                && samples == audio.samples && speed == audio.current_speed
            &&& state.play_acts(slot).contains(Act::SetPlaying(true)) <==> present
            &&& after.is_playing == (present || state.is_playing)
            &&& after.can_stop == (present || state.can_stop)
            &&& present ==> {
                &&& after.playback_info matches Some(info)
                &&& info.started_ns == now_ns
                &&& audio.samples.len() <= usize::MAX ==> info.sample_count == audio.samples.len()
                &&& 16384 * info.rate <= 31250 * audio.current_speed < 16384 * (info.rate + 1)
            }
            &&& !present ==> after.playback_info == state.playback_info
            &&& after == (Content {
                is_playing: after.is_playing,
                can_stop: after.can_stop,
                playback_info: after.playback_info,
                ..state
            })
        }),
{
    let done = state.play_acts(slot);
    if state.playable(slot) {
        let audio = state.downloaded[slot as u8];
        law_rate_of_speed(audio.current_speed as nat);
        assert(rate_for_speed(audio.current_speed as nat) <= 125000);
        assert(done[1] == Act::SetPlaying(true));
        assert(done[3] == Act::StartPlayback {
            samples: audio.samples,
            speed: audio.current_speed,
        });
    }
}

/// What is said of a playback names the sample, the number of its samples and
/// their rate.
pub proof fn law_playing_is_said(state: Content, slot: int, name: Seq<char>, count: nat, rate: u32)
    requires
        state.wf(),
        state.play_acts(slot).contains(Act::LogPlaying { name, sample_count: count, rate }),
    ensures
        0 <= slot < 200,
        name == state.rows[slot].name,
        count == state.downloaded[slot as u8].samples.len(),
        16384 * rate <= 31250 * state.downloaded[slot as u8].current_speed < 16384 * (rate + 1),
{
    let audio = state.downloaded[slot as u8];
    law_rate_of_speed(audio.current_speed as nat);
}

/// Telling a playback to stop is done once and only if there is one to tell; the
/// display shows that nothing is played any more, from the start.
pub proof fn law_silence(state: Content)
    ensures
        state.silence_acts().contains(Act::SendStop) <==> state.can_stop,
        state.silence_acts().contains(Act::SetPlaying(false)),
        !state.silence_acts().contains(Act::SetPlaying(true)),
        state.silence_acts().contains(Act::ResetPosition),
        state.silenced() == (Content {
            is_playing: false,
            can_stop: false,
            playback_info: None,
            ..state
        }),
{
    let done = state.silence_acts();
    let n = done.len();
    assert(done[n - 1] == Act::ResetPosition);
    assert(done[n - 2] == Act::SetPlaying(false));
    if state.can_stop {
        assert(done[0] == Act::SendStop);
    }
}

/// Work on a slot stops what is played if the slot has a sample, and changes
/// nothing else.
pub proof fn law_work_on_a_slot(state: Content, slot: int)
    requires
        state.wf(),
    ensures
        ({
            let present = 0 <= slot < 200 && state.rows[slot].has_sample;
            let after = state.silenced_for(slot);
            &&& after.is_playing == (state.is_playing && !present)
            &&& after.can_stop == (state.can_stop && !present)
            &&& present ==> after.playback_info is None
            &&& !present ==> after == state
            &&& after.rows == state.rows
            &&& after.downloaded == state.downloaded
            &&& after.logs == state.logs
        }),
{
}

/// Entering a name changes the name and the mark of that row, and taking the mark
/// away changes the mark of that row; no other row changes, nor anything else,
/// and a slot that is not there changes nothing.
pub proof fn law_edit_is_of_the_slot(state: Content, slot: int, name: Seq<char>, other: int)
    requires
        state.wf(),
        0 <= other < 200,
    ensures
        ({
            let edited = state.after_name_edit(slot, name);
            let saved = state.after_name_saved(slot);
            &&& edited.rows.len() == 200
            &&& saved.rows.len() == 200
            &&& other == slot ==> edited.rows[other] == (Row {
                name,
                name_edited: true,
                ..state.rows[other]
            }) && saved.rows[other] == (Row { name_edited: false, ..state.rows[other] })
            &&& other != slot ==> edited.rows[other] == state.rows[other] && saved.rows[other]
                == state.rows[other]
            &&& edited == (Content { rows: edited.rows, ..state })
            &&& saved == (Content { rows: saved.rows, ..state })
        }),
{
}

/// The connect button lets go of a connected device and else tries to connect;
/// it never does both.
pub proof fn law_connect_button(automatic: bool, on: bool)
    ensures
        !connect_acts(true).contains(Act::OpenDevice { automatic }),
        connect_acts(true).contains(Act::CloseDevice),
        connect_acts(true).contains(Act::SetConnected(on)) <==> !on,
        connect_acts(false).contains(Act::OpenDevice { automatic }) <==> !automatic,
        !connect_acts(false).contains(Act::CloseDevice),
        startup_acts().contains(Act::OpenDevice { automatic }) <==> automatic,
        startup_acts().contains(Act::SetConnected(on)) <==> !on,
{
    assert(connect_acts(true)[1] == Act::CloseDevice);
    assert(connect_acts(true)[2] == Act::SetConnected(false));
    assert(connect_acts(false)[1] == Act::OpenDevice { automatic: false });
    assert(startup_acts()[2] == Act::SetConnected(false));
    assert(startup_acts()[9] == Act::OpenDevice { automatic: true });
}

/// After an attempt to connect, the display shows whether it succeeded, and the
/// slots are scanned exactly if it did.
pub proof fn law_connecting_scans(
    automatic: bool,
    outcome: Result<Seq<char>, Seq<char>>,
    on: bool,
)
    ensures
        connected_acts(automatic, outcome).contains(Act::SetConnected(on)) <==> on == (outcome
            is Ok),
        connected_acts(automatic, outcome).contains(Act::ScanSamples) <==> outcome is Ok,
{
    let done = connected_acts(automatic, outcome);
    if outcome is Ok {
        assert(done[0] == Act::SetConnected(true));
        assert(done.last() == Act::ScanSamples);
    } else {
        assert(done[1] == Act::SetConnected(false));
    }
}

/// What is said names the slot and its sample.
pub proof fn law_slot_is_named(state: Content, slot: int)
    requires
        state.wf(),
        state.has_sample(slot),
    ensures
        ({
            let named = signed_decimal(slot) + ": "@ + state.rows[slot].name;
            &&& exists|text: Seq<char>| #[trigger]
                state.download_acts(slot).contains(Act::Log(text)) && occurs(named, text)
            &&& exists|text: Seq<char>| #[trigger]
                state.select_acts(slot).contains(Act::Log(text)) && occurs(named, text)
        }),
{
    let number = signed_decimal(slot);
    let name = state.rows[slot].name;
    let named = number + ": "@ + name;
    let done = state.download_acts(slot);
    let text = "Refreshing slot "@ + number + ": "@ + name + "..."@;
    law_occurs(named, "Refreshing slot "@, "..."@, name);
    assert("Refreshing slot "@ + named + "..."@ =~= text);
    assert(done[done.len() - 2] == Act::Log(text));
    assert(done.contains(Act::Log(text)));
    let chosen = state.select_acts(slot);
    let intro = "Selected slot "@ + number + ": "@ + name;
    let k = if state.downloaded.dom().contains(slot as u8) {
        chosen.len() - 3
    } else {
        chosen.len() - 5
    };
    let tail = if state.downloaded.dom().contains(slot as u8) {
        " ("@ + decimal(state.downloaded[slot as u8].samples.len()) + " samples)"@
    } else {
        " (downloading...)"@
    };
    law_occurs(named, "Selected slot "@, tail, name);
    let whole = "Selected slot "@ + named + tail;
    if state.downloaded.dom().contains(slot as u8) {
        assert(whole =~= intro + " ("@ + decimal(state.downloaded[slot as u8].samples.len())
            + " samples)"@);
    } else {
        assert(whole =~= intro + " (downloading...)"@);
    }
    assert(chosen[k] == Act::Log(whole));
    assert(chosen.contains(Act::Log(whole)));
}

/// What is said after an attempt to connect has the firmware version in it, or
/// the reason why there is no connection.
pub proof fn law_connection_is_said(automatic: bool, outcome: Result<Seq<char>, Seq<char>>)
    ensures
        exists|text: Seq<char>| #[trigger]
            connected_acts(automatic, outcome).contains(Act::Log(text)) && occurs(
                match outcome {
                    Ok(firmware) => firmware,
                    Err(e) => e,
                },
                text,
            ),
{
    let done = connected_acts(automatic, outcome);
    let none = Seq::<char>::empty();
    match outcome {
        Ok(firmware) => {
            let text = "Successfully connected! Firmware: "@ + firmware;
            law_occurs(firmware, "Successfully connected! Firmware: "@, none, none);
            assert(text + none =~= text);
            assert(done[1] == Act::Log(text));
            assert(done.contains(Act::Log(text)));
        },
        Err(e) => {
            if automatic {
                law_occurs(e, "Auto-connect failed: "@, ". Click Connect to retry."@, none);
                let text = "Auto-connect failed: "@ + e + ". Click Connect to retry."@;
                assert(done[0] == Act::Log(text));
                assert(done.contains(Act::Log(text)));
            } else {
                let text = "Failed to connect: "@ + e;
                law_occurs(e, "Failed to connect: "@, none, none);
                assert(text + none =~= text);
                assert(done[0] == Act::Log(text));
                assert(done.contains(Act::Log(text)));
            }
        },
    }
}

} // verus!
