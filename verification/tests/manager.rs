use std::io::Cursor;
use volca_manager::audio::OriginalSample;
use volca_manager::callbacks::{
    connect_clicked, connect_finished, next_page_clicked, prev_page_clicked, refresh_clicked,
    startup, toggle_debug_log,
};
use volca_manager::delete::begin_delete;
use volca_manager::download::{begin_download, HeaderWanted};
use volca_manager::effects::Effect;
use volca_manager::loading::{can_load_wav, name_of_file, wav_unreadable};
use volca_manager::proto::{SampleData, SampleHeader};
use volca_manager::save::{
    begin_save, describe_failure, prepare_save, SaveFailure, SaveStage, SaveTransfer,
};
use volca_manager::scan::Scan;
use volca_manager::state::{AppState, PlaybackInfo, SampleInfo};
use volca_manager::upload::upload_clicked;

fn shown(effects: Vec<Effect>) -> String {
    format!("{:?}", effects)
}

fn row(slot: i32, name: &str) -> SampleInfo {
    SampleInfo {
        slot,
        name: name.to_string(),
        length: 3,
        speed: 16384,
        has_sample: true,
        name_edited: false,
    }
}

fn row_text(state: &AppState, slot: i32) -> String {
    format!("{:?}", state.get_sample(slot).unwrap())
}

fn header(name: &str, length: u32, speed: u16) -> SampleHeader {
    SampleHeader { sample_no: 0, name: name.to_string(), length, level: 100, speed }
}

fn with_kick() -> AppState {
    let mut state = AppState::new();
    state.update_sample(3, row(3, "Kick"));
    state
}

fn with_audio() -> AppState {
    let mut state = with_kick();
    state.keep_audio(
        3,
        OriginalSample { samples: vec![5, 6, 7], original_sample_rate: 31250, current_speed: 8192 },
    );
    state
}

fn no_float(_bytes: &[u8]) -> Result<Vec<u32>, String> {
    panic!("asked for floating point samples")
}

fn no_resampler(_samples: &[i16], _from: u32, _to: u32) -> Result<Vec<i16>, String> {
    panic!("asked to resample")
}

#[test]
fn new_state_is_empty() {
    let state = AppState::new();
    assert_eq!(state.samples.len(), 200);
    for slot in 0..200 {
        let info = state.get_sample(slot).unwrap();
        assert_eq!((info.slot, info.name.as_str(), info.has_sample), (slot, "", false));
    }
    assert!(state.get_sample(-1).is_none());
    assert!(state.get_sample(200).is_none());
    assert!(!state.connected && !state.is_playing && !state.can_stop);
}

#[test]
fn rows_are_set_and_found() {
    let mut state = AppState::new();
    state.update_sample(199, row(199, "Last"));
    state.update_sample(200, row(200, "Beyond"));
    state.update_sample(-1, row(-1, "Before"));
    state.set_row(1_000_000, row(1, "Far"));
    assert_eq!(state.get_sample(199).unwrap().name, "Last");
    assert_eq!(state.samples.iter().filter(|s| s.has_sample).count(), 1);
    assert_eq!(state.samples.len(), 200);
}

#[test]
fn mock_data() {
    let mut state = AppState::new();
    state.update_sample(3, row(3, "Mine"));
    state.load_mock_data();
    let filled: Vec<i32> =
        state.samples.iter().filter(|s| s.has_sample).map(|s| s.slot).collect();
    assert_eq!(filled, [0, 1, 2, 3, 4, 6, 7, 10, 12, 13, 15, 16, 25, 50, 99, 100, 150, 199]);
    let noise = state.get_sample(199).unwrap();
    assert_eq!((noise.name.as_str(), noise.length, noise.speed), ("Noise", 15000, 16384));
    assert_eq!(state.get_sample(3).unwrap().name, "Mine");
    let once = format!("{:?}", state.samples);
    state.load_mock_data();
    assert_eq!(format!("{:?}", state.samples), once);
}

#[test]
fn log_grows() {
    let mut state = AppState::new();
    assert_eq!(state.log("12:00:00", "one"), "[12:00:00] one");
    assert_eq!(state.log("12:00:01", "two"), "[12:00:00] one\n[12:00:01] two");
    assert_eq!(state.logs.len(), 2);
}

#[test]
fn start_and_connection() {
    assert_eq!(
        shown(startup()),
        "[ShowSamples, SetLoadingSlot(-1), SetConnected(false), SetScanning(false), SetPage(0), \
         ShowLogs, SetLogText(\"\"), Log(\"Application started\"), Log(\"Auto-connecting to Volca Sample 2...\"), \
         OpenDevice { automatic: true }]"
    );
    assert_eq!(
        shown(connect_clicked(true)),
        "[Log(\"Disconnecting from device...\"), CloseDevice, SetConnected(false), \
         Log(\"Disconnected.\")]"
    );
    assert_eq!(
        shown(connect_clicked(false)),
        "[Log(\"Attempting to connect to Volca Sample 2...\"), OpenDevice { automatic: false }]"
    );
    assert_eq!(
        shown(connect_finished(false, Ok("1.0".to_string()))),
        "[SetConnected(true), Log(\"Successfully connected! Firmware: 1.0\"), ScanSamples]"
    );
    assert_eq!(
        shown(connect_finished(true, Ok("1.0".to_string()))),
        "[SetConnected(true), Log(\"Successfully connected! Firmware: 1.0\"), \
         Log(\"Auto-scanning all sample slots...\"), ScanSamples]"
    );
    assert_eq!(
        shown(connect_finished(false, Err("gone".to_string()))),
        "[Log(\"Failed to connect: gone\"), SetConnected(false)]"
    );
    assert_eq!(
        shown(connect_finished(true, Err("gone".to_string()))),
        "[Log(\"Auto-connect failed: gone. Click Connect to retry.\"), SetConnected(false)]"
    );
}

#[test]
fn small_buttons() {
    assert_eq!(
        shown(refresh_clicked()),
        "[Log(\"Scan button clicked - scanning all samples...\"), ScanSamples]"
    );
    assert_eq!(prev_page_clicked(0), None);
    assert_eq!(prev_page_clicked(4), Some(3));
    assert_eq!(next_page_clicked(8, 10), Some(9));
    assert_eq!(next_page_clicked(9, 10), None);
    assert_eq!(next_page_clicked(0, 0), None);
    assert_eq!(next_page_clicked(0, i32::MIN), None);
    assert!(toggle_debug_log(false));
    assert!(!toggle_debug_log(true));
}

#[test]
fn deleting() {
    let mut state = with_audio();
    state.update_sample(5, row(5, "Snare"));
    assert_eq!(shown(state.delete_clicked(4)), "[]");
    assert_eq!(shown(state.delete_clicked(-4)), "[]");
    assert_eq!(shown(state.delete_clicked(200)), "[]");
    assert_eq!(
        shown(state.delete_clicked(3)),
        "[Log(\"Delete slot 3: Kick\"), DeleteSample(3)]"
    );
    assert!(state.get_sample(3).unwrap().has_sample);
    assert_eq!(shown(state.delete_finished(3, Ok(()))), "[ShowSamples]");
    assert_eq!(
        row_text(&state, 3),
        "SampleInfo { slot: 3, name: \"\", length: 0, speed: 0, has_sample: false, \
         name_edited: false }"
    );
    assert!(state.audio_of(3).is_none());
    assert_eq!(shown(state.delete_clicked(3)), "[]");
    assert_eq!(shown(state.play_clicked(3, 0)), "[]");
    assert_eq!(state.get_sample(5).unwrap().name, "Snare");
    assert_eq!(shown(state.delete_finished(250, Ok(()))), "[ShowSamples]");
    assert_eq!(state.samples.len(), 200);
}

#[test]
fn deleting_fails() {
    let mut state = with_audio();
    let before = row_text(&state, 3);
    let failure = begin_delete(3, false).unwrap_err();
    assert_eq!(
        shown(state.delete_finished(3, Err(failure))),
        "[Log(\"Failed to delete slot 3: Failed to send header: Device not connected\")]"
    );
    assert_eq!(
        shown(state.delete_finished(3, Err(SaveFailure::Refused("no".to_string())))),
        "[Log(\"Failed to delete slot 3: Device NAK after header: no\")]"
    );
    assert_eq!(row_text(&state, 3), before);
    assert_eq!(state.audio_of(3).unwrap().samples, vec![5, 6, 7]);
}

#[test]
fn the_device_is_told_of_an_empty_slot() {
    let told = begin_delete(3, true).unwrap();
    assert_eq!((told.sample_no, told.length, told.name.as_str()), (3, 0, ""));
    let mut state = with_kick();
    let mut scan = Scan { next_slot: 3, samples_found: 0 };
    state.slot_scanned(&mut scan, Ok(told));
    assert!(!state.get_sample(3).unwrap().has_sample);
    assert_eq!(scan.samples_found, 0);
}

#[test]
fn uploading() {
    assert_eq!(shown(upload_clicked(12)), "[Log(\"Upload to slot 12 clicked\"), ChooseUpload(12)]");
    assert_eq!(shown(upload_clicked(-1)), "[Log(\"Upload to slot -1 clicked\")]");
    assert_eq!(shown(upload_clicked(200)), "[Log(\"Upload to slot 200 clicked\")]");
    let mut state = AppState::new();
    let done = state.upload_chosen(12, Some("hat"), &wav(31_250, &[4]), no_float, no_resampler);
    assert_eq!(
        shown(done),
        "[SetSelectedName(\"hat\"), SetSelectedLength(1), ShowWaveform([4]), ShowSamples, \
         LogLoaded { name: \"hat\", sample_count: 1, rate: 31250, speed: 16384 }, \
         SetLoadingSlot(12), Log(\"Saving sample info for slot 12: \\\"hat\\\"...\"), \
         SaveSample { slot: 12, name: \"hat\" }]"
    );
    let transfer =
        begin_save(state.audio_of(12), 12, "hat".to_string(), no_resampler).unwrap();
    assert_eq!((transfer.header.length, transfer.data.data), (1, vec![4]));
    let failing = |_: &[i16], _: u32, _: u32| Err("odd rate".to_string());
    let done = state.upload_chosen(13, None, &wav(16_000, &[1]), no_float, failing);
    assert_eq!(shown(done), "[Log(\"Failed to resample WAV: odd rate\")]");
    let done = state.upload_chosen(13, None, b"RIFX", no_float, no_resampler);
    assert!(shown(done).starts_with("[Log(\"Failed to load WAV: Failed to open WAV: "));
    assert!(!state.get_sample(13).unwrap().has_sample);
}

#[test]
fn a_file_that_cannot_be_read() {
    assert_eq!(
        shown(wav_unreadable("no such file")),
        "[Log(\"Failed to load WAV: Failed to open WAV: no such file\")]"
    );
}

#[test]
fn refreshing_a_sample() {
    let mut state = with_audio();
    assert_eq!(
        shown(state.download_clicked(4)),
        "[Log(\"Slot 4 is empty, nothing to download\")]"
    );
    assert_eq!(
        shown(state.download_clicked(-1)),
        "[Log(\"Slot -1 is empty, nothing to download\")]"
    );
    state.play_clicked(3, 100);
    assert_eq!(
        shown(state.download_clicked(3)),
        "[SendStop, SetPlaying(false), ResetPosition, SetLoadingSlot(3), \
         Log(\"Refreshing slot 3: Kick...\"), Download { slot: 3, refresh: true }]"
    );
    assert!(!state.is_playing && !state.can_stop && state.playback_info.is_none());
}

#[test]
fn playing() {
    let mut state = with_kick();
    assert_eq!(shown(state.play_clicked(-1, 0)), "[Log(\"No sample selected\")]");
    assert_eq!(shown(state.play_clicked(4, 0)), "[]");
    assert_eq!(shown(state.play_clicked(500, 0)), "[]");
    assert_eq!(
        shown(state.play_clicked(3, 0)),
        "[Log(\"Sample not downloaded yet. Click the refresh button first.\")]"
    );
    assert!(!state.is_playing);
    let mut state = with_audio();
    assert_eq!(
        shown(state.play_clicked(3, 42)),
        "[LogPlaying { name: \"Kick\", sample_count: 3, rate: 15625 }, SetPlaying(true), \
         ResetPosition, StartPlayback { samples: [5, 6, 7], speed: 8192 }]"
    );
    let info = PlaybackInfo { started_ns: 42, sample_count: 3, rate: 15625 };
    assert_eq!(state.playback_info, Some(info));
    assert!(state.is_playing && state.can_stop);
    assert_eq!(shown(state.stop_clicked()), "[SendStop, Log(\"Stopping playback...\")]");
    assert_eq!(shown(state.stop_clicked()), "[]");
    assert!(state.is_playing);
    state.playback_finished();
    assert!(!state.is_playing && state.playback_info.is_none());
}

#[test]
fn timer() {
    let mut state = with_audio();
    assert_eq!(shown(state.timer_tick(false, 10)), "[]");
    assert_eq!(shown(state.timer_tick(true, 10)), "[SetPlaying(false), ResetPosition]");
    state.play_clicked(3, 100);
    let position = "SetPosition { elapsed_ns: 50, info: PlaybackInfo { started_ns: 100, \
                    sample_count: 3, rate: 15625 } }";
    assert_eq!(shown(state.timer_tick(true, 150)), format!("[{}]", position));
    assert_eq!(shown(state.timer_tick(false, 150)), format!("[SetPlaying(true), {}]", position));
}

#[test]
fn selecting() {
    let mut state = with_kick();
    assert_eq!(shown(state.pad_selected(4)), "[SetSelectedSlot(4)]");
    assert_eq!(shown(state.pad_selected(-1)), "[SetSelectedSlot(-1)]");
    assert_eq!(
        shown(state.pad_selected(3)),
        "[SetSelectedSlot(3), SetSelectedName(\"Kick\"), SetSelectedLength(3), SetPlaying(false), \
         ResetPosition, Log(\"Selected slot 3: Kick (downloading...)\"), ClearWaveform, \
         SetLoadingSlot(3), Download { slot: 3, refresh: false }, ResetZoom]"
    );
    let mut state = with_audio();
    state.play_clicked(3, 0);
    assert_eq!(
        shown(state.pad_selected(3)),
        "[SetSelectedSlot(3), SetSelectedName(\"Kick\"), SetSelectedLength(3), SendStop, \
         SetPlaying(false), ResetPosition, Log(\"Selected slot 3: Kick (3 samples)\"), \
         ShowWaveform([5, 6, 7]), ResetZoom]"
    );
    assert!(!state.is_playing && !state.can_stop);
    assert_eq!(shown(state.regenerate_waveform(3)), "[ShowWaveform([5, 6, 7])]");
    assert_eq!(shown(state.regenerate_waveform(4)), "[]");
    assert_eq!(shown(with_kick().regenerate_waveform(3)), "[]");
}

#[test]
fn editing_names() {
    let mut state = with_kick();
    assert_eq!(
        shown(state.name_edit_accepted(3, "Boom")),
        "[Log(\"Name edited for slot 3: \\\"Boom\\\" (not yet saved)\"), ShowSamples]"
    );
    let info = state.get_sample(3).unwrap();
    assert_eq!((info.name.as_str(), info.name_edited, info.length), ("Boom", true, 3));
    assert_eq!(shown(state.clear_name_edited_flag(3)), "[ShowSamples]");
    let info = state.get_sample(3).unwrap();
    assert_eq!((info.name.as_str(), info.name_edited), ("Boom", false));
    assert_eq!(shown(state.clear_name_edited_flag(200)), "[]");
    assert_eq!(
        shown(state.name_edit_accepted(200, "x")),
        "[Log(\"Name edited for slot 200: \\\"x\\\" (not yet saved)\")]"
    );
}

#[test]
fn news_from_the_device() {
    let mut state = AppState::new();
    let done = state.update_sample_from_device(8, "Snare".to_string(), 99, 16384);
    assert_eq!(shown(done), "[ShowSamples]");
    assert_eq!(
        row_text(&state, 8),
        "SampleInfo { slot: 8, name: \"Snare\", length: 99, speed: 16384, has_sample: true, \
         name_edited: false }"
    );
    let done = state.update_sample_from_device(-8, "Snare".to_string(), 99, 16384);
    assert_eq!(shown(done), "[ShowSamples]");
    assert_eq!(state.samples.iter().filter(|s| s.has_sample).count(), 1);
}

#[test]
fn downloading() {
    assert_eq!(shown(begin_download(3, true, false).unwrap_err()), "[SetLoadingSlot(-1)]");
    let wanted = begin_download(3, true, true).unwrap();
    assert_eq!(wanted, HeaderWanted { slot: 3, refresh: true });
    assert_eq!(
        shown(wanted.header_received(Err("late".to_string())).unwrap_err()),
        "[SetLoadingSlot(-1)]"
    );
    let mut state = with_kick();
    let wanted = wanted.header_received(Ok(header("Kick 2", 2, 8192))).unwrap();
    let done = state.data_received(wanted, Ok(SampleData { sample_no: 3, data: vec![8, 9] }));
    assert_eq!(
        shown(done),
        "[UpdateFromDevice { slot: 3, name: \"Kick 2\", length: 2, speed: 8192 }, \
         ShowWaveform([8, 9]), SetLoadingSlot(-1)]"
    );
    let kept = state.audio_of(3).unwrap();
    assert_eq!(kept.samples, vec![8, 9]);
    assert_eq!((kept.original_sample_rate, kept.current_speed), (31250, 8192));
    assert!(state.audio_of(4).is_none());
    assert_eq!(
        shown(state.play_clicked(3, 0)),
        "[LogPlaying { name: \"Kick\", sample_count: 2, rate: 15625 }, SetPlaying(true), \
         ResetPosition, StartPlayback { samples: [8, 9], speed: 8192 }]"
    );
}

#[test]
fn downloading_without_refresh() {
    let mut state = with_kick();
    let wanted = begin_download(3, false, true).unwrap();
    let wanted = wanted.header_received(Ok(header("Kick 2", u32::MAX, 1))).unwrap();
    let done = state.data_received(wanted, Ok(SampleData { sample_no: 3, data: vec![8] }));
    assert_eq!(shown(done), "[ShowWaveform([8]), SetLoadingSlot(-1)]");
    assert!(!shown(state.pad_selected(3)).contains("Download"));
    let wanted = begin_download(5, false, true).unwrap();
    let wanted = wanted.header_received(Ok(header("x", 1, 1))).unwrap();
    let done = state.data_received(wanted, Err("late".to_string()));
    assert_eq!(shown(done), "[SetLoadingSlot(-1)]");
    assert!(state.audio_of(5).is_none());
}

#[test]
fn scanning_without_a_device() {
    let (done, scan) = AppState::new().scan_all_samples(false);
    assert_eq!(
        shown(done),
        "[Log(\"Starting scan of all sample slots...\"), SetScanning(true), \
         Log(\"Error: No device connected\"), SetScanning(false)]"
    );
    assert!(scan.is_none());
}

#[test]
fn scanning() {
    let mut state = AppState::new();
    let (done, scan) = state.scan_all_samples(true);
    assert_eq!(
        shown(done),
        "[Log(\"Starting scan of all sample slots...\"), SetScanning(true), \
         Log(\"Scanning slots 0-19...\")]"
    );
    let mut scan: Scan = scan.unwrap();
    let mut last = String::new();
    let mut messages = 1;
    while !scan.is_complete() {
        let slot = scan.next_slot;
        let reply = match slot % 3 {
            0 => Ok(header(&format!("S{}", slot), slot as u32 + 1, 16384)),
            1 => Ok(header("ignored", 0, 77)),
            _ => Err("no answer".to_string()),
        };
        let read = reply.is_ok();
        last = shown(state.slot_scanned(&mut scan, reply));
        assert_eq!(last.contains("ShowSamples"), read);
        if last.contains("Scanning slots") {
            messages += 1;
        }
        if slot == 179 {
            assert_eq!(last, "[Log(\"Scanning slots 180-199...\")]");
        }
    }
    assert_eq!(messages, 10);
    assert_eq!(
        last,
        "[ShowSamples, Log(\"Scan complete! Found 67 samples in 200 slots.\"), SetScanning(false)]"
    );
    assert_eq!(scan.samples_found, 67);
    assert_eq!(state.samples.iter().filter(|s| s.has_sample).count(), 67);
    assert_eq!(
        row_text(&state, 198),
        "SampleInfo { slot: 198, name: \"S198\", length: 199, speed: 16384, has_sample: true, \
         name_edited: false }"
    );
    assert_eq!(
        row_text(&state, 199),
        "SampleInfo { slot: 199, name: \"(empty)\", length: 0, speed: 77, has_sample: false, \
         name_edited: false }"
    );
    assert_eq!(
        row_text(&state, 197),
        "SampleInfo { slot: 197, name: \"(error)\", length: 0, speed: 0, has_sample: false, \
         name_edited: false }"
    );
}

#[test]
fn names_of_files() {
    assert_eq!(name_of_file(None), "Untitled");
    assert_eq!(name_of_file(Some("kick")), "kick");
    let long = "a name of more than twenty-four characters";
    assert_eq!(name_of_file(Some(long)), "a name of more than twen");
    assert_eq!(name_of_file(Some("exactly twenty-four char")), "exactly twenty-four char");
    let umlauts = "\u{e4}".repeat(20);
    assert_eq!(name_of_file(Some(&umlauts)), umlauts);
    assert_eq!(name_of_file(Some(&"\u{e4}".repeat(30))), "\u{e4}".repeat(24));
    assert!(can_load_wav(0) && can_load_wav(199));
    assert!(!can_load_wav(-1) && !can_load_wav(200));
}

fn wav(rate: u32, samples: &[i16]) -> Vec<u8> {
    let spec = hound::WavSpec {
        channels: 1,
        sample_rate: rate,
        bits_per_sample: 16,
        sample_format: hound::SampleFormat::Int,
    };
    let mut cursor = Cursor::new(Vec::new());
    let mut writer = hound::WavWriter::new(&mut cursor, spec).unwrap();
    for s in samples {
        writer.write_sample(*s).unwrap();
    }
    writer.finalize().unwrap();
    cursor.into_inner()
}

#[test]
fn loading_a_file() {
    let mut state = AppState::new();
    let bytes = wav(16_000, &[1, 2, 3]);
    let resampler = |samples: &[i16], from: u32, to: u32| {
        assert_eq!((samples, from, to), (&[1i16, 2, 3][..], 16_000, 31_250));
        Ok(vec![1, 1, 2, 2, 3, 3])
    };
    let done = state.wav_chosen(9, Some("loop"), &bytes, no_float, resampler);
    assert_eq!(
        shown(done),
        "[SetSelectedName(\"loop\"), SetSelectedLength(6), ShowWaveform([1, 1, 2, 2, 3, 3]), \
         ShowSamples, LogLoaded { name: \"loop\", sample_count: 3, rate: 16000, speed: 8388 }]"
    );
    assert_eq!(
        row_text(&state, 9),
        "SampleInfo { slot: 9, name: \"loop\", length: 6, speed: 8388, has_sample: true, \
         name_edited: true }"
    );
    assert_eq!(
        shown(state.play_clicked(9, 0)),
        "[LogPlaying { name: \"loop\", sample_count: 3, rate: 15998 }, SetPlaying(true), \
         ResetPosition, StartPlayback { samples: [1, 2, 3], speed: 8388 }]"
    );
}

#[test]
fn loading_a_file_of_the_device_rate() {
    let mut state = AppState::new();
    let done = state.wav_chosen(0, None, &wav(31_250, &[4]), no_float, no_resampler);
    assert_eq!(
        shown(done),
        "[SetSelectedName(\"Untitled\"), SetSelectedLength(1), ShowWaveform([4]), ShowSamples, \
         LogLoaded { name: \"Untitled\", sample_count: 1, rate: 31250, speed: 16384 }]"
    );
}

#[test]
fn loading_fails() {
    let mut state = AppState::new();
    let done = state.wav_chosen(9, None, b"RIFX", no_float, no_resampler);
    assert_eq!(
        shown(done),
        "[Log(\"Failed to load WAV: Failed to open WAV: Ill-formed WAVE file: no RIFF tag found\")]"
    );
    let failing = |_: &[i16], _: u32, _: u32| Err("odd rate".to_string());
    let done = state.wav_chosen(9, None, &wav(16_000, &[1]), no_float, failing);
    assert_eq!(shown(done), "[Log(\"Failed to resample WAV: odd rate\")]");
    assert!(!state.get_sample(9).unwrap().has_sample);
    assert!(state.audio_of(9).is_none());
}

#[test]
fn save_button() {
    let state = with_kick();
    assert_eq!(
        shown(state.save_to_device_clicked(3)),
        "[SetLoadingSlot(3), Log(\"Saving sample info for slot 3: \\\"Kick\\\"...\"), \
         SaveSample { slot: 3, name: \"Kick\" }]"
    );
    assert_eq!(
        shown(state.save_to_device_clicked(4)),
        "[Log(\"Cannot save slot 4: no sample exists\")]"
    );
}

#[test]
fn beginning_to_save() {
    let text = begin_save(None, 3, "Kick".to_string(), no_resampler).unwrap_err();
    assert_eq!(text, "Sample not downloaded. Download first before saving.");
    let state = with_audio();
    let prepare = || begin_save(state.audio_of(3), 3, "Kick".to_string(), no_resampler).unwrap();
    assert_eq!(prepare().start(false).unwrap_err(), "Device not connected");
    let transfer = prepare().start(true).unwrap();
    assert_eq!(
        format!("{:?}", transfer.header),
        "SampleHeader { sample_no: 3, name: \"Kick\", length: 3, level: 65535, speed: 16384 }"
    );
    assert_eq!((transfer.data.sample_no, &transfer.data.data), (3, &vec![5, 6, 7]));
    assert_eq!(transfer.stage, SaveStage::SendHeader);
}

#[test]
fn saving_resamples() {
    let audio =
        OriginalSample { samples: vec![5], original_sample_rate: 8_000, current_speed: 4194 };
    let resampler = |_: &[i16], _: u32, _: u32| Ok(vec![5, 5, 5, 5]);
    let prepared = begin_save(Some(&audio), 3, "Kick".to_string(), resampler).unwrap();
    assert_eq!((prepared.header.length, prepared.header.speed), (4, 16384));
    let failing = |_: &[i16], _: u32, _: u32| Err("no".to_string());
    let text = begin_save(Some(&audio), 3, "Kick".to_string(), failing).unwrap_err();
    assert_eq!(text, "Resampling for save failed: Resample failed: no");
}

#[test]
fn descriptions_of_failures() {
    let refused = SaveFailure::Refused("x".to_string());
    assert_eq!(describe_failure(SaveStage::SendHeader, refused), "Device NAK after header: x");
    let refused = SaveFailure::Refused("x".to_string());
    assert_eq!(describe_failure(SaveStage::SendData, refused), "Device NAK after data: x");
}

fn transfer() -> SaveTransfer {
    let prepared = prepare_save(3, "Kick".to_string(), Ok((vec![1], 16384))).unwrap();
    prepared.start(true).unwrap()
}

#[test]
fn saving_takes_four_steps() {
    let mut t = transfer();
    for stage in [
        SaveStage::SendHeader,
        SaveStage::AwaitHeaderStatus,
        SaveStage::SendData,
        SaveStage::AwaitDataStatus,
    ] {
        assert_eq!(t.stage, stage);
        assert_eq!(shown(t.finish()), "[SetLoadingSlot(-1)]");
        assert_eq!(t.advance(Ok(())), None);
    }
    assert_eq!(t.stage, SaveStage::Saved);
    assert_eq!(shown(t.finish()), "[ClearNameEdited(3), SetLoadingSlot(-1)]");
    t.advance(Err(SaveFailure::Refused("late".to_string())));
    assert_eq!(t.stage, SaveStage::Saved);
}

#[test]
fn saving_fails_at_any_step() {
    let cases: Vec<(usize, SaveFailure, &str)> = vec![
        (0, SaveFailure::NotSent("x".to_string()), "Failed to send header: x"),
        (1, SaveFailure::Refused("x".to_string()), "Device NAK after header: x"),
        (1, SaveFailure::NoStatus("x".to_string()), "Failed to receive ACK after header: x"),
        (2, SaveFailure::NotSent("x".to_string()), "Failed to send data: x"),
        (3, SaveFailure::Refused("x".to_string()), "Device NAK after data: x"),
        (3, SaveFailure::NoStatus("x".to_string()), "Failed to receive ACK after data: x"),
    ];
    for (steps, failure, text) in cases {
        let mut t = transfer();
        for _ in 0..steps {
            t.advance(Ok(()));
        }
        assert_eq!(t.advance(Err(failure)), Some(text.to_string()));
        assert_eq!(t.stage, SaveStage::Failed);
        t.advance(Ok(()));
        assert_eq!(t.stage, SaveStage::Failed);
        assert_eq!(shown(t.finish()), "[SetLoadingSlot(-1)]");
    }
}
