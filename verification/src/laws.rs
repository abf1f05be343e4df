//! What the operations do, stated of the functions themselves: of what goes in,
//! what comes out, and what is there before and after.

use crate::audio::{
    law_frames_are_averaged, law_loaded_is_the_file, law_rate_of_speed,
    law_resampled_plays_at_the_rate, law_resampler_is_asked, law_speed_is_exact,
    law_speed_saturates, load_wav_file, mix_to_mono, playback_rate, resample_audio, resampled_by,
    resampled_to, speed_of, wav_header, wav_loaded, wav_samples, OriginalSample, VOLCA_SAMPLERATE,
};
use crate::callbacks::{
    connect_clicked, connect_finished, law_connect_button, law_connecting_scans,
    law_download_is_of_the_slot, law_edit_is_of_the_slot, law_play_plays_the_slot,
    law_select_shows_the_slot, law_work_on_a_slot, next_page_clicked,
    prev_page_clicked,
};
use crate::delete::{
    begin_delete, law_delete_is_of_the_slot, law_empty_header, law_only_the_slot_is_emptied,
};
use crate::device::{
    find_volca_ports, law_arrival_without_clock, law_first_port, law_parts_of_a_message, law_received_is_the_first_message,
    DeviceSearch, MidiDevice, PortError, ReceiveError, ReceiveStep, SampleTransfer, TransferStep,
    Transmission,
};
use crate::download::{
    begin_download, law_download_is_shown, law_fetched_is_kept, DataWanted, HeaderWanted,
};
use crate::effects::{acts, Act, Effect};
use crate::loading::{
    display_name, law_load_is_into_the_slot, law_load_is_shown, law_name_is_cut, load_outcome,
    name_of_file, Loaded,
};
use crate::proto::{SampleData, SampleHeader, SampleHeaderDumpRequest};
use crate::save::{
    begin_save, law_mark_goes_when_saved, law_save_is_of_the_slot,
    law_written_audio_has_the_device_rate, save_prepared, PreparedSave, SaveFailure, SaveStage,
    SaveTransfer,
};
use crate::scan::{law_row_is_the_answer, law_scan_goes_on, reply_content, scanned_row, Scan};
use crate::single::{
    convert_mono, convert_stereo, decoded, law_conversion_is_near, law_mean_is_near,
    law_samples_of_a_file, Value,
};
use crate::state::{AppState, PlaybackInfo, SampleInfo};
use crate::text::{lowered, occurs, texts};
use crate::upload::{law_upload_only_if_resampled, upload_clicked, upload_outcome};
use crate::waveform::{
    center_index, generate_waveform_path, law_center_in_range, law_center_is_in_place,
    law_outline_turns_back, law_point_shows_its_samples, point_count, Abscissa, WaveformPath,
};
use vstd::arithmetic::power2::pow2;
use vstd::prelude::*;
use vstd::string::*;

verus! {

/// The speed for a rate is the exact one in fixed point, up to the rounding of
/// the ratio; it is the largest there is from four times the device's rate on.
pub proof fn law_of_speed_of(rate: u32, r: u16)
    requires
        call_ensures(speed_of, (rate,), r),
    ensures
        rate < 125000 ==> (16384 * rate) / 31250 <= r && 31250 * r <= 16384 * rate + 256,
        rate >= 125000 ==> r == 65535,
{
    if rate < 125000 {
        law_speed_is_exact(rate as nat);
    } else {
        law_speed_saturates(rate as nat);
    }
}

/// A speed plays at the largest whole number of Hz that is not above its share of
/// the device's rate.
pub proof fn law_of_playback_rate(speed: u16, r: u32)
    requires
        call_ensures(playback_rate, (speed,), r),
    ensures
        16384 * r <= 31250 * speed < 16384 * (r + 1),
{
    law_rate_of_speed(speed as nat);
}

/// Mixing gives the mean of each frame, cut off toward zero.
pub proof fn law_of_mix_to_mono(samples: &[i16], r: Vec<i16>, i: int)
    requires
        call_ensures(mix_to_mono, (samples,), r),
    ensures
        2 * r@.len() <= samples@.len() < 2 * r@.len() + 2,
        0 <= i < r@.len() ==> {
            let twice = 2 * r@[i];
            let sum = samples@[2 * i] + samples@[2 * i + 1];
            &&& -1 <= sum - twice <= 1
            &&& sum >= 0 ==> 0 <= twice <= sum
            &&& sum <= 0 ==> sum <= twice <= 0
        },
{
    law_frames_are_averaged(samples@);
}

/// Audio whose rate is not the one wanted is resampled: the result is what the
/// resampler gave for these samples and these rates.
pub proof fn law_of_resample_audio<F: FnOnce(&[i16], u32, u32) -> Result<Vec<i16>, String>>(
    samples: &[i16],
    from_rate: u32,
    to_rate: u32,
    resampler: F,
    r: Result<Vec<i16>, String>,
)
    requires
        call_ensures(resample_audio::<F>, (samples, from_rate, to_rate, resampler), r),
    ensures
        from_rate != to_rate ==> exists|input: &[i16]|
            input@ == samples@ && #[trigger] call_ensures(resampler, (input, from_rate, to_rate), r),
        from_rate == to_rate ==> (r matches Ok(copy) && copy@ == samples@),
{
    law_resampler_is_asked(samples@, from_rate, to_rate, resampler, r);
}

/// Kept audio is resampled from its own rate to the one wanted, and comes with the
/// speed for that.
pub proof fn law_of_resample_to<F: FnOnce(&[i16], u32, u32) -> Result<Vec<i16>, String>>(
    audio: &OriginalSample,
    target_rate: u32,
    resampler: F,
    r: Result<(Vec<i16>, u16), String>,
)
    requires
        call_ensures(OriginalSample::resample_to::<F>, (audio, target_rate, resampler), r),
    ensures
        target_rate == audio.original_sample_rate ==> (r matches Ok(pair) && pair.0@
            == audio.samples@),
        target_rate != audio.original_sample_rate ==> exists|
            input: &[i16],
            given: Result<Vec<i16>, String>,
        |
            input@ == audio.samples@ && #[trigger] call_ensures(
                resampler,
                (input, audio.original_sample_rate, target_rate),
                given,
            ) && match given {
                Ok(v) => r matches Ok(pair) && pair.0@ == v@,
                Err(_) => r is Err,
            },
        r matches Ok(pair) ==> {
            &&& target_rate < 125000 ==> (16384 * target_rate) / 31250 <= pair.1 && 31250 * pair.1
                <= 16384 * target_rate + 256
            &&& target_rate >= 125000 ==> pair.1 == 65535
        },
{
    law_resampled_plays_at_the_rate(audio@, target_rate, resampler, r);
}

/// A 16-bit file is loaded with its own rate and the speed that goes with it: one
/// of one channel as it is, one of two channels as the means of its frames.
pub proof fn law_of_load_wav_file<F: FnOnce(&[u8]) -> Result<Vec<u32>, String>>(
    bytes: &[u8],
    channels: u16,
    rate: u32,
    samples: Seq<i16>,
    read_float: F,
    r: Result<(u32, Vec<i16>, u16), String>,
    i: int,
)
    requires
        call_ensures(load_wav_file::<F>, (bytes, read_float), r),
        wav_header(bytes@) == Ok::<(u16, u32, u16, bool), Seq<char>>((channels, rate, 16, false)),
        wav_samples(bytes@) == Ok::<Seq<i16>, Seq<char>>(samples),
        channels == 1 || channels == 2,
    ensures
        r matches Ok(l) && {
            &&& l.0 == rate
            &&& rate > 31250 ==> l.2 == 16384
            &&& rate <= 31250 ==> (16384 * rate) / 31250 <= l.2 && 31250 * l.2 <= 16384 * rate + 256
            &&& channels == 1 ==> l.1@ == samples
            &&& channels == 2 ==> 2 * l.1@.len() <= samples.len() < 2 * l.1@.len() + 2
            &&& channels == 2 && 0 <= i < l.1@.len() ==> {
                let twice = 2 * l.1@[i];
                let sum = samples[2 * i] + samples[2 * i + 1];
                &&& -1 <= sum - twice <= 1
                &&& sum >= 0 ==> 0 <= twice <= sum
                &&& sum <= 0 ==> sum <= twice <= 0
            }
        },
{
    law_loaded_is_the_file(bytes, channels, rate, 16, false, read_float, r);
}

/// The path of a waveform has a vertex above and one below for each point. They
/// enclose the sample at the place of the point and every sample of the point's
/// share around it, and each is the value of a sample no further away than that.
pub proof fn law_of_generate_waveform_path(
    samples: &[i16],
    num_points: usize,
    r: WaveformPath,
    i: int,
    k: int,
)
    requires
        call_ensures(generate_waveform_path, (samples, num_points), r),
        num_points >= 2,
        0 <= i < num_points,
        samples@.len() * num_points <= 0x4_0000_0000_0000,
        samples@.len() <= usize::MAX,
    ensures
        samples@.len() == 0 <==> r is Flat,
        r matches WaveformPath::Outline(path) ==> {
            let len = samples@.len();
            let share: int = if len < num_points {
                1
            } else {
                len as int / num_points as int
            };
            let high = path@[1 + i];
            let low = path@[2 * num_points + 2 - i];
            &&& path@.len() == 2 * num_points + 4
            &&& high.x == (Abscissa::Point { index: i as usize, count: num_points })
            &&& low.x == (Abscissa::Point { index: i as usize, count: num_points })
            &&& exists|center: int|
                #![trigger samples@[center]]
                {
                    &&& 0 <= center < len
                    &&& center * (num_points - 1) <= i * (len - 1) <= (center + 1) * (num_points - 1)
                    &&& low.value <= samples@[center] <= high.value
                    &&& 0 <= k < len && center - share / 2 <= k < center - share / 2 + share
                        ==> low.value <= samples@[k] <= high.value
                    &&& exists|j: int|
                        0 <= j < len && center - share <= j <= center + share
                            && #[trigger] samples@[j] == low.value
                    &&& exists|j: int|
                        0 <= j < len && center - share <= j <= center + share
                            && #[trigger] samples@[j] == high.value
                }
        },
{
    if samples@.len() > 0 {
        let len = samples@.len();
        assert(len <= 0x4_0000_0000_0000 && num_points <= 0x4_0000_0000_0000) by (nonlinear_arith)
            requires
                len * num_points <= 0x4_0000_0000_0000,
                len >= 1,
                num_points >= 2,
        ;
        assert(point_count(num_points) == num_points);
        law_outline_turns_back(samples@, num_points, i);
        law_point_shows_its_samples(samples@, i as nat, num_points, k);
        law_center_is_in_place(i as nat, num_points as nat, len);
        let center = center_index(i as nat, num_points as nat, len) as int;
        law_center_in_range(i as nat, num_points as nat, len);
        assert(samples@[center] == samples@[center]);
    }
}

/// A message is sent as it is, in parts of no more than 256 bytes.
pub proof fn law_of_send_message(device: &MidiDevice, encoded: &[u8], r: Vec<Transmission>, k: int)
    requires
        call_ensures(MidiDevice::send_message, (device, encoded), r),
        0 <= k < r@.len(),
    ensures
        r@.map_values(|t: Transmission| t.bytes@).flatten() == encoded@,
        r@[k].bytes@.len() <= 256,
        k < r@.len() - 1 ==> r@[k].bytes@.len() == 256,
        r@[k].pause <==> encoded@.len() > 256 && r@[k].bytes@.last() != 0xF7,
{
    law_parts_of_a_message(encoded@, r@, k);
}

/// What is received is the first message that has come in, and what follows it
/// stays; if there is none, everything stays and the time decides.
pub proof fn law_of_receive_message(
    device: &mut MidiDevice,
    elapsed_ns: u128,
    timeout_ns: u128,
    r: ReceiveStep,
    start: int,
    end: int,
)
    requires
        call_ensures(MidiDevice::receive_message, (device, elapsed_ns, timeout_ns), r),
    ensures
        ({
            let before = old(device).input_buffer@;
            let after = final(device).input_buffer@;
            &&& 0 <= start < end - 1 < before.len() && before[start] == 0xF0 && before[end - 1]
                == 0xF7 && (forall|k: int| 0 <= k < start ==> #[trigger] before[k] != 0xF0) && (
            forall|k: int| start <= k < end - 1 ==> #[trigger] before[k] != 0xF7) ==> {
                &&& r is Message
                &&& after == before.skip(end)
            }
            &&& (forall|i: int, j: int|
                0 <= i < j < before.len() ==> !(#[trigger] before[i] == 0xF0
                    && #[trigger] before[j] == 0xF7)) ==> {
                &&& after == before
                &&& r is TimedOut <==> elapsed_ns > timeout_ns
                &&& r is Wait <==> elapsed_ns <= timeout_ns
            }
        }),
        final(device).channel == old(device).channel,
        final(device).firmware_version == old(device).firmware_version,
{
    law_received_is_the_first_message(
        old(device).input_buffer@,
        elapsed_ns,
        timeout_ns,
        final(device).input_buffer@,
        r,
        start,
        end,
    );
}

/// Bytes that arrive are kept behind those that came before, but for the clock.
pub proof fn law_of_bytes_arrived(device: &mut MidiDevice, message: &[u8])
    requires
        call_ensures(MidiDevice::bytes_arrived, (device, message), ()),
        !message@.contains(0xF8u8),
    ensures
        final(device).input_buffer@ == old(device).input_buffer@ + message@,
{
    law_arrival_without_clock(message@);
}

/// The ports that are found are the first of each kind whose name, in lower case,
/// has that of the device in it.
pub proof fn law_of_find_volca_ports(
    in_names: &Vec<String>,
    out_names: &Vec<String>,
    r: Result<(usize, usize), PortError>,
    k: int,
)
    requires
        call_ensures(find_volca_ports, (in_names, out_names), r),
    ensures
        r matches Ok(ports) ==> {
            &&& ports.0 < in_names@.len()
            &&& ports.1 < out_names@.len()
            &&& occurs("volca sample"@, lowered(texts(in_names@))[ports.0 as int])
            &&& occurs("volca sample"@, lowered(texts(out_names@))[ports.1 as int])
            &&& 0 <= k < ports.0 ==> !occurs("volca sample"@, lowered(texts(in_names@))[k])
            &&& 0 <= k < ports.1 ==> !occurs("volca sample"@, lowered(texts(out_names@))[k])
        },
        r is Err && 0 <= k < in_names@.len() && occurs(
            "volca sample"@,
            lowered(texts(in_names@))[k],
        ) ==> forall|j: int|
            0 <= j < out_names@.len() ==> !occurs(
                "volca sample"@,
                #[trigger] lowered(texts(out_names@))[j],
            ),
{
    law_first_port(lowered(texts(in_names@)));
    law_first_port(lowered(texts(out_names@)));
}

/// A search makes a device exactly of a reply, with what the reply says.
pub proof fn law_of_search_finished(
    search: DeviceSearch,
    reply: Result<(u8, String), ReceiveError>,
    r: Result<MidiDevice, ReceiveError>,
)
    requires
        call_ensures(DeviceSearch::search_finished, (search, reply), r),
    ensures
        r is Ok <==> reply is Ok,
        reply matches Ok((id, version)) ==> (r matches Ok(device) && device.channel == id
            && device.firmware_version@ == version@ && device.input_buffer@
            == search.input_buffer@),
{
}

/// A header is asked for by the number of the slot, and so is the data, before
/// which everything that has come in is forgotten.
pub proof fn law_of_requests(
    device: &MidiDevice,
    other: &mut MidiDevice,
    slot: u8,
    header: SampleHeaderDumpRequest,
    transfer: SampleTransfer,
)
    requires
        call_ensures(MidiDevice::get_sample_info, (device, slot), header),
        call_ensures(MidiDevice::get_sample_data, (other, slot), transfer),
    ensures
        header.sample_no == slot,
        transfer.request.sample_no == slot,
        transfer.received is None,
        final(other).input_buffer@.len() == 0,
        final(other).channel == old(other).channel,
{
}

/// A transfer goes on with each message, whose data it appends; it is complete at
/// the first silence, with all that came, and fails if nothing came.
pub proof fn law_of_transfer(
    transfer: SampleTransfer,
    reply: Result<SampleData, ReceiveError>,
    r: TransferStep,
)
    requires
        call_ensures(SampleTransfer::advance, (transfer, reply), r),
    ensures
        r is Receive <==> reply is Ok,
        r is Failed <==> reply is Err && transfer.received is None,
        reply matches Ok(m) ==> (r matches TransferStep::Receive(next) && next.request
            == transfer.request && (next.received matches Some(d) && match transfer.received {
            None => d.sample_no == m.sample_no && d.data@ == m.data@,
            Some(so_far) => d.sample_no == so_far.sample_no && d.data@ == so_far.data@ + m.data@,
        })),
        reply is Err ==> (transfer.received matches Some(so_far) ==> r == TransferStep::Complete(
            so_far,
        )),
{
}

/// The first message of a transfer may take two minutes, each other two seconds.
pub proof fn law_of_transfer_timeout(transfer: &SampleTransfer, r: u64)
    requires
        call_ensures(SampleTransfer::timeout_ms, (transfer,), r),
    ensures
        transfer.received is None ==> r == 120_000,
        transfer.received is Some ==> r == 2_000,
{
}

/// A row that was set is the one that is found; others stay.
pub proof fn law_of_rows(
    state: &mut AppState,
    slot: i32,
    info: SampleInfo,
    looked: &AppState,
    k: i32,
    found: Option<SampleInfo>,
)
    requires
        call_ensures(AppState::update_sample, (state, slot, info), ()),
        call_ensures(AppState::get_sample, (looked, k), found),
        *looked == *final(state),
        old(state)@.wf(),
    ensures
        found is Some <==> 0 <= k < 200,
        0 <= k < 200 && k == slot ==> (found matches Some(x) && x@ == info@),
        0 <= k < 200 && k != slot ==> (found matches Some(x) && x@ == old(state)@.rows[k as int]),
{
}

/// A message is put at the end of the log behind its time; earlier lines stay.
pub proof fn law_of_log(state: &mut AppState, timestamp: &str, message: &str, r: String, i: int)
    requires
        call_ensures(AppState::log, (state, timestamp, message), r),
    ensures
        ({
            let before = old(state)@.logs;
            let after = final(state)@.logs;
            &&& after.len() == before.len() + 1
            &&& after.last() == "["@ + timestamp@ + "] "@ + message@
            &&& 0 <= i < before.len() ==> after[i] == before[i]
            &&& before.len() == 0 ==> r@ == after.last()
            &&& final(state)@.rows == old(state)@.rows
            &&& final(state)@.downloaded == old(state)@.downloaded
        }),
{
    let after = final(state)@.logs;
    if old(state)@.logs.len() == 0 {
        assert(after[0] == after.last());
    }
}

/// What is kept for a slot is what is found there.
pub proof fn law_of_kept_audio(
    state: &mut AppState,
    slot: u8,
    audio: OriginalSample,
    looked: &AppState,
    k: u8,
    found: Option<&OriginalSample>,
)
    requires
        call_ensures(AppState::keep_audio, (state, slot, audio), ()),
        call_ensures(AppState::audio_of, (looked, k), found),
        *looked == *final(state),
    ensures
        k == slot ==> (found matches Some(x) && x.samples@ == audio.samples@
            && x.original_sample_rate == audio.original_sample_rate && x.current_speed
            == audio.current_speed),
        k != slot ==> (found is Some <==> old(state)@.downloaded.dom().contains(k)),
        k != slot ==> (found matches Some(x) ==> x@ == old(state)@.downloaded[k]),
{
}

/// The download button asks for a refreshing download of its own slot and of no
/// other, if there is a sample; it changes neither rows nor audio data.
pub proof fn law_of_download_clicked(
    state: &mut AppState,
    slot: i32,
    r: Vec<Effect>,
    k: u8,
    refresh: bool,
)
    requires
        call_ensures(AppState::download_clicked, (state, slot), r),
        old(state)@.wf(),
    ensures
        acts(r@).contains(Act::Download { slot: k, refresh }) <==> 0 <= slot < 200
            && old(state)@.rows[slot as int].has_sample && k == slot && refresh,
        final(state)@.rows == old(state)@.rows,
        final(state)@.downloaded == old(state)@.downloaded,
{
    law_download_is_of_the_slot(old(state)@, slot as int, k, refresh, 0);
    law_work_on_a_slot(old(state)@, slot as int);
}

/// The play button plays what is kept for the selected slot, as it is kept.
pub proof fn law_of_play_clicked(
    state: &mut AppState,
    slot: i32,
    now_ns: u64,
    r: Vec<Effect>,
    samples: Seq<i16>,
    speed: u16,
)
    requires
        call_ensures(AppState::play_clicked, (state, slot, now_ns), r),
        old(state)@.wf(),
    ensures
        ({
            let present = 0 <= slot < 200 && old(state)@.rows[slot as int].has_sample && old(state)@.downloaded.dom().contains(slot as u8);
            let audio = old(state)@.downloaded[slot as u8];
            &&& acts(r@).contains(Act::StartPlayback { samples, speed }) <==> present && samples
                == audio.samples && speed == audio.current_speed
            &&& present ==> final(state).is_playing && final(state).can_stop
            &&& present ==> (final(state).playback_info matches Some(info) && info.started_ns
                == now_ns)
            &&& !present ==> final(state)@ == old(state)@
        }),
        final(state)@.rows == old(state)@.rows,
        final(state)@.downloaded == old(state)@.downloaded,
{
    law_play_plays_the_slot(old(state)@, slot as int, samples, speed, now_ns);
}

/// The stop button tells the player once, and only if there is one to tell; that
/// it plays is noted until it has ended.
pub proof fn law_of_stopping(state: &mut AppState, r: Vec<Effect>, ended: &mut AppState)
    requires
        call_ensures(AppState::stop_clicked, (state,), r),
        call_ensures(AppState::playback_finished, (ended,), ()),
    ensures
        acts(r@).contains(Act::SendStop) <==> old(state).can_stop,
        !final(state).can_stop,
        final(state).is_playing == old(state).is_playing,
        final(state)@.rows == old(state)@.rows,
        !final(ended).is_playing,
        final(ended).playback_info is None,
        final(ended)@.rows == old(ended)@.rows,
        final(ended)@.downloaded == old(ended)@.downloaded,
{
    if old(state).can_stop {
        assert(acts(r@)[0] == Act::SendStop);
    }
    assert(final(state)@.can_stop == final(state).can_stop);
    assert(final(ended)@.is_playing == final(ended).is_playing);
}

/// Looking at the playback, the display is made to agree with what is played, and
/// a position is shown exactly while something is.
pub proof fn law_of_timer_tick(
    state: &AppState,
    shown: bool,
    now_ns: u64,
    r: Vec<Effect>,
    on: bool,
)
    requires
        call_ensures(AppState::timer_tick, (state, shown, now_ns), r),
    ensures
        acts(r@).contains(Act::SetPlaying(on)) <==> shown != state.is_playing && on
            == state.is_playing,
        acts(r@).contains(Act::ResetPosition) <==> shown && !state.is_playing,
        forall|elapsed_ns: u64, info: PlaybackInfo| #[trigger]
            acts(r@).contains(Act::SetPosition { elapsed_ns, info }) ==> state.is_playing
                && state.playback_info == Some(info) && (now_ns >= info.started_ns ==> elapsed_ns
                == now_ns - info.started_ns),
{
    let done = acts(r@);
    if shown != state.is_playing {
        assert(done[0] == Act::SetPlaying(state.is_playing));
        if shown {
            assert(done[1] == Act::ResetPosition);
        }
    }
}

/// Selecting a slot selects it and shows what is kept for it, or downloads it if
/// nothing is.
pub proof fn law_of_pad_selected(
    state: &mut AppState,
    slot: i32,
    r: Vec<Effect>,
    k: u8,
    refresh: bool,
    samples: Seq<i16>,
    s: int,
)
    requires
        call_ensures(AppState::pad_selected, (state, slot), r),
        old(state)@.wf(),
    ensures
        ({
            let present = 0 <= slot < 200 && old(state)@.rows[slot as int].has_sample;
            let here = old(state)@.downloaded.dom().contains(slot as u8);
            &&& acts(r@).contains(Act::SetSelectedSlot(s)) <==> s == slot
            &&& acts(r@).contains(Act::ShowWaveform(samples)) <==> present && here && samples
                == old(state)@.downloaded[slot as u8].samples
            &&& acts(r@).contains(Act::Download { slot: k, refresh }) <==> present && !here && k
                == slot && !refresh
            &&& present ==> !final(state).is_playing
        }),
        final(state)@.rows == old(state)@.rows,
        final(state)@.downloaded == old(state)@.downloaded,
{
    law_select_shows_the_slot(
        old(state)@,
        slot as int,
        k,
        refresh,
        Seq::empty(),
        0,
        samples,
        s,
    );
    law_work_on_a_slot(old(state)@, slot as int);
    assert(final(state)@.is_playing == final(state).is_playing);
}

/// Drawing again draws what is kept for the selected slot.
pub proof fn law_of_regenerate_waveform(
    state: &AppState,
    slot: i32,
    r: Vec<Effect>,
    samples: Seq<i16>,
)
    requires
        call_ensures(AppState::regenerate_waveform, (state, slot), r),
        state@.wf(),
    ensures
        acts(r@).contains(Act::ShowWaveform(samples)) <==> 0 <= slot < 200
            && state@.rows[slot as int].has_sample && state@.downloaded.dom().contains(slot as u8)
            && samples == state@.downloaded[slot as u8].samples,
{
    if state@.playable(slot as int) {
        assert(acts(r@)[0] == Act::ShowWaveform(state@.downloaded[slot as u8].samples));
    }
}

/// Entering a name changes the name of its own row and marks it; noting that it
/// was saved takes that mark away.
pub proof fn law_of_name_edit(
    state: &mut AppState,
    slot: i32,
    name: &str,
    r: Vec<Effect>,
    saved: &mut AppState,
    done: Vec<Effect>,
    k: int,
)
    requires
        call_ensures(AppState::name_edit_accepted, (state, slot, name), r),
        call_ensures(AppState::clear_name_edited_flag, (saved, slot), done),
        old(state)@.wf(),
        old(saved)@.wf(),
        0 <= k < 200,
    ensures
        k == slot ==> final(state)@.rows[k].name == name@ && final(state)@.rows[k].name_edited
            && !final(saved)@.rows[k].name_edited && final(saved)@.rows[k].name == old(saved)@.rows[k].name,
        final(state)@.rows[k].has_sample == old(state)@.rows[k].has_sample,
        final(state)@.rows[k].length == old(state)@.rows[k].length,
        final(saved)@.rows[k].has_sample == old(saved)@.rows[k].has_sample,
        k != slot ==> final(state)@.rows[k] == old(state)@.rows[k] && final(saved)@.rows[k] == old(saved)@.rows[k],
        0 <= slot < 200 ==> acts(r@).contains(Act::ShowSamples) && acts(done@).contains(
            Act::ShowSamples,
        ),
{
    law_edit_is_of_the_slot(old(state)@, slot as int, name@, k);
    law_edit_is_of_the_slot(old(saved)@, slot as int, name@, k);
    if 0 <= slot < 200 {
        assert(acts(r@)[1] == Act::ShowSamples);
        assert(acts(done@)[0] == Act::ShowSamples);
    }
}

/// What the device says of a sample goes into the row of its own slot.
pub proof fn law_of_update_from_device(
    state: &mut AppState,
    slot: i32,
    name: String,
    length: i32,
    speed: i32,
    r: Vec<Effect>,
    k: int,
)
    requires
        call_ensures(AppState::update_sample_from_device, (state, slot, name, length, speed), r),
        old(state)@.wf(),
        0 <= k < 200,
    ensures
        ({
            let row = final(state)@.rows[k];
            &&& k == slot ==> row.slot == slot && row.name == name@ && row.length == length
                && row.speed == speed && row.has_sample && !row.name_edited
            &&& k != slot ==> row == old(state)@.rows[k]
        }),
        acts(r@).contains(Act::ShowSamples),
{
    assert(acts(r@)[0] == Act::ShowSamples);
}

/// The connect button lets go of a connected device, and else connects; after
/// that the slots are scanned exactly if it succeeded.
pub proof fn law_of_connecting(
    is_connected: bool,
    r: Vec<Effect>,
    automatic: bool,
    outcome: Result<String, String>,
    done: Vec<Effect>,
    on: bool,
)
    requires
        call_ensures(connect_clicked, (is_connected,), r),
        call_ensures(connect_finished, (automatic, outcome), done),
    ensures
        acts(r@).contains(Act::CloseDevice) <==> is_connected,
        acts(r@).contains(Act::OpenDevice { automatic: false }) <==> !is_connected,
        acts(done@).contains(Act::SetConnected(on)) <==> on == (outcome is Ok),
        acts(done@).contains(Act::ScanSamples) <==> outcome is Ok,
{
    law_connect_button(false, on);
    law_connecting_scans(
        automatic,
        match outcome {
            Ok(firmware) => Ok(firmware@),
            Err(e) => Err(e@),
        },
        on,
    );
}

/// The buttons for pages go one page on or back, within the pages there are.
pub proof fn law_of_pages(current: i32, total: i32, back: Option<i32>, on: Option<i32>)
    requires
        call_ensures(prev_page_clicked, (current,), back),
        call_ensures(next_page_clicked, (current, total), on),
    ensures
        back matches Some(p) ==> p == current - 1 && 0 <= p,
        back is None ==> current <= 0,
        on matches Some(p) ==> p == current + 1 && p < total,
        on is None ==> current + 1 >= total,
{
}

/// A download begins with the header of its slot exactly if there is a device,
/// and goes on to the data exactly if the header came.
pub proof fn law_of_begin_download(
    slot: u8,
    refresh: bool,
    device_present: bool,
    begun: Result<HeaderWanted, Vec<Effect>>,
    wanted: HeaderWanted,
    reply: Result<SampleHeader, String>,
    r: Result<DataWanted, Vec<Effect>>,
)
    requires
        call_ensures(begin_download, (slot, refresh, device_present), begun),
        call_ensures(HeaderWanted::header_received, (wanted, reply), r),
    ensures
        begun is Ok <==> device_present,
        begun matches Ok(w) ==> w.slot == slot && w.refresh == refresh,
        begun matches Err(fx) ==> acts(fx@).contains(Act::SetLoadingSlot(-1)),
        r is Ok <==> reply is Ok,
        r matches Ok(w) ==> w.slot == wanted.slot && w.refresh == wanted.refresh && (
        reply matches Ok(h) && w.header == h),
        r matches Err(fx) ==> acts(fx@).contains(Act::SetLoadingSlot(-1)),
{
    if let Err(fx) = begun {
        assert(acts(fx@)[0] == Act::SetLoadingSlot(-1));
    }
    if let Err(fx) = r {
        assert(acts(fx@)[0] == Act::SetLoadingSlot(-1));
    }
}

/// Data that came is kept for its own slot, all of it, at the device's rate and
/// the speed of the header, and drawn; nothing else changes. If none came nothing
/// changes at all.
pub proof fn law_of_data_received(
    state: &mut AppState,
    wanted: DataWanted,
    reply: Result<SampleData, String>,
    r: Vec<Effect>,
    k: u8,
    samples: Seq<i16>,
)
    requires
        call_ensures(AppState::data_received, (state, wanted, reply), r),
    ensures
        reply matches Ok(d) ==> {
            let audio = final(state)@.downloaded[wanted.slot];
            &&& final(state)@.downloaded.dom().contains(wanted.slot)
            &&& audio.samples == d.data@
            &&& audio.original_sample_rate == 31250
            &&& audio.current_speed == wanted.header.speed
            &&& k != wanted.slot ==> final(state)@.downloaded.dom().contains(k) == old(state)@.downloaded.dom().contains(k) && final(state)@.downloaded[k] == old(state)@.downloaded[k]
            &&& acts(r@).contains(Act::ShowWaveform(samples)) <==> samples == d.data@
        },
        reply is Err ==> final(state)@ == old(state)@,
        final(state)@.rows == old(state)@.rows,
        acts(r@).contains(Act::SetLoadingSlot(-1)),
{
    match reply {
        Ok(d) => {
            law_fetched_is_kept(wanted.header@, d@);
            law_download_is_shown(
                wanted.slot as int,
                d.data@,
                wanted.header.speed,
                if wanted.refresh {
                    Some((wanted.header.name@, wanted.header.length))
                } else {
                    None
                },
                samples,
                -1,
                Seq::empty(),
                0,
                0,
            );
        },
        Err(_) => {
            assert(acts(r@)[0] == Act::SetLoadingSlot(-1));
        },
    }
}

/// A scan begins with the first slot exactly if there is a device.
pub proof fn law_of_scan_all_samples(
    state: &AppState,
    device_present: bool,
    r: (Vec<Effect>, Option<Scan>),
)
    requires
        call_ensures(AppState::scan_all_samples, (state, device_present), r),
    ensures
        r.1 is Some <==> device_present,
        r.1 matches Some(scan) ==> scan.next_slot == 0 && scan.samples_found == 0,
        acts(r.0@).contains(Act::SetScanning(true)),
        acts(r.0@).contains(Act::SetScanning(false)) <==> !device_present,
{
    let done = acts(r.0@);
    assert(done[1] == Act::SetScanning(true));
    if !device_present {
        assert(done[3] == Act::SetScanning(false));
    }
}

/// An answer for a slot goes into the row of that slot and no other: there is a
/// sample exactly if the length is above zero, with the name, the length and the
/// speed of the answer, and it is counted. The scan goes on to the next slot, and
/// ends after the last.
pub proof fn law_of_slot_scanned(
    state: &mut AppState,
    scan: &mut Scan,
    reply: Result<SampleHeader, String>,
    r: Vec<Effect>,
    k: int,
)
    requires
        call_ensures(AppState::slot_scanned, (state, scan, reply), r),
        old(state)@.wf(),
        old(scan).next_slot < 200,
        0 <= k < 200,
    ensures
        ({
            let slot = old(scan).next_slot as int;
            let row = final(state)@.rows[slot];
            let present = reply matches Ok(h) && h.length > 0;
            &&& row.has_sample == present
            &&& row.slot == slot
            &&& !row.name_edited
            &&& reply matches Ok(h) ==> {
                &&& h.length <= i32::MAX ==> row.length == h.length
                &&& row.speed == h.speed
                &&& h.length > 0 ==> row.name == h.name@
            }
            &&& k != slot ==> final(state)@.rows[k] == old(state)@.rows[k]
            &&& final(scan).next_slot == slot + 1
            &&& final(scan).samples_found == old(scan).samples_found + (if present {
                1int
            } else {
                0int
            })
            &&& acts(r@).contains(Act::SetScanning(false)) <==> slot == 199
            &&& acts(r@).contains(Act::ShowSamples) <==> reply is Ok
            &&& final(state)@.downloaded == old(state)@.downloaded
        }),
{
    let slot = old(scan).next_slot as int;
    law_row_is_the_answer(slot, reply_content(reply));
    law_scan_goes_on(slot, reply_content(reply), final(scan).samples_found as nat, false);
    assert(final(state)@.rows[slot] == scanned_row(slot, reply_content(reply)));
}

/// The save button writes the sample of its own slot under the name in its row.
pub proof fn law_of_save_clicked(
    state: &AppState,
    slot: i32,
    r: Vec<Effect>,
    k: u8,
    name: Seq<char>,
)
    requires
        call_ensures(AppState::save_to_device_clicked, (state, slot), r),
        state@.wf(),
    ensures
        acts(r@).contains(Act::SaveSample { slot: k, name }) <==> 0 <= slot < 200
            && state@.rows[slot as int].has_sample && k == slot && name
            == state@.rows[slot as int].name,
{
    law_save_is_of_the_slot(state@, slot as int, k, name, 0);
}

/// What is written of a sample has the rate of the device: the kept samples if
/// they have it, else what the resampler made of them, under the slot and the
/// name, at full level and unity speed.
pub proof fn law_of_begin_save<F: FnOnce(&[i16], u32, u32) -> Result<Vec<i16>, String>>(
    audio: Option<&OriginalSample>,
    slot: u8,
    name: String,
    resampler: F,
    r: Result<PreparedSave, String>,
)
    requires
        call_ensures(begin_save::<F>, (audio, slot, name, resampler), r),
    ensures
        audio is None ==> r is Err,
        r matches Ok(p) ==> {
            &&& p.header.sample_no == slot
            &&& p.data.sample_no == slot
            &&& p.header.name@ == name@
            &&& p.header.level == 65535
            &&& p.header.speed == 16384
            &&& p.data.data@.len() <= u32::MAX ==> p.header.length == p.data.data@.len()
        },
        audio matches Some(a) ==> {
            &&& a.original_sample_rate == 31250 ==> (r matches Ok(p) && p.data.data@ == a.samples@)
            &&& a.original_sample_rate != 31250 ==> exists|
                input: &[i16],
                given: Result<Vec<i16>, String>,
            |
                input@ == a.samples@ && #[trigger] call_ensures(
                    resampler,
                    (input, a.original_sample_rate, 31250u32),
                    given,
                ) && match given {
                    Ok(v) => r matches Ok(p) && p.data.data@ == v@,
                    Err(_) => r is Err,
                }
        },
{
    if let Some(a) = audio {
        let resampled = choose|resampled: Result<(Vec<i16>, u16), String>| #[trigger]
            resampled_to(a@, VOLCA_SAMPLERATE, resampler, resampled) && save_prepared(
                slot,
                name@,
                resampled,
                r,
            );
        law_written_audio_has_the_device_rate(a@, slot, name@, resampler, resampled, r);
    }
}

/// Writing starts with the header exactly if there is a device, and takes along
/// what was prepared.
pub proof fn law_of_start(
    prepared: PreparedSave,
    device_present: bool,
    r: Result<SaveTransfer, String>,
)
    requires
        call_ensures(PreparedSave::start, (prepared, device_present), r),
    ensures
        r is Ok <==> device_present,
        r matches Ok(t) ==> t.header == prepared.header && t.data == prepared.data && t.stage
            == SaveStage::SendHeader,
{
}

/// Each step of the writing that succeeds leads to the next: send the header, wait
/// for its acknowledgement, send the data, wait for its acknowledgement, saved. A
/// step that fails ends it. What is written stays the same.
pub proof fn law_of_advance(
    transfer: &mut SaveTransfer,
    outcome: Result<(), SaveFailure>,
    r: Option<String>,
)
    requires
        call_ensures(SaveTransfer::advance, (transfer, outcome), r),
    ensures
        ({
            let before = old(transfer).stage;
            let after = final(transfer).stage;
            &&& after == SaveStage::AwaitHeaderStatus <==> before == SaveStage::SendHeader
                && outcome is Ok
            &&& after == SaveStage::SendData <==> before == SaveStage::AwaitHeaderStatus && outcome
                is Ok
            &&& after == SaveStage::AwaitDataStatus <==> before == SaveStage::SendData && outcome
                is Ok
            &&& after == SaveStage::Saved <==> before == SaveStage::Saved || (before
                == SaveStage::AwaitDataStatus && outcome is Ok)
            &&& after == SaveStage::Failed <==> before == SaveStage::Failed || (outcome is Err
                && before != SaveStage::Saved)
        }),
        final(transfer).header == old(transfer).header,
        final(transfer).data == old(transfer).data,
        r is Some <==> outcome is Err,
{
}

/// The mark of an edited name goes exactly if the sample was saved.
pub proof fn law_of_finish(transfer: &SaveTransfer, r: Vec<Effect>, s: int)
    requires
        call_ensures(SaveTransfer::finish, (transfer,), r),
    ensures
        acts(r@).contains(Act::ClearNameEdited(s)) <==> transfer.stage == SaveStage::Saved && s
            == transfer.header.sample_no,
        acts(r@).contains(Act::SetLoadingSlot(s)) <==> s == -1,
{
    law_mark_goes_when_saved(transfer.header.sample_no as int, transfer.stage, s);
}

/// Deleting asks the device to empty the slot; only once it has, the row and the
/// audio data of that slot go, and no others.
pub proof fn law_of_deleting(
    clicked: &AppState,
    at: i32,
    asked: Vec<Effect>,
    state: &mut AppState,
    slot: u8,
    outcome: Result<(), SaveFailure>,
    r: Vec<Effect>,
    k: int,
)
    requires
        call_ensures(AppState::delete_clicked, (clicked, at), asked),
        call_ensures(AppState::delete_finished, (state, slot, outcome), r),
        clicked@.wf(),
        old(state)@.wf(),
        slot < 200,
        0 <= k < 200,
    ensures
        acts(asked@).contains(Act::DeleteSample(k as u8)) <==> k == at
            && clicked@.rows[k].has_sample,
        outcome is Err ==> final(state)@ == old(state)@,
        outcome is Ok ==> final(state)@.rows[k].has_sample == (old(state)@.rows[k].has_sample && k
            != slot),
        outcome is Ok && old(state)@.rows[slot as int].has_sample ==> !final(state)@.downloaded.dom().contains(slot),
        k != slot ==> final(state)@.rows[k] == old(state)@.rows[k] && final(state)@.downloaded.dom().contains(k as u8) == old(state)@.downloaded.dom().contains(k as u8),
{
    law_delete_is_of_the_slot(clicked@, at as int, k as u8);
    law_only_the_slot_is_emptied(old(state)@, slot as int, k);
    law_only_the_slot_is_emptied(old(state)@, slot as int, slot as int);
}

/// The device is told of an empty slot exactly if there is one, by a header of
/// that slot with length zero.
pub proof fn law_of_begin_delete(
    slot: u8,
    device_present: bool,
    r: Result<SampleHeader, SaveFailure>,
)
    requires
        call_ensures(begin_delete, (slot, device_present), r),
    ensures
        r is Ok <==> device_present,
        r matches Ok(h) ==> h.sample_no == slot && h.length == 0,
{
    law_empty_header(slot);
}

/// The upload button lets a file be chosen for its own slot, if there is such a
/// slot.
pub proof fn law_of_upload_clicked(slot: i32, r: Vec<Effect>, s: int)
    requires
        call_ensures(upload_clicked, (slot,), r),
    ensures
        acts(r@).contains(Act::ChooseUpload(s)) <==> 0 <= slot < 200 && s == slot,
{
    if 0 <= slot < 200 {
        assert(acts(r@)[1] == Act::ChooseUpload(slot as int));
    }
}

/// A file that was read goes into its own slot if it could be resampled: its own
/// samples, rate and speed are kept, and what was resampled is drawn. If not,
/// nothing changes.
pub proof fn law_of_wav_resampled(
    state: &mut AppState,
    slot: i32,
    name: String,
    rate: u32,
    samples: Vec<i16>,
    speed: u16,
    resampled: Result<Vec<i16>, String>,
    r: Vec<Effect>,
    k: int,
    drawn: Seq<i16>,
)
    requires
        call_ensures(
            AppState::wav_resampled,
            (state, slot, name, rate, samples, speed, resampled),
            r,
        ),
        old(state)@.wf(),
        0 <= slot < 200,
        0 <= k < 200,
    ensures
        resampled matches Ok(v) ==> {
            let audio = final(state)@.downloaded[slot as u8];
            let row = final(state)@.rows[slot as int];
            &&& audio.samples == samples@
            &&& audio.original_sample_rate == rate
            &&& audio.current_speed == speed
            &&& row.name == name@
            &&& row.has_sample
            &&& row.name_edited
            &&& row.speed == speed
            &&& v@.len() <= i32::MAX ==> row.length == v@.len()
            &&& acts(r@).contains(Act::ShowWaveform(drawn)) <==> drawn == v@
        },
        resampled is Err ==> final(state)@ == old(state)@,
        k != slot ==> final(state)@.rows[k] == old(state)@.rows[k],
        k != slot ==> final(state)@.downloaded.dom().contains(k as u8) == old(state)@.downloaded.dom().contains(k as u8),
{
    let loaded = Loaded { rate, samples: samples@, speed };
    if let Ok(v) = resampled {
        law_load_is_into_the_slot(old(state)@, slot, name@, loaded, v@, k);
        law_load_is_shown(name@, loaded, v@, name@, 0, drawn, 0, 0, 0);
    }
}

/// A file of one channel of 16-bit integers that is chosen goes into its slot
/// with its own samples, rate and name; what is drawn, and counted as its length,
/// is what the resampler makes of the samples from the file's rate to the
/// device's, or the samples themselves if the file has that rate. If the resampler
/// fails nothing changes.
pub proof fn law_of_wav_chosen<
    F: FnOnce(&[u8]) -> Result<Vec<u32>, String>,
    G: FnOnce(&[i16], u32, u32) -> Result<Vec<i16>, String>,
>(
    state: &mut AppState,
    slot: i32,
    stem: Option<&str>,
    bytes: &[u8],
    read_float: F,
    resampler: G,
    r: Vec<Effect>,
    rate: u32,
    samples: Seq<i16>,
)
    requires
        call_ensures(
            AppState::wav_chosen::<F, G>,
            (state, slot, stem, bytes, read_float, resampler),
            r,
        ),
        old(state)@.wf(),
        0 <= slot < 200,
        wav_header(bytes@) == Ok::<(u16, u32, u16, bool), Seq<char>>((1, rate, 16, false)),
        wav_samples(bytes@) == Ok::<Seq<i16>, Seq<char>>(samples),
    ensures
        ({
            let audio = final(state)@.downloaded[slot as u8];
            let row = final(state)@.rows[slot as int];
            let here = audio.samples == samples && audio.original_sample_rate == rate
                && row.has_sample && row.name_edited;
            &&& rate == 31250 ==> here && acts(r@).contains(Act::ShowWaveform(samples))
            &&& rate != 31250 ==> exists|input: &[i16], given: Result<Vec<i16>, String>|
                input@ == samples && #[trigger] call_ensures(
                    resampler,
                    (input, rate, 31250u32),
                    given,
                ) && match given {
                    Ok(v) => here && acts(r@).contains(Act::ShowWaveform(v@)) && (v@.len()
                        <= i32::MAX ==> row.length == v@.len()),
                    Err(_) => final(state)@ == old(state)@,
                }
        }),
{
    let name = display_name(
        match stem {
            Some(stem) => Some(stem@),
            None => None,
        },
    );
    let loaded = choose|loaded: Result<(u32, Vec<i16>, u16), String>| #[trigger]
        wav_loaded(bytes, read_float, loaded) && match loaded {
            Err(e) => final(state)@ == old(state)@ && acts(r@) == seq![
                Act::Log("Failed to load WAV: "@ + e@),
            ],
            Ok(l) => exists|resampled: Result<Vec<i16>, String>| #[trigger]
                resampled_by(l.1@, l.0, VOLCA_SAMPLERATE, resampler, resampled) && load_outcome(
                    old(state)@,
                    slot,
                    name,
                    (Loaded { rate: l.0, samples: l.1@, speed: l.2 }),
                    resampled,
                    final(state)@,
                    acts(r@),
                ),
        };
    law_loaded_is_the_file(bytes, 1, rate, 16, false, read_float, loaded);
    if let Ok(l) = loaded {
        let file = Loaded { rate: l.0, samples: l.1@, speed: l.2 };
        let resampled = choose|resampled: Result<Vec<i16>, String>| #[trigger]
            resampled_by(l.1@, l.0, VOLCA_SAMPLERATE, resampler, resampled) && load_outcome(
                old(state)@,
                slot,
                name,
                file,
                resampled,
                final(state)@,
                acts(r@),
            );
        law_resampler_is_asked(samples, rate, 31250, resampler, resampled);
        if let Ok(v) = resampled {
            law_load_is_into_the_slot(old(state)@, slot, name, file, v@, 0);
            law_load_is_shown(name, file, v@, name, 0, v@, 0, 0, 0);
        }
    }
}

/// An upload puts a file that could be resampled into its own slot and writes it
/// from there under its name; if it could not, nothing changes and nothing is
/// written.
pub proof fn law_of_upload_resampled(
    state: &mut AppState,
    slot: i32,
    name: String,
    rate: u32,
    samples: Vec<i16>,
    speed: u16,
    resampled: Result<Vec<i16>, String>,
    r: Vec<Effect>,
    k: u8,
    n: Seq<char>,
)
    requires
        call_ensures(
            AppState::upload_resampled,
            (state, slot, name, rate, samples, speed, resampled),
            r,
        ),
        old(state)@.wf(),
        0 <= slot < 200,
    ensures
        acts(r@).contains(Act::SaveSample { slot: k, name: n }) <==> resampled is Ok && k == slot
            && n == name@,
        resampled is Ok ==> final(state)@.downloaded[slot as u8].samples == samples@
            && final(state)@.downloaded[slot as u8].original_sample_rate == rate
            && final(state)@.rows[slot as int].has_sample,
        resampled is Err ==> final(state)@ == old(state)@,
{
    law_upload_only_if_resampled(
        old(state)@,
        slot,
        name@,
        (Loaded { rate, samples: samples@, speed }),
        resampled,
        final(state)@,
        acts(r@),
        k,
        n,
    );
}

/// A file of one channel of 16-bit integers that is uploaded goes into its slot
/// with its own samples and rate, and from there to the device, unless the
/// resampler fails.
pub proof fn law_of_upload_chosen<
    F: FnOnce(&[u8]) -> Result<Vec<u32>, String>,
    G: FnOnce(&[i16], u32, u32) -> Result<Vec<i16>, String>,
>(
    state: &mut AppState,
    slot: i32,
    stem: Option<&str>,
    bytes: &[u8],
    read_float: F,
    resampler: G,
    r: Vec<Effect>,
    rate: u32,
    samples: Seq<i16>,
)
    requires
        call_ensures(
            AppState::upload_chosen::<F, G>,
            (state, slot, stem, bytes, read_float, resampler),
            r,
        ),
        old(state)@.wf(),
        0 <= slot < 200,
        wav_header(bytes@) == Ok::<(u16, u32, u16, bool), Seq<char>>((1, rate, 16, false)),
        wav_samples(bytes@) == Ok::<Seq<i16>, Seq<char>>(samples),
    ensures
        ({
            let audio = final(state)@.downloaded[slot as u8];
            let row = final(state)@.rows[slot as int];
            let sent = audio.samples == samples && audio.original_sample_rate == rate
                && row.has_sample && acts(r@).contains(
                Act::SaveSample { slot: slot as u8, name: row.name },
            );
            &&& rate == 31250 ==> sent
            &&& rate != 31250 ==> exists|input: &[i16], given: Result<Vec<i16>, String>|
                input@ == samples && #[trigger] call_ensures(
                    resampler,
                    (input, rate, 31250u32),
                    given,
                ) && (if given is Ok {
                    sent
                } else {
                    final(state)@ == old(state)@
                })
        }),
{
    let name = display_name(
        match stem {
            Some(stem) => Some(stem@),
            None => None,
        },
    );
    let loaded = choose|loaded: Result<(u32, Vec<i16>, u16), String>| #[trigger]
        wav_loaded(bytes, read_float, loaded) && match loaded {
            Err(e) => final(state)@ == old(state)@ && acts(r@) == seq![
                Act::Log("Failed to load WAV: "@ + e@),
            ],
            Ok(l) => exists|resampled: Result<Vec<i16>, String>| #[trigger]
                resampled_by(l.1@, l.0, VOLCA_SAMPLERATE, resampler, resampled) && upload_outcome(
                    old(state)@,
                    slot,
                    name,
                    (Loaded { rate: l.0, samples: l.1@, speed: l.2 }),
                    resampled,
                    final(state)@,
                    acts(r@),
                ),
        };
    law_loaded_is_the_file(bytes, 1, rate, 16, false, read_float, loaded);
    if let Ok(l) = loaded {
        let file = Loaded { rate: l.0, samples: l.1@, speed: l.2 };
        let resampled = choose|resampled: Result<Vec<i16>, String>| #[trigger]
            resampled_by(l.1@, l.0, VOLCA_SAMPLERATE, resampler, resampled) && upload_outcome(
                old(state)@,
                slot,
                name,
                file,
                resampled,
                final(state)@,
                acts(r@),
            );
        law_resampler_is_asked(samples, rate, 31250, resampler, resampled);
        law_upload_only_if_resampled(
            old(state)@,
            slot,
            name,
            file,
            resampled,
            final(state)@,
            acts(r@),
            slot as u8,
            name,
        );
    }
}

/// Floating point samples between minus one and one become the nearest 16-bit
/// samples, up to the error of single precision; of two channels the mean does.
pub proof fn law_of_conversion(
    bits: &[u32],
    one: Vec<i16>,
    two: Vec<i16>,
    i: int,
    x: int,
    y: int,
)
    requires
        call_ensures(convert_mono, (bits,), one),
        call_ensures(convert_stereo, (bits,), two),
        0 <= i,
        2 * i + 1 < bits@.len(),
        decoded(bits@[2 * i]) == Value::Finite(x),
        decoded(bits@[2 * i + 1]) == Value::Finite(y),
        -pow2(149) <= x <= pow2(149),
        -pow2(149) <= y <= pow2(149),
    ensures
        one@.len() == bits@.len(),
        2 * two@.len() <= bits@.len() < 2 * two@.len() + 2,
        -257 * pow2(149) <= 512 * (one@[2 * i] * pow2(149) - 32767 * x) <= 257 * pow2(149),
        -258 * (2 * pow2(149)) <= 512 * (two@[i] * (2 * pow2(149)) - 32767 * (x + y)) <= 258 * (2
            * pow2(149)),
{
    law_samples_of_a_file(bits@, 2 * i);
    law_samples_of_a_file(bits@, i);
    law_conversion_is_near(bits@[2 * i], x);
    law_mean_is_near(bits@[2 * i], bits@[2 * i + 1], x, y);
}

/// A file is shown under its own name, cut to twenty-four characters.
pub proof fn law_of_name_of_file(stem: &str, r: String)
    requires
        call_ensures(name_of_file, (Some(stem),), r),
    ensures
        stem@.len() <= 24 ==> r@ == stem@,
        stem@.len() > 24 ==> r@ == stem@.take(24),
{
    law_name_is_cut(stem@);
}

/// A new state has two hundred slots, each under its own number and without a
/// sample.
pub proof fn law_of_new(r: AppState, slot: int)
    requires
        call_ensures(AppState::new, (), r),
    ensures
        r.samples@.len() == 200,
        0 <= slot < 200 ==> r.samples@[slot].slot == slot && !r.samples@[slot].has_sample,
        !r.is_playing,
        !r.can_stop,
{
    assert(r@.rows.len() == r.samples@.len());
    if 0 <= slot < 200 {
        assert(r@.rows[slot] == r.samples@[slot]@);
    }
    assert(r@.is_playing == r.is_playing && r@.can_stop == r.can_stop);
}

} // verus!
