use std::io::Cursor;
use volca_manager::audio::{
    convert_float, copy_samples, finish_resample, finish_wav, load_wav_file, mix_to_mono,
    playback_rate, playback_step, resample_audio, speed_of, wav_layout, OriginalSample, PlaybackStep, StopSignal,
    WavFormat, WavLayout, VOLCA_SAMPLERATE,
};
use volca_manager::single::{convert_mono, convert_stereo};

fn wav(spec: hound::WavSpec, ints: &[i32], floats: &[f32]) -> Vec<u8> {
    let mut cursor = Cursor::new(Vec::new());
    let mut writer = hound::WavWriter::new(&mut cursor, spec).unwrap();
    for s in ints {
        writer.write_sample(*s).unwrap();
    }
    for s in floats {
        writer.write_sample(*s).unwrap();
    }
    writer.finalize().unwrap();
    cursor.into_inner()
}

fn spec(channels: u16, sample_rate: u32, bits_per_sample: u16, float: bool) -> hound::WavSpec {
    hound::WavSpec {
        channels,
        sample_rate,
        bits_per_sample,
        sample_format: if float { hound::SampleFormat::Float } else { hound::SampleFormat::Int },
    }
}

fn no_float(_bytes: &[u8]) -> Result<Vec<u32>, String> {
    panic!("asked for floating point samples")
}

fn no_resampler(_samples: &[i16], _from: u32, _to: u32) -> Result<Vec<i16>, String> {
    panic!("asked to resample")
}

#[test]
fn speed_is_that_of_single_precision() {
    let mut rates: Vec<u32> = (0..140_000).collect();
    rates.extend([16_777_215, 16_777_217, 16_777_219, 33_554_435, 2_147_483_777, u32::MAX]);
    for rate in rates {
        let expected = ((rate as f32 / VOLCA_SAMPLERATE as f32) * 16384.0) as u16;
        assert_eq!(speed_of(rate), expected, "rate {}", rate);
    }
}

#[test]
fn speed_of_common_rates() {
    assert_eq!(speed_of(0), 0);
    assert_eq!(speed_of(8_000), 4194);
    assert_eq!(speed_of(16_000), 8388);
    assert_eq!(speed_of(22_050), 11560);
    assert_eq!(speed_of(31_250), 16384);
    assert_eq!(speed_of(62_500), 32768);
    assert_eq!(speed_of(124_999), 65535);
    assert_eq!(speed_of(125_000), 65535);
    assert_eq!(speed_of(192_000), 65535);
}

#[test]
fn speed_grows_with_the_rate() {
    let mut last = 0;
    for rate in 0..140_000 {
        assert!(speed_of(rate) >= last);
        last = speed_of(rate);
    }
}

#[test]
fn speed_gives_back_the_rate() {
    for rate in (0..=125_000u32).step_by(7) {
        let played = playback_rate(speed_of(rate));
        assert!(played <= rate && rate <= played + 2, "rate {}", rate);
    }
}

#[test]
fn playback_rate_is_that_of_double_precision() {
    for speed in 0..=u16::MAX {
        let expected = (31250.0 * (speed as f64 / 16384.0)) as u32;
        assert_eq!(playback_rate(speed), expected);
    }
    assert_eq!(playback_rate(16384), 31250);
    assert_eq!(playback_rate(8192), 15625);
    assert_eq!(playback_rate(0), 0);
}

#[test]
fn current_rate_is_that_of_single_precision() {
    for speed in 0..=u16::MAX {
        let sample =
            OriginalSample { samples: vec![], original_sample_rate: 44100, current_speed: speed };
        let expected = 31250.0 * speed as f32 / 16384.0;
        assert_eq!(sample.current_sample_rate() as f32 / 16384.0, expected);
    }
}

#[test]
fn mixing_takes_the_mean() {
    assert_eq!(mix_to_mono(&[100, 200, -3, -4, 3, -4, 7]), vec![150, -3, 0]);
    assert_eq!(mix_to_mono(&[i16::MAX, i16::MAX, i16::MIN, i16::MIN]), vec![i16::MAX, i16::MIN]);
    assert_eq!(mix_to_mono(&[]), Vec::<i16>::new());
    assert_eq!(mix_to_mono(&[1, 2]), mix_to_mono(&[2, 1]));
}

#[test]
fn copies_are_equal() {
    assert_eq!(copy_samples(&[1, -2, 3]), vec![1, -2, 3]);
}

#[test]
fn load_int_mono() {
    let bytes = wav(spec(1, 16_000, 16, false), &[1, -2, 32767, -32768], &[]);
    let loaded = load_wav_file(&bytes, no_float);
    assert_eq!(loaded, Ok((16_000, vec![1, -2, 32767, -32768], 8388)));
}

#[test]
fn load_int_stereo() {
    let bytes = wav(spec(2, 44_100, 16, false), &[10, 20, -5, -6], &[]);
    let loaded = load_wav_file(&bytes, no_float);
    assert_eq!(loaded, Ok((44_100, vec![15, -5], 16384)));
}

fn float_bits(bytes: &[u8]) -> Result<Vec<u32>, String> {
    let mut reader = hound::WavReader::new(bytes).map_err(|e| e.to_string())?;
    let samples: Result<Vec<f32>, hound::Error> = reader.samples::<f32>().collect();
    Ok(samples.map_err(|e| e.to_string())?.into_iter().map(f32::to_bits).collect())
}

#[test]
fn load_float() {
    let bytes = wav(spec(1, 31_250, 32, true), &[], &[0.5, -0.5, 1.0, -1.0, 2.0, -2.0, 0.0]);
    let loaded = load_wav_file(&bytes, float_bits);
    let expected = vec![16384, -16384, 32767, -32767, 32767, -32768, 0];
    assert_eq!(loaded, Ok((31_250, expected, 16384)));
    let bytes = wav(spec(2, 8_000, 32, true), &[], &[0.5, 0.25, 1.0, -1.0]);
    assert_eq!(load_wav_file(&bytes, float_bits), Ok((8_000, vec![12288, 0], 4194)));
    let loaded = load_wav_file(&bytes, |_: &[u8]| Err("broken".to_string()));
    assert_eq!(loaded, Err("Failed to read samples: broken".to_string()));
}

#[test]
fn files_of_equal_channels_load_alike() {
    let ints = [1, -2, 32767, -32768];
    let twice: Vec<i32> = ints.iter().flat_map(|&s| [s, s]).collect();
    assert_eq!(
        load_wav_file(&wav(spec(2, 16_000, 16, false), &twice, &[]), no_float),
        load_wav_file(&wav(spec(1, 16_000, 16, false), &ints, &[]), no_float)
    );
    let floats = [0.1, -0.7, 1.0, -1.0, 3.0e38, 1.0e-40, f32::NAN, f32::INFINITY];
    let twice: Vec<f32> = floats.iter().flat_map(|&s| [s, s]).collect();
    assert_eq!(
        load_wav_file(&wav(spec(2, 16_000, 32, true), &[], &twice), float_bits),
        load_wav_file(&wav(spec(1, 16_000, 32, true), &[], &floats), float_bits)
    );
}

/// Bits of all kinds: special values, values about one, and arbitrary ones.
fn some_bits() -> Vec<u32> {
    let mut out: Vec<u32> = vec![
        0, 0x8000_0000, 1, 0x8000_0001, 0x007f_ffff, 0x0080_0000, 0x3f80_0000, 0xbf80_0000,
        0x3f7f_ffff, 0x4000_0000, 0x7f7f_ffff, 0xff7f_ffff, 0x7f80_0000, 0xff80_0000, 0x7fc0_0000,
        0x3800_0100, 0x3780_0100, 0xb780_0100,
    ];
    let mut x: u32 = 777;
    for i in 0..400u32 {
        x = x.wrapping_mul(1_664_525).wrapping_add(1_013_904_223);
        out.push(x);
        // Close to one, where neither everything nor nothing is cut off.
        out.push((x & 0x80ff_ffff) | ((0x30 + i % 0x11) << 24));
    }
    for k in 0..60 {
        out.push(((k as f32 + 0.5) / 32767.0).to_bits());
    }
    out
}

#[test]
fn conversion_is_that_of_single_precision() {
    let bits = some_bits();
    for (b, converted) in bits.iter().zip(convert_mono(&bits)) {
        let f = f32::from_bits(*b);
        assert_eq!(converted, (f * i16::MAX as f32).round() as i16, "{:#x}", b);
    }
}

#[test]
fn mixed_conversion_is_that_of_single_precision() {
    let bits = some_bits();
    for l in &bits {
        for r in &bits {
            let (a, b) = (f32::from_bits(*l), f32::from_bits(*r));
            let expected = (((a + b) / 2.0) * i16::MAX as f32).round() as i16;
            assert_eq!(convert_stereo(&[*l, *r]), vec![expected], "{:#x} {:#x}", l, r);
        }
    }
    assert_eq!(convert_stereo(&[0x3f80_0000]), Vec::<i16>::new());
}

#[test]
fn float_layouts() {
    let one = 0x3f80_0000;
    let bits = || Ok(vec![one, 0]);
    assert_eq!(convert_float(WavLayout::FloatMono, bits()), Ok(vec![32767, 0]));
    assert_eq!(convert_float(WavLayout::FloatStereo, bits()), Ok(vec![16384]));
    assert_eq!(convert_float(WavLayout::FloatMono, Err("x".to_string())), Err("x".to_string()));
}

#[test]
fn clones_are_equal() {
    let sample =
        OriginalSample { samples: vec![1, 2], original_sample_rate: 8_000, current_speed: 4194 };
    let twin = sample.clone();
    assert_eq!(twin.samples, sample.samples);
    assert_eq!((twin.original_sample_rate, twin.current_speed), (8_000, 4194));
}

#[test]
fn load_refuses_other_formats() {
    let cases: Vec<(hound::WavSpec, Vec<i32>, &str)> = vec![
        (spec(1, 44_100, 8, false), vec![1], "Unsupported WAV format: 8 bit Int, 1 channels"),
        (spec(2, 44_100, 24, false), vec![1, 2], "Unsupported WAV format: 24 bit Int, 2 channels"),
        (spec(3, 44_100, 16, false), vec![1, 2, 3], "Unsupported WAV format: 16 bit Int, 3 channels"),
    ];
    for (format, samples, text) in cases {
        let loaded = load_wav_file(&wav(format, &samples, &[]), no_float);
        assert_eq!(loaded, Err(text.to_string()));
    }
    let bytes = wav(spec(3, 44_100, 32, true), &[], &[0.0, 0.0, 0.0]);
    assert_eq!(
        load_wav_file(&bytes, no_float),
        Err("Unsupported WAV format: 32 bit Float, 3 channels".to_string())
    );
}

#[test]
fn load_refuses_what_is_no_wav() {
    let loaded = load_wav_file(b"this is no sound at all", no_float);
    assert_eq!(
        loaded,
        Err("Failed to open WAV: Ill-formed WAVE file: no RIFF tag found".to_string())
    );
}

#[test]
fn load_refuses_a_truncated_file() {
    let mut bytes = wav(spec(1, 16_000, 16, false), &[1, 2, 3, 4], &[]);
    bytes.truncate(bytes.len() - 3);
    let text = load_wav_file(&bytes, no_float).unwrap_err();
    assert!(text.starts_with("Failed to read samples: "), "{}", text);
}

#[test]
fn layouts() {
    let format = |channels, bits_per_sample, float| WavFormat {
        channels,
        sample_rate: 44_100,
        bits_per_sample,
        float,
    };
    assert_eq!(wav_layout(format(1, 16, false)), Ok(WavLayout::IntMono));
    assert_eq!(wav_layout(format(2, 16, false)), Ok(WavLayout::IntStereo));
    assert_eq!(wav_layout(format(1, 32, true)), Ok(WavLayout::FloatMono));
    assert_eq!(wav_layout(format(2, 32, true)), Ok(WavLayout::FloatStereo));
    assert_eq!(
        wav_layout(format(1, 32, false)),
        Err("Unsupported WAV format: 32 bit Int, 1 channels".to_string())
    );
}

#[test]
fn loaded_files_never_play_faster_than_the_device() {
    for rate in [31_249, 31_250, 31_251, 96_000] {
        let speed = finish_wav(Ok(vec![0]), rate).unwrap().2;
        assert!(speed <= 16384);
    }
    assert_eq!(finish_wav(Ok(vec![]), 44_100), Ok((44_100, vec![], 16384)));
    assert_eq!(
        finish_wav(Err("x".to_string()), 44_100),
        Err("Failed to read samples: x".to_string())
    );
}

#[test]
fn equal_rates_are_not_resampled() {
    assert_eq!(resample_audio(&[1, 2, 3], 8_000, 8_000, no_resampler), Ok(vec![1, 2, 3]));
    let sample = OriginalSample {
        samples: vec![4, 5],
        original_sample_rate: VOLCA_SAMPLERATE,
        current_speed: 9000,
    };
    assert_eq!(sample.resample_to(VOLCA_SAMPLERATE, no_resampler), Ok((vec![4, 5], 16384)));
}

#[test]
fn other_rates_are_resampled() {
    let sample =
        OriginalSample { samples: vec![4, 5], original_sample_rate: 16_000, current_speed: 8388 };
    let resampled = sample.resample_to(8_000, |samples: &[i16], from: u32, to: u32| {
        assert_eq!((samples, from, to), (&[4i16, 5][..], 16_000, 8_000));
        Ok(vec![9])
    });
    assert_eq!(resampled, Ok((vec![9], 4194)));
    let failed = sample.resample_to(8_000, |_: &[i16], _: u32, _: u32| Err("no".to_string()));
    assert_eq!(failed, Err("Resample failed: no".to_string()));
    assert_eq!(finish_resample(Ok(vec![1]), 5), Ok((vec![1], 5)));
}

#[test]
fn playback_steps() {
    assert_eq!(playback_step(true, StopSignal::Empty), PlaybackStep::Completed);
    assert_eq!(playback_step(true, StopSignal::Stop), PlaybackStep::Completed);
    assert_eq!(playback_step(false, StopSignal::Stop), PlaybackStep::Stopped);
    assert_eq!(playback_step(false, StopSignal::Disconnected), PlaybackStep::Stopped);
    assert_eq!(playback_step(false, StopSignal::Empty), PlaybackStep::Continue);
}
