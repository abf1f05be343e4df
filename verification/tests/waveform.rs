use volca_manager::rounding::{divide_to, divide_to_nearest, round_to, DOUBLE, SINGLE};
use volca_manager::waveform::{generate_waveform_path, Abscissa, Vertex, WaveformPath};

fn vertices(samples: &[i16], num_points: usize) -> Vec<Vertex> {
    match generate_waveform_path(samples, num_points) {
        WaveformPath::Outline(vertices) => vertices,
        WaveformPath::Flat => panic!("flat"),
    }
}

/// Smallest and largest sample of each point, computed in floating point.
fn extremes(samples: &[i16], count: usize) -> Vec<(i16, i16)> {
    (0..count)
        .map(|i| {
            let t = i as f64 / (count - 1) as f64;
            let center = (t * (samples.len() - 1) as f64) as usize;
            let window = (samples.len() / count).max(1);
            let start = center.saturating_sub(window / 2);
            let end = (start + window).min(samples.len());
            let part = &samples[start..end];
            (*part.iter().min().unwrap(), *part.iter().max().unwrap())
        })
        .collect()
}

fn noise(len: usize) -> Vec<i16> {
    let mut x: u32 = 12345;
    (0..len)
        .map(|_| {
            x = x.wrapping_mul(1_664_525).wrapping_add(1_013_904_223);
            (x >> 16) as i16
        })
        .collect()
}

#[test]
fn nothing_is_flat() {
    assert!(matches!(generate_waveform_path(&[], 1000), WaveformPath::Flat));
    assert!(matches!(generate_waveform_path(&[], 0), WaveformPath::Flat));
}

#[test]
fn small_outline() {
    let p = |index, value| Vertex { x: Abscissa::Point { index, count: 2 }, value };
    let expected = vec![
        Vertex { x: Abscissa::Left, value: 2 },
        p(0, 2),
        p(1, 3),
        Vertex { x: Abscissa::Right, value: 3 },
        Vertex { x: Abscissa::Right, value: -3 },
        p(1, -3),
        p(0, 1),
        Vertex { x: Abscissa::Left, value: 1 },
    ];
    assert_eq!(vertices(&[1, 2, 3, -3], 2), expected);
    assert_eq!(vertices(&[1, 2, 3, -3], 0), expected);
    assert_eq!(vertices(&[1, 2, 3, -3], 1), expected);
}

#[test]
fn outline_is_that_of_double_precision() {
    for len in [1, 2, 3, 7, 100, 999, 1000, 1001, 2500, 31_250, 100_003] {
        let samples = noise(len);
        for count in [2, 3, 7, 50, 1000] {
            let outline = vertices(&samples, count);
            let values = extremes(&samples, count);
            assert_eq!(outline.len(), 2 * count + 4);
            for i in 0..count {
                let x = Abscissa::Point { index: i, count };
                assert_eq!(outline[1 + i], Vertex { x, value: values[i].1 });
                assert_eq!(outline[2 * count + 2 - i], Vertex { x, value: values[i].0 });
            }
        }
    }
}

#[test]
fn outline_begins_and_ends_at_the_edges() {
    let samples = noise(5000);
    let outline = vertices(&samples, 40);
    assert_eq!(outline[0].x, Abscissa::Left);
    assert_eq!(outline[0].value, outline[1].value);
    assert_eq!(outline[83].x, Abscissa::Left);
    assert_eq!(outline[41].x, Abscissa::Right);
    assert_eq!(outline[42].x, Abscissa::Right);
}

#[test]
fn upper_side_is_never_below_lower_side() {
    let outline = vertices(&noise(777), 1000);
    for i in 0..1000 {
        assert!(outline[1 + i].value >= outline[2002 - i].value);
    }
}

#[test]
fn division_rounds_half_to_even() {
    assert_eq!(divide_to_nearest(5, 2), 2);
    assert_eq!(divide_to_nearest(7, 2), 4);
    assert_eq!(divide_to_nearest(8, 3), 3);
    assert_eq!(divide_to_nearest(0, 9), 0);
}

#[test]
fn rounding_is_that_of_floating_point() {
    for n in [0u64, 1, 16_777_217, 16_777_219, 123_456_789, 4_294_967_295, 9_007_199_254_740_993] {
        assert_eq!(round_to(n as u128, SINGLE), n as f32 as u128);
        assert_eq!(round_to(n as u128, DOUBLE), n as f64 as u128);
    }
}

#[test]
fn quotients_are_those_of_floating_point() {
    for (n, d) in [(1u32, 3u32), (2, 3), (999, 1000), (44_100, 31_250), (0, 7)] {
        let (numerator, scale) = divide_to(n as u128, d as u128, DOUBLE);
        assert_eq!(numerator as f64 / scale as f64, n as f64 / d as f64);
        let (numerator, scale) = divide_to(n as u128, d as u128, SINGLE);
        assert_eq!(numerator as f32 / scale as f32, n as f32 / d as f32);
    }
}
