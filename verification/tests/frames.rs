use flac_builder::block::quantize_frames;
use flac_builder::{BpsLevel, InputData, IntoSample};

#[derive(Clone, Copy, Default, Debug, PartialEq)]
struct Fixed(i32);

impl IntoSample for Fixed {
    fn to_i16(&self) -> i16 {
        self.0.clamp(-32767, 32767) as i16
    }

    fn to_i20(&self) -> i32 {
        self.0.clamp(-524287, 524287)
    }

    fn to_i24(&self) -> i32 {
        self.0.clamp(-8388607, 8388607)
    }
}

#[test]
fn frames_from_the_middle_of_planar_data() {
    let channels = vec![
        vec![Fixed(1), Fixed(2), Fixed(3), Fixed(4)],
        vec![Fixed(-1), Fixed(-2), Fixed(-3), Fixed(-4)],
    ];
    let data = InputData::Planar(&channels);
    assert_eq!(quantize_frames(&data, BpsLevel::Bps16, 1, 2), vec![2, -2, 3, -3]);
    assert_eq!(quantize_frames(&data, BpsLevel::Bps16, 3, 1), vec![4, -4]);
}

#[test]
fn no_frames_give_no_samples() {
    let samples = vec![Fixed(1), Fixed(2)];
    let data = InputData::Interleaved { data: &samples, channels: 2 };
    assert_eq!(quantize_frames(&data, BpsLevel::Bps24, 0, 0), Vec::<i32>::new());
    assert_eq!(quantize_frames(&data, BpsLevel::Bps24, 1, 0), Vec::<i32>::new());
}

#[test]
fn quantized_samples_stay_inside_the_full_scale() {
    let samples: Vec<Fixed> =
        vec![Fixed(i32::MAX), Fixed(i32::MIN), Fixed(0), Fixed(32768), Fixed(-32768), Fixed(5)];
    let data = InputData::Interleaved { data: &samples, channels: 3 };
    for bps in [BpsLevel::Bps16, BpsLevel::Bps20, BpsLevel::Bps24] {
        let max: i32 = bps.max_amplitude();
        for sample in quantize_frames(&data, bps, 0, 2) {
            assert!(-max <= sample && sample <= max);
        }
    }
}
