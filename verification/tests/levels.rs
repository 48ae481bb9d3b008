use flac_builder::{BpsLevel, IntoSample};

/// A sample that is already an integer: it is clamped to the full scale.
#[derive(Clone, Copy, Default)]
struct Fixed(i32);

impl IntoSample for Fixed {
    fn to_i16(&self) -> i16 {
        self.0.clamp(-32767, 32767) as i16
    }

    fn to_i20(&self) -> i32 {
        self.0.clamp(-524287, 524287)
    }

    fn to_i24(&self) -> i32 {
        self.0.clamp(-8388607, 8388607)
    }
}

#[test]
fn depth_as_number() {
    assert_eq!(BpsLevel::Bps16.to_u32(), 16);
    assert_eq!(BpsLevel::Bps20.to_u32(), 20);
    assert_eq!(BpsLevel::Bps24.to_u32(), 24);
}

#[test]
fn full_scale_is_one_less_than_a_power_of_two() {
    assert_eq!(BpsLevel::Bps16.max_amplitude(), (1 << 15) - 1);
    assert_eq!(BpsLevel::Bps20.max_amplitude(), (1 << 19) - 1);
    assert_eq!(BpsLevel::Bps24.max_amplitude(), (1 << 23) - 1);
}

#[test]
fn provided_conversion_dispatches_on_depth() {
    let s = Fixed(1_000_000);
    assert_eq!(s.to_bps_level(BpsLevel::Bps16), 32767);
    assert_eq!(s.to_bps_level(BpsLevel::Bps20), 524287);
    assert_eq!(s.to_bps_level(BpsLevel::Bps24), 1_000_000);
}

#[test]
fn provided_conversion_keeps_the_sign() {
    let s = Fixed(-40_000);
    assert_eq!(s.to_bps_level(BpsLevel::Bps16), -32767);
    assert_eq!(s.to_bps_level(BpsLevel::Bps20), -40_000);
    assert_eq!(s.to_bps_level(BpsLevel::Bps24), -40_000);
}
