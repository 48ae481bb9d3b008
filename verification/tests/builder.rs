use flac_builder::{BpsLevel, FlacBuilder, IntoSample};

#[derive(Clone, Copy, Default, Debug, PartialEq)]
struct Fixed(i32);

impl IntoSample for Fixed {
    fn to_i16(&self) -> i16 {
        self.0.clamp(-32767, 32767) as i16
    }

    fn to_i20(&self) -> i32 {
        self.0.clamp(-524287, 524287)
    }

    fn to_i24(&self) -> i32 {
        self.0.clamp(-8388607, 8388607)
    }
}

#[test]
fn new_builder_has_the_defaults() {
    let channels = vec![vec![Fixed(0); 4]];
    let builder = FlacBuilder::from_planar(&channels, 48_000);
    assert_eq!(builder.bit_depth(), BpsLevel::Bps16);
    assert_eq!(builder.output(), None);
    assert_eq!(builder.comment_count(), 0);
    assert_eq!(builder.comment(0), None);
    assert_eq!(builder.data().channel_count(), 1);
    assert_eq!(builder.data().samples_per_channel(), 4);
}

#[test]
fn interleaved_builder_keeps_data_and_channel_count() {
    let samples = vec![Fixed(1); 6];
    let builder = FlacBuilder::from_interleaved(&samples, 3, 44_100);
    assert_eq!(builder.data().channel_count(), 3);
    assert_eq!(builder.data().samples_per_channel(), 2);
    assert_eq!(builder.data().sample(2, 1), Fixed(1));
}

#[test]
fn bit_depth_is_set() {
    let samples = vec![Fixed(1); 2];
    let builder = FlacBuilder::from_interleaved(&samples, 2, 44_100).bps(BpsLevel::Bps24);
    assert_eq!(builder.bit_depth(), BpsLevel::Bps24);
    let builder = builder.bps(BpsLevel::Bps20);
    assert_eq!(builder.bit_depth(), BpsLevel::Bps20);
}

#[test]
fn tags_keep_their_order_and_may_repeat() {
    let samples = vec![Fixed(1); 2];
    let builder = FlacBuilder::from_interleaved(&samples, 2, 44_100)
        .vorbis_comment("GENRE", "Jazz")
        .vorbis_comment("GENRE", "Blues")
        .artist("Someone")
        .vorbis_comment("GENRE", "Jazz");
    assert_eq!(builder.comment_count(), 4);
    assert_eq!(builder.comment(0), Some(("GENRE", "Jazz")));
    assert_eq!(builder.comment(1), Some(("GENRE", "Blues")));
    assert_eq!(builder.comment(2), Some(("ARTIST", "Someone")));
    assert_eq!(builder.comment(3), Some(("GENRE", "Jazz")));
    assert_eq!(builder.comment(4), None);
}

#[test]
fn named_tags_use_their_keys() {
    let samples = vec![Fixed(1); 2];
    let builder = FlacBuilder::from_interleaved(&samples, 2, 44_100)
        .artist("A")
        .album("B")
        .title("C")
        .year(1969)
        .track_number(7);
    assert_eq!(builder.comment(0), Some(("ARTIST", "A")));
    assert_eq!(builder.comment(1), Some(("ALBUM", "B")));
    assert_eq!(builder.comment(2), Some(("TITLE", "C")));
    assert_eq!(builder.comment(3), Some(("YEAR", "1969")));
    assert_eq!(builder.comment(4), Some(("TRACKNUMBER", "7")));
}

#[test]
fn numbers_in_tags_are_decimal() {
    let samples = vec![Fixed(1); 2];
    let builder = FlacBuilder::from_interleaved(&samples, 2, 44_100)
        .year(0)
        .year(u32::MAX)
        .track_number(-3)
        .track_number(i32::MIN);
    assert_eq!(builder.comment(0), Some(("YEAR", "0")));
    assert_eq!(builder.comment(1), Some(("YEAR", "4294967295")));
    assert_eq!(builder.comment(2), Some(("TRACKNUMBER", "-3")));
    assert_eq!(builder.comment(3), Some(("TRACKNUMBER", "-2147483648")));
}

#[test]
fn nul_in_key_or_value_empties_that_text() {
    let samples = vec![Fixed(1); 2];
    let builder = FlacBuilder::from_interleaved(&samples, 2, 44_100)
        .vorbis_comment("KE\0Y", "value")
        .vorbis_comment("KEY", "va\0lue")
        .title("\0");
    assert_eq!(builder.comment(0), Some(("", "value")));
    assert_eq!(builder.comment(1), Some(("KEY", "")));
    assert_eq!(builder.comment(2), Some(("TITLE", "")));
}

#[test]
fn setters_leave_the_tags_alone() {
    let samples = vec![Fixed(1); 2];
    let builder = FlacBuilder::from_interleaved(&samples, 2, 44_100)
        .artist("A")
        .compression_level(8)
        .padding(0)
        .bps(BpsLevel::Bps20);
    assert_eq!(builder.comment_count(), 1);
    assert_eq!(builder.comment(0), Some(("ARTIST", "A")));
}
