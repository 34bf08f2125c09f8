use uniform::integer::Integer;
use uniform::uniform_int::{accept, single_zone, REDRAW_LIMIT};
use uniform::unit_interval::{double_from_raw, single_from_raw};
use uniform::wmul::{wmul32, wmul64};
use uniform::{Duration, Rng, Uniform, UniformDuration, UniformInt, UniformSampler};

/// A source that hands out the words of a list, one after the other.
struct Script {
    words: Vec<u64>,
    next: usize,
}

fn script(words: &[u64]) -> Script {
    Script { words: words.to_vec(), next: 0 }
}

impl Script {
    fn used(&self) -> usize {
        self.next
    }
}

impl Rng for Script {
    fn next_u32(&mut self) -> u32 {
        self.next_u64() as u32
    }

    fn next_u64(&mut self) -> u64 {
        let word = self.words[self.next];
        self.next += 1;
        word
    }
}

#[test]
fn widening_multiply_splits_the_product() {
    assert_eq!(wmul32(0, 0xffff_ffff), (0, 0));
    assert_eq!(wmul32(0xdead_beef, 0x1234_5678), (0x0fd5_bdee, 0x5621_ca08));
    assert_eq!(wmul32(0xffff_ffff, 0xffff_ffff), (0xffff_fffe, 1));
    assert_eq!(
        wmul64(0xdead_beef_cafe_f00d, 0x0123_4567_89ab_cdef),
        (0x00fd_5bde_eeb2_a05a, 0x25f7_6468_f7eb_8523)
    );
    assert_eq!(wmul64(u64::MAX, u64::MAX), (0xffff_ffff_ffff_fffe, 1));
}

#[test]
fn bit_patterns_of_signed_values() {
    assert_eq!((-1i8).to_unsigned(), 0xff);
    assert_eq!(i8::MIN.to_unsigned(), 0x80);
    assert_eq!(127i8.to_unsigned(), 0x7f);
    assert_eq!((-2i16).to_unsigned(), 0xfffe);
    assert_eq!((-1i32).to_unsigned(), 0xffff_ffff);
    assert_eq!(i64::MIN.to_unsigned(), 0x8000_0000_0000_0000);
    assert_eq!((-1isize).to_unsigned(), usize::MAX as u64);
    assert_eq!(isize::MIN.to_unsigned(), (usize::MAX as u64 >> 1) + 1);
    assert_eq!(5isize.to_unsigned(), 5);
    assert_eq!(200u8.to_unsigned(), 200);
    assert_eq!(usize::MAX.to_unsigned(), usize::MAX as u64);
}

#[test]
fn values_of_bit_patterns() {
    assert_eq!(i8::from_unsigned(0xff), -1);
    assert_eq!(i8::from_unsigned(0x80), i8::MIN);
    assert_eq!(i8::from_unsigned(0x17f), 127);
    assert_eq!(u8::from_unsigned(0x1234), 0x34);
    assert_eq!(u16::from_unsigned(0x12_3456), 0x3456);
    assert_eq!(i16::from_unsigned(0xffff_fffe), -2);
    assert_eq!(u32::from_unsigned(0x1_0000_0007), 7);
    assert_eq!(i32::from_unsigned(0x8000_0000), i32::MIN);
    assert_eq!(u64::from_unsigned(u64::MAX), u64::MAX);
    assert_eq!(i64::from_unsigned(u64::MAX), -1);
    assert_eq!(usize::from_unsigned(9), 9);
    assert_eq!(isize::from_unsigned(usize::MAX as u64), -1);
    assert_eq!(isize::from_unsigned((usize::MAX as u64 >> 1) + 1), isize::MIN);
    assert_eq!(isize::from_unsigned(usize::MAX as u64 >> 1), isize::MAX);
}

#[test]
fn bit_patterns_round_trip() {
    for x in i8::MIN..=i8::MAX {
        assert_eq!(i8::from_unsigned(x.to_unsigned()), x);
    }
    for x in [isize::MIN, -7, -1, 0, 1, 9, isize::MAX] {
        assert_eq!(isize::from_unsigned(x.to_unsigned()), x);
    }
    for x in [i64::MIN, -7, -1, 0, 1, 9, i64::MAX] {
        assert_eq!(i64::from_unsigned(x.to_unsigned()), x);
    }
}

#[test]
fn wrapping_arithmetic_of_the_integer_trait() {
    assert_eq!(Integer::wrapping_add(i8::MAX, 1), i8::MIN);
    assert_eq!(Integer::wrapping_sub(i8::MIN, 1), i8::MAX);
    assert_eq!(Integer::wrapping_sub(i8::MAX, i8::MIN), -1);
    assert_eq!(Integer::wrapping_add(250u8, 10), 4);
    assert_eq!(Integer::wrapping_sub(3u64, 5), u64::MAX - 1);
    assert_eq!(Integer::wrapping_add(usize::MAX, 2), 1);
    assert_eq!(Integer::wrapping_sub(isize::MIN, 1), isize::MAX);
    assert_eq!(u8::unsigned_max(), 0xff);
    assert_eq!(i16::unsigned_max(), 0xffff);
    assert_eq!(i32::unsigned_max(), 0xffff_ffff);
    assert_eq!(i64::unsigned_max(), u64::MAX);
    assert_eq!(isize::unsigned_max(), usize::MAX as u64);
}

#[test]
fn range_analysis_of_a_narrow_type() {
    let s = UniformInt::<u8>::new_inclusive(10, 127);
    assert_eq!(s.low(), 10);
    assert_eq!(s.range(), 118);
    // 256 leaves 20 when divided by 118.
    assert_eq!(s.zone(), 235);

    let s = UniformInt::<u8>::new(10, 128);
    assert_eq!((s.low(), s.range(), s.zone()), (10, 118, 235));
}

#[test]
fn range_analysis_of_a_signed_type() {
    let s = UniformInt::<i8>::new_inclusive(-100, 100);
    assert_eq!(s.low(), -100);
    // 201 values and a zone of 200, both held as bit patterns.
    assert_eq!(s.range(), -55);
    assert_eq!(s.zone(), -56);
}

#[test]
fn range_analysis_of_wide_types() {
    let s = UniformInt::<u32>::new(2, 7);
    assert_eq!((s.low(), s.range(), s.zone()), (2, 5, 0xffff_fffe));
    let s = UniformInt::<u64>::new_inclusive(0, 9);
    assert_eq!((s.low(), s.range(), s.zone()), (0, 10, 0xffff_ffff_ffff_fff9));
}

#[test]
fn range_analysis_of_a_whole_type() {
    let s = UniformInt::<i8>::new_inclusive(i8::MIN, i8::MAX);
    assert_eq!((s.low(), s.range(), s.zone()), (i8::MIN, 0, -1));
    let s = UniformInt::<u64>::new_inclusive(0, u64::MAX);
    assert_eq!((s.low(), s.range(), s.zone()), (0, 0, u64::MAX));
    let s = UniformInt::<usize>::new_inclusive(0, usize::MAX);
    assert_eq!((s.low(), s.range(), s.zone()), (0, 0, usize::MAX));
}

#[test]
fn a_step_keeps_or_rejects() {
    // 118 values from 10 on; the zone is that of the sampler for 10 ..= 127.
    let zone = 0xffff_ffeb;
    assert_eq!(accept::<u8>(10, 118, zone, 0), Some(10));
    assert_eq!(accept::<u8>(10, 118, zone, 1), Some(10));
    assert_eq!(accept::<u8>(10, 118, zone, 36_398_028), Some(11));
    assert_eq!(accept::<u8>(10, 118, zone, 0x8000_0000), Some(69));
    assert_eq!(accept::<u8>(10, 118, zone, 0xffff_ffff), Some(127));
    // The low half of 982746754 * 118 is 0xffffffec, just beyond the zone.
    assert_eq!(accept::<u8>(10, 118, zone, 982_746_754), None);
    assert_eq!(accept::<u8>(10, 118, 0xffff_ffec, 982_746_754), Some(36));
}

#[test]
fn a_step_on_signed_and_wide_types() {
    assert_eq!(accept::<i8>(-100, 201, 0xffff_ffff, 0xffff_ffff), Some(100));
    assert_eq!(accept::<i8>(-100, 201, 0xffff_ffff, 0), Some(-100));
    assert_eq!(accept::<i64>(-5, 10, u64::MAX, 0x8000_0000_0000_0000), Some(0));
    assert_eq!(accept::<u64>(0, 10, 0xffff_ffff_ffff_fff9, 0x1999_9999_9999_9999), None);
    assert_eq!(accept::<u64>(0, 10, 0xffff_ffff_ffff_fff9, 0x1999_9999_9999_999a), Some(1));
}

#[test]
fn zones_of_one_off_draws() {
    assert_eq!(single_zone::<u8>(10), 4_294_967_289);
    assert_eq!(single_zone::<i16>(1000), 4_294_966_999);
    assert_eq!(single_zone::<u32>(10), 0xa000_0000);
    assert_eq!(single_zone::<i32>(1), 0x8000_0000);
    assert_eq!(single_zone::<u64>(10), 0xa000_0000_0000_0000);
    assert_eq!(single_zone::<i64>(0x7fff_ffff_ffff_ffff), 0xffff_ffff_ffff_fffe);
}

#[test]
fn sampling_follows_the_source() {
    let s = UniformInt::<u8>::new(0, 10);
    let mut source = script(&[0x8000_0000]);
    assert_eq!(s.sample(&mut source), 5);
    assert_eq!(source.used(), 1);

    // The first word is rejected, the second kept.
    let mut source = script(&[429_496_729, 0xffff_ffff]);
    assert_eq!(s.sample(&mut source), 9);
    assert_eq!(source.used(), 2);

    let s = UniformInt::<i64>::new_inclusive(-5, 4);
    let mut source = script(&[0x1999_9999_9999_9999, 0x1999_9999_9999_999a]);
    assert_eq!(s.sample(&mut source), -4);
    assert_eq!(source.used(), 2);
}

#[test]
fn sampling_a_whole_type_takes_the_word_as_it_is() {
    let s = UniformInt::<i8>::new_inclusive(i8::MIN, i8::MAX);
    let mut source = script(&[0x1234_56ff, 0x80]);
    assert_eq!(s.sample(&mut source), -1);
    assert_eq!(s.sample(&mut source), i8::MIN);
    assert_eq!(source.used(), 2);

    let s = UniformInt::<u64>::new_inclusive(0, u64::MAX);
    let mut source = script(&[0xdead_beef_cafe_f00d]);
    assert_eq!(s.sample(&mut source), 0xdead_beef_cafe_f00d);
}

#[test]
fn one_off_draws_follow_the_source() {
    let mut source = script(&[0x8000_0000]);
    assert_eq!(UniformInt::<u8>::sample_single(0, 10, &mut source), 5);

    // For 32 bits the zone is 0xa0000000: a low half above it is rejected.
    let mut source = script(&[0x1100_0000, 0x4000_0000]);
    assert_eq!(UniformInt::<u32>::sample_single(&0, 10, &mut source), 2);
    assert_eq!(source.used(), 2);

    let mut source = script(&[0xc000_0000_0000_0000]);
    assert_eq!(UniformInt::<i64>::sample_single(-8, &8, &mut source), 4);
}

#[test]
fn single_value_range_has_no_variance() {
    let s = UniformInt::<i16>::new_inclusive(-7, -7);
    assert_eq!((s.low(), s.range()), (-7, 1));
    let mut source = script(&[0, 1, 0x7fff_ffff, 0xffff_ffff, 0x1234_5678]);
    for _ in 0..5 {
        assert_eq!(s.sample(&mut source), -7);
    }
    assert_eq!(source.used(), 5);
}

#[test]
fn the_redraw_limit_is_out_of_reach() {
    assert_eq!(REDRAW_LIMIT, u64::MAX);
}

#[test]
fn durations_carry_and_compare() {
    let d = Duration::new(1, 3_999_999_999);
    assert_eq!((d.as_secs(), d.subsec_nanos()), (4, 999_999_999));
    assert_eq!(d.as_nanos(), 4_999_999_999);
    assert_eq!(Duration::from_nanos(10_000_050_000), Duration::new(10, 50_000));
    assert_eq!(Duration::max().as_nanos(), 18_446_744_073_709_551_615_999_999_999);
    assert!(Duration::new(1, 999_999_999) < Duration::new(2, 0));
    assert!(Duration::new(2, 0) <= Duration::new(2, 0));
    assert!(Duration::new(2, 1) > Duration::new(2, 0));
    assert!(Duration::new(3, 0) >= Duration::new(2, 999_999_999));
    assert!(Duration::new(2, 0) != Duration::new(2, 1));
}

#[test]
fn durations_add_and_subtract() {
    let a = Duration::new(10, 600_000_000);
    let b = Duration::new(1, 700_000_000);
    assert_eq!(a.saturating_add(b), Duration::new(12, 300_000_000));
    assert_eq!(a.saturating_sub(b), Duration::new(8, 900_000_000));
    assert_eq!(b.saturating_sub(a), Duration::new(0, 0));
    assert_eq!(a.saturating_sub(a), Duration::new(0, 0));
    assert_eq!(Duration::max().saturating_add(Duration::new(0, 1)), Duration::max());
    assert_eq!(
        Duration::new(u64::MAX, 0).saturating_add(Duration::new(0, 999_999_999)),
        Duration::max()
    );
    assert_eq!(Duration::new(u64::MAX, 5).saturating_add(Duration::new(1, 0)), Duration::max());
}

#[test]
fn duration_sampler_picks_its_mode() {
    let small = UniformDuration::new(Duration::new(10, 50_000), Duration::new(100, 1234));
    assert!(small.is_small());
    assert_eq!(small.offset(), Duration::new(10, 50_000));

    // 2^64 nanoseconds are eighteen thousand million seconds and a bit.
    let edge = Duration::from_nanos(u64::MAX);
    assert!(UniformDuration::new_inclusive(Duration::new(0, 0), edge).is_small());
    let beyond = edge.saturating_add(Duration::new(0, 1));
    assert!(!UniformDuration::new_inclusive(Duration::new(0, 0), beyond).is_small());
    assert!(UniformDuration::new(Duration::new(0, 0), beyond).is_small());

    let large = UniformDuration::new(Duration::new(0, 0), Duration::max());
    assert!(!large.is_small());
}

#[test]
fn duration_samples_stand_above_the_offset() {
    let small = UniformDuration::new(Duration::new(10, 50_000), Duration::new(100, 1234));
    assert_eq!(small.sample_from_nanos(0), Duration::new(10, 50_000));
    assert_eq!(small.sample_from_nanos(2_999_950_007), Duration::new(13, 7));
    assert_eq!(small.sample_from_nanos(89_999_951_233), Duration::new(100, 1233));

    let large = UniformDuration::new(Duration::new(1, 1), Duration::max());
    assert_eq!(large.sample_from_parts(5, 999), Some(Duration::new(6, 1000)));
    assert_eq!(
        large.sample_from_parts(u64::MAX - 1, 999_999_997),
        Some(Duration::new(u64::MAX, 999_999_998))
    );
    assert_eq!(large.sample_from_parts(u64::MAX - 1, 999_999_998), None);
    assert_eq!(large.sample_from_parts(u64::MAX, 0), None);
}

#[test]
fn duration_sampling_follows_the_source() {
    let low = Duration::new(0, 100);
    let small = Uniform::new(low, Duration::new(1, 50));
    // 999999950 nanoseconds to choose from; half the word range is half of them.
    let mut source = script(&[0x8000_0000_0000_0000]);
    assert_eq!(small.sample(&mut source), Duration::new(0, 499_999_975 + 100));

    let high = Duration::new(u64::MAX, 999_999_999);
    let large = Uniform::new_inclusive(Duration::new(0, 0), high);
    // The seconds span the whole word; the nanoseconds come from a 32-bit word.
    let mut source = script(&[7, 0x8000_0000]);
    assert_eq!(large.sample(&mut source), Duration::new(7, 500_000_000));
    assert_eq!(source.used(), 2);

    // One nanosecond short of the top: the pair beyond the range is drawn again.
    let large = Uniform::new(Duration::new(0, 0), high);
    let mut source = script(&[u64::MAX, 0xffff_ffff, 3, 0]);
    assert_eq!(large.sample(&mut source), Duration::new(3, 0));
    assert_eq!(source.used(), 4);
}

#[test]
fn single_duration_has_no_variance() {
    let only = Duration::new(3, 14);
    let s = Uniform::new_inclusive(only, &only);
    let mut source = script(&[0, u64::MAX, 0x1234_5678_9abc_def0]);
    for _ in 0..3 {
        assert_eq!(s.sample(&mut source), only);
    }
}

#[test]
fn patterns_of_the_unit_interval() {
    assert_eq!(single_from_raw(0), 0x3f80_0000);
    assert_eq!(single_from_raw(0x1ff), 0x3f80_0000);
    assert_eq!(single_from_raw(0x200), 0x3f80_0001);
    assert_eq!(single_from_raw(0xffff_ffff), 0x3fff_ffff);
    assert_eq!(double_from_raw(0), 0x3ff0_0000_0000_0000);
    assert_eq!(double_from_raw(0xfff), 0x3ff0_0000_0000_0000);
    assert_eq!(double_from_raw(0x1000), 0x3ff0_0000_0000_0001);
    assert_eq!(double_from_raw(u64::MAX), 0x3fff_ffff_ffff_ffff);
}

#[test]
fn numbers_of_the_unit_interval() {
    assert_eq!(f32::from_bits(single_from_raw(0)), 1.0);
    assert_eq!(f32::from_bits(single_from_raw(0x8000_0000)), 1.5);
    assert!(f32::from_bits(single_from_raw(0xffff_ffff)) < 2.0);
    assert_eq!(f64::from_bits(double_from_raw(0)), 1.0);
    assert_eq!(f64::from_bits(double_from_raw(0x4000_0000_0000_0000)), 1.25);
    assert!(f64::from_bits(double_from_raw(u64::MAX)) < 2.0);
}
