use uniform::unit_interval::single_from_raw;
use uniform::{Duration, Rng, SampleBorrow, SampleUniform, Uniform, UniformSampler};

/// A small deterministic generator (SplitMix64), seeded as each test asks.
struct TestRng {
    state: u64,
}

fn rng(seed: u64) -> TestRng {
    TestRng { state: seed }
}

impl Rng for TestRng {
    fn next_u32(&mut self) -> u32 {
        (self.next_u64() >> 32) as u32
    }

    fn next_u64(&mut self) -> u64 {
        self.state = self.state.wrapping_add(0x9e37_79b9_7f4a_7c15);
        let mut z = self.state;
        z = (z ^ (z >> 30)).wrapping_mul(0xbf58_476d_1ce4_e5b9);
        z = (z ^ (z >> 27)).wrapping_mul(0x94d0_49bb_1331_11eb);
        z ^ (z >> 31)
    }
}

#[test]
fn test_uniform_good_limits_equal_int() {
    let mut rng = rng(804);
    let dist = Uniform::new_inclusive(10, 10);
    for _ in 0..20 {
        assert_eq!(dist.sample(&mut rng), 10);
    }
}

fn check_integers<X>(rng: &mut TestRng, pairs: &[(X, X)])
where
    X: SampleUniform + PartialOrd + Copy,
{
    for &(low, high) in pairs.iter() {
        let my_uniform = Uniform::new(low, high);
        for _ in 0..1000 {
            let v: X = my_uniform.sample(rng);
            assert!(low <= v && v < high);
        }

        let my_uniform = Uniform::new_inclusive(low, high);
        for _ in 0..1000 {
            let v: X = my_uniform.sample(rng);
            assert!(low <= v && v <= high);
        }

        let my_uniform = Uniform::new(&low, high);
        for _ in 0..1000 {
            let v: X = my_uniform.sample(rng);
            assert!(low <= v && v < high);
        }

        let my_uniform = Uniform::new_inclusive(&low, &high);
        for _ in 0..1000 {
            let v: X = my_uniform.sample(rng);
            assert!(low <= v && v <= high);
        }

        for _ in 0..1000 {
            let v: X = Uniform::sample_single(low, high, rng);
            assert!(low <= v && v < high);
        }
    }
}

#[test]
fn test_integers() {
    let mut rng = rng(251);
    check_integers::<i8>(&mut rng, &[(0, 10), (10, 127), (i8::MIN, i8::MAX)]);
    check_integers::<i16>(&mut rng, &[(0, 10), (10, 127), (i16::MIN, i16::MAX)]);
    check_integers::<i32>(&mut rng, &[(0, 10), (10, 127), (i32::MIN, i32::MAX)]);
    check_integers::<i64>(&mut rng, &[(0, 10), (10, 127), (i64::MIN, i64::MAX)]);
    check_integers::<isize>(&mut rng, &[(0, 10), (10, 127), (isize::MIN, isize::MAX)]);
    check_integers::<u8>(&mut rng, &[(0, 10), (10, 127), (u8::MIN, u8::MAX)]);
    check_integers::<u16>(&mut rng, &[(0, 10), (10, 127), (u16::MIN, u16::MAX)]);
    check_integers::<u32>(&mut rng, &[(0, 10), (10, 127), (u32::MIN, u32::MAX)]);
    check_integers::<u64>(&mut rng, &[(0, 10), (10, 127), (u64::MIN, u64::MAX)]);
    check_integers::<usize>(&mut rng, &[(0, 10), (10, 127), (usize::MIN, usize::MAX)]);
}

#[test]
fn test_durations() {
    let mut rng = rng(253);

    let v = &[
        (Duration::new(10, 50000), Duration::new(100, 1234)),
        (Duration::new(0, 100), Duration::new(1, 50)),
        (Duration::new(0, 0), Duration::new(u64::max_value(), 999_999_999)),
    ];
    for &(low, high) in v.iter() {
        let my_uniform = Uniform::new(low, high);
        for _ in 0..1000 {
            let v = my_uniform.sample(&mut rng);
            assert!(low <= v && v < high);
        }
    }
}

#[derive(Clone, Copy, PartialEq, PartialOrd)]
struct MyF32 {
    x: f32,
}

/// A back-end written outside the library: it scales and shifts a number
/// drawn from the interval from one to two. The functions that the library
/// states its contracts with (`lt`, `le`, `spec_new`, `spec_new_inclusive`,
/// `wf`, `contains`) are ordinary functions here.
#[derive(Clone, Copy, Debug)]
struct UniformMyF32 {
    scale: f32,
    offset: f32,
}

impl UniformSampler for UniformMyF32 {
    type X = MyF32;

    fn lt(a: MyF32, b: MyF32) -> bool {
        a.x < b.x
    }

    fn le(a: MyF32, b: MyF32) -> bool {
        a.x <= b.x
    }

    fn spec_new(low: MyF32, high: MyF32) -> Self {
        let scale = high.x - low.x;
        UniformMyF32 { scale, offset: low.x - scale }
    }

    fn spec_new_inclusive(low: MyF32, high: MyF32) -> Self {
        Self::spec_new(low, high)
    }

    fn wf(&self) -> bool {
        self.scale > 0.0
    }

    fn contains(&self, v: MyF32) -> bool {
        self.offset + self.scale <= v.x && v.x <= self.offset + 2.0 * self.scale
    }

    fn new<B1, B2>(low: B1, high: B2) -> Self
    where
        B1: SampleBorrow<Self::X> + Sized,
        B2: SampleBorrow<Self::X> + Sized,
    {
        Self::spec_new(*low.borrow(), *high.borrow())
    }

    fn new_inclusive<B1, B2>(low: B1, high: B2) -> Self
    where
        B1: SampleBorrow<Self::X> + Sized,
        B2: SampleBorrow<Self::X> + Sized,
    {
        UniformSampler::new(low, high)
    }

    fn sample<R: Rng + ?Sized>(&self, rng: &mut R) -> Self::X {
        let value1_2 = f32::from_bits(single_from_raw(rng.next_u32()));
        MyF32 { x: value1_2 * self.scale + self.offset }
    }
}

impl SampleUniform for MyF32 {
    type Sampler = UniformMyF32;
}

#[test]
fn test_custom_uniform() {
    let (low, high) = (MyF32 { x: 17.0f32 }, MyF32 { x: 22.0f32 });
    let uniform = Uniform::new(low, high);
    let mut rng = rng(804);
    for _ in 0..100 {
        let x: MyF32 = uniform.sample(&mut rng);
        assert!(low <= x && x < high);
    }
}

#[test]
fn test_uniform_from_std_range() {
    let r = Uniform::from(2u32..7);
    assert_eq!(r.inner().low(), 2);
    assert_eq!(r.inner().range(), 5);
}

#[test]
fn a_source_behind_a_reference_will_do() {
    let mut concrete = rng(9);
    let source: &mut dyn Rng = &mut concrete;
    let die = Uniform::new_inclusive(1u8, 6);
    for _ in 0..100 {
        let v = die.sample(source);
        assert!(1 <= v && v <= 6);
    }
    let v = Uniform::sample_single(-3i64, 3, source);
    assert!(-3 <= v && v < 3);
}

#[test]
fn from_range_builds_what_new_builds() {
    let r = Uniform::from(-40i16..9000);
    let n = Uniform::new(-40i16, 9000);
    assert_eq!(r.inner().low(), n.inner().low());
    assert_eq!(r.inner().range(), n.inner().range());
    assert_eq!(r.inner().zone(), n.inner().zone());
    assert_eq!((r.inner().low(), r.inner().range()), (-40, 9040));

    let low = Duration::new(1, 999_999_999);
    let high = Duration::new(7, 0);
    let r = Uniform::from(low..high);
    let n = Uniform::new(low, high);
    assert_eq!(r.inner().offset(), n.inner().offset());
    assert_eq!(r.inner().is_small(), n.inner().is_small());
    let mut first = rng(7);
    let mut second = rng(7);
    for _ in 0..100 {
        assert_eq!(r.sample(&mut first), n.sample(&mut second));
    }
}
