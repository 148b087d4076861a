use std::sync::atomic::{AtomicU32, Ordering};

use spincoater::encoder::{
    edge_counted, interrupt_handler, read_rpm, CounterOverflow, EncoderSampler, RateSample,
};

#[test]
fn the_rate_follows_the_gear_ratio() {
    assert_eq!(read_rpm(74, 1_000), Some(60));
    assert_eq!(read_rpm(0, 1_000), Some(0));
    assert_eq!(read_rpm(0, 1), Some(0));
    assert_eq!(read_rpm(37, 1_000), Some(30));
    assert_eq!(read_rpm(148, 1_000), Some(120));
    assert_eq!(read_rpm(74, 2_000), Some(30));
}

#[test]
fn the_rate_rounds_towards_zero() {
    assert_eq!(read_rpm(1, 1_000), Some(0));
    assert_eq!(read_rpm(2, 1_000), Some(1));
    assert_eq!(read_rpm(73, 1_000), Some(59));
    assert_eq!(read_rpm(75, 1_000), Some(60));
    assert_eq!(read_rpm(76, 1_000), Some(61));
    assert_eq!(read_rpm(74, 1_001), Some(59));
    assert_eq!(read_rpm(74, 999), Some(60));
}

#[test]
fn the_rate_does_not_overflow() {
    assert_eq!(read_rpm(u32::MAX, 1), Some(3_482_405_914_864));
    assert_eq!(read_rpm(u32::MAX, u32::MAX), Some(810));
    assert_eq!(read_rpm(143_166, 1_000), Some(116_080));
    assert_eq!(read_rpm(1, u32::MAX), Some(0));
}

#[test]
fn no_time_gives_no_rate() {
    assert_eq!(read_rpm(74, 0), None);
    assert_eq!(read_rpm(0, 0), None);
}

#[test]
fn an_edge_adds_one_step() {
    let counter = AtomicU32::new(0);
    assert_eq!(interrupt_handler(false, &counter), Ok(()));
    assert_eq!(counter.load(Ordering::Relaxed), 0);
    assert_eq!(interrupt_handler(true, &counter), Ok(()));
    assert_eq!(interrupt_handler(true, &counter), Ok(()));
    assert_eq!(counter.load(Ordering::Relaxed), 2);
    assert_eq!(edge_counted(0), Ok(1));
    assert_eq!(edge_counted(41), Ok(42));
    assert_eq!(edge_counted(u32::MAX - 1), Ok(u32::MAX));
}

#[test]
fn a_wrapping_counter_is_reported() {
    assert_eq!(edge_counted(u32::MAX), Err(CounterOverflow));
    let counter = AtomicU32::new(u32::MAX - 1);
    assert_eq!(interrupt_handler(true, &counter), Ok(()));
    assert_eq!(interrupt_handler(false, &counter), Ok(()));
    assert_eq!(counter.load(Ordering::Relaxed), u32::MAX);
    assert_eq!(interrupt_handler(true, &counter), Err(CounterOverflow));
    assert_eq!(counter.load(Ordering::Relaxed), 0);
    assert_eq!(interrupt_handler(true, &counter), Ok(()));
}

#[test]
fn the_sampler_advances_whether_or_not_edges_were_counted() {
    let mut sampler = EncoderSampler::new(10_000);
    let counter = AtomicU32::new(74);
    assert_eq!(
        sampler.tick(11_000, &counter),
        RateSample { count: 74, elapsed_ms: 1_000, rpm: Some(60) }
    );
    assert_eq!(counter.load(Ordering::Relaxed), 0);
    // An idle period: nothing counted, the time moves on all the same.
    assert_eq!(
        sampler.tick(12_003, &counter),
        RateSample { count: 0, elapsed_ms: 1_003, rpm: Some(0) }
    );
    for _ in 0..37 {
        let _ = interrupt_handler(true, &counter);
    }
    assert_eq!(
        sampler.tick(13_003, &counter),
        RateSample { count: 37, elapsed_ms: 1_000, rpm: Some(30) }
    );
    assert_eq!(counter.load(Ordering::Relaxed), 0);
}

#[test]
fn the_sampler_gives_no_rate_without_a_usable_interval() {
    let mut sampler = EncoderSampler::new(5_000);
    assert_eq!(sampler.sample(5_000, 10), RateSample { count: 10, elapsed_ms: 0, rpm: None });
    assert_eq!(sampler.sample(4_000, 10), RateSample { count: 10, elapsed_ms: 0, rpm: None });
    // The time of the last sample did not move back.
    assert_eq!(sampler.sample(6_000, 74), RateSample { count: 74, elapsed_ms: 1_000, rpm: Some(60) });
    let far = 6_000 + u64::from(u32::MAX) + 1;
    assert_eq!(
        sampler.sample(far, 74),
        RateSample { count: 74, elapsed_ms: u64::from(u32::MAX) + 1, rpm: None }
    );
    assert_eq!(
        sampler.sample(far + u64::from(u32::MAX), 74),
        RateSample { count: 74, elapsed_ms: u64::from(u32::MAX), rpm: Some(0) }
    );
}
