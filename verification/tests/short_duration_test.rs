use boppo_core::OutOfBoundsError;
use boppo_core::ShortDuration;
use std::time::Duration;

#[test]
fn conversions() {
    let d = ShortDuration::from_millis(61_250);
    assert_eq!(d.as_millis(), 61_250);
    assert_eq!(d.as_secs(), 61);
    assert_eq!(d.subsec_millis(), 250);
    assert_eq!(ShortDuration::from_seconds(3).as_millis(), 3000);
    assert_eq!(ShortDuration::from_seconds(u32::MAX).as_millis(), u32::MAX);
    assert_eq!(d.as_std(), Duration::from_millis(61_250));
    assert_eq!(ShortDuration::from_std(Duration::from_secs(2)), Some(ShortDuration::from_millis(2000)));
    assert_eq!(ShortDuration::from_std(Duration::from_secs(5_000_000)), None);
    assert_eq!(ShortDuration::from_u128_millis(7), Some(ShortDuration::from_millis(7)));
    assert_eq!(ShortDuration::default(), ShortDuration::from_millis(0));
}

#[test]
fn checked_and_saturating_arithmetic() {
    let a = ShortDuration::from_millis(u32::MAX - 5);
    let b = ShortDuration::from_millis(10);
    assert_eq!(a.checked_add(b), None);
    assert_eq!(b.checked_add(b), Some(ShortDuration::from_millis(20)));
    assert_eq!(b.checked_sub(a), None);
    assert_eq!(a.checked_sub(b), Some(ShortDuration::from_millis(u32::MAX - 15)));
    assert_eq!(a.saturating_add(b).as_millis(), u32::MAX);
    assert_eq!(b.saturating_sub(a).as_millis(), 0);
    assert_eq!(a.saturating_mul(2).as_millis(), u32::MAX);
    assert_eq!(b.saturating_mul(3).as_millis(), 30);
    assert_eq!(b.saturating_div(3).as_millis(), 3);
}

#[test]
fn operators() {
    let a = ShortDuration::from_millis(1500);
    let b = ShortDuration::from_millis(500);
    assert_eq!((a + b).as_millis(), 2000);
    assert_eq!((b - a).as_millis(), 0);
    assert_eq!((a - b).as_millis(), 1000);
    assert_eq!((a * 3).as_millis(), 4500);
    assert_eq!((a / 4).as_millis(), 375);
    assert_eq!((ShortDuration::from_millis(u32::MAX) + b).as_millis(), u32::MAX);
}

#[test]
fn std_duration_conversions() {
    assert_eq!(
        ShortDuration::try_from(Duration::from_millis(1500)),
        Ok(ShortDuration::from_millis(1500))
    );
    assert_eq!(
        ShortDuration::try_from(Duration::from_millis(u64::from(u32::MAX) + 1)),
        Err(OutOfBoundsError)
    );
    assert_eq!(Duration::from(ShortDuration::from_seconds(3)), Duration::from_secs(3));
}

#[test]
fn std_round_trip() {
    for millis in [0u32, 1, 999, 61_250, u32::MAX] {
        let d = ShortDuration::from_millis(millis);
        assert_eq!(ShortDuration::from_std(d.as_std()), Some(d));
    }
    assert_eq!("en-us".parse::<boppo_core::LanguageTag>().map(|t| t.as_string()), Ok("en-US".to_string()));
    assert_eq!("en_US".parse::<boppo_core::LanguageTag>(), Err(boppo_core::LanguageTagParseError));
}

#[test]
fn assign_operators_and_from() {
    let mut d = ShortDuration::from_millis(1500);
    d += ShortDuration::from_millis(500);
    assert_eq!(d, ShortDuration::from_millis(2000));
    d -= ShortDuration::from_millis(1999);
    assert_eq!(d, ShortDuration::from_millis(1));
    let std: Duration = ShortDuration::from_millis(2500).into();
    assert_eq!(std, Duration::from_millis(2500));
}
