use avp::pacer::Pacer;
use avp::timing::{pts_to_nanos, Timebase};

const MS: i64 = 1_000_000;

#[test]
fn first_frame_shows_at_once() {
    let p = Pacer::new();
    assert_eq!(p.delay_for(5 * MS, 0), 0);
}

#[test]
fn gap_less_elapsed_is_waited() {
    let mut p = Pacer::new();
    p.shown(0);
    assert_eq!(p.delay_for(40 * MS, 15 * MS as u64), (25 * MS) as u64);
    assert_eq!(p.delay_for(40 * MS, 40 * MS as u64), 0);
    assert_eq!(p.delay_for(40 * MS, 50 * MS as u64), 0);
}

#[test]
fn out_of_order_timestamp_shows_at_once() {
    let mut p = Pacer::new();
    let mut delays = Vec::new();
    for pts in [0, 40, 80, 40, 120] {
        delays.push(p.schedule(pts * MS, 0));
    }
    assert_eq!(delays, vec![0, (40 * MS) as u64, (40 * MS) as u64, 0, (80 * MS) as u64]);
    assert_eq!(p.prev_pts, Some(120 * MS));
}

#[test]
fn duplicate_timestamp_shows_at_once() {
    let mut p = Pacer::new();
    p.shown(7);
    assert_eq!(p.delay_for(7, 0), 0);
}

#[test]
fn extreme_gap_does_not_overflow() {
    let mut p = Pacer::new();
    p.shown(i64::MIN);
    assert_eq!(p.delay_for(i64::MAX, 0), u64::MAX);
    assert_eq!(p.delay_for(i64::MAX, 1), u64::MAX - 1);
}

#[test]
fn pts_converts_through_timebase() {
    let ms = Timebase { num: 1, den: 1000 };
    assert_eq!(pts_to_nanos(33, ms), Some(33 * MS));
    assert_eq!(pts_to_nanos(-33, ms), Some(-33 * MS));
    let third = Timebase { num: 1, den: 3 };
    assert_eq!(pts_to_nanos(1, third), Some(333_333_333));
    assert_eq!(pts_to_nanos(-1, third), Some(-333_333_333));
    assert_eq!(pts_to_nanos(1, Timebase { num: -1, den: -3 }), Some(333_333_333));
    assert_eq!(pts_to_nanos(1, Timebase { num: 1, den: -3 }), Some(-333_333_333));
    assert_eq!(pts_to_nanos(0, Timebase { num: 1, den: 90000 }), Some(0));
}

#[test]
fn pts_conversion_refuses_what_cannot_be_done() {
    assert_eq!(pts_to_nanos(10, Timebase { num: 1, den: 0 }), None);
    assert_eq!(pts_to_nanos(i64::MAX, Timebase { num: 1, den: 1 }), None);
    assert_eq!(pts_to_nanos(i64::MAX, Timebase { num: i64::MAX, den: 1 }), None);
    assert_eq!(pts_to_nanos(-9_223_372_036, Timebase { num: 1, den: 1 }), Some(-9_223_372_036_000_000_000));
    assert_eq!(pts_to_nanos(-9_223_372_037, Timebase { num: 1, den: 1 }), None);
}
