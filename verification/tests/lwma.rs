//! Difficulty retargeting behaviour of the linear weighted moving average.

use base_node_core::lwma::{Difficulty, LinearWeightedMovingAverage};

#[test]
fn lwma_zero_len() {
    let dif = LinearWeightedMovingAverage::default();
    assert_eq!(dif.get_difficulty(), Difficulty::min());
}

#[test]
fn lwma_add_non_increasing_diff() {
    let mut dif = LinearWeightedMovingAverage::default();
    assert!(dif.add(100, Difficulty(100)).is_ok());
    assert!(dif.add(100, Difficulty(100)).is_err());
    assert!(dif.add(100, Difficulty(50)).is_err());
}

#[test]
fn lwma_negative_solve_times() {
    let mut dif = LinearWeightedMovingAverage::default();
    let mut timestamp: u64 = 60;
    let mut cum_diff: u64 = 100;
    let _ = dif.add(timestamp, Difficulty(cum_diff));
    timestamp += 60;
    cum_diff += 100;
    let _ = dif.add(timestamp, Difficulty(cum_diff));
    // Create a history and populate the window.
    for _i in 0..150 {
        cum_diff += 100;
        timestamp += 60;
        let _ = dif.add(timestamp, Difficulty(cum_diff));
    }
    // Sixty blocks with backward-dated timestamps. Each counts as a one-second
    // solve time, so the difficulty must rise every time.
    for _i in 0..60 {
        cum_diff += 100;
        timestamp -= 1;
        let diff_before = dif.get_difficulty();
        let _ = dif.add(timestamp, Difficulty(cum_diff));
        let diff_after = dif.get_difficulty();
        assert!(diff_after > diff_before);
    }
}

#[test]
fn lwma_limit_difficulty_change() {
    let mut dif = LinearWeightedMovingAverage::new(5, 60);
    let _ = dif.add(60, Difficulty(100));
    let _ = dif.add(10_000_000, Difficulty(200));
    assert_eq!(dif.get_difficulty(), Difficulty(17));
    let _ = dif.add(20_000_000, Difficulty(216));
    assert_eq!(dif.get_difficulty(), Difficulty(10));
}

#[test]
// Data for 5-period moving average
// Timestamp: 60, 120, 180, 240, 300, 350, 380, 445, 515, 615, 975, 976, 977, 978, 979
// Intervals: 60,  60,  60,  60,  60,  50,  30,  65,  70, 100, 360,   1,   1,   1,   1
// Diff:     100, 100, 100, 100, 100, 105, 128, 123, 116,  94,  39,  46,  55,  75, 148
// Acum dif: 100, 200, 300, 400, 500, 605, 733, 856, 972,1066,1105,1151,1206,1281,1429
// Target:     1, 100, 100, 100, 100, 107, 136, 130, 120,  94,  36,  39,  47,  67, 175
fn lwma_calculate() {
    let mut dif = LinearWeightedMovingAverage::new(5, 60);
    let _ = dif.add(60, Difficulty(100));
    assert_eq!(dif.get_difficulty(), Difficulty(1));
    let _ = dif.add(120, Difficulty(200));
    assert_eq!(dif.get_difficulty(), Difficulty(100));
    let _ = dif.add(180, Difficulty(300));
    assert_eq!(dif.get_difficulty(), Difficulty(100));
    let _ = dif.add(240, Difficulty(400));
    assert_eq!(dif.get_difficulty(), Difficulty(100));
    let _ = dif.add(300, Difficulty(500));
    assert_eq!(dif.get_difficulty(), Difficulty(100));
    let _ = dif.add(350, Difficulty(605));
    assert_eq!(dif.get_difficulty(), Difficulty(107));
    let _ = dif.add(380, Difficulty(733));
    assert_eq!(dif.get_difficulty(), Difficulty(136));
    let _ = dif.add(445, Difficulty(856));
    assert_eq!(dif.get_difficulty(), Difficulty(130));
    let _ = dif.add(515, Difficulty(972));
    assert_eq!(dif.get_difficulty(), Difficulty(120));
    let _ = dif.add(615, Difficulty(1066));
    assert_eq!(dif.get_difficulty(), Difficulty(94));
    let _ = dif.add(975, Difficulty(1105));
    assert_eq!(dif.get_difficulty(), Difficulty(36));
    let _ = dif.add(976, Difficulty(1151));
    assert_eq!(dif.get_difficulty(), Difficulty(39));
    let _ = dif.add(977, Difficulty(1206));
    assert_eq!(dif.get_difficulty(), Difficulty(47));
    let _ = dif.add(978, Difficulty(1281));
    assert_eq!(dif.get_difficulty(), Difficulty(67));
    let _ = dif.add(979, Difficulty(1429));
    assert_eq!(dif.get_difficulty(), Difficulty(175));
}
