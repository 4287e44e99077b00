//! Pixel construction and channel access.

use raymarcher::screen::{Channel, Px};

#[test]
fn in_range_channels_round_trip_unchanged() {
    // All four values already in [0, 1]: the clamp is a no-op.
    let px = Px::from(&vec![1_000_000, 0, 500_000, 1_000_000]).unwrap();
    assert_eq!(px.get_ch(&Channel::Red), 1_000_000);
    assert_eq!(px.get_ch(&Channel::Green), 0);
    assert_eq!(px.get_ch(&Channel::Blue), 500_000);
    assert_eq!(px.get_ch(&Channel::Alpha), 1_000_000);
}

#[test]
fn out_of_range_channels_clamp() {
    // (-0.5, 1.5, 0.5, 2.0) clamps to (0, 1, 0.5, 1).
    let px = Px::from(&vec![-500_000, 1_500_000, 500_000, 2_000_000]).unwrap();
    assert_eq!(px.get_ch(&Channel::Red), 0);
    assert_eq!(px.get_ch(&Channel::Green), 1_000_000);
    assert_eq!(px.get_ch(&Channel::Blue), 500_000);
    assert_eq!(px.get_ch(&Channel::Alpha), 1_000_000);
}

#[test]
fn wrong_channel_count_is_rejected() {
    assert!(Px::from(&vec![0, 0, 0]).is_none());
    assert!(Px::from(&vec![0, 0, 0, 0, 0]).is_none());
    assert!(Px::from(&Vec::new()).is_none());
}
