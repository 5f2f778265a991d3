use tt_gui::chart::{can_shorten_str, chart_name, chart_name_step, chart_scales, hour_marks, shorten, station_label_step, tick_marks, train_tag, NameStep};

#[test]
fn scales_default() {
    assert_eq!(chart_scales(0, 0), (1440, 15));
    assert_eq!(chart_scales(720, 30), (720, 30));
}

#[test]
fn ticks_and_hours() {
    assert_eq!(tick_marks(120, 45), vec![(0, 2), (45, 1), (90, 1)]);
    assert_eq!(tick_marks(60, 15), vec![(0, 2), (15, 1), (30, 1), (45, 1), (60, 2)]);
    assert_eq!(tick_marks(0, 15), vec![(0, 2)]);
    assert_eq!(tick_marks(1440, 15).len(), 97);
    assert_eq!(hour_marks(150), vec![0, 60, 120]);
    assert_eq!(hour_marks(1440).len(), 25);
    assert_eq!(tick_marks(u32::MAX, u32::MAX), vec![(0, 2), (u32::MAX, 1)]);
}

#[test]
fn label_fitting() {
    assert_eq!(station_label_step("Boston", 40, 100), None);
    assert_eq!(station_label_step("Boston", 100, 100), None);
    assert_eq!(station_label_step("Boston", 101, 100), Some("Bosto".to_string()));
    assert_eq!(shorten("ab"), "a");
    assert_eq!(shorten("éa"), "é");
    assert_eq!(chart_name_step(120, 70, 100), NameStep::ShortenStation);
    assert_eq!(chart_name_step(120, 50, 100), NameStep::ShortenTrack);
    assert_eq!(chart_name_step(100, 90, 100), NameStep::Done);
    assert_eq!(chart_name("Worcester", "Yard 1"), "Worcester:Yard 1");
    assert_eq!(train_tag("101"), "Train:101");
}

#[test]
fn shortening_needs_a_single_byte_last_char() {
    assert!(can_shorten_str("ab"));
    assert!(!can_shorten_str(""));
    assert!(!can_shorten_str("aé"));
    assert!(can_shorten_str("éa"));
}
