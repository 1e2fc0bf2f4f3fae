use colored::Color;
use widar::distance::{distance_exponent, TX_POWER};
use widar::report::{
    assemble_report, build_row, parse_signal_level, NetworkRecord, MAX_STRENGTH, MIN_STRENGTH,
    UNREADABLE_SIGNAL,
};
use widar::signal::{
    filled_bars, generate_bar, generate_signal_indicator, signal_bar, NumSignalBars,
    FILLED_GLYPH, UNFILLED_GLYPH,
};

fn count_filled(s: &str) -> usize {
    s.chars().filter(|c| *c == FILLED_GLYPH).count()
}

fn record(level: &str) -> NetworkRecord {
    NetworkRecord {
        mac: "aa:bb:cc:dd:ee:ff".to_string(),
        ssid: "home".to_string(),
        channel: "6".to_string(),
        signal_level: level.to_string(),
        security: "WPA2".to_string(),
    }
}

#[test]
fn bar_count_floor() {
    assert_eq!(NumSignalBars::new(0).get(), 3);
    assert_eq!(NumSignalBars::new(1).get(), 3);
    assert_eq!(NumSignalBars::new(2).get(), 3);
    assert_eq!(NumSignalBars::new(3).get(), 3);
    assert_eq!(NumSignalBars::new(5).get(), 5);
    assert_eq!(NumSignalBars::new(255).get(), 255);
    assert_eq!(*NumSignalBars::new(7), 7);
    assert_eq!(*NumSignalBars::new(0), 3);
    assert_eq!(*NumSignalBars::new(1), 3);
    assert_eq!(*NumSignalBars::new(2), 3);
    assert_eq!(*NumSignalBars::new(5), 5);
}

#[test]
fn generate_bar_prefix_then_rest() {
    assert_eq!(generate_bar(2, 5, '#', '.'), "##...");
    assert_eq!(generate_bar(0, 3, '#', '.'), "...");
    assert_eq!(generate_bar(4, 4, '#', '.'), "####");
    assert_eq!(generate_bar(0, 0, '#', '.'), "");
    assert_eq!(generate_bar(6, 4, '#', '.'), "######");
}

#[test]
fn indicator_length_matches_bar_count() {
    for n in [0u8, 3, 4, 5, 10, 255] {
        let bars = NumSignalBars::new(n);
        for s in [-200, -101, -100, -90, -65, -31, -30, -29, 0, 40] {
            let text = signal_bar(s, bars, -100, -30);
            assert_eq!(text.chars().count(), bars.get() as usize);
        }
    }
}

#[test]
fn degenerate_range_fills_everything() {
    let bars = NumSignalBars::new(5);
    for s in [-100, 0, 4, 5, 6, 100] {
        assert_eq!(signal_bar(s, bars, 5, 5), "▃▃▃▃▃");
        assert_eq!(filled_bars(s, bars, 5, 5), 5);
    }
}

#[test]
fn readings_outside_range_clamp() {
    let bars = NumSignalBars::new(5);
    assert_eq!(filled_bars(-101, bars, -100, -30), 0);
    assert_eq!(signal_bar(-101, bars, -100, -30), "▁▁▁▁▁");
    assert_eq!(filled_bars(-29, bars, -100, -30), 5);
    assert_eq!(signal_bar(-29, bars, -100, -30), "▃▃▃▃▃");
    assert_eq!(filled_bars(-100, bars, -100, -30), 0);
    assert_eq!(filled_bars(-30, bars, -100, -30), 5);
}

#[test]
fn midpoint_rounds_half_up() {
    let bars = NumSignalBars::new(5);
    assert_eq!(filled_bars(-65, bars, -100, -30), 3);
    assert_eq!(signal_bar(-65, bars, -100, -30), "▃▃▃▁▁");
    // 0.4 * 5 = 2.0 exactly, 0.3 * 10 = 3.0, 1/7 * 5 = 0.71 rounds to 1
    assert_eq!(filled_bars(-72, bars, -100, -30), 2);
    assert_eq!(filled_bars(-79, NumSignalBars::new(10), -100, -30), 3);
    assert_eq!(filled_bars(-90, bars, -100, -30), 1);
}

#[test]
fn extreme_range_does_not_overflow() {
    let bars = NumSignalBars::new(255);
    assert_eq!(filled_bars(0, bars, i32::MIN, i32::MAX), 128);
    assert_eq!(filled_bars(i32::MAX, bars, i32::MIN, i32::MAX), 255);
    assert_eq!(filled_bars(i32::MIN, bars, i32::MIN, i32::MAX), 0);
}

#[test]
fn indicator_is_painted_green() {
    let ind = generate_signal_indicator(-65, NumSignalBars::new(5), -100, -30);
    assert_eq!(ind.input, "▃▃▃▁▁");
    assert_eq!(ind.fgcolor, Some(Color::Green));
    assert_eq!(ind.bgcolor, None);
    assert_eq!(count_filled(&ind.input), 3);
    assert!(ind.input.chars().all(|c| c == FILLED_GLYPH || c == UNFILLED_GLYPH));
}

#[test]
fn reference_power_gives_unit_distance() {
    assert_eq!(distance_exponent(TX_POWER), 0);
    assert_eq!(10f64.powf(distance_exponent(-30) as f64 / 20.0), 1.0);
}

#[test]
fn distance_exponent_values() {
    assert_eq!(distance_exponent(-60), 30);
    assert_eq!(distance_exponent(-10), -20);
    assert_eq!(distance_exponent(i32::MIN), -30 - (i32::MIN as i64));
    let mut last = i64::MAX;
    for s in [-120, -100, -60, -30, 0, 20] {
        let e = distance_exponent(s);
        assert!(e <= last);
        last = e;
    }
}

#[test]
fn parse_signal_level_values() {
    assert_eq!(parse_signal_level("-60"), -60);
    assert_eq!(parse_signal_level("+7"), 7);
    assert_eq!(parse_signal_level("0042"), 42);
    assert_eq!(parse_signal_level("-2147483648"), i32::MIN);
    assert_eq!(parse_signal_level("2147483647"), i32::MAX);
    assert_eq!(parse_signal_level("2147483648"), UNREADABLE_SIGNAL);
    assert_eq!(parse_signal_level("-2147483649"), UNREADABLE_SIGNAL);
    assert_eq!(parse_signal_level("99999999999999999999"), UNREADABLE_SIGNAL);
    assert_eq!(parse_signal_level("not-a-number"), -100);
    assert_eq!(parse_signal_level(""), -100);
    assert_eq!(parse_signal_level("-"), -100);
    assert_eq!(parse_signal_level("+"), -100);
    assert_eq!(parse_signal_level(" -60"), -100);
    assert_eq!(parse_signal_level("-60 dBm"), -100);
    assert_eq!(parse_signal_level("--5"), -100);
    for s in ["-60", "13", "-0", "x", "1.5"] {
        assert_eq!(parse_signal_level(s), s.parse::<i32>().unwrap_or(-100));
    }
}

#[test]
fn single_record_report() {
    let rows = assemble_report(&vec![record("-60")]);
    assert_eq!(rows.len(), 1);
    let row = &rows[0];
    assert_eq!(row.mac, "aa:bb:cc:dd:ee:ff");
    assert_eq!(row.ssid, "home");
    assert_eq!(row.channel, "6");
    assert_eq!(row.security, "WPA2");
    assert_eq!(row.signal_level, -60);
    assert_eq!(row.indicator.input.chars().count(), 5);
    assert_eq!(count_filled(&row.indicator.input), 3);
    assert_eq!(row.distance_exponent, 30);
    let meters = 10f64.powf(row.distance_exponent as f64 / 20.0);
    assert_eq!(format!("{:.2}", meters), "31.62");
}

#[test]
fn unreadable_level_is_weakest() {
    let rows = assemble_report(&vec![record("-40"), record("not-a-number"), record("-30")]);
    assert_eq!(rows.len(), 3);
    assert_eq!(rows[0].signal_level, -40);
    assert_eq!(rows[1].signal_level, -100);
    assert_eq!(rows[1].indicator.input, "▁▁▁▁▁");
    assert_eq!(rows[1].distance_exponent, 70);
    assert_eq!(rows[2].signal_level, -30);
    assert_eq!(rows[2].indicator.input, "▃▃▃▃▃");
}

#[test]
fn empty_scan_gives_no_rows() {
    assert!(assemble_report(&Vec::new()).is_empty());
}

#[test]
fn build_row_uses_given_scale() {
    let row = build_row(&record("-50"), NumSignalBars::new(4), MIN_STRENGTH, MAX_STRENGTH);
    assert_eq!(row.indicator.input.chars().count(), 4);
    assert_eq!(count_filled(&row.indicator.input), 3);
    let row = build_row(&record("-50"), NumSignalBars::new(1), -50, -50);
    assert_eq!(row.indicator.input, "▃▃▃");
}
