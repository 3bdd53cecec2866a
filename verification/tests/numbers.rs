use databeam::binary64::{decode, Magnitude};
use databeam::croc::{parse_croc_size_pair, parse_total_size_hint};
use databeam::display::{
    format_elapsed_precise, format_eta_compact, format_file_size, format_sender_request_bar,
    format_sender_request_line, format_size_unit, format_speed_unit, lighten_component,
    truncate_middle, truncate_middle_for_ui,
};
use databeam::numerals::{read_real, Reading};
use databeam::panels::format_percent;
use databeam::progress::is_cli_progress_line;
use databeam::sendme::parse_sendme_r_payload_progress;
use databeam::status::spinner;
use databeam::units::{
    croc_unit_multiplier, is_size_unit, parse_croc_header_size, parse_size_prefix, unit_multiplier,
};

/// A small generator of test values.
struct Values {
    state: u64,
}

impl Values {
    fn next(&mut self) -> u64 {
        self.state = self.state.wrapping_mul(6364136223846793005).wrapping_add(1442695040888963407);
        let mut x = self.state;
        x ^= x >> 33;
        x = x.wrapping_mul(0xff51afd7ed558ccd);
        x ^= x >> 33;
        x
    }
}

fn value(m: &Magnitude) -> f64 {
    f64::from_bits(m.to_bits())
}

fn magnitude(v: f64) -> Magnitude {
    decode(v.to_bits()).expect("a number").1
}

fn reading(v: f64) -> Reading {
    Reading::from_bits(v.to_bits())
}

fn doubles() -> Vec<f64> {
    let mut out = vec![
        0.0,
        1.0,
        2.0,
        0.1,
        0.3,
        1.0 / 3.0,
        0.5,
        1e-300,
        5e-324,
        2.2250738585072014e-308,
        1.7976931348623157e308,
        123456789.125,
        4503599627370497.5,
        1e22,
    ];
    let mut v = Values { state: 7 };
    while out.len() < 120 {
        let x = f64::from_bits(v.next() & 0x7fff_ffff_ffff_ffff);
        if x.is_finite() {
            out.push(x);
        }
        out.push((v.next() % 1_000_000) as f64 / 1024.0);
    }
    out
}

#[test]
fn doubles_keep_their_bits() {
    for x in doubles() {
        assert_eq!(magnitude(x).to_bits(), x.to_bits());
    }
    assert!(decode(f64::NAN.to_bits()).is_none());
    let (negative, size) = decode((-2.5f64).to_bits()).expect("a number");
    assert!(negative);
    assert_eq!(value(&size), 2.5);
}

#[test]
fn arithmetic_is_that_of_doubles() {
    let all = doubles();
    for (i, x) in all.iter().enumerate() {
        let y = all[(i * 7 + 3) % all.len()];
        let (a, b) = (magnitude(*x), magnitude(y));
        assert_eq!(value(&a.plus(&b)).to_bits(), (x + y).to_bits());
        assert_eq!(value(&a.times(&b)).to_bits(), (x * y).to_bits());
        if y > 0.0 {
            assert_eq!(value(&a.over(&b)).to_bits(), (x / y).to_bits());
        }
        match a.minus(&b) {
            Some(d) => assert_eq!(value(&d).to_bits(), (x - y).to_bits()),
            None => assert!(*x < y),
        }
        assert_eq!(a.reaches(&b), *x >= y);
        assert_eq!(value(&a.max(&b)).to_bits(), x.max(y).to_bits());
        assert_eq!(a.truncate(), *x as u64);
        assert_eq!(a.round(), x.round() as u64);
    }
}

#[test]
fn arithmetic_is_that_of_singles() {
    let mut v = Values { state: 11 };
    for _ in 0..300 {
        let (n, d) = (v.next() >> (v.next() % 60), (v.next() >> (v.next() % 60)).max(1));
        assert_eq!(value(&Magnitude::single(n)), n as f32 as f64);
        let part = (n as f32 / d as f32).clamp(0.0, 1.0);
        assert_eq!(value(&Magnitude::fraction_of(n, d)), part as f64);
        assert_eq!(value(&magnitude(part as f64).percent()), (part * 100.0) as f64);
        let (x, y) = (n as f32, d as f32);
        assert_eq!(value(&Magnitude::single(n).plus_single(&Magnitude::single(d))), (x + y) as f64);
        assert_eq!(value(&Magnitude::single(n).over_single(&Magnitude::single(d))), (x / y) as f64);
        assert_eq!(value(&Magnitude::from_u64(n)), n as f64);
    }
}

#[test]
fn percentages_read_as_formatted_singles() {
    let mut v = Values { state: 5 };
    for _ in 0..300 {
        let p = ((v.next() % 100_001) as f32 / 100_000.0).clamp(0.0, 1.0);
        assert_eq!(format_percent(&magnitude(p as f64)), format!("{:.1}%", p * 100.0));
    }
    assert_eq!(format_percent(&magnitude(0.425f32 as f64)), "42.5%");
}

#[test]
fn sizes_read_as_formatted_doubles() {
    assert_eq!(format_file_size(0), "0 B");
    assert_eq!(format_file_size(1023), "1023 B");
    assert_eq!(format_file_size(1536), "1.5 KB");
    assert_eq!(format_file_size(5 * 1024 * 1024 + 1), "5.0 MB");
    assert_eq!(format_size_unit(1536), "1.50 KiB");
    assert_eq!(format_size_unit(3 * 1024 * 1024 * 1024), "3.00 GiB");
    assert_eq!(format_size_unit(7), "7 B");
    let mut v = Values { state: 3 };
    for _ in 0..200 {
        let n = v.next() >> (v.next() % 64);
        let expected = if n >= 1 << 30 {
            format!("{:.1} GB", n as f64 / (1u64 << 30) as f64)
        } else if n >= 1 << 20 {
            format!("{:.1} MB", n as f64 / (1u64 << 20) as f64)
        } else if n >= 1 << 10 {
            format!("{:.1} KB", n as f64 / 1024.0)
        } else {
            format!("{} B", n)
        };
        assert_eq!(format_file_size(n), expected);
    }
}

#[test]
fn numerals_are_read_as_the_nearest_doubles() {
    for s in [
        "0", "1", "12.5", "0.1", "1e5", "1.5E-3", "+7", "-3.25", ".5", "5.", "1e400", "1e-400",
        "9007199254740993", "0.30000000000000004", "179769313486231580793e289", "2.4703282292062327e-324",
        "inf", "nan", "", "abc", "1e", "--1", "1.2.3", "e5", ".", "infinity", "-inf",
    ] {
        let chars: Vec<char> = s.chars().collect();
        match (s.parse::<f64>(), read_real(&chars)) {
            (Ok(x), Some(Reading::Nan)) => assert!(x.is_nan()),
            (Ok(x), Some(Reading::Number { negative, size })) => {
                assert_eq!(negative, x.is_sign_negative(), "{}", s);
                if x.is_finite() {
                    assert_eq!(size.to_bits(), x.abs().to_bits(), "{}", s);
                } else {
                    assert!(size.is_infinite());
                }
            }
            (Err(_), None) => {}
            (a, b) => panic!("{}: {:?} {:?}", s, a, b),
        }
    }
}

#[test]
fn speeds_and_times_read_well() {
    assert_eq!(format_speed_unit(&reading(0.0)), "0 B/s");
    assert_eq!(format_speed_unit(&reading(-5.0)), "0 B/s");
    assert_eq!(format_speed_unit(&reading(1536.0)), "1.50 KiB/s");
    assert_eq!(format_elapsed_precise(3723), "01:02:03");
    assert_eq!(format_eta_compact(&reading(f64::INFINITY)), "--");
    assert_eq!(format_eta_compact(&reading(f64::NAN)), "--");
    assert_eq!(format_eta_compact(&reading(59.4)), "59s");
    assert_eq!(format_eta_compact(&reading(59.5)), "1m 0s");
    assert_eq!(spinner(&magnitude(1.4)), 0);
    assert_eq!(spinner(&magnitude(0.4)), 1);
}

#[test]
fn request_bars_fill_up() {
    assert_eq!(format_sender_request_bar(0, 100, 10).chars().count(), 10);
    let half = format_sender_request_bar(50, 100, 10);
    assert_eq!(half.chars().count(), 10);
    let full = format_sender_request_bar(100, 100, 10);
    assert!(full.chars().all(|c| c == full.chars().next().unwrap()));
    assert!(format_sender_request_line("abcdef", 5, 1024, 2048).contains("abcdef"));
}

#[test]
fn middles_are_cut_to_length() {
    let long = "abcdefghijklmnopqrstuvwxyz";
    let cut = truncate_middle(long, 13);
    assert_eq!(cut, "abcdefgh\u{2026}wxyz");
    assert_eq!(cut.chars().count(), 13);
    assert_eq!(truncate_middle(&cut, 13), cut);
    assert_eq!(truncate_middle(long, 26), long);
    assert_eq!(truncate_middle(long, 5), "abcde");
    assert_eq!(truncate_middle_for_ui(long, 13), cut);
    assert_eq!(lighten_component(250, 25), 255);
    assert_eq!(lighten_component(10, 25), 35);
}

#[test]
fn units_multiply() {
    assert_eq!(unit_multiplier("MiB"), 1024 * 1024);
    assert_eq!(unit_multiplier("kb"), 1000);
    assert!(is_size_unit("GiB"));
    assert!(!is_size_unit("files"));
    assert_eq!(croc_unit_multiplier("MB"), Some(1_000_000));
    assert_eq!(croc_unit_multiplier("x"), None);
    assert_eq!(parse_croc_header_size("60.1 MB"), Some(63_019_417));
    assert_eq!(parse_size_prefix("1.5 KiB"), Some(1536));
    assert_eq!(parse_size_prefix("nothing"), None);
}

#[test]
fn lines_of_the_tools_are_measured() {
    assert_eq!(parse_total_size_hint("4 files In Total, 60.1 MB."), Some(63_019_417));
    assert_eq!(parse_total_size_hint("in total, many"), None);
    assert_eq!(parse_total_size_hint("60.1 MB"), None);
    assert_eq!(parse_croc_size_pair("56.2/600.7 MB"), Some((56_200_000, 600_700_000)));
    assert_eq!(parse_croc_size_pair("210 MB/5 GB"), Some((210_000_000, 5_000_000_000)));
    assert_eq!(parse_croc_size_pair("0/0 B"), None);
    assert_eq!(parse_croc_size_pair("-1/5 B"), None);
    assert_eq!(parse_croc_size_pair("5 B"), None);
    assert_eq!(parse_sendme_r_payload_progress("n native r 5/10 i 0 # recv"), Some((5, 10)));
    assert_eq!(parse_sendme_r_payload_progress("n native r 11/10 i 0 # recv"), None);
    assert_eq!(parse_sendme_r_payload_progress("n native r 0/0 i 0 # recv"), None);
    assert!(is_cli_progress_line("Downloading 1 MB / 2 MB 3 MB/s"));
    assert!(!is_cli_progress_line("Downloading 1 MB of 2 MB"));
    assert!(!is_cli_progress_line("1 MB / 2 MB 3 MB/s"));
}

#[test]
fn bars_grow_with_what_is_done() {
    let mut filled = 0;
    for done in 0..=97 {
        let bar = format_sender_request_bar(done, 97, 36);
        assert_eq!(bar.chars().count(), 36);
        let now = bar.chars().filter(|c| *c == '#').count();
        assert!(now >= filled);
        filled = now;
    }
    assert_eq!(filled, 36);
    assert_eq!(format_sender_request_bar(1, 3, 9), "###>-----");
}
