use electricity::time_interval::{TimeInterval, TimeOfDay};

fn at(hour: u32, minute: u32) -> TimeOfDay {
    TimeOfDay { hour, minute }
}

#[test]
fn parses_an_interval() {
    assert_eq!(TimeInterval::parse("08:00-16:30").unwrap(), TimeInterval::new(at(8, 0), at(16, 30)));
    assert_eq!(TimeInterval::parse("23:59-00:00 rest").unwrap(), TimeInterval::new(at(23, 59), at(0, 0)));
}

#[test]
fn every_valid_time_parses() {
    for h in 0u32..24 {
        for m in [0u32, 1, 30, 59] {
            let text = format!("{h:02}:{m:02}-{h:02}:{m:02}");
            let parsed = TimeInterval::parse(&text).unwrap();
            assert_eq!(parsed, TimeInterval::new(at(h, m), at(h, m)));
        }
    }
}

#[test]
fn malformed_times_fail() {
    for (h, m) in [(25u32, 61u32), (24, 0), (7, 60), (99, 99)] {
        let text = format!("{h:02}:{m:02}-00:00");
        assert!(TimeInterval::parse(&text).is_err());
    }
    assert!(TimeInterval::parse("08:00 - 16:00").is_err());
    assert!(TimeInterval::parse("").is_err());
    assert!(TimeInterval::parse("99999999999:00-00:00").is_err());
}
