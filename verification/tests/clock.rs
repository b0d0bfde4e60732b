use twitch_chat::clock::ClockTime;

#[test]
fn clock_text_has_two_digits_each() {
    assert_eq!(ClockTime::new(0, 0).expect("valid").text(), "00:00");
    assert_eq!(ClockTime::new(9, 5).expect("valid").text(), "09:05");
    assert_eq!(ClockTime::new(12, 34).expect("valid").text(), "12:34");
    assert_eq!(ClockTime::new(23, 59).expect("valid").text(), "23:59");
    assert_eq!(ClockTime::new(10, 10).expect("valid").text(), "10:10");
}

#[test]
fn clock_text_agrees_with_padded_format() {
    for hour in 0..24 {
        for minute in 0..60 {
            let time = ClockTime::new(hour, minute).expect("valid");
            assert_eq!(time.hour(), hour);
            assert_eq!(time.minute(), minute);
            assert_eq!(time.text(), format!("{:02}:{:02}", hour, minute));
        }
    }
}

#[test]
fn times_outside_the_day_are_refused() {
    assert!(ClockTime::new(24, 0).is_none());
    assert!(ClockTime::new(0, 60).is_none());
    assert!(ClockTime::new(u32::MAX, u32::MAX).is_none());
    assert!(ClockTime::new(23, 59).is_some());
}

#[test]
fn now_is_a_time_of_day() {
    let now = ClockTime::now();
    assert!(now.hour() < 24);
    assert!(now.minute() < 60);
    assert_eq!(ClockTime::new(now.hour(), now.minute()), Some(now));
    let text = now.text();
    assert_eq!(text.len(), 5);
    assert_eq!(&text[2..3], ":");
    assert!(text.chars().filter(|c| c.is_ascii_digit()).count() == 4);
}

#[test]
fn now_follows_the_clock() {
    let before = chrono::Local::now();
    let now = ClockTime::now();
    let after = chrono::Local::now();
    let minutes = |t: &chrono::DateTime<chrono::Local>| {
        (chrono::Timelike::hour(t), chrono::Timelike::minute(t))
    };
    let got = (now.hour(), now.minute());
    assert!(got == minutes(&before) || got == minutes(&after));
}
