use ratatoskr::number::{parse_i64, parse_unsigned};
use ratatoskr::text::{contains_text, split_field, trim};
use ratatoskr::tool_output::{
    brightness_values, count_processors, first_address, headphones_active, sink_muted, sink_volume,
};

#[test]
fn integers_read_as_std_reads_them() {
    assert_eq!(parse_i64("45"), Some(45));
    assert_eq!(parse_i64("+7"), Some(7));
    assert_eq!(parse_i64("-12"), Some(-12));
    assert_eq!(parse_i64("-0"), Some(0));
    assert_eq!(parse_i64("9223372036854775807"), Some(i64::MAX));
    assert_eq!(parse_i64("9223372036854775808"), None);
    assert_eq!(parse_i64("-9223372036854775808"), Some(i64::MIN));
    assert_eq!(parse_i64("-9223372036854775809"), None);
    assert_eq!(parse_i64(""), None);
    assert_eq!(parse_i64("-"), None);
    assert_eq!(parse_i64("+"), None);
    assert_eq!(parse_i64("4a"), None);
    assert_eq!(parse_i64(" 4"), None);
    for s in ["0", "17", "-3", "+99", "x", "", "123456789012345678901234"] {
        assert_eq!(parse_i64(s), s.parse::<i64>().ok());
    }
}

#[test]
fn unsigned_read_within_limit() {
    assert_eq!(parse_unsigned("255", 255), Some(255));
    assert_eq!(parse_unsigned("256", 255), None);
    assert_eq!(parse_unsigned("+8", 255), Some(8));
    assert_eq!(parse_unsigned("-8", 255), None);
    assert_eq!(parse_unsigned("007", 255), Some(7));
    assert_eq!(parse_unsigned("18446744073709551615", u64::MAX), Some(u64::MAX));
    assert_eq!(parse_unsigned("18446744073709551616", u64::MAX), None);
}

#[test]
fn trim_strips_unicode_whitespace() {
    assert_eq!(trim("  a b \t\r\n"), "a b");
    assert_eq!(trim("\u{3000}x\u{a0}"), "x");
    assert_eq!(trim("   "), "");
    assert_eq!(trim(""), "");
    for s in [" a ", "\u{2003}b\u{200b}", "\u{85}c", "d"] {
        assert_eq!(trim(s), s.trim());
    }
}

#[test]
fn text_helpers() {
    assert!(contains_text("Active Port: analog-output-headphones", "headphones"));
    assert!(!contains_text("Active Port: speaker", "headphones"));
    assert!(contains_text("abc", ""));
    assert_eq!(split_field("a:b::c", ":", 2), Some(""));
    assert_eq!(split_field("a:b::c", ":", 3), Some("c"));
    assert_eq!(split_field("a:b::c", ":", 4), None);
}

#[test]
fn mute_state() {
    assert!(sink_muted("Mute: yes\n"));
    assert!(!sink_muted("Mute: no\n"));
    assert!(sink_muted("yes"));
    assert!(!sink_muted("yesterday"));
    assert!(!sink_muted(""));
}

#[test]
fn volume_percentage() {
    let out = "Volume: front-left: 29491 /  45% / -20.81 dB,   front-right: 29491 /  45% / -20.81 dB\n";
    assert_eq!(sink_volume(out), Some(45));
    assert_eq!(sink_volume("100%%"), Some(100));
    assert_eq!(sink_volume("no percent here"), None);
    assert_eq!(sink_volume("x% 30%"), None);
    assert_eq!(sink_volume("50%x 30%"), Some(30));
}

#[test]
fn headphones_port() {
    let sinks = "Sink #0\n\tActive Port: analog-output-headphones\n";
    assert!(headphones_active(sinks));
    assert!(!headphones_active("Sink #0\n\tActive Port: analog-output-speaker\n\theadphones: yes\n"));
    assert!(!headphones_active(""));
}

#[test]
fn processor_lines() {
    let cpuinfo = "processor\t: 0\nvendor_id\t: x\n\nprocessor\t: 1\nmodel\t: y\n";
    assert_eq!(count_processors(cpuinfo), 2);
    assert_eq!(count_processors(""), 0);
    assert_eq!(count_processors("processor"), 1);
    assert_eq!(count_processors("\n\n"), 0);
}

#[test]
fn brightness_lines() {
    assert_eq!(brightness_values("120\n255\n"), Some((120, 255)));
    assert_eq!(brightness_values(" 7 \r\n 19\n"), Some((7, 19)));
    assert_eq!(brightness_values("120\n"), None);
    assert_eq!(brightness_values("x\n255\n"), None);
    assert_eq!(brightness_values(""), None);
}

#[test]
fn first_address_of_interface() {
    assert_eq!(first_address("192.168.1.20/24\n10.0.0.2/8\n"), Some("192.168.1.20"));
    assert_eq!(first_address("192.168.1.20/24\r\n"), Some("192.168.1.20"));
    assert_eq!(first_address("fe80::1\r\n"), Some("fe80::1"));
    assert_eq!(first_address("\n"), Some(""));
    assert_eq!(first_address(""), None);
}

#[test]
fn volume_events() {
    assert!(ratatoskr::tool_output::volume_event("Event 'change' on sink #0"));
    assert!(ratatoskr::tool_output::volume_event("Event 'change' on server #1"));
    assert!(!ratatoskr::tool_output::volume_event("Event 'new' on client #42"));
}
