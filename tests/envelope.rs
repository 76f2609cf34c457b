use ratatoskr::envelope::{encode_envelope, encode_update, Reading};
use ratatoskr::resource::ResourceKind;

fn reading(data: &str, warning: Option<&str>, icon: Option<&str>) -> Reading {
    Reading {
        data: data.to_string(),
        warning: warning.map(|w| w.to_string()),
        icon: icon.map(|i| i.to_string()),
        levels: vec![],
    }
}

#[test]
fn update_carries_warning_icon_and_data() {
    let r = reading("{\"perc\":40}", Some("0.25"), Some("x"));
    let m = encode_update(ResourceKind::Display, &r);
    assert_eq!(
        m,
        "{\"resource\":\"display\",\"warning\":0.25,\"icon\":\"x\",\"data\":{\"perc\":40}}"
    );
}

#[test]
fn missing_warning_and_icon_take_defaults() {
    let r = reading("{\"used\":3}", None, None);
    let m = encode_update(ResourceKind::Ram, &r);
    assert_eq!(m, "{\"resource\":\"ram\",\"warning\":0.0,\"icon\":\"\",\"data\":{\"used\":3}}");
}

#[test]
fn icon_is_escaped_as_a_json_string() {
    let r = reading("null", Some("1.0"), Some("a\"b\\c"));
    let m = encode_update(ResourceKind::Weather, &r);
    assert_eq!(
        m,
        "{\"resource\":\"weather\",\"warning\":1.0,\"icon\":\"a\\\"b\\\\c\",\"data\":null}"
    );
}

#[test]
fn non_ascii_icon_is_kept() {
    let r = reading("{}", None, Some("\u{f0084}"));
    let m = encode_envelope("battery", &r);
    assert_eq!(m, "{\"resource\":\"battery\",\"warning\":0.0,\"icon\":\"\u{f0084}\",\"data\":{}}");
}

#[test]
fn every_resource_has_its_wire_name() {
    let names = [
        "ram", "disk", "temperature", "weather", "loadavg", "volume", "battery", "network",
        "display",
    ];
    for (i, n) in names.iter().enumerate() {
        let k = ResourceKind::at(i);
        assert_eq!(k.name(), *n);
        assert_eq!(k.index(), i);
    }
}

#[test]
fn lines_end_with_a_newline() {
    assert_eq!(ratatoskr::envelope::frame_line("{\"a\":1}"), "{\"a\":1}\n");
    assert_eq!(ratatoskr::envelope::frame_line(""), "\n");
}
