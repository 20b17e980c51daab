use portkill::classify::classify_meta;
use portkill::classify::classify_path;
use portkill::classify::detect_source;
use portkill::sys::ProcMeta;
use portkill::text::find_substr;
use portkill::text::parse_u16;
use portkill::text::parse_u32;
use portkill::text::prefix_before_space;
use portkill::text::split_fields;
use portkill::text::suffix_after_last_colon;
use portkill::text::to_lines;
use portkill::text::u16_to_string;

#[test]
fn classifier_examples() {
    assert_eq!(classify_path("/usr/bin/dockerd"), "docker");
    assert_eq!(classify_path("/sbin/launchd"), "launchd");
    assert_eq!(classify_path("/usr/bin/myapp"), "unknown");
}

#[test]
fn classifier_order_and_fallback() {
    assert_eq!(classify_path("/usr/bin/containerd-shim"), "docker");
    assert_eq!(classify_path("/usr/lib/systemd/systemd"), "systemd");
    assert_eq!(classify_path("/opt/homebrew/bin/brew"), "brew");
    assert_eq!(classify_path(""), "unknown");
}

#[test]
fn classifier_is_a_function_of_the_path() {
    let a = classify_path("/usr/lib/systemd/systemd-resolved");
    let b = classify_path("/usr/lib/systemd/systemd-resolved");
    assert_eq!(a, b);
    assert_eq!(a, "systemd");
}

#[test]
fn detect_source_on_a_missing_process_is_unknown() {
    assert_eq!(detect_source(4_000_000_000), "unknown");
}

#[test]
fn classifying_a_table_answer() {
    assert_eq!(classify_meta(None), "unknown");
    let gone = ProcMeta { name: String::from("dockerd"), exe_path: String::new() };
    assert_eq!(classify_meta(Some(gone)), "unknown");
    let live = ProcMeta {
        name: String::from("dockerd"),
        exe_path: String::from("/usr/bin/dockerd"),
    };
    assert_eq!(classify_meta(Some(live)), "docker");
}

#[test]
fn detect_source_always_yields_a_label() {
    let own = sysinfo::get_current_pid().expect("current pid");
    let label = detect_source(own.as_u32());
    let labels = ["docker", "systemd", "launchd", "brew", "unknown"];
    assert!(labels.contains(&label.as_str()));
}

#[test]
fn number_parsing() {
    assert_eq!(parse_u32("1234"), Some(1234));
    assert_eq!(parse_u32("0"), Some(0));
    assert_eq!(parse_u32(""), None);
    assert_eq!(parse_u32("12a"), None);
    assert_eq!(parse_u32("-5"), None);
    assert_eq!(parse_u32("4294967295"), Some(u32::MAX));
    assert_eq!(parse_u32("4294967296"), None);
    assert_eq!(parse_u32("99999999999999999999"), None);
    assert_eq!(parse_u16("65535"), Some(65535));
    assert_eq!(parse_u16("65536"), None);
    assert_eq!(parse_u16("007"), Some(7));
}

#[test]
fn number_formatting() {
    assert_eq!(u16_to_string(0), "0");
    assert_eq!(u16_to_string(7), "7");
    assert_eq!(u16_to_string(22), "22");
    assert_eq!(u16_to_string(65535), "65535");
}

#[test]
fn field_splitting() {
    let f = split_fields("  a\tbb   ccc \n");
    assert_eq!(f, vec!["a", "bb", "ccc"]);
    assert_eq!(split_fields("").len(), 0);
    assert_eq!(split_fields("   ").len(), 0);
}

#[test]
fn line_splitting() {
    assert_eq!(to_lines("a\nb\n"), vec!["a", "b"]);
    assert_eq!(to_lines("a\r\nb"), vec!["a", "b"]);
    assert_eq!(to_lines("a\n\nb"), vec!["a", "", "b"]);
    assert_eq!(to_lines("").len(), 0);
}

#[test]
fn substring_search() {
    assert!(find_substr("TCP *:22 (LISTEN)", "(LISTEN)"));
    assert!(!find_substr("UDP *:5353", "(LISTEN)"));
    assert!(find_substr("anything", ""));
    assert!(!find_substr("short", "longer than the haystack"));
}

#[test]
fn descriptor_dissection() {
    assert_eq!(suffix_after_last_colon("TCP *:22 (LISTEN)"), "22 (LISTEN)");
    assert_eq!(prefix_before_space("22 (LISTEN)"), "22");
    assert_eq!(suffix_after_last_colon("nocolon"), "nocolon");
    assert_eq!(prefix_before_space("nospace"), "nospace");
    assert_eq!(suffix_after_last_colon("a:b:c"), "c");
}
