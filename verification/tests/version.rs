use eth_metrics::version::parse_version;

fn parse(s: &str) -> Option<String> {
    parse_version(&s.as_bytes().to_vec()).map(|v| String::from_utf8(v).unwrap())
}

#[test]
fn version_token_is_extracted() {
    let banner = "Parity-Ethereum\n  version 2.5.13-stable-253ff3f/x86_64-linux-gnu/rustc\nCopyright 2015-2019\n";
    assert_eq!(parse(banner), Some(String::from("2.5.13-stable-253ff3f/x86_64-linux-gnu/rustc")));
}

#[test]
fn version_token_stops_at_whitespace() {
    assert_eq!(parse("version 1.2.3 extra"), Some(String::from("1.2.3")));
    assert_eq!(parse("tool version 9\t"), Some(String::from("9")));
}

#[test]
fn banner_without_marker_has_no_version() {
    assert_eq!(parse(""), None);
    assert_eq!(parse("usage: node [options]"), None);
    assert_eq!(parse("versioning scheme"), None);
}

#[test]
fn empty_token_is_no_match() {
    // The marker with nothing (or only whitespace) after it matches no
    // version; a later complete occurrence still does.
    assert_eq!(parse("version "), None);
    assert_eq!(parse("version  \nversion 7.0"), Some(String::from("7.0")));
}

#[test]
fn first_occurrence_wins() {
    assert_eq!(parse("version 1.0 and version 2.0"), Some(String::from("1.0")));
}
