use snow_plow::codec::{parse_config, write_config, NamedFlake, ParseError};

fn nf(name: &str, location: &str, enabled: bool) -> NamedFlake {
    NamedFlake { name: name.to_string(), location: location.to_string(), enabled }
}

#[test]
fn write_empty_registry() {
    let out = write_config(&Vec::new());
    assert_eq!(out, "name,location,enabled\n");
}

#[test]
fn write_simple_entries() {
    let entries = vec![nf("dots", "/home/me/dots", true), nf("sys", "/etc/sys", false)];
    let out = write_config(&entries);
    assert_eq!(out, "name,location,enabled\ndots,/home/me/dots,true\nsys,/etc/sys,false\n");
}

#[test]
fn write_quotes_delimiter_and_quote() {
    let entries = vec![nf("a,b", "/tmp/x", true), nf("q\"r", "/tmp/y", false)];
    let out = write_config(&entries);
    assert_eq!(out, "name,location,enabled\n\"a,b\",/tmp/x,true\n\"q\"\"r\",/tmp/y,false\n");
}

#[test]
fn write_quotes_line_breaks() {
    let entries = vec![nf("a\nb", "/tmp/z\rw", true)];
    let out = write_config(&entries);
    assert_eq!(out, "name,location,enabled\n\"a\nb\",\"/tmp/z\rw\",true\n");
}

#[test]
fn parse_empty_file_is_empty_registry() {
    let r = parse_config("").unwrap();
    assert!(r.is_empty());
}

#[test]
fn parse_header_only() {
    let r = parse_config("name,location,enabled\n").unwrap();
    assert!(r.is_empty());
}

#[test]
fn parse_simple_file() {
    let r = parse_config("name,location,enabled\ndots,/home/me/dots,true\nsys,/etc,false\n")
        .unwrap();
    assert_eq!(r, vec![nf("dots", "/home/me/dots", true), nf("sys", "/etc", false)]);
}

#[test]
fn parse_without_trailing_newline() {
    let r = parse_config("name,location,enabled\ndots,/d,true").unwrap();
    assert_eq!(r, vec![nf("dots", "/d", true)]);
}

#[test]
fn parse_quoted_fields() {
    let r = parse_config("name,location,enabled\n\"a,b\",\"/x\n/y\",true\n\"q\"\"r\",/z,false\n")
        .unwrap();
    assert_eq!(r, vec![nf("a,b", "/x\n/y", true), nf("q\"r", "/z", false)]);
}

#[test]
fn parse_rejects_wrong_header() {
    let e = parse_config("name,path,enabled\nx,/x,true\n").unwrap_err();
    assert_eq!(e, ParseError::Header);
}

#[test]
fn parse_rejects_blank_first_line() {
    let e = parse_config("\n").unwrap_err();
    assert_eq!(e, ParseError::Header);
}

#[test]
fn parse_rejects_wrong_field_count() {
    let e = parse_config("name,location,enabled\nx,/x\n").unwrap_err();
    assert_eq!(e, ParseError::FieldCount);
    let e2 = parse_config("name,location,enabled\nx,/x,true,extra\n").unwrap_err();
    assert_eq!(e2, ParseError::FieldCount);
}

#[test]
fn parse_rejects_bad_flag() {
    let e = parse_config("name,location,enabled\nx,/x,yes\n").unwrap_err();
    assert_eq!(e, ParseError::Flag);
}

#[test]
fn parse_rejects_unclosed_quote() {
    let e = parse_config("name,location,enabled\n\"x,/x,true\n").unwrap_err();
    assert_eq!(e, ParseError::Syntax);
}

#[test]
fn parse_rejects_stray_quote() {
    let e = parse_config("name,location,enabled\nx\"y,/x,true\n").unwrap_err();
    assert_eq!(e, ParseError::Syntax);
}

#[test]
fn parse_error_messages() {
    assert_eq!(
        ParseError::Syntax.msg(),
        "configuration file holds a malformed quoted field"
    );
    assert_eq!(
        ParseError::Header.msg(),
        "configuration file does not start with the expected header row"
    );
    assert_eq!(
        ParseError::FieldCount.msg(),
        "configuration record does not have exactly three fields"
    );
    assert_eq!(
        ParseError::Flag.msg(),
        "configuration record has a flag that is neither `true` nor `false`"
    );
}

#[test]
fn round_trip_hostile_fields() {
    let entries = vec![
        nf("", "", true),
        nf("plain", "/plain", false),
        nf("co,mma", "/with,comma", true),
        nf("qu\"ote", "/with\"quote", false),
        nf("new\nline", "/with\nnewline", true),
        nf("car\rriage", "/with\r\nboth", false),
        nf("\"\"", ",\",\n\r", true),
        nf("true", "false", false),
    ];
    let text = write_config(&entries);
    let back = parse_config(&text).unwrap();
    assert_eq!(back, entries);
}
