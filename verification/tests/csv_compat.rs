//! The configuration format stays interchangeable with a general-purpose
//! delimited-text reader and writer.

use snow_plow::codec::{parse_config, write_config, NamedFlake};

fn nf(name: &str, location: &str, enabled: bool) -> NamedFlake {
    NamedFlake { name: name.to_string(), location: location.to_string(), enabled }
}

#[test]
fn csv_reader_accepts_written_config() {
    let entries = vec![
        nf("dots", "/home/me/dots", true),
        nf("co,mma", "/with,comma", false),
        nf("qu\"ote", "/with\"quote", true),
        nf("multi\nline", "/plain", false),
    ];
    let text = write_config(&entries);
    let mut reader = csv::Reader::from_reader(text.as_bytes());
    let headers = reader.headers().unwrap().clone();
    assert_eq!(headers, vec!["name", "location", "enabled"]);
    let rows: Vec<csv::StringRecord> = reader.records().map(|r| r.unwrap()).collect();
    assert_eq!(rows.len(), entries.len());
    for (row, entry) in rows.iter().zip(entries.iter()) {
        assert_eq!(&row[0], entry.name.as_str());
        assert_eq!(&row[1], entry.location.as_str());
        assert_eq!(&row[2], if entry.enabled { "true" } else { "false" });
    }
}

#[test]
fn parser_accepts_csv_writer_output() {
    let mut writer = csv::Writer::from_writer(Vec::new());
    writer.write_record(["name", "location", "enabled"]).unwrap();
    writer.write_record(["dots", "/home/me/dots", "true"]).unwrap();
    writer.write_record(["co,mma", "/with\"quote", "false"]).unwrap();
    let bytes = writer.into_inner().unwrap();
    let text = String::from_utf8(bytes).unwrap();
    let records = parse_config(&text).unwrap();
    assert_eq!(
        records,
        vec![nf("dots", "/home/me/dots", true), nf("co,mma", "/with\"quote", false)]
    );
}
