use flate2::write::GzEncoder;
use flate2::Compression;
use hantracker::cache::{load_kanji_xml_data, must_write, CachePlan, Timestamp};
use hantracker::decode::{gzipped_file_to_string, load_dict};
use hantracker::Error;
use std::io::Write;

fn gzip(bytes: &[u8]) -> Vec<u8> {
    let mut encoder = GzEncoder::new(Vec::new(), Compression::default());
    encoder.write_all(bytes).unwrap();
    encoder.finish().unwrap()
}

const TWO_ENTRIES: &str = "<?xml version=\"1.0\" encoding=\"UTF-8\"?>
<kanjidic2>
<header><file_version>4</file_version><database_version>2024-123</database_version>
<date_of_creation>2024-05-02</date_of_creation></header>
<character><literal>一</literal><codepoint><cp_value cp_type=\"ucs\">4e00</cp_value></codepoint>
<radical><rad_value rad_type=\"classical\">1</rad_value></radical>
<misc><grade>1</grade><stroke_count>1</stroke_count></misc><query_code/></character>
<character><literal>亜</literal><codepoint><cp_value cp_type=\"ucs\">4e9c</cp_value></codepoint>
<radical><rad_value rad_type=\"classical\">7</rad_value></radical>
<misc><stroke_count>7</stroke_count><jlpt>3</jlpt></misc><query_code/></character>
</kanjidic2>
";

fn io_operation(e: Error) -> String {
    match e {
        Error::Io { operation, .. } => operation,
        other => panic!("{other:?}"),
    }
}

#[test]
fn text_survives_compression() {
    let text = "漢字 and <xml/> text\n";
    assert_eq!(gzipped_file_to_string(&gzip(text.as_bytes())).unwrap(), text);
}

#[test]
fn an_empty_stream_decompresses_to_nothing() {
    assert_eq!(gzipped_file_to_string(&gzip(b"")).unwrap(), "");
}

#[test]
fn bytes_that_are_not_gzip_are_an_io_failure() {
    let e = gzipped_file_to_string(b"this is plainly not a gzip stream").unwrap_err();
    assert_eq!(io_operation(e), "read to string");
    let e = gzipped_file_to_string(TWO_ENTRIES.as_bytes()).unwrap_err();
    assert_eq!(io_operation(e), "read to string");
}

#[test]
fn a_truncated_stream_is_an_io_failure() {
    let whole = gzip(TWO_ENTRIES.as_bytes());
    let e = gzipped_file_to_string(&whole[..whole.len() / 2]).unwrap_err();
    assert_eq!(io_operation(e), "read to string");
}

#[test]
fn an_empty_file_is_an_io_failure() {
    assert!(matches!(gzipped_file_to_string(b""), Err(Error::Io { .. })));
}

#[test]
fn compressed_bytes_that_are_not_utf8_are_an_io_failure() {
    let e = gzipped_file_to_string(&gzip(&[0xff, 0xfe, 0x80])).unwrap_err();
    assert_eq!(io_operation(e), "read to string");
}

#[test]
fn a_first_run_loads_the_fetched_dictionary() {
    let fetched = gzip(TWO_ENTRIES.as_bytes());
    let now = Timestamp { secs: 1_700_000_000, nanos: 0 };
    let plan = load_kanji_xml_data(None, now, false).unwrap();
    assert_eq!(plan, CachePlan::FetchAndCreate);
    assert!(must_write(plan, None, &fetched));
    let cache_file = fetched.clone();
    assert_eq!(
        gzipped_file_to_string(&cache_file).unwrap(),
        gzipped_file_to_string(&fetched).unwrap()
    );
    let dict = load_dict(&cache_file).unwrap();
    assert_eq!(dict.character.len(), 2);
    assert_eq!(dict.get_all_joyo().unwrap().len(), 1);
    assert_eq!(dict.get_all_kyoiku().unwrap().len(), 1);
    assert_eq!(dict.get_all_jlpt().unwrap().len(), 1);
    assert_eq!(dict.get_all_joyo().unwrap(), vec!['一']);
    assert_eq!(dict.get_all_kyoiku().unwrap(), vec!['一']);
    assert_eq!(dict.get_all_jlpt().unwrap(), vec!['亜']);
}

#[test]
fn a_fresh_cache_is_loaded_without_a_fetch() {
    let cache_file = gzip(TWO_ENTRIES.as_bytes());
    let modified = Timestamp { secs: 1_700_000_000, nanos: 0 };
    let now = Timestamp { secs: 1_700_000_000 + 24 * 60 * 60, nanos: 0 };
    assert_eq!(load_kanji_xml_data(Some(modified), now, false).unwrap(), CachePlan::UseCache);
    let dict = load_dict(&cache_file).unwrap();
    assert_eq!(dict.header.database_version, "2024-123");
    assert_eq!(dict.character.len(), 2);
}

#[test]
fn a_corrupted_cache_is_an_io_failure_and_not_refetched() {
    let modified = Timestamp { secs: 1_700_000_000, nanos: 0 };
    let now = Timestamp { secs: 1_700_000_001, nanos: 0 };
    assert_eq!(load_kanji_xml_data(Some(modified), now, false).unwrap(), CachePlan::UseCache);
    let e = load_dict(b"\x1f\x8b garbage that is no gzip stream").unwrap_err();
    assert_eq!(io_operation(e), "read to string");
}

#[test]
fn a_compressed_document_off_the_schema_is_an_xml_failure() {
    let text = TWO_ENTRIES.replace("<jlpt>3</jlpt>", "<jlpt level=\"n3\">3</jlpt>");
    assert!(matches!(load_dict(&gzip(text.as_bytes())), Err(Error::Xml(_))));
    assert!(matches!(load_dict(&gzip(b"")), Err(Error::Xml(_))));
}

#[test]
fn a_stale_cache_with_an_unchanged_dataset_keeps_its_bytes() {
    let cache_file = gzip(TWO_ENTRIES.as_bytes());
    let remote = cache_file.clone();
    let modified = Timestamp { secs: 0, nanos: 0 };
    let mut on_disk = cache_file.clone();
    for run in 1..4u64 {
        let now = Timestamp { secs: run * 61 * 24 * 60 * 60, nanos: 0 };
        let plan = load_kanji_xml_data(Some(modified), now, false).unwrap();
        assert_eq!(plan, CachePlan::FetchAndCompare);
        if must_write(plan, Some(&on_disk), &remote) {
            on_disk = remote.clone();
        }
        assert_eq!(on_disk, cache_file);
    }
}
