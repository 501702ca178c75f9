use hantracker::cache::{
    buffer_capacity, cache_file_name, content_digest, dataset_url, download_kanjidic_cached, file_is_old, hashes_match,
    load_kanji_xml_data, must_write, response_data_to_buffer, CachePlan, Timestamp,
    CONNECT_TIMEOUT_SECS, STALENESS_THRESHOLD_SECS,
};
use hantracker::Error;

const DAY: u64 = 24 * 60 * 60;

fn at(secs: u64, nanos: u32) -> Timestamp {
    Timestamp { secs, nanos }
}

#[test]
fn the_threshold_is_sixty_days() {
    assert_eq!(STALENESS_THRESHOLD_SECS, 5_184_000);
    assert_eq!(STALENESS_THRESHOLD_SECS, 60 * DAY);
}

#[test]
fn the_connect_timeout_is_five_seconds() {
    assert_eq!(CONNECT_TIMEOUT_SECS, 5);
}

#[test]
fn the_dataset_and_its_file_are_fixed() {
    assert_eq!(dataset_url(), "http://www.edrdg.org/kanjidic/kanjidic2.xml.gz");
    assert_eq!(cache_file_name(), "kanjidic2.xml.gz");
}

#[test]
fn a_file_of_exactly_sixty_days_is_old() {
    assert!(file_is_old(at(1_000, 5), at(1_000 + 60 * DAY, 5)).unwrap());
}

#[test]
fn a_file_one_nanosecond_short_of_sixty_days_is_not_old() {
    assert!(!file_is_old(at(1_000, 5), at(1_000 + 60 * DAY, 4)).unwrap());
    assert!(!file_is_old(at(1_000, 0), at(999 + 60 * DAY, 999_999_999)).unwrap());
}

#[test]
fn a_file_of_age_zero_is_not_old() {
    assert!(!file_is_old(at(77, 1), at(77, 1)).unwrap());
}

#[test]
fn an_old_file_is_old() {
    assert!(file_is_old(at(0, 0), at(61 * DAY, 0)).unwrap());
    assert!(file_is_old(at(0, 0), at(u64::MAX, 999_999_999)).unwrap());
}

#[test]
fn a_file_from_the_future_is_a_time_error() {
    assert!(matches!(file_is_old(at(10, 1), at(10, 0)), Err(Error::Time)));
    assert!(matches!(file_is_old(at(11, 0), at(10, 999_999_999)), Err(Error::Time)));
}

#[test]
fn an_absent_cache_is_fetched_and_created() {
    assert_eq!(load_kanji_xml_data(None, at(5, 0), false).unwrap(), CachePlan::FetchAndCreate);
    assert_eq!(load_kanji_xml_data(None, at(5, 0), true).unwrap(), CachePlan::FetchAndCreate);
}

#[test]
fn a_fresh_cache_is_used_without_fetching() {
    let plan = load_kanji_xml_data(Some(at(100, 0)), at(100 + 59 * DAY, 0), false).unwrap();
    assert_eq!(plan, CachePlan::UseCache);
    assert!(!download_kanjidic_cached(at(100, 0), at(100 + 59 * DAY, 0), false).unwrap());
}

#[test]
fn a_stale_cache_is_fetched_and_compared() {
    let plan = load_kanji_xml_data(Some(at(100, 0)), at(100 + 60 * DAY, 0), false).unwrap();
    assert_eq!(plan, CachePlan::FetchAndCompare);
    assert!(download_kanjidic_cached(at(100, 0), at(100 + 60 * DAY, 0), false).unwrap());
}

#[test]
fn forcing_refreshes_a_fresh_cache() {
    let plan = load_kanji_xml_data(Some(at(100, 0)), at(101, 0), true).unwrap();
    assert_eq!(plan, CachePlan::FetchAndCompare);
}

#[test]
fn a_future_cache_is_a_time_error_even_when_forced() {
    assert!(matches!(load_kanji_xml_data(Some(at(9, 0)), at(8, 0), false), Err(Error::Time)));
    assert!(matches!(load_kanji_xml_data(Some(at(9, 0)), at(8, 0), true), Err(Error::Time)));
    assert!(matches!(download_kanjidic_cached(at(9, 0), at(8, 0), true), Err(Error::Time)));
}

#[test]
fn equal_payloads_have_matching_hashes() {
    assert!(hashes_match(b"kanjidic", b"kanjidic"));
    assert!(hashes_match(b"", b""));
}

#[test]
fn different_payloads_have_different_hashes() {
    assert!(!hashes_match(b"kanjidic", b"kanjidic2"));
    assert!(!hashes_match(b"", b"\0"));
}

#[test]
fn an_unchanged_dataset_is_never_written_again() {
    let payload = b"the same bytes on both sides".to_vec();
    for _ in 0..3 {
        assert!(!must_write(CachePlan::FetchAndCompare, Some(&payload), &payload));
    }
}

#[test]
fn a_changed_dataset_is_written() {
    assert!(must_write(CachePlan::FetchAndCompare, Some(b"old"), b"new"));
}

#[test]
fn a_new_file_is_always_written() {
    assert!(must_write(CachePlan::FetchAndCreate, None, b"new"));
    assert!(must_write(CachePlan::FetchAndCreate, Some(b"new"), b"new"));
    assert!(must_write(CachePlan::FetchAndCompare, None, b"new"));
}

#[test]
fn a_fresh_cache_is_never_written() {
    assert!(!must_write(CachePlan::UseCache, Some(b"old"), b"new"));
    assert!(!must_write(CachePlan::UseCache, None, b"new"));
}

#[test]
fn the_buffer_is_empty_and_sized_to_the_announced_length() {
    let buffer = response_data_to_buffer(Some(4096));
    assert!(buffer.is_empty());
    assert!(buffer.capacity() >= 4096);
}

#[test]
fn the_buffer_without_a_length_is_empty() {
    assert!(response_data_to_buffer(None).is_empty());
    assert!(response_data_to_buffer(Some(0)).is_empty());
}

#[test]
fn an_absurd_length_falls_back_to_an_unsized_buffer() {
    let buffer = response_data_to_buffer(Some(u64::MAX));
    assert!(buffer.is_empty());
}

#[test]
fn the_default_error_is_unknown() {
    assert!(matches!(Error::default(), Error::Unknown));
}

fn hex(bytes: &[u8]) -> String {
    bytes.iter().map(|b| format!("{b:02x}")).collect()
}

#[test]
fn the_digest_is_sha256() {
    assert_eq!(
        hex(&content_digest(b"")),
        "e3b0c44298fc1c149afbf4c8996fb92427ae41e4649b934ca495991b7852b855"
    );
    assert_eq!(
        hex(&content_digest(b"abc")),
        "ba7816bf8f01cfea414140de5dae2223b00361a396177a9cb410ff61f20015ad"
    );
    assert_eq!(content_digest(b"any length of input at all").len(), 32);
}

#[test]
fn the_room_reserved_is_the_announced_length() {
    assert_eq!(buffer_capacity(Some(4096)), 4096);
    assert_eq!(buffer_capacity(Some(0)), 0);
    assert_eq!(buffer_capacity(Some(1)), 1);
    assert_eq!(buffer_capacity(None), 0);
}

#[test]
fn a_length_that_no_buffer_can_have_reserves_nothing() {
    assert_eq!(buffer_capacity(Some(isize::MAX as u64)), isize::MAX as usize);
    assert_eq!(buffer_capacity(Some(isize::MAX as u64 + 1)), 0);
    assert_eq!(buffer_capacity(Some(u64::MAX)), 0);
}
