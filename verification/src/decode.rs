//! From the bytes of the cache file to the dictionary: decompression, then
//! strict parsing.

use crate::cache::{content_after, plan, CachePlan, Timestamp};
use crate::document::Dict2;
use crate::error::Error;
use crate::parser::parse_document;
use vstd::prelude::*;

verus! {

/// The text that the gzip stream `bytes` decompresses to, or `None` where
/// `bytes` is no gzip stream, is truncated, or does not hold UTF-8.
pub uninterp spec fn gunzipped_text(bytes: Seq<u8>) -> Option<Seq<char>>;

/// Reads a `flate2::read::GzDecoder` over `bytes` to its end as a string: the
/// result is `gunzipped_text` of the bytes.
#[verifier::external_body]
fn gunzip_to_string(bytes: &[u8]) -> (r: Result<String, std::io::Error>)
    ensures
        match r {
            Ok(s) => gunzipped_text(bytes@) == Some(s@),
            Err(_) => gunzipped_text(bytes@) is None,
        },
{
    let mut text = String::new();
    std::io::Read::read_to_string(&mut flate2::read::GzDecoder::new(bytes), &mut text).map(
        |_| text,
    )
}

/// Decompresses the content of the cache file to text.
///
/// Fails with `Error::Io`, for the operation `read to string`, exactly where
/// the content is not a gzip stream of UTF-8 text.
pub fn gzipped_file_to_string(xml_file: &[u8]) -> (r: Result<String, Error>)
    ensures
        match r {
            Ok(s) => gunzipped_text(xml_file@) == Some(s@),
            Err(e) => gunzipped_text(xml_file@) is None && (e matches Error::Io { operation, .. }
                && operation@ == "read to string"@),
        },
{
    match gunzip_to_string(xml_file) {
        Ok(s) => Ok(s),
        Err(e) => Err(Error::from_io("read to string", e)),
    }
}

/// The dictionary that the cache file's content holds, or the kind of
/// failure: the content does not decompress, or its text does not parse.
pub enum Decoded {
    Dictionary(crate::document::Dict2View),
    NotGzip,
    NotDictionary,
}

/// What the cache file's content `bytes` decodes to.
pub open spec fn decoded(bytes: Seq<u8>) -> Decoded {
    match gunzipped_text(bytes) {
        None => Decoded::NotGzip,
        Some(text) => match parse_document(text) {
            Some(d) => Decoded::Dictionary(d),
            None => Decoded::NotDictionary,
        },
    }
}

/// Turns the content of the cache file into the dictionary: decompresses it
/// and parses the text strictly.
///
/// Fails with `Error::Io` where the content does not decompress, and with
/// `Error::Xml` where it does and the text is no dictionary.
pub fn load_dict(xml_file: &[u8]) -> (r: Result<Dict2, Error>)
    ensures
        match r {
            Ok(d) => decoded(xml_file@) == Decoded::Dictionary(d@),
            Err(Error::Io { .. }) => decoded(xml_file@) is NotGzip,
            Err(Error::Xml(_)) => decoded(xml_file@) is NotDictionary,
            Err(_) => false,
        },
{
    let text = gzipped_file_to_string(xml_file)?;
    match Dict2::from_str(text.as_str()) {
        Ok(d) => Ok(d),
        Err(e) => Err(Error::Xml(e)),
    }
}

/// On a first run, when there is no cache file, the new file decompresses
/// to what the fetched dataset decompresses to, and so holds the same
/// dictionary.
pub proof fn lemma_first_run_decodes(now: Timestamp, force: bool, fetched: Seq<u8>)
    ensures
        plan(None, now, force) == Some(CachePlan::FetchAndCreate),
        content_after(CachePlan::FetchAndCreate, None, fetched) matches Some(file)
            && gunzipped_text(file) == gunzipped_text(fetched) && decoded(file) == decoded(fetched),
{
}

} // verus!
