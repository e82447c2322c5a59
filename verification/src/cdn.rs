//! Per-chapter content-delivery metadata and the construction of the
//! ordered image-URL list from it. The URL layout is fixed by the
//! upstream API: `baseUrl / qualityTier / contentHash / filename`.

use vstd::prelude::*;
use vstd::string::StringExecFns;
use crate::client::opt_view;
use crate::config::ImageQuality;

verus! {

/// The delivery metadata issued for one chapter: a CDN base URL, a
/// content hash, and one ordered filename list per quality tier.
#[derive(Debug, Clone)]
pub struct ChapterCdnInfo {
    pub base_url: String,
    pub hash: String,
    /// Filenames of the full-fidelity pages, in page order.
    pub data: Vec<String>,
    /// Filenames of the bandwidth-reduced pages, in page order.
    pub data_saver: Vec<String>,
}

/// The field a delivery-metadata payload was missing (or held with
/// the wrong type), in reading order.
#[derive(Debug, Clone, Copy, PartialEq, Eq, Structural)]
pub enum CdnParseError {
    /// `baseUrl` is absent or not a string.
    BaseUrl,
    /// `chapter.hash` is absent or not a string.
    Hash,
    /// `chapter.data` is absent, not an array, or holds a non-string.
    Data,
    /// `chapter.dataSaver` is absent, not an array, or holds a
    /// non-string.
    DataSaver,
}

/// The warnings the metadata check raises; none of them fails the
/// chapter (a zero-length but internally consistent chapter is legal).
#[derive(Debug, Clone, Copy, PartialEq, Eq, Structural)]
pub enum CdnWarning {
    /// The two quality tiers list different page counts.
    InconsistentCounts,
    /// The content hash is empty.
    EmptyHash,
    /// The full-fidelity list is empty.
    NoLosslessImages,
    /// The bandwidth-reduced list is empty.
    NoLossyImages,
}

/// The views of a list of strings.
pub open spec fn strings_view(ss: Seq<String>) -> Seq<Seq<char>> {
    ss.map_values(|x: String| x@)
}

/// The view of an optional list of strings.
pub open spec fn opt_strings_view(o: Option<Vec<String>>) -> Option<Seq<Seq<char>>> {
    match o {
        Option::Some(list) => Option::Some(strings_view(list@)),
        Option::None => Option::None,
    }
}

/// The payload's top-level `baseUrl` string: `None` when the text is
/// not JSON or the field is absent or not a string. A fixed function
/// of the text.
pub uninterp spec fn cdn_base_url_of(s: Seq<char>) -> Option<Seq<char>>;

/// The payload's `chapter.hash` string, read the same way.
pub uninterp spec fn cdn_hash_of(s: Seq<char>) -> Option<Seq<char>>;

/// The payload's `chapter.data` list of filename strings, in payload
/// order; `None` when absent, not an array, or holding a non-string.
pub uninterp spec fn cdn_data_of(s: Seq<char>) -> Option<Seq<Seq<char>>>;

/// The payload's `chapter.dataSaver` list, read the same way.
pub uninterp spec fn cdn_data_saver_of(s: Seq<char>) -> Option<Seq<Seq<char>>>;

/// Relies on serde_json::from_str, Value::get and Value::as_str:
/// reads the payload's `baseUrl` straight from the text.
#[verifier::external_body]
fn read_cdn_base_url(s: &str) -> (r: Option<String>)
    ensures
        opt_view(r) == cdn_base_url_of(s@),
{
    serde_json::from_str::<serde_json::Value>(s)
        .ok()
        .and_then(|v| v.get("baseUrl").and_then(|b| b.as_str()).map(|b| b.to_owned()))
}

/// Relies on serde_json::from_str, Value::get and Value::as_str:
/// reads the payload's `chapter.hash` straight from the text.
#[verifier::external_body]
fn read_cdn_hash(s: &str) -> (r: Option<String>)
    ensures
        opt_view(r) == cdn_hash_of(s@),
{
    serde_json::from_str::<serde_json::Value>(s)
        .ok()
        .and_then(|v| {
            v.get("chapter").and_then(|c| c.get("hash")).and_then(|h| h.as_str()).map(
                |h| h.to_owned(),
            )
        })
}

/// Relies on serde_json::from_str, Value::get, Value::as_array and
/// Value::as_str: reads the payload's `chapter.data` filename list
/// straight from the text, in payload order.
#[verifier::external_body]
fn read_cdn_data(s: &str) -> (r: Option<Vec<String>>)
    ensures
        opt_strings_view(r) == cdn_data_of(s@),
{
    serde_json::from_str::<serde_json::Value>(s)
        .ok()
        .and_then(|v| {
            v.get("chapter").and_then(|c| c.get("data")).and_then(|d| d.as_array()).and_then(
                |list| {
                    list.iter().map(|e| e.as_str().map(|x| x.to_owned())).collect::<Option<
                        Vec<String>,
                    >>()
                },
            )
        })
}

/// Relies on serde_json::from_str, Value::get, Value::as_array and
/// Value::as_str: reads the payload's `chapter.dataSaver` filename
/// list straight from the text, in payload order.
#[verifier::external_body]
fn read_cdn_data_saver(s: &str) -> (r: Option<Vec<String>>)
    ensures
        opt_strings_view(r) == cdn_data_saver_of(s@),
{
    serde_json::from_str::<serde_json::Value>(s)
        .ok()
        .and_then(|v| {
            v.get("chapter").and_then(|c| c.get("dataSaver")).and_then(|d| d.as_array()).and_then(
                |list| {
                    list.iter().map(|e| e.as_str().map(|x| x.to_owned())).collect::<Option<
                        Vec<String>,
                    >>()
                },
            )
        })
}

impl ChapterCdnInfo {
    /// Reads the delivery-metadata payload of the CDN endpoint from
    /// the body text: `baseUrl` at the top level, and `hash`, `data`
    /// and `dataSaver` under `chapter`. Succeeds exactly when all
    /// four reads do, with the fields equal to the payload's (both
    /// filename lists in payload order); otherwise the first missing
    /// or mis-typed field, in reading order, names itself.
    pub fn new(body: &str) -> (r: Result<ChapterCdnInfo, CdnParseError>)
        ensures
            r matches Ok(c) <==> cdn_base_url_of(body@) is Some && cdn_hash_of(body@) is Some
                && cdn_data_of(body@) is Some && cdn_data_saver_of(body@) is Some,
            r matches Ok(c) ==> {
                &&& Option::Some(c.base_url@) == cdn_base_url_of(body@)
                &&& Option::Some(c.hash@) == cdn_hash_of(body@)
                &&& Option::Some(strings_view(c.data@)) == cdn_data_of(body@)
                &&& Option::Some(strings_view(c.data_saver@)) == cdn_data_saver_of(body@)
            },
            r == Err::<ChapterCdnInfo, _>(CdnParseError::BaseUrl) <==> cdn_base_url_of(
                body@,
            ) is None,
            r == Err::<ChapterCdnInfo, _>(CdnParseError::Hash) <==> cdn_base_url_of(body@) is Some
                && cdn_hash_of(body@) is None,
            r == Err::<ChapterCdnInfo, _>(CdnParseError::Data) <==> cdn_base_url_of(body@) is Some
                && cdn_hash_of(body@) is Some && cdn_data_of(body@) is None,
            r == Err::<ChapterCdnInfo, _>(CdnParseError::DataSaver) <==> cdn_base_url_of(
                body@,
            ) is Some && cdn_hash_of(body@) is Some && cdn_data_of(body@) is Some
                && cdn_data_saver_of(body@) is None,
    {
        let base_url = match read_cdn_base_url(body) {
            Option::Some(b) => b,
            Option::None => {
                return Err(CdnParseError::BaseUrl);
            },
        };
        let hash = match read_cdn_hash(body) {
            Option::Some(h) => h,
            Option::None => {
                return Err(CdnParseError::Hash);
            },
        };
        let data = match read_cdn_data(body) {
            Option::Some(d) => d,
            Option::None => {
                return Err(CdnParseError::Data);
            },
        };
        let data_saver = match read_cdn_data_saver(body) {
            Option::Some(d) => d,
            Option::None => {
                return Err(CdnParseError::DataSaver);
            },
        };
        Ok(ChapterCdnInfo { base_url, hash, data, data_saver })
    }

    /// The warnings this metadata deserves, in checking order.
    pub open spec fn spec_warnings(self) -> Seq<CdnWarning> {
        (if self.data@.len() != self.data_saver@.len() {
            seq![CdnWarning::InconsistentCounts]
        } else {
            Seq::empty()
        }) + (if self.hash@.len() == 0 {
            seq![CdnWarning::EmptyHash]
        } else {
            Seq::empty()
        }) + (if self.data@.len() == 0 {
            seq![CdnWarning::NoLosslessImages]
        } else {
            Seq::empty()
        }) + (if self.data_saver@.len() == 0 {
            seq![CdnWarning::NoLossyImages]
        } else {
            Seq::empty()
        })
    }

    /// Checks the metadata's shape: mismatched tier counts, an empty
    /// hash and empty tiers are warnings, never failures.
    pub fn consistency_warnings(&self) -> (r: Vec<CdnWarning>)
        ensures
            r@ == self.spec_warnings(),
    {
        let mut r: Vec<CdnWarning> = Vec::new();
        if self.data.len() != self.data_saver.len() {
            r.push(CdnWarning::InconsistentCounts);
        }
        if self.hash.as_str().unicode_len() == 0 {
            r.push(CdnWarning::EmptyHash);
        }
        if self.data.len() == 0 {
            r.push(CdnWarning::NoLosslessImages);
        }
        if self.data_saver.len() == 0 {
            r.push(CdnWarning::NoLossyImages);
        }
        assert(r@ =~= self.spec_warnings());
        r
    }

    /// The filename list of the chosen quality tier.
    pub open spec fn spec_tier_files(self, quality: ImageQuality) -> Seq<String> {
        match quality {
            ImageQuality::Lossless => self.data@,
            ImageQuality::Lossy => self.data_saver@,
        }
    }

    /// The image URLs of the chosen quality tier, in page order.
    pub open spec fn spec_image_urls(self, quality: ImageQuality) -> Seq<Seq<char>> {
        self.spec_tier_files(quality).map_values(
            |name: String| spec_image_url(self.base_url@, quality, self.hash@, name@),
        )
    }

    /// Builds the absolute image URLs of the chosen quality tier:
    /// base URL, tier segment, content hash and each filename, joined
    /// with single slashes, preserving the list's order exactly.
    pub fn construct_image_urls(&self, quality: ImageQuality) -> (r: Vec<String>)
        ensures
            r@.len() == self.spec_tier_files(quality).len(),
            forall|i: int|
                0 <= i < r@.len() ==> (#[trigger] r@[i])@ == self.spec_image_urls(quality)[i],
    {
        let mut prefix: String = self.base_url.clone();
        let base_len = prefix.as_str().unicode_len();
        let ends_with_slash = base_len > 0 && prefix.as_str().get_char(base_len - 1) == '/';
        if !ends_with_slash {
            prefix.append("/");
        }
        proof {
            reveal_strlit("/");
            assert(prefix@ =~= spec_with_trailing_slash(self.base_url@));
        }
        prefix.append(quality_segment(quality));
        prefix.append("/");
        prefix.append(self.hash.as_str());
        prefix.append("/");
        let names: &Vec<String> = match quality {
            ImageQuality::Lossless => &self.data,
            ImageQuality::Lossy => &self.data_saver,
        };
        let mut r: Vec<String> = Vec::new();
        let n = names.len();
        let mut i: usize = 0;
        while i < n
            invariant
                0 <= i <= n,
                n == names@.len(),
                r@.len() == i,
                prefix@ == spec_with_trailing_slash(self.base_url@) + spec_quality_segment(quality)
                    + "/"@ + self.hash@ + "/"@,
                forall|j: int|
                    0 <= j < i ==> (#[trigger] r@[j])@ == spec_image_url(
                        self.base_url@,
                        quality,
                        self.hash@,
                        names@[j]@,
                    ),
            decreases n - i,
        {
            let mut url = prefix.clone();
            url.append(names[i].as_str());
            r.push(url);
            i += 1;
        }
        proof {
            assert(self.spec_tier_files(quality) =~= names@);
        }
        r
    }
}

/// The literal path segment of a quality tier.
pub open spec fn spec_quality_segment(quality: ImageQuality) -> Seq<char> {
    match quality {
        ImageQuality::Lossless => "data"@,
        ImageQuality::Lossy => "data-saver"@,
    }
}

/// The literal path segment of a quality tier.
pub fn quality_segment(quality: ImageQuality) -> (r: &'static str)
    ensures
        r@ == spec_quality_segment(quality),
{
    match quality {
        ImageQuality::Lossless => "data",
        ImageQuality::Lossy => "data-saver",
    }
}

/// The base URL with exactly one trailing slash.
pub open spec fn spec_with_trailing_slash(base: Seq<char>) -> Seq<char> {
    if base.len() > 0 && base.last() == '/' {
        base
    } else {
        base + "/"@
    }
}

/// One absolute image URL: the base URL, the tier segment, the
/// content hash and the filename, joined with single slashes.
pub open spec fn spec_image_url(
    base: Seq<char>,
    quality: ImageQuality,
    hash: Seq<char>,
    name: Seq<char>,
) -> Seq<char> {
    spec_with_trailing_slash(base) + spec_quality_segment(quality) + "/"@ + hash + "/"@ + name
}

} // verus!
