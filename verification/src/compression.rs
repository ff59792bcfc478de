//! Which responses are compressed.

use crate::config::ArxConfig;
use crate::header_map::{header_entries, header_get, is_header_name, value_text};
use crate::headers::header_text;
use crate::text::{chars_of, parse_u64, read_u64, starts_with, str_eq};
use vstd::prelude::*;
use vstd::string::*;

verus! {

/// Decides by the configuration whether a response is compressed.
#[derive(Debug)]
pub struct CompressionPredicate<'a> {
    pub cfg: &'a ArxConfig,
}

/// The content type of a response: the text of `content-type`, empty where
/// the header is missing or no text.
pub open spec fn content_type(entries: Map<Seq<char>, Seq<Seq<u8>>>) -> Seq<char> {
    match header_text(entries, "content-type"@) {
        Some(t) => t,
        None => Seq::empty(),
    }
}

/// The size of a response, where it is known: the exact size of the body,
/// or else the number in `content-length`.
pub open spec fn content_size(entries: Map<Seq<char>, Seq<Seq<u8>>>, exact: Option<u64>) -> Option<
    u64,
> {
    match exact {
        Some(n) => Some(n),
        None => match header_text(entries, "content-length"@) {
            Some(t) => parse_u64(t),
            None => None,
        },
    }
}

/// Whether one of the first `n` exempt types is `kind`.
pub open spec fn is_exempt(exempt: Seq<String>, n: int, kind: Seq<char>) -> bool {
    exists|i: int| 0 <= i < n && (#[trigger] exempt[i])@ == kind
}

/// Whether a content type is an image that is left as it is: any `image/`
/// type but SVG, unless images are to be compressed.
pub open spec fn is_spared_image(cfg: ArxConfig, kind: Seq<char>) -> bool {
    kind != "image/svg+xml"@ && "image/"@.is_prefix_of(kind)
        && !cfg.http_compression_compress_images
}

/// Whether a response of this content type and size is compressed: its
/// type is not exempt, it is no image that is left as it is, and its size,
/// where known, is not below the least size.
pub open spec fn compressible(cfg: ArxConfig, kind: Seq<char>, size: Option<u64>) -> bool {
    &&& !is_exempt(
        cfg.http_compression_exempt_content_types@,
        cfg.http_compression_exempt_content_types@.len() as int,
        kind,
    )
    &&& !is_spared_image(cfg, kind)
    &&& size matches Some(n) ==> n >= cfg.http_compression_min_size
}

/// The header names that this module reads are header names.
pub proof fn lemma_content_names()
    ensures
        is_header_name("content-type"@),
        is_header_name("content-length"@),
{
    reveal_strlit("content-type");
    reveal_strlit("content-length");
}

impl<'a> CompressionPredicate<'a> {
    /// Whether the response with these headers is compressed. `exact_size`
    /// is the size of the body where the body itself tells it.
    #[verifier::loop_isolation(false)]
    pub fn should_compress(
        &self,
        headers: &http::HeaderMap<http::HeaderValue>,
        exact_size: Option<u64>,
    ) -> (r: bool)
        ensures
            r == compressible(
                *self.cfg,
                content_type(header_entries(*headers)),
                content_size(header_entries(*headers), exact_size),
            ),
    {
        proof {
            lemma_content_names();
        }
        let kind: String = match header_get(headers, "content-type") {
            Some(bytes) => match value_text(&bytes) {
                Some(text) => text,
                None => String::new(),
            },
            None => String::new(),
        };
        let size: Option<u64> = match exact_size {
            Some(n) => Some(n),
            None => match header_get(headers, "content-length") {
                Some(bytes) => match value_text(&bytes) {
                    Some(text) => read_u64(text.as_str()),
                    None => None,
                },
                None => None,
            },
        };
        let exempt = &self.cfg.http_compression_exempt_content_types;
        let mut i: usize = 0;
        while i < exempt.len()
            invariant
                i <= exempt.len(),
                !is_exempt(exempt@, i as int, kind@),
            decreases exempt.len() - i,
        {
            if str_eq(exempt[i].as_str(), kind.as_str()) {
                return false;
            }
            i += 1;
        }
        let image = starts_with(&chars_of(kind.as_str()), &chars_of("image/"));
        if !str_eq(kind.as_str(), "image/svg+xml") && image
            && !self.cfg.http_compression_compress_images {
            return false;
        }
        if let Some(n) = size {
            if n < self.cfg.http_compression_min_size {
                return false;
            }
        }
        true
    }
}

} // verus!
