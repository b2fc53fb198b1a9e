//! Stored content records, storage statistics and content queries.
//!
//! Times are clock readings in milliseconds, chosen by the caller.
use vstd::prelude::*;

use crate::text::byte_count;

verus! {

/// The lower-case hex MD5 digest of a text's UTF-8 bytes.
pub uninterp spec fn md5_hex_of(s: Seq<char>) -> Seq<char>;

/// Relies on md5::compute over the bytes of `s`, formatted with `{:x}`:
/// sixteen bytes, each as two lower-case hex digits.
#[verifier::external_body]
fn md5_hex(s: &str) -> (r: String)
    ensures
        r@ == md5_hex_of(s@),
        r@.len() == 32,
{
    format!("{:x}", md5::compute(s.as_bytes()))
}

/// Relies on uuid::Uuid::new_v4 and its Display, the hyphenated form of 36
/// characters.
#[verifier::external_body]
fn new_uuid() -> (r: String)
    ensures
        r@.len() == 36,
{
    uuid::Uuid::new_v4().to_string()
}

pub open spec fn text_or_empty(o: Option<String>) -> Seq<char> {
    match o {
        Some(s) => s@,
        None => Seq::empty(),
    }
}

pub open spec fn bytes_or_zero(o: &Option<String>) -> nat {
    match o {
        Some(s) => byte_count(s@),
        None => 0,
    }
}

/// The text whose digest identifies a record's content: title, text and URL
/// one after another.
pub open spec fn hash_input(title: Option<String>, text: Option<String>, url: Seq<char>) -> Seq<char> {
    text_or_empty(title) + text_or_empty(text) + url
}

/// A scraped page as it is stored.
pub struct StoredContent {
    pub id: String,
    pub url: String,
    pub domain: String,
    pub platform: String,
    pub title: Option<String>,
    pub text: Option<String>,
    pub html: Option<String>,
    pub metadata: Vec<(String, String)>,
    pub links: Vec<String>,
    pub images: Vec<String>,
    pub scraped_at_ms: u64,
    pub stored_at_ms: u64,
    /// Digest of title, text and URL, for deduplication.
    pub content_hash: String,
    /// Bytes of title, text, HTML and URL together, capped at `u64::MAX`.
    pub size_bytes: u64,
    pub tags: Vec<String>,
}

fn byte_len(o: &Option<String>) -> (r: usize)
    ensures
        r == bytes_or_zero(o),
{
    match o {
        Some(s) => s.as_str().len(),
        None => 0,
    }
}

fn text_of(o: &Option<String>) -> (r: &str)
    ensures
        r@ == text_or_empty(*o),
{
    match o {
        Some(s) => s.as_str(),
        None => {
            proof {
                reveal_strlit("");
            }
            ""
        },
    }
}

impl StoredContent {
    /// A record with the given id, made at `now_ms`.
    pub fn with_id(
        id: String,
        url: String,
        domain: String,
        platform: String,
        title: Option<String>,
        text: Option<String>,
        html: Option<String>,
        metadata: Vec<(String, String)>,
        now_ms: u64,
    ) -> (r: StoredContent)
        ensures
            r.id == id,
            r.url == url,
            r.domain == domain,
            r.platform == platform,
            r.title == title,
            r.text == text,
            r.html == html,
            r.metadata == metadata,
            r.links@.len() == 0,
            r.images@.len() == 0,
            r.tags@.len() == 0,
            r.scraped_at_ms == now_ms,
            r.stored_at_ms == now_ms,
            r.content_hash@ == md5_hex_of(hash_input(title, text, url@)),
            r.size_bytes == if bytes_or_zero(&title) + bytes_or_zero(&text) + bytes_or_zero(&html)
                + byte_count(url@) > u64::MAX {
                u64::MAX as int
            } else {
                (bytes_or_zero(&title) + bytes_or_zero(&text) + bytes_or_zero(&html) + byte_count(url@)) as int
            },
    {
        let input = String::from_str(text_of(&title)).concat(text_of(&text)).concat(url.as_str());
        let content_hash = md5_hex(input.as_str());
        let total = byte_len(&title) as u128 + byte_len(&text) as u128 + byte_len(&html) as u128
            + url.as_str().len() as u128;
        let size_bytes = if total > u64::MAX as u128 { u64::MAX } else { total as u64 };
        StoredContent {
            id,
            url,
            domain,
            platform,
            title,
            text,
            html,
            metadata,
            links: Vec::new(),
            images: Vec::new(),
            scraped_at_ms: now_ms,
            stored_at_ms: now_ms,
            content_hash,
            size_bytes,
            tags: Vec::new(),
        }
    }

    /// A record with a fresh random id.
    pub fn new(
        url: String,
        domain: String,
        platform: String,
        title: Option<String>,
        text: Option<String>,
        html: Option<String>,
        metadata: Vec<(String, String)>,
        now_ms: u64,
    ) -> (r: StoredContent)
        ensures
            r.id@.len() == 36,
            r.url == url,
            r.domain == domain,
            r.platform == platform,
            r.content_hash@ == md5_hex_of(hash_input(title, text, url@)),
            r.scraped_at_ms == now_ms,
    {
        StoredContent::with_id(new_uuid(), url, domain, platform, title, text, html, metadata, now_ms)
    }

    pub fn with_links(self, links: Vec<String>) -> (r: StoredContent)
        ensures
            r == (StoredContent { links, ..self }),
    {
        StoredContent { links, ..self }
    }

    pub fn with_images(self, images: Vec<String>) -> (r: StoredContent)
        ensures
            r == (StoredContent { images, ..self }),
    {
        StoredContent { images, ..self }
    }

    pub fn with_tags(self, tags: Vec<String>) -> (r: StoredContent)
        ensures
            r == (StoredContent { tags, ..self }),
    {
        StoredContent { tags, ..self }
    }

    /// Stamps the record as stored at `now_ms`.
    pub fn mark_stored(&mut self, now_ms: u64)
        ensures
            *final(self) == (StoredContent { stored_at_ms: now_ms, ..*old(self) }),
    {
        self.stored_at_ms = now_ms;
    }
}

/// Totals of stored and archived content.
#[derive(PartialEq, Eq, Structural, Debug, Clone, Copy)]
pub struct StorageStats {
    pub total_documents: u64,
    pub total_size_bytes: u64,
    pub archived_documents: u64,
    pub archived_size_bytes: u64,
    pub unique_domains: u64,
    pub unique_platforms: u64,
    pub avg_document_size: u64,
    /// Archived size per stored size, in parts per million.
    pub compression_ratio_ppm: u64,
}

impl Default for StorageStats {
    fn default() -> (r: StorageStats)
        ensures
            r == (StorageStats {
                total_documents: 0,
                total_size_bytes: 0,
                archived_documents: 0,
                archived_size_bytes: 0,
                unique_domains: 0,
                unique_platforms: 0,
                avg_document_size: 0,
                compression_ratio_ppm: 1000000,
            }),
    {
        StorageStats {
            total_documents: 0,
            total_size_bytes: 0,
            archived_documents: 0,
            archived_size_bytes: 0,
            unique_domains: 0,
            unique_platforms: 0,
            avg_document_size: 0,
            compression_ratio_ppm: 1000000,
        }
    }
}

impl StorageStats {
    /// Fills in the average size (with documents) and the compression ratio
    /// (with both sizes non-zero, capped at `u64::MAX`).
    pub fn calculate_derived(&mut self)
        ensures
            final(self).avg_document_size == if old(self).total_documents > 0 {
                old(self).total_size_bytes / old(self).total_documents
            } else {
                old(self).avg_document_size
            },
            final(self).compression_ratio_ppm == if old(self).archived_size_bytes > 0 && old(self).total_size_bytes > 0 {
                let q = old(self).archived_size_bytes * 1000000 / (old(self).total_size_bytes as int);
                if q > u64::MAX { u64::MAX as int } else { q }
            } else {
                old(self).compression_ratio_ppm as int
            },
            *final(self) == (StorageStats {
                avg_document_size: final(self).avg_document_size,
                compression_ratio_ppm: final(self).compression_ratio_ppm,
                ..*old(self)
            }),
    {
        if self.total_documents > 0 {
            self.avg_document_size = self.total_size_bytes / self.total_documents;
        }
        if self.archived_size_bytes > 0 && self.total_size_bytes > 0 {
            let q = self.archived_size_bytes as u128 * 1000000 / self.total_size_bytes as u128;
            self.compression_ratio_ppm = if q > u64::MAX as u128 { u64::MAX } else { q as u64 };
        }
    }
}

/// Filters, paging and order of a content search.
pub struct ContentQuery {
    pub url_pattern: Option<String>,
    pub domain: Option<String>,
    pub platform: Option<String>,
    pub scraped_after_ms: Option<u64>,
    pub scraped_before_ms: Option<u64>,
    pub tags: Vec<String>,
    pub limit: Option<u32>,
    pub offset: Option<u32>,
    /// newest_first, oldest_first, size_desc or size_asc
    pub sort_by: Option<String>,
}

impl Default for ContentQuery {
    fn default() -> (r: ContentQuery)
        ensures
            r.url_pattern is None,
            r.domain is None,
            r.platform is None,
            r.scraped_after_ms is None,
            r.scraped_before_ms is None,
            r.tags@.len() == 0,
            r.limit == Some(100u32),
            r.offset == Some(0u32),
            r.sort_by matches Some(s) && s@ == "newest_first"@,
    {
        ContentQuery {
            url_pattern: None,
            domain: None,
            platform: None,
            scraped_after_ms: None,
            scraped_before_ms: None,
            tags: Vec::new(),
            limit: Some(100),
            offset: Some(0),
            sort_by: Some(String::from_str("newest_first")),
        }
    }
}

} // verus!
