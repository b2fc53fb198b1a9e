//! Checks on fingerprint values.
use vstd::prelude::*;

use crate::random::{chance, random_below};
use crate::text::str_eq;
use vstd::string::StringSliceAdditionalSpecFns;

verus! {

/// A spoofed fingerprint is acceptable when it differs from the original,
/// is not empty and is longer than ten bytes.
pub open spec fn spoof_ok(original: Seq<char>, spoofed: &str) -> bool {
    original != spoofed@ && spoofed.spec_bytes().len() as usize > 10
}

pub fn validate_fingerprint_spoofing(original: &str, spoofed: &str) -> (r: bool)
    ensures
        r == spoof_ok(original@, spoofed),
{
    !str_eq(original, spoofed) && spoofed.len() > 10
}

pub open spec fn digit_char(d: int) -> char {
    if d == 0 { '0' } else if d == 1 { '1' } else if d == 2 { '2' } else if d == 3 { '3' } else if d == 4 {
        '4'
    } else if d == 5 { '5' } else if d == 6 { '6' } else if d == 7 { '7' } else if d == 8 { '8' } else { '9' }
}

/// The decimal digits of `n`, most significant first.
pub open spec fn decimal_digits(n: nat) -> Seq<char>
    decreases n,
{
    if n < 10 {
        seq![digit_char(n as int)]
    } else {
        decimal_digits(n / 10) + seq![digit_char((n % 10) as int)]
    }
}

fn digit(d: u32) -> (c: char)
    requires
        d < 10,
    ensures
        c == digit_char(d as int),
{
    if d == 0 { '0' } else if d == 1 { '1' } else if d == 2 { '2' } else if d == 3 { '3' } else if d == 4 {
        '4'
    } else if d == 5 { '5' } else if d == 6 { '6' } else if d == 7 { '7' } else if d == 8 { '8' } else { '9' }
}

fn push_decimal(out: &mut Vec<char>, n: u32)
    ensures
        final(out)@ == old(out)@ + decimal_digits(n as nat),
    decreases n,
{
    if n >= 10 {
        push_decimal(out, n / 10);
    }
    out.push(digit(n % 10));
    assert(final(out)@ =~= old(out)@ + decimal_digits(n as nat));
}

/// `n` in decimal.
pub fn decimal_text(n: u32) -> (r: String)
    ensures
        r@ == decimal_digits(n as nat),
{
    let mut cs: Vec<char> = Vec::new();
    push_decimal(&mut cs, n);
    assert(cs@ =~= decimal_digits(n as nat));
    crate::text::string_of(&cs, 0, cs.len())
}

pub open spec fn views(v: Seq<String>) -> Seq<Seq<char>> {
    v.map_values(|s: String| s@)
}

pub open spec fn str_views(v: Seq<&str>) -> Seq<Seq<char>> {
    v.map_values(|s: &str| s@)
}

fn push_all(v: &mut Vec<String>, items: &[&str])
    ensures
        views(final(v)@) == views(old(v)@) + str_views(items@),
{
    let mut i: usize = 0;
    while i < items.len()
        invariant
            i <= items@.len(),
            views(v@) == views(old(v)@) + str_views(items@.subrange(0, i as int)),
        decreases items@.len() - i,
    {
        let ghost prev = v@;
        v.push(String::from_str(items[i]));
        proof {
            assert(views(v@) =~= views(prev).push(items@[i as int]@));
            assert(str_views(items@.subrange(0, i + 1)) =~= str_views(items@.subrange(0, i as int)).push(items@[i as int]@));
        }
        i = i + 1;
    }
    assert(items@.subrange(0, i as int) =~= items@);
}

/// `prefix` followed by `parts` separated by underscores.
fn joined(prefix: &str, parts: &[&str]) -> (r: String)
    ensures
        r@ == joined_spec(prefix@, str_views(parts@)),
{
    let mut out = String::from_str(prefix);
    let mut i: usize = 0;
    while i < parts.len()
        invariant
            i <= parts@.len(),
            out@ == joined_spec(prefix@, str_views(parts@.subrange(0, i as int))),
        decreases parts@.len() - i,
    {
        if i > 0 {
            out = out.concat("_");
        }
        out = out.concat(parts[i]);
        proof {
            let pre = str_views(parts@.subrange(0, i as int));
            let nxt = str_views(parts@.subrange(0, i + 1));
            assert(nxt.drop_last() =~= pre);
        }
        i = i + 1;
    }
    assert(parts@.subrange(0, i as int) =~= parts@);
    out
}

/// `prefix` followed by the parts separated by '_'.
pub open spec fn joined_spec(prefix: Seq<char>, parts: Seq<Seq<char>>) -> Seq<char>
    decreases parts.len(),
{
    if parts.len() == 0 {
        prefix
    } else if parts.len() == 1 {
        prefix + parts[0]
    } else {
        joined_spec(prefix, parts.drop_last()) + "_"@ + parts.last()
    }
}

/// WebGL identities to present.
pub struct WebGLSpoofing {
    pub gpu_vendors: Vec<String>,
    pub renderers: Vec<String>,
    pub extensions: Vec<String>,
}

impl WebGLSpoofing {
    pub fn new() -> (r: WebGLSpoofing)
        ensures
            views(r.gpu_vendors@) == seq!["NVIDIA Corporation"@, "AMD"@, "Intel Inc."@, "Apple Inc."@],
            views(r.renderers@) == seq!["GeForce GTX 1060"@, "Radeon RX 580"@, "Intel UHD Graphics 630"@, "Apple M1"@],
            views(r.extensions@) == seq!["WEBGL_debug_renderer_info"@, "OES_texture_float"@, "WEBGL_lose_context"@],
    {
        let mut gpu_vendors: Vec<String> = Vec::new();
        push_all(&mut gpu_vendors, &["NVIDIA Corporation", "AMD", "Intel Inc.", "Apple Inc."]);
        let mut renderers: Vec<String> = Vec::new();
        push_all(&mut renderers, &["GeForce GTX 1060", "Radeon RX 580", "Intel UHD Graphics 630", "Apple M1"]);
        let mut extensions: Vec<String> = Vec::new();
        push_all(&mut extensions, &["WEBGL_debug_renderer_info", "OES_texture_float", "WEBGL_lose_context"]);
        proof {
            assert(views(gpu_vendors@) =~= seq!["NVIDIA Corporation"@, "AMD"@, "Intel Inc."@, "Apple Inc."@]);
            assert(views(renderers@) =~= seq!["GeForce GTX 1060"@, "Radeon RX 580"@, "Intel UHD Graphics 630"@, "Apple M1"@]);
            assert(views(extensions@) =~= seq!["WEBGL_debug_renderer_info"@, "OES_texture_float"@, "WEBGL_lose_context"@]);
        }
        WebGLSpoofing { gpu_vendors, renderers, extensions }
    }

    /// The signature for a chosen vendor, renderer and extension.
    pub fn signature_for(&self, vendor: usize, renderer: usize, extension: usize) -> (r: String)
        requires
            vendor < self.gpu_vendors@.len(),
            renderer < self.renderers@.len(),
            extension < self.extensions@.len(),
        ensures
            r@ == joined_spec("webgl_"@, seq![
                self.gpu_vendors@[vendor as int]@,
                self.renderers@[renderer as int]@,
                self.extensions@[extension as int]@,
            ]),
    {
        let parts = [self.gpu_vendors[vendor].as_str(), self.renderers[renderer].as_str(), self.extensions[extension].as_str()];
        let r = joined("webgl_", &parts);
        assert(str_views(parts@) =~= seq![
            self.gpu_vendors@[vendor as int]@,
            self.renderers@[renderer as int]@,
            self.extensions@[extension as int]@,
        ]);
        r
    }

    /// The first `count` extensions.
    pub fn supported_extensions_for(&self, count: usize) -> (r: Vec<String>)
        requires
            count <= self.extensions@.len(),
        ensures
            r@ == self.extensions@.subrange(0, count as int),
    {
        prefix_of(&self.extensions, count)
    }

    /// A random leading run of at least two extensions.
    pub fn get_supported_extensions(&self) -> (r: Vec<String>)
        requires
            self.extensions@.len() >= 2,
        ensures
            exists|k: int| 2 <= k <= self.extensions@.len() && r@ == #[trigger] self.extensions@.subrange(0, k),
    {
        let extra = random_below((self.extensions.len() - 1) as u64) as usize;
        self.supported_extensions_for(2 + extra)
    }

    /// A signature with each part drawn at random.
    pub fn generate_signature(&self) -> (r: String)
        requires
            self.gpu_vendors@.len() > 0,
            self.renderers@.len() > 0,
            self.extensions@.len() > 0,
    {
        let v = random_below(self.gpu_vendors.len() as u64) as usize;
        let g = random_below(self.renderers.len() as u64) as usize;
        let e = random_below(self.extensions.len() as u64) as usize;
        self.signature_for(v, g, e)
    }
}

/// TLS parameters to present.
pub struct TLSSpoofing {
    pub cipher_suites: Vec<String>,
    pub tls_versions: Vec<String>,
    pub extensions: Vec<String>,
}

impl TLSSpoofing {
    pub fn new() -> (r: TLSSpoofing)
        ensures
            views(r.cipher_suites@) == seq!["TLS_AES_128_GCM_SHA256"@, "TLS_AES_256_GCM_SHA384"@, "TLS_CHACHA20_POLY1305_SHA256"@],
            views(r.tls_versions@) == seq!["1.2"@, "1.3"@],
            views(r.extensions@) == seq!["server_name"@, "application_layer_protocol_negotiation"@, "signature_algorithms"@],
    {
        let mut cipher_suites: Vec<String> = Vec::new();
        push_all(&mut cipher_suites, &["TLS_AES_128_GCM_SHA256", "TLS_AES_256_GCM_SHA384", "TLS_CHACHA20_POLY1305_SHA256"]);
        let mut tls_versions: Vec<String> = Vec::new();
        push_all(&mut tls_versions, &["1.2", "1.3"]);
        let mut extensions: Vec<String> = Vec::new();
        push_all(&mut extensions, &["server_name", "application_layer_protocol_negotiation", "signature_algorithms"]);
        proof {
            assert(views(cipher_suites@) =~= seq!["TLS_AES_128_GCM_SHA256"@, "TLS_AES_256_GCM_SHA384"@, "TLS_CHACHA20_POLY1305_SHA256"@]);
            assert(views(tls_versions@) =~= seq!["1.2"@, "1.3"@]);
            assert(views(extensions@) =~= seq!["server_name"@, "application_layer_protocol_negotiation"@, "signature_algorithms"@]);
        }
        TLSSpoofing { cipher_suites, tls_versions, extensions }
    }

    /// The signature for a chosen version, cipher and extension.
    pub fn signature_for(&self, version: usize, cipher: usize, extension: usize) -> (r: String)
        requires
            version < self.tls_versions@.len(),
            cipher < self.cipher_suites@.len(),
            extension < self.extensions@.len(),
        ensures
            r@ == joined_spec("tls_v"@, seq![
                self.tls_versions@[version as int]@,
                "cipher"@,
                self.cipher_suites@[cipher as int]@,
                self.extensions@[extension as int]@,
            ]),
    {
        let parts = [self.tls_versions[version].as_str(), "cipher", self.cipher_suites[cipher].as_str(), self.extensions[extension].as_str()];
        let r = joined("tls_v", &parts);
        proof {
            reveal_strlit("cipher");
            assert(str_views(parts@) =~= seq![
                self.tls_versions@[version as int]@,
                "cipher"@,
                self.cipher_suites@[cipher as int]@,
                self.extensions@[extension as int]@,
            ]);
        }
        r
    }

    /// The first `count` extensions.
    pub fn tls_extensions_for(&self, count: usize) -> (r: Vec<String>)
        requires
            count <= self.extensions@.len(),
        ensures
            r@ == self.extensions@.subrange(0, count as int),
    {
        prefix_of(&self.extensions, count)
    }

    /// A random leading run of at least two extensions.
    pub fn get_tls_extensions(&self) -> (r: Vec<String>)
        requires
            self.extensions@.len() >= 2,
        ensures
            exists|k: int| 2 <= k <= self.extensions@.len() && r@ == #[trigger] self.extensions@.subrange(0, k),
    {
        let extra = random_below((self.extensions.len() - 1) as u64) as usize;
        self.tls_extensions_for(2 + extra)
    }
}

/// The first `count` strings of `v`.
fn prefix_of(v: &Vec<String>, count: usize) -> (r: Vec<String>)
    requires
        count <= v@.len(),
    ensures
        r@ == v@.subrange(0, count as int),
{
    let mut out: Vec<String> = Vec::new();
    let mut i: usize = 0;
    while i < count
        invariant
            i <= count <= v@.len(),
            out@ == v@.subrange(0, i as int),
        decreases count - i,
    {
        out.push(v[i].clone());
        i = i + 1;
        assert(out@ =~= v@.subrange(0, i as int));
    }
    out
}

/// Audio-context parameters to present.
pub struct AudioSpoofing {
    pub sample_rates: Vec<u32>,
    pub channel_counts: Vec<u32>,
}

impl AudioSpoofing {
    pub fn new() -> (r: AudioSpoofing)
        ensures
            r.sample_rates@ == seq![44100u32, 48000, 96000],
            r.channel_counts@ == seq![2u32, 6, 8],
    {
        let sample_rates = vec![44100u32, 48000, 96000];
        let channel_counts = vec![2u32, 6, 8];
        assert(sample_rates@ =~= seq![44100u32, 48000, 96000]);
        assert(channel_counts@ =~= seq![2u32, 6, 8]);
        AudioSpoofing { sample_rates, channel_counts }
    }

    /// `audio_<rate>hz_<channels>ch` for a chosen rate and channel count.
    pub fn signature_for(&self, rate: usize, channels: usize) -> (r: String)
        requires
            rate < self.sample_rates@.len(),
            channels < self.channel_counts@.len(),
        ensures
            r@ == "audio_"@ + decimal_digits(self.sample_rates@[rate as int] as nat) + "hz_"@
                + decimal_digits(self.channel_counts@[channels as int] as nat) + "ch"@,
    {
        String::from_str("audio_").concat(decimal_text(self.sample_rates[rate]).as_str()).concat("hz_").concat(
            decimal_text(self.channel_counts[channels]).as_str(),
        ).concat("ch")
    }
}

/// Screen data to present.
pub struct ViewportData {
    pub width: u32,
    pub height: u32,
    pub color_depth: u32,
    pub timezone: String,
}

/// Screen sizes, colour depths and time zones to choose from.
pub struct ViewportSpoofing {
    pub common_resolutions: Vec<(u32, u32)>,
    pub color_depths: Vec<u32>,
    pub timezones: Vec<String>,
}

impl ViewportSpoofing {
    pub fn new() -> (r: ViewportSpoofing)
        ensures
            r.common_resolutions@ == seq![(1920u32, 1080u32), (1366, 768), (1440, 900), (1536, 864), (1600, 900)],
            r.color_depths@ == seq![24u32, 32],
            views(r.timezones@) == seq!["America/New_York"@, "Europe/London"@, "Asia/Tokyo"@, "America/Los_Angeles"@],
    {
        let common_resolutions = vec![(1920u32, 1080u32), (1366, 768), (1440, 900), (1536, 864), (1600, 900)];
        let color_depths = vec![24u32, 32];
        let mut timezones: Vec<String> = Vec::new();
        push_all(&mut timezones, &["America/New_York", "Europe/London", "Asia/Tokyo", "America/Los_Angeles"]);
        proof {
            assert(common_resolutions@ =~= seq![(1920u32, 1080u32), (1366, 768), (1440, 900), (1536, 864), (1600, 900)]);
            assert(color_depths@ =~= seq![24u32, 32]);
            assert(views(timezones@) =~= seq!["America/New_York"@, "Europe/London"@, "Asia/Tokyo"@, "America/Los_Angeles"@]);
        }
        ViewportSpoofing { common_resolutions, color_depths, timezones }
    }

    /// The screen data for a chosen resolution, depth and time zone.
    pub fn viewport_for(&self, resolution: usize, depth: usize, timezone: usize) -> (r: ViewportData)
        requires
            resolution < self.common_resolutions@.len(),
            depth < self.color_depths@.len(),
            timezone < self.timezones@.len(),
        ensures
            (r.width, r.height) == self.common_resolutions@[resolution as int],
            r.color_depth == self.color_depths@[depth as int],
            r.timezone == self.timezones@[timezone as int],
    {
        let (w, h) = self.common_resolutions[resolution];
        ViewportData { width: w, height: h, color_depth: self.color_depths[depth], timezone: self.timezones[timezone].clone() }
    }

    /// Screen data with each part drawn at random.
    pub fn generate_viewport(&self) -> (r: ViewportData)
        requires
            self.common_resolutions@.len() > 0,
            self.color_depths@.len() > 0,
            self.timezones@.len() > 0,
        ensures
            exists|i: int| 0 <= i < self.common_resolutions@.len() && (r.width, r.height) == #[trigger] self.common_resolutions@[i],
    {
        let a = random_below(self.common_resolutions.len() as u64) as usize;
        let b = random_below(self.color_depths.len() as u64) as usize;
        let c = random_below(self.timezones.len() as u64) as usize;
        self.viewport_for(a, b, c)
    }
}

/// The signatures of one generated browser identity.
pub struct BrowserFingerprintProfile {
    pub canvas_signature: String,
    pub webgl_signature: String,
    pub audio_signature: String,
    pub viewport_data: ViewportData,
    pub tls_signature: String,
}

pub open spec fn pair_views(v: Seq<(String, String)>) -> Seq<(Seq<char>, Seq<char>)> {
    v.map_values(|p: (String, String)| (p.0@, p.1@))
}

pub open spec fn accept_language(i: int) -> Seq<char> {
    if i == 0 {
        "en-US,en;q=0.9"@
    } else if i == 1 {
        "en-GB,en;q=0.8"@
    } else {
        "de-DE,de;q=0.7"@
    }
}

/// The spoofed request headers for a chosen language, with or without the
/// do-not-track header, in the order they are set.
pub open spec fn spoofed_headers(language: int, dnt: bool) -> Seq<(Seq<char>, Seq<char>)> {
    let head = seq![
        ("user-agent"@, "Mozilla/5.0 (Windows NT 10.0; Win64; x64) AppleWebKit/537.36 (KHTML, like Gecko) Chrome/120.0.0.0 Safari/537.36"@),
        ("accept"@, "text/html,application/xhtml+xml,application/xml;q=0.9,image/avif,image/webp,*/*;q=0.8"@),
        ("accept-language"@, accept_language(language)),
        ("accept-encoding"@, "gzip, deflate, br"@),
    ];
    let tail = seq![
        ("cache-control"@, "max-age=0"@),
        ("sec-fetch-dest"@, "document"@),
        ("sec-fetch-mode"@, "navigate"@),
        ("sec-fetch-site"@, "none"@),
        ("sec-fetch-user"@, "?1"@),
        ("upgrade-insecure-requests"@, "1"@),
    ];
    if dnt { head + seq![("dnt"@, "1"@)] + tail } else { head + tail }
}

fn push_pair(h: &mut Vec<(String, String)>, k: &str, v: &str)
    ensures
        pair_views(final(h)@) == pair_views(old(h)@).push((k@, v@)),
{
    h.push((String::from_str(k), String::from_str(v)));
    assert(pair_views(final(h)@) =~= pair_views(old(h)@).push((k@, v@)));
}

/// The spoofed headers for a chosen language (below 3) and do-not-track
/// choice.
pub fn spoofed_header_list(language: usize, dnt: bool) -> (r: Vec<(String, String)>)
    requires
        language < 3,
    ensures
        pair_views(r@) == spoofed_headers(language as int, dnt),
{
    let mut h: Vec<(String, String)> = Vec::new();
    push_pair(&mut h, "user-agent", "Mozilla/5.0 (Windows NT 10.0; Win64; x64) AppleWebKit/537.36 (KHTML, like Gecko) Chrome/120.0.0.0 Safari/537.36");
    push_pair(&mut h, "accept", "text/html,application/xhtml+xml,application/xml;q=0.9,image/avif,image/webp,*/*;q=0.8");
    let lang = if language == 0 {
        "en-US,en;q=0.9"
    } else if language == 1 {
        "en-GB,en;q=0.8"
    } else {
        "de-DE,de;q=0.7"
    };
    push_pair(&mut h, "accept-language", lang);
    push_pair(&mut h, "accept-encoding", "gzip, deflate, br");
    if dnt {
        push_pair(&mut h, "dnt", "1");
    }
    push_pair(&mut h, "cache-control", "max-age=0");
    push_pair(&mut h, "sec-fetch-dest", "document");
    push_pair(&mut h, "sec-fetch-mode", "navigate");
    push_pair(&mut h, "sec-fetch-site", "none");
    push_pair(&mut h, "sec-fetch-user", "?1");
    push_pair(&mut h, "upgrade-insecure-requests", "1");
    assert(pair_views(h@) =~= spoofed_headers(language as int, dnt));
    h
}

/// The fingerprint generators and the number of requests spoofed so far.
pub struct FingerprintManager {
    pub webgl_spoofing: WebGLSpoofing,
    pub audio_spoofing: AudioSpoofing,
    pub tls_spoofing: TLSSpoofing,
    pub viewport_spoofing: ViewportSpoofing,
    pub request_count: u64,
}

impl FingerprintManager {
    pub fn new() -> (r: FingerprintManager)
        ensures
            r.request_count == 0,
    {
        FingerprintManager {
            webgl_spoofing: WebGLSpoofing::new(),
            audio_spoofing: AudioSpoofing::new(),
            tls_spoofing: TLSSpoofing::new(),
            viewport_spoofing: ViewportSpoofing::new(),
            request_count: 0,
        }
    }

    /// Counts one more request and returns the headers to set on it: a
    /// random accept language, and do-not-track three times in ten.
    pub fn apply_spoofing(&mut self) -> (r: Vec<(String, String)>)
        ensures
            final(self).request_count == if old(self).request_count < u64::MAX {
                (old(self).request_count + 1) as u64
            } else {
                old(self).request_count
            },
            exists|lang: int, dnt: bool| 0 <= lang < 3 && pair_views(r@) == #[trigger] spoofed_headers(lang, dnt),
    {
        if self.request_count < u64::MAX {
            self.request_count = self.request_count + 1;
        }
        let language = random_below(3) as usize;
        let dnt = chance(3, 10);
        spoofed_header_list(language, dnt)
    }

    pub fn get_request_count(&self) -> (r: u64)
        ensures
            r == self.request_count,
    {
        self.request_count
    }
}

} // verus!
