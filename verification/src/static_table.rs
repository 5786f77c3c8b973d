//! The QPACK static table (RFC 9204 Appendix A) and the names it holds.
use vstd::prelude::*;
use crate::decoder::DecoderError;
use crate::entry_name::{EntryName, EntryNameView};
use crate::bytes::bytes_equal;
use vstd::string::StringSliceAdditionalSpecFns;

verus! {

/// The header names that have a fixed meaning to this library, by their wire (lowercase)
/// form.
#[derive(Clone, Copy, PartialEq, Eq, Structural, Debug, Hash)]
pub enum KnownHeaderName {
    Age,
    ContentDisposition,
    ContentLength,
    Cookie,
    Date,
    Etag,
    IfModifiedSince,
    IfNoneMatch,
    LastModified,
    Link,
    Location,
    Referer,
    SetCookie,
    Accept,
    AcceptEncoding,
    AcceptRanges,
    AccessControlAllowHeaders,
    AccessControlAllowOrigin,
    CacheControl,
    ContentEncoding,
    ContentType,
    Range,
    StrictTransportSecurity,
    Vary,
    XcontentTypeOptions,
    XxssProtection,
    AcceptLanguage,
    AccessControlAllowCredentials,
    AccessControlAllowMethods,
    AccessControlExposeHeaders,
    AccessControlRequestHeaders,
    AccessControlRequestMethod,
    AltSvc,
    Authorization,
    ContentSecurityPolicy,
    EarlyData,
    ExpectCt,
    Forwarded,
    IfRange,
    Origin,
    Purpose,
    Server,
    TimingAllowOrigin,
    UpgradeInsecureRequests,
    UserAgent,
    XforwardedFor,
    XframeOptions,
    Host,
}

/// The canonical (display) form of each known header name.
pub open spec fn known_display_str(name: KnownHeaderName) -> &'static str {
    match name {
        KnownHeaderName::Age => "Age",
        KnownHeaderName::ContentDisposition => "Content-Disposition",
        KnownHeaderName::ContentLength => "Content-Length",
        KnownHeaderName::Cookie => "Cookie",
        KnownHeaderName::Date => "Date",
        KnownHeaderName::Etag => "ETag",
        KnownHeaderName::IfModifiedSince => "If-Modified-Since",
        KnownHeaderName::IfNoneMatch => "If-None-Match",
        KnownHeaderName::LastModified => "Last-Modified",
        KnownHeaderName::Link => "Link",
        KnownHeaderName::Location => "Location",
        KnownHeaderName::Referer => "Referer",
        KnownHeaderName::SetCookie => "Set-Cookie",
        KnownHeaderName::Accept => "Accept",
        KnownHeaderName::AcceptEncoding => "Accept-Encoding",
        KnownHeaderName::AcceptRanges => "Accept-Ranges",
        KnownHeaderName::AccessControlAllowHeaders => "Access-Control-Allow-Headers",
        KnownHeaderName::AccessControlAllowOrigin => "Access-Control-Allow-Origin",
        KnownHeaderName::CacheControl => "Cache-Control",
        KnownHeaderName::ContentEncoding => "Content-Encoding",
        KnownHeaderName::ContentType => "Content-Type",
        KnownHeaderName::Range => "Range",
        KnownHeaderName::StrictTransportSecurity => "Strict-Transport-Security",
        KnownHeaderName::Vary => "Vary",
        KnownHeaderName::XcontentTypeOptions => "X-Content-Type-Options",
        KnownHeaderName::XxssProtection => "X-XSS-Protection",
        KnownHeaderName::AcceptLanguage => "Accept-Language",
        KnownHeaderName::AccessControlAllowCredentials => "Access-Control-Allow-Credentials",
        KnownHeaderName::AccessControlAllowMethods => "Access-Control-Allow-Methods",
        KnownHeaderName::AccessControlExposeHeaders => "Access-Control-Expose-Headers",
        KnownHeaderName::AccessControlRequestHeaders => "Access-Control-Request-Headers",
        KnownHeaderName::AccessControlRequestMethod => "Access-Control-Request-Method",
        KnownHeaderName::AltSvc => "Alt-Svc",
        KnownHeaderName::Authorization => "Authorization",
        KnownHeaderName::ContentSecurityPolicy => "Content-Security-Policy",
        KnownHeaderName::EarlyData => "Early-Data",
        KnownHeaderName::ExpectCt => "Expect-CT",
        KnownHeaderName::Forwarded => "Forwarded",
        KnownHeaderName::IfRange => "If-Range",
        KnownHeaderName::Origin => "Origin",
        KnownHeaderName::Purpose => "Purpose",
        KnownHeaderName::Server => "Server",
        KnownHeaderName::TimingAllowOrigin => "Timing-Allow-Origin",
        KnownHeaderName::UpgradeInsecureRequests => "Upgrade-Insecure-Requests",
        KnownHeaderName::UserAgent => "User-Agent",
        KnownHeaderName::XforwardedFor => "X-Forwarded-For",
        KnownHeaderName::XframeOptions => "X-Frame-Options",
        KnownHeaderName::Host => "Host",
    }
}

/// The wire (lowercase) form of each known header name.
pub open spec fn known_name_str(name: KnownHeaderName) -> &'static str {
    match name {
        KnownHeaderName::Age => "age",
        KnownHeaderName::ContentDisposition => "content-disposition",
        KnownHeaderName::ContentLength => "content-length",
        KnownHeaderName::Cookie => "cookie",
        KnownHeaderName::Date => "date",
        KnownHeaderName::Etag => "etag",
        KnownHeaderName::IfModifiedSince => "if-modified-since",
        KnownHeaderName::IfNoneMatch => "if-none-match",
        KnownHeaderName::LastModified => "last-modified",
        KnownHeaderName::Link => "link",
        KnownHeaderName::Location => "location",
        KnownHeaderName::Referer => "referer",
        KnownHeaderName::SetCookie => "set-cookie",
        KnownHeaderName::Accept => "accept",
        KnownHeaderName::AcceptEncoding => "accept-encoding",
        KnownHeaderName::AcceptRanges => "accept-ranges",
        KnownHeaderName::AccessControlAllowHeaders => "access-control-allow-headers",
        KnownHeaderName::AccessControlAllowOrigin => "access-control-allow-origin",
        KnownHeaderName::CacheControl => "cache-control",
        KnownHeaderName::ContentEncoding => "content-encoding",
        KnownHeaderName::ContentType => "content-type",
        KnownHeaderName::Range => "range",
        KnownHeaderName::StrictTransportSecurity => "strict-transport-security",
        KnownHeaderName::Vary => "vary",
        KnownHeaderName::XcontentTypeOptions => "x-content-type-options",
        KnownHeaderName::XxssProtection => "x-xss-protection",
        KnownHeaderName::AcceptLanguage => "accept-language",
        KnownHeaderName::AccessControlAllowCredentials => "access-control-allow-credentials",
        KnownHeaderName::AccessControlAllowMethods => "access-control-allow-methods",
        KnownHeaderName::AccessControlExposeHeaders => "access-control-expose-headers",
        KnownHeaderName::AccessControlRequestHeaders => "access-control-request-headers",
        KnownHeaderName::AccessControlRequestMethod => "access-control-request-method",
        KnownHeaderName::AltSvc => "alt-svc",
        KnownHeaderName::Authorization => "authorization",
        KnownHeaderName::ContentSecurityPolicy => "content-security-policy",
        KnownHeaderName::EarlyData => "early-data",
        KnownHeaderName::ExpectCt => "expect-ct",
        KnownHeaderName::Forwarded => "forwarded",
        KnownHeaderName::IfRange => "if-range",
        KnownHeaderName::Origin => "origin",
        KnownHeaderName::Purpose => "purpose",
        KnownHeaderName::Server => "server",
        KnownHeaderName::TimingAllowOrigin => "timing-allow-origin",
        KnownHeaderName::UpgradeInsecureRequests => "upgrade-insecure-requests",
        KnownHeaderName::UserAgent => "user-agent",
        KnownHeaderName::XforwardedFor => "x-forwarded-for",
        KnownHeaderName::XframeOptions => "x-frame-options",
        KnownHeaderName::Host => "host",
    }
}

impl KnownHeaderName {
    /// The canonical (display) form of this header name.
    pub fn as_str(self) -> (s: &'static str)
        ensures
            s == known_display_str(self),
    {
        match self {
            KnownHeaderName::Age => "Age",
            KnownHeaderName::ContentDisposition => "Content-Disposition",
            KnownHeaderName::ContentLength => "Content-Length",
            KnownHeaderName::Cookie => "Cookie",
            KnownHeaderName::Date => "Date",
            KnownHeaderName::Etag => "ETag",
            KnownHeaderName::IfModifiedSince => "If-Modified-Since",
            KnownHeaderName::IfNoneMatch => "If-None-Match",
            KnownHeaderName::LastModified => "Last-Modified",
            KnownHeaderName::Link => "Link",
            KnownHeaderName::Location => "Location",
            KnownHeaderName::Referer => "Referer",
            KnownHeaderName::SetCookie => "Set-Cookie",
            KnownHeaderName::Accept => "Accept",
            KnownHeaderName::AcceptEncoding => "Accept-Encoding",
            KnownHeaderName::AcceptRanges => "Accept-Ranges",
            KnownHeaderName::AccessControlAllowHeaders => "Access-Control-Allow-Headers",
            KnownHeaderName::AccessControlAllowOrigin => "Access-Control-Allow-Origin",
            KnownHeaderName::CacheControl => "Cache-Control",
            KnownHeaderName::ContentEncoding => "Content-Encoding",
            KnownHeaderName::ContentType => "Content-Type",
            KnownHeaderName::Range => "Range",
            KnownHeaderName::StrictTransportSecurity => "Strict-Transport-Security",
            KnownHeaderName::Vary => "Vary",
            KnownHeaderName::XcontentTypeOptions => "X-Content-Type-Options",
            KnownHeaderName::XxssProtection => "X-XSS-Protection",
            KnownHeaderName::AcceptLanguage => "Accept-Language",
            KnownHeaderName::AccessControlAllowCredentials => "Access-Control-Allow-Credentials",
            KnownHeaderName::AccessControlAllowMethods => "Access-Control-Allow-Methods",
            KnownHeaderName::AccessControlExposeHeaders => "Access-Control-Expose-Headers",
            KnownHeaderName::AccessControlRequestHeaders => "Access-Control-Request-Headers",
            KnownHeaderName::AccessControlRequestMethod => "Access-Control-Request-Method",
            KnownHeaderName::AltSvc => "Alt-Svc",
            KnownHeaderName::Authorization => "Authorization",
            KnownHeaderName::ContentSecurityPolicy => "Content-Security-Policy",
            KnownHeaderName::EarlyData => "Early-Data",
            KnownHeaderName::ExpectCt => "Expect-CT",
            KnownHeaderName::Forwarded => "Forwarded",
            KnownHeaderName::IfRange => "If-Range",
            KnownHeaderName::Origin => "Origin",
            KnownHeaderName::Purpose => "Purpose",
            KnownHeaderName::Server => "Server",
            KnownHeaderName::TimingAllowOrigin => "Timing-Allow-Origin",
            KnownHeaderName::UpgradeInsecureRequests => "Upgrade-Insecure-Requests",
            KnownHeaderName::UserAgent => "User-Agent",
            KnownHeaderName::XforwardedFor => "X-Forwarded-For",
            KnownHeaderName::XframeOptions => "X-Frame-Options",
            KnownHeaderName::Host => "Host",
        }
    }

    /// The wire (lowercase) form of this header name.
    pub fn as_lower_str(self) -> (s: &'static str)
        ensures
            s == known_name_str(self),
    {
        match self {
            KnownHeaderName::Age => "age",
            KnownHeaderName::ContentDisposition => "content-disposition",
            KnownHeaderName::ContentLength => "content-length",
            KnownHeaderName::Cookie => "cookie",
            KnownHeaderName::Date => "date",
            KnownHeaderName::Etag => "etag",
            KnownHeaderName::IfModifiedSince => "if-modified-since",
            KnownHeaderName::IfNoneMatch => "if-none-match",
            KnownHeaderName::LastModified => "last-modified",
            KnownHeaderName::Link => "link",
            KnownHeaderName::Location => "location",
            KnownHeaderName::Referer => "referer",
            KnownHeaderName::SetCookie => "set-cookie",
            KnownHeaderName::Accept => "accept",
            KnownHeaderName::AcceptEncoding => "accept-encoding",
            KnownHeaderName::AcceptRanges => "accept-ranges",
            KnownHeaderName::AccessControlAllowHeaders => "access-control-allow-headers",
            KnownHeaderName::AccessControlAllowOrigin => "access-control-allow-origin",
            KnownHeaderName::CacheControl => "cache-control",
            KnownHeaderName::ContentEncoding => "content-encoding",
            KnownHeaderName::ContentType => "content-type",
            KnownHeaderName::Range => "range",
            KnownHeaderName::StrictTransportSecurity => "strict-transport-security",
            KnownHeaderName::Vary => "vary",
            KnownHeaderName::XcontentTypeOptions => "x-content-type-options",
            KnownHeaderName::XxssProtection => "x-xss-protection",
            KnownHeaderName::AcceptLanguage => "accept-language",
            KnownHeaderName::AccessControlAllowCredentials => "access-control-allow-credentials",
            KnownHeaderName::AccessControlAllowMethods => "access-control-allow-methods",
            KnownHeaderName::AccessControlExposeHeaders => "access-control-expose-headers",
            KnownHeaderName::AccessControlRequestHeaders => "access-control-request-headers",
            KnownHeaderName::AccessControlRequestMethod => "access-control-request-method",
            KnownHeaderName::AltSvc => "alt-svc",
            KnownHeaderName::Authorization => "authorization",
            KnownHeaderName::ContentSecurityPolicy => "content-security-policy",
            KnownHeaderName::EarlyData => "early-data",
            KnownHeaderName::ExpectCt => "expect-ct",
            KnownHeaderName::Forwarded => "forwarded",
            KnownHeaderName::IfRange => "if-range",
            KnownHeaderName::Origin => "origin",
            KnownHeaderName::Purpose => "purpose",
            KnownHeaderName::Server => "server",
            KnownHeaderName::TimingAllowOrigin => "timing-allow-origin",
            KnownHeaderName::UpgradeInsecureRequests => "upgrade-insecure-requests",
            KnownHeaderName::UserAgent => "user-agent",
            KnownHeaderName::XforwardedFor => "x-forwarded-for",
            KnownHeaderName::XframeOptions => "x-frame-options",
            KnownHeaderName::Host => "host",
        }
    }

    /// Every known header name, in declaration order.
    pub fn all() -> (names: Vec<KnownHeaderName>)
        ensures
            names@ == known_names(),
    {
        let names = vec![
            KnownHeaderName::Age,
            KnownHeaderName::ContentDisposition,
            KnownHeaderName::ContentLength,
            KnownHeaderName::Cookie,
            KnownHeaderName::Date,
            KnownHeaderName::Etag,
            KnownHeaderName::IfModifiedSince,
            KnownHeaderName::IfNoneMatch,
            KnownHeaderName::LastModified,
            KnownHeaderName::Link,
            KnownHeaderName::Location,
            KnownHeaderName::Referer,
            KnownHeaderName::SetCookie,
            KnownHeaderName::Accept,
            KnownHeaderName::AcceptEncoding,
            KnownHeaderName::AcceptRanges,
            KnownHeaderName::AccessControlAllowHeaders,
            KnownHeaderName::AccessControlAllowOrigin,
            KnownHeaderName::CacheControl,
            KnownHeaderName::ContentEncoding,
            KnownHeaderName::ContentType,
            KnownHeaderName::Range,
            KnownHeaderName::StrictTransportSecurity,
            KnownHeaderName::Vary,
            KnownHeaderName::XcontentTypeOptions,
            KnownHeaderName::XxssProtection,
            KnownHeaderName::AcceptLanguage,
            KnownHeaderName::AccessControlAllowCredentials,
            KnownHeaderName::AccessControlAllowMethods,
            KnownHeaderName::AccessControlExposeHeaders,
            KnownHeaderName::AccessControlRequestHeaders,
            KnownHeaderName::AccessControlRequestMethod,
            KnownHeaderName::AltSvc,
            KnownHeaderName::Authorization,
            KnownHeaderName::ContentSecurityPolicy,
            KnownHeaderName::EarlyData,
            KnownHeaderName::ExpectCt,
            KnownHeaderName::Forwarded,
            KnownHeaderName::IfRange,
            KnownHeaderName::Origin,
            KnownHeaderName::Purpose,
            KnownHeaderName::Server,
            KnownHeaderName::TimingAllowOrigin,
            KnownHeaderName::UpgradeInsecureRequests,
            KnownHeaderName::UserAgent,
            KnownHeaderName::XforwardedFor,
            KnownHeaderName::XframeOptions,
            KnownHeaderName::Host,
        ];
        assert(names@ =~= known_names());
        names
    }
}

/// Every known header name, in declaration order.
pub open spec fn known_names() -> Seq<KnownHeaderName> {
    seq![
        KnownHeaderName::Age,
        KnownHeaderName::ContentDisposition,
        KnownHeaderName::ContentLength,
        KnownHeaderName::Cookie,
        KnownHeaderName::Date,
        KnownHeaderName::Etag,
        KnownHeaderName::IfModifiedSince,
        KnownHeaderName::IfNoneMatch,
        KnownHeaderName::LastModified,
        KnownHeaderName::Link,
        KnownHeaderName::Location,
        KnownHeaderName::Referer,
        KnownHeaderName::SetCookie,
        KnownHeaderName::Accept,
        KnownHeaderName::AcceptEncoding,
        KnownHeaderName::AcceptRanges,
        KnownHeaderName::AccessControlAllowHeaders,
        KnownHeaderName::AccessControlAllowOrigin,
        KnownHeaderName::CacheControl,
        KnownHeaderName::ContentEncoding,
        KnownHeaderName::ContentType,
        KnownHeaderName::Range,
        KnownHeaderName::StrictTransportSecurity,
        KnownHeaderName::Vary,
        KnownHeaderName::XcontentTypeOptions,
        KnownHeaderName::XxssProtection,
        KnownHeaderName::AcceptLanguage,
        KnownHeaderName::AccessControlAllowCredentials,
        KnownHeaderName::AccessControlAllowMethods,
        KnownHeaderName::AccessControlExposeHeaders,
        KnownHeaderName::AccessControlRequestHeaders,
        KnownHeaderName::AccessControlRequestMethod,
        KnownHeaderName::AltSvc,
        KnownHeaderName::Authorization,
        KnownHeaderName::ContentSecurityPolicy,
        KnownHeaderName::EarlyData,
        KnownHeaderName::ExpectCt,
        KnownHeaderName::Forwarded,
        KnownHeaderName::IfRange,
        KnownHeaderName::Origin,
        KnownHeaderName::Purpose,
        KnownHeaderName::Server,
        KnownHeaderName::TimingAllowOrigin,
        KnownHeaderName::UpgradeInsecureRequests,
        KnownHeaderName::UserAgent,
        KnownHeaderName::XforwardedFor,
        KnownHeaderName::XframeOptions,
        KnownHeaderName::Host
    ]
}

/// Pseudo-header names (RFC 9114 §4.3).
#[derive(Clone, Copy, PartialEq, Eq, Structural, Debug, Hash)]
pub enum PseudoHeaderName {
    Authority,
    Method,
    Path,
    Scheme,
    Status,
    Protocol,
}

pub open spec fn pseudo_name_str(name: PseudoHeaderName) -> &'static str {
    match name {
        PseudoHeaderName::Authority => ":authority",
        PseudoHeaderName::Method => ":method",
        PseudoHeaderName::Path => ":path",
        PseudoHeaderName::Scheme => ":scheme",
        PseudoHeaderName::Status => ":status",
        PseudoHeaderName::Protocol => ":protocol",
    }
}

impl PseudoHeaderName {
    /// Retrieve a 'static str representation
    pub fn as_str(self) -> (s: &'static str)
        ensures
            s == pseudo_name_str(self),
    {
        match self {
            PseudoHeaderName::Authority => ":authority",
            PseudoHeaderName::Method => ":method",
            PseudoHeaderName::Path => ":path",
            PseudoHeaderName::Scheme => ":scheme",
            PseudoHeaderName::Status => ":status",
            PseudoHeaderName::Protocol => ":protocol",
        }
    }
}

/// A name that appears in the static table: a known header or a pseudo-header.
#[derive(Clone, Copy, PartialEq, Eq, Structural, Debug, Hash)]
pub enum StaticHeaderName {
    Header(KnownHeaderName),
    Pseudo(PseudoHeaderName),
}

pub open spec fn static_name_str(name: StaticHeaderName) -> &'static str {
    match name {
        StaticHeaderName::Header(known) => known_display_str(known),
        StaticHeaderName::Pseudo(pseudo) => pseudo_name_str(pseudo),
    }
}

impl StaticHeaderName {
    /// Retrieve a 'static str representation: a known header's canonical name, or the
    /// pseudo-header's name.
    pub fn as_str(self) -> (s: &'static str)
        ensures
            s == static_name_str(self),
    {
        match self {
            StaticHeaderName::Header(known_header_name) => known_header_name.as_str(),
            StaticHeaderName::Pseudo(pseudo_header) => pseudo_header.as_str(),
        }
    }
}

/// Number of entries in the static table.
pub const STATIC_TABLE_LEN: usize = 99;

/// The QPACK static table (RFC 9204 Appendix A): the name and value of entry `index`
/// (entries past the end read as the last one).
pub open spec fn static_table_entry(index: u8) -> (StaticHeaderName, &'static str) {
    match index {
        0 => (StaticHeaderName::Pseudo(PseudoHeaderName::Authority), ""),
        1 => (StaticHeaderName::Pseudo(PseudoHeaderName::Path), "/"),
        2 => (StaticHeaderName::Header(KnownHeaderName::Age), "0"),
        3 => (StaticHeaderName::Header(KnownHeaderName::ContentDisposition), ""),
        4 => (StaticHeaderName::Header(KnownHeaderName::ContentLength), "0"),
        5 => (StaticHeaderName::Header(KnownHeaderName::Cookie), ""),
        6 => (StaticHeaderName::Header(KnownHeaderName::Date), ""),
        7 => (StaticHeaderName::Header(KnownHeaderName::Etag), ""),
        8 => (StaticHeaderName::Header(KnownHeaderName::IfModifiedSince), ""),
        9 => (StaticHeaderName::Header(KnownHeaderName::IfNoneMatch), ""),
        10 => (StaticHeaderName::Header(KnownHeaderName::LastModified), ""),
        11 => (StaticHeaderName::Header(KnownHeaderName::Link), ""),
        12 => (StaticHeaderName::Header(KnownHeaderName::Location), ""),
        13 => (StaticHeaderName::Header(KnownHeaderName::Referer), ""),
        14 => (StaticHeaderName::Header(KnownHeaderName::SetCookie), ""),
        15 => (StaticHeaderName::Pseudo(PseudoHeaderName::Method), "CONNECT"),
        16 => (StaticHeaderName::Pseudo(PseudoHeaderName::Method), "DELETE"),
        17 => (StaticHeaderName::Pseudo(PseudoHeaderName::Method), "GET"),
        18 => (StaticHeaderName::Pseudo(PseudoHeaderName::Method), "HEAD"),
        19 => (StaticHeaderName::Pseudo(PseudoHeaderName::Method), "OPTIONS"),
        20 => (StaticHeaderName::Pseudo(PseudoHeaderName::Method), "POST"),
        21 => (StaticHeaderName::Pseudo(PseudoHeaderName::Method), "PUT"),
        22 => (StaticHeaderName::Pseudo(PseudoHeaderName::Scheme), "http"),
        23 => (StaticHeaderName::Pseudo(PseudoHeaderName::Scheme), "https"),
        24 => (StaticHeaderName::Pseudo(PseudoHeaderName::Status), "103"),
        25 => (StaticHeaderName::Pseudo(PseudoHeaderName::Status), "200"),
        26 => (StaticHeaderName::Pseudo(PseudoHeaderName::Status), "304"),
        27 => (StaticHeaderName::Pseudo(PseudoHeaderName::Status), "404"),
        28 => (StaticHeaderName::Pseudo(PseudoHeaderName::Status), "503"),
        29 => (StaticHeaderName::Header(KnownHeaderName::Accept), "*/*"),
        30 => (StaticHeaderName::Header(KnownHeaderName::Accept), "application/dns-message"),
        31 => (StaticHeaderName::Header(KnownHeaderName::AcceptEncoding), "gzip, deflate, br"),
        32 => (StaticHeaderName::Header(KnownHeaderName::AcceptRanges), "bytes"),
        33 => (StaticHeaderName::Header(KnownHeaderName::AccessControlAllowHeaders), "cache-control"),
        34 => (StaticHeaderName::Header(KnownHeaderName::AccessControlAllowHeaders), "content-type"),
        35 => (StaticHeaderName::Header(KnownHeaderName::AccessControlAllowOrigin), "*"),
        36 => (StaticHeaderName::Header(KnownHeaderName::CacheControl), "max-age=0"),
        37 => (StaticHeaderName::Header(KnownHeaderName::CacheControl), "max-age=2592000"),
        38 => (StaticHeaderName::Header(KnownHeaderName::CacheControl), "max-age=604800"),
        39 => (StaticHeaderName::Header(KnownHeaderName::CacheControl), "no-cache"),
        40 => (StaticHeaderName::Header(KnownHeaderName::CacheControl), "no-store"),
        41 => (StaticHeaderName::Header(KnownHeaderName::CacheControl), "public, max-age=31536000"),
        42 => (StaticHeaderName::Header(KnownHeaderName::ContentEncoding), "br"),
        43 => (StaticHeaderName::Header(KnownHeaderName::ContentEncoding), "gzip"),
        44 => (StaticHeaderName::Header(KnownHeaderName::ContentType), "application/dns-message"),
        45 => (StaticHeaderName::Header(KnownHeaderName::ContentType), "application/javascript"),
        46 => (StaticHeaderName::Header(KnownHeaderName::ContentType), "application/json"),
        47 => (StaticHeaderName::Header(KnownHeaderName::ContentType), "application/x-www-form-urlencoded"),
        48 => (StaticHeaderName::Header(KnownHeaderName::ContentType), "image/gif"),
        49 => (StaticHeaderName::Header(KnownHeaderName::ContentType), "image/jpeg"),
        50 => (StaticHeaderName::Header(KnownHeaderName::ContentType), "image/png"),
        51 => (StaticHeaderName::Header(KnownHeaderName::ContentType), "text/css"),
        52 => (StaticHeaderName::Header(KnownHeaderName::ContentType), "text/html;charset=utf-8"),
        53 => (StaticHeaderName::Header(KnownHeaderName::ContentType), "text/plain"),
        54 => (StaticHeaderName::Header(KnownHeaderName::ContentType), "text/plain;charset=utf-8"),
        55 => (StaticHeaderName::Header(KnownHeaderName::Range), "bytes=0-"),
        56 => (StaticHeaderName::Header(KnownHeaderName::StrictTransportSecurity), "max-age=31536000"),
        57 => (StaticHeaderName::Header(KnownHeaderName::StrictTransportSecurity), "max-age=31536000;includesubdomains"),
        58 => (StaticHeaderName::Header(KnownHeaderName::StrictTransportSecurity), "max-age=31536000;includesubdomains;preload"),
        59 => (StaticHeaderName::Header(KnownHeaderName::Vary), "accept-encoding"),
        60 => (StaticHeaderName::Header(KnownHeaderName::Vary), "origin"),
        61 => (StaticHeaderName::Header(KnownHeaderName::XcontentTypeOptions), "nosniff"),
        62 => (StaticHeaderName::Header(KnownHeaderName::XxssProtection), "1; mode=block"),
        63 => (StaticHeaderName::Pseudo(PseudoHeaderName::Status), "100"),
        64 => (StaticHeaderName::Pseudo(PseudoHeaderName::Status), "204"),
        65 => (StaticHeaderName::Pseudo(PseudoHeaderName::Status), "206"),
        66 => (StaticHeaderName::Pseudo(PseudoHeaderName::Status), "302"),
        67 => (StaticHeaderName::Pseudo(PseudoHeaderName::Status), "400"),
        68 => (StaticHeaderName::Pseudo(PseudoHeaderName::Status), "403"),
        69 => (StaticHeaderName::Pseudo(PseudoHeaderName::Status), "421"),
        70 => (StaticHeaderName::Pseudo(PseudoHeaderName::Status), "425"),
        71 => (StaticHeaderName::Pseudo(PseudoHeaderName::Status), "500"),
        72 => (StaticHeaderName::Header(KnownHeaderName::AcceptLanguage), ""),
        73 => (StaticHeaderName::Header(KnownHeaderName::AccessControlAllowCredentials), "FALSE"),
        74 => (StaticHeaderName::Header(KnownHeaderName::AccessControlAllowCredentials), "TRUE"),
        75 => (StaticHeaderName::Header(KnownHeaderName::AccessControlAllowHeaders), "*"),
        76 => (StaticHeaderName::Header(KnownHeaderName::AccessControlAllowMethods), "get"),
        77 => (StaticHeaderName::Header(KnownHeaderName::AccessControlAllowMethods), "get, post, options"),
        78 => (StaticHeaderName::Header(KnownHeaderName::AccessControlAllowMethods), "options"),
        79 => (StaticHeaderName::Header(KnownHeaderName::AccessControlExposeHeaders), "content-length"),
        80 => (StaticHeaderName::Header(KnownHeaderName::AccessControlRequestHeaders), "content-type"),
        81 => (StaticHeaderName::Header(KnownHeaderName::AccessControlRequestMethod), "get"),
        82 => (StaticHeaderName::Header(KnownHeaderName::AccessControlRequestMethod), "post"),
        83 => (StaticHeaderName::Header(KnownHeaderName::AltSvc), "clear"),
        84 => (StaticHeaderName::Header(KnownHeaderName::Authorization), ""),
        85 => (StaticHeaderName::Header(KnownHeaderName::ContentSecurityPolicy), "script-src 'none';object-src 'none';base-uri 'none'"),
        86 => (StaticHeaderName::Header(KnownHeaderName::EarlyData), "1"),
        87 => (StaticHeaderName::Header(KnownHeaderName::ExpectCt), ""),
        88 => (StaticHeaderName::Header(KnownHeaderName::Forwarded), ""),
        89 => (StaticHeaderName::Header(KnownHeaderName::IfRange), ""),
        90 => (StaticHeaderName::Header(KnownHeaderName::Origin), ""),
        91 => (StaticHeaderName::Header(KnownHeaderName::Purpose), "prefetch"),
        92 => (StaticHeaderName::Header(KnownHeaderName::Server), ""),
        93 => (StaticHeaderName::Header(KnownHeaderName::TimingAllowOrigin), "*"),
        94 => (StaticHeaderName::Header(KnownHeaderName::UpgradeInsecureRequests), "1"),
        95 => (StaticHeaderName::Header(KnownHeaderName::UserAgent), ""),
        96 => (StaticHeaderName::Header(KnownHeaderName::XforwardedFor), ""),
        97 => (StaticHeaderName::Header(KnownHeaderName::XframeOptions), "deny"),
        _ => (StaticHeaderName::Header(KnownHeaderName::XframeOptions), "sameorigin"),
    }
}

/// The static table entry at `index`, which must be in range.
fn static_entry_at(index: usize) -> (entry: (StaticHeaderName, &'static str))
    requires
        index < 99,
    ensures
        entry == static_table_entry(index as u8),
{
    match index as u8 {
        0 => (StaticHeaderName::Pseudo(PseudoHeaderName::Authority), ""),
        1 => (StaticHeaderName::Pseudo(PseudoHeaderName::Path), "/"),
        2 => (StaticHeaderName::Header(KnownHeaderName::Age), "0"),
        3 => (StaticHeaderName::Header(KnownHeaderName::ContentDisposition), ""),
        4 => (StaticHeaderName::Header(KnownHeaderName::ContentLength), "0"),
        5 => (StaticHeaderName::Header(KnownHeaderName::Cookie), ""),
        6 => (StaticHeaderName::Header(KnownHeaderName::Date), ""),
        7 => (StaticHeaderName::Header(KnownHeaderName::Etag), ""),
        8 => (StaticHeaderName::Header(KnownHeaderName::IfModifiedSince), ""),
        9 => (StaticHeaderName::Header(KnownHeaderName::IfNoneMatch), ""),
        10 => (StaticHeaderName::Header(KnownHeaderName::LastModified), ""),
        11 => (StaticHeaderName::Header(KnownHeaderName::Link), ""),
        12 => (StaticHeaderName::Header(KnownHeaderName::Location), ""),
        13 => (StaticHeaderName::Header(KnownHeaderName::Referer), ""),
        14 => (StaticHeaderName::Header(KnownHeaderName::SetCookie), ""),
        15 => (StaticHeaderName::Pseudo(PseudoHeaderName::Method), "CONNECT"),
        16 => (StaticHeaderName::Pseudo(PseudoHeaderName::Method), "DELETE"),
        17 => (StaticHeaderName::Pseudo(PseudoHeaderName::Method), "GET"),
        18 => (StaticHeaderName::Pseudo(PseudoHeaderName::Method), "HEAD"),
        19 => (StaticHeaderName::Pseudo(PseudoHeaderName::Method), "OPTIONS"),
        20 => (StaticHeaderName::Pseudo(PseudoHeaderName::Method), "POST"),
        21 => (StaticHeaderName::Pseudo(PseudoHeaderName::Method), "PUT"),
        22 => (StaticHeaderName::Pseudo(PseudoHeaderName::Scheme), "http"),
        23 => (StaticHeaderName::Pseudo(PseudoHeaderName::Scheme), "https"),
        24 => (StaticHeaderName::Pseudo(PseudoHeaderName::Status), "103"),
        25 => (StaticHeaderName::Pseudo(PseudoHeaderName::Status), "200"),
        26 => (StaticHeaderName::Pseudo(PseudoHeaderName::Status), "304"),
        27 => (StaticHeaderName::Pseudo(PseudoHeaderName::Status), "404"),
        28 => (StaticHeaderName::Pseudo(PseudoHeaderName::Status), "503"),
        29 => (StaticHeaderName::Header(KnownHeaderName::Accept), "*/*"),
        30 => (StaticHeaderName::Header(KnownHeaderName::Accept), "application/dns-message"),
        31 => (StaticHeaderName::Header(KnownHeaderName::AcceptEncoding), "gzip, deflate, br"),
        32 => (StaticHeaderName::Header(KnownHeaderName::AcceptRanges), "bytes"),
        33 => (StaticHeaderName::Header(KnownHeaderName::AccessControlAllowHeaders), "cache-control"),
        34 => (StaticHeaderName::Header(KnownHeaderName::AccessControlAllowHeaders), "content-type"),
        35 => (StaticHeaderName::Header(KnownHeaderName::AccessControlAllowOrigin), "*"),
        36 => (StaticHeaderName::Header(KnownHeaderName::CacheControl), "max-age=0"),
        37 => (StaticHeaderName::Header(KnownHeaderName::CacheControl), "max-age=2592000"),
        38 => (StaticHeaderName::Header(KnownHeaderName::CacheControl), "max-age=604800"),
        39 => (StaticHeaderName::Header(KnownHeaderName::CacheControl), "no-cache"),
        40 => (StaticHeaderName::Header(KnownHeaderName::CacheControl), "no-store"),
        41 => (StaticHeaderName::Header(KnownHeaderName::CacheControl), "public, max-age=31536000"),
        42 => (StaticHeaderName::Header(KnownHeaderName::ContentEncoding), "br"),
        43 => (StaticHeaderName::Header(KnownHeaderName::ContentEncoding), "gzip"),
        44 => (StaticHeaderName::Header(KnownHeaderName::ContentType), "application/dns-message"),
        45 => (StaticHeaderName::Header(KnownHeaderName::ContentType), "application/javascript"),
        46 => (StaticHeaderName::Header(KnownHeaderName::ContentType), "application/json"),
        47 => (StaticHeaderName::Header(KnownHeaderName::ContentType), "application/x-www-form-urlencoded"),
        48 => (StaticHeaderName::Header(KnownHeaderName::ContentType), "image/gif"),
        49 => (StaticHeaderName::Header(KnownHeaderName::ContentType), "image/jpeg"),
        50 => (StaticHeaderName::Header(KnownHeaderName::ContentType), "image/png"),
        51 => (StaticHeaderName::Header(KnownHeaderName::ContentType), "text/css"),
        52 => (StaticHeaderName::Header(KnownHeaderName::ContentType), "text/html;charset=utf-8"),
        53 => (StaticHeaderName::Header(KnownHeaderName::ContentType), "text/plain"),
        54 => (StaticHeaderName::Header(KnownHeaderName::ContentType), "text/plain;charset=utf-8"),
        55 => (StaticHeaderName::Header(KnownHeaderName::Range), "bytes=0-"),
        56 => (StaticHeaderName::Header(KnownHeaderName::StrictTransportSecurity), "max-age=31536000"),
        57 => (StaticHeaderName::Header(KnownHeaderName::StrictTransportSecurity), "max-age=31536000;includesubdomains"),
        58 => (StaticHeaderName::Header(KnownHeaderName::StrictTransportSecurity), "max-age=31536000;includesubdomains;preload"),
        59 => (StaticHeaderName::Header(KnownHeaderName::Vary), "accept-encoding"),
        60 => (StaticHeaderName::Header(KnownHeaderName::Vary), "origin"),
        61 => (StaticHeaderName::Header(KnownHeaderName::XcontentTypeOptions), "nosniff"),
        62 => (StaticHeaderName::Header(KnownHeaderName::XxssProtection), "1; mode=block"),
        63 => (StaticHeaderName::Pseudo(PseudoHeaderName::Status), "100"),
        64 => (StaticHeaderName::Pseudo(PseudoHeaderName::Status), "204"),
        65 => (StaticHeaderName::Pseudo(PseudoHeaderName::Status), "206"),
        66 => (StaticHeaderName::Pseudo(PseudoHeaderName::Status), "302"),
        67 => (StaticHeaderName::Pseudo(PseudoHeaderName::Status), "400"),
        68 => (StaticHeaderName::Pseudo(PseudoHeaderName::Status), "403"),
        69 => (StaticHeaderName::Pseudo(PseudoHeaderName::Status), "421"),
        70 => (StaticHeaderName::Pseudo(PseudoHeaderName::Status), "425"),
        71 => (StaticHeaderName::Pseudo(PseudoHeaderName::Status), "500"),
        72 => (StaticHeaderName::Header(KnownHeaderName::AcceptLanguage), ""),
        73 => (StaticHeaderName::Header(KnownHeaderName::AccessControlAllowCredentials), "FALSE"),
        74 => (StaticHeaderName::Header(KnownHeaderName::AccessControlAllowCredentials), "TRUE"),
        75 => (StaticHeaderName::Header(KnownHeaderName::AccessControlAllowHeaders), "*"),
        76 => (StaticHeaderName::Header(KnownHeaderName::AccessControlAllowMethods), "get"),
        77 => (StaticHeaderName::Header(KnownHeaderName::AccessControlAllowMethods), "get, post, options"),
        78 => (StaticHeaderName::Header(KnownHeaderName::AccessControlAllowMethods), "options"),
        79 => (StaticHeaderName::Header(KnownHeaderName::AccessControlExposeHeaders), "content-length"),
        80 => (StaticHeaderName::Header(KnownHeaderName::AccessControlRequestHeaders), "content-type"),
        81 => (StaticHeaderName::Header(KnownHeaderName::AccessControlRequestMethod), "get"),
        82 => (StaticHeaderName::Header(KnownHeaderName::AccessControlRequestMethod), "post"),
        83 => (StaticHeaderName::Header(KnownHeaderName::AltSvc), "clear"),
        84 => (StaticHeaderName::Header(KnownHeaderName::Authorization), ""),
        85 => (StaticHeaderName::Header(KnownHeaderName::ContentSecurityPolicy), "script-src 'none';object-src 'none';base-uri 'none'"),
        86 => (StaticHeaderName::Header(KnownHeaderName::EarlyData), "1"),
        87 => (StaticHeaderName::Header(KnownHeaderName::ExpectCt), ""),
        88 => (StaticHeaderName::Header(KnownHeaderName::Forwarded), ""),
        89 => (StaticHeaderName::Header(KnownHeaderName::IfRange), ""),
        90 => (StaticHeaderName::Header(KnownHeaderName::Origin), ""),
        91 => (StaticHeaderName::Header(KnownHeaderName::Purpose), "prefetch"),
        92 => (StaticHeaderName::Header(KnownHeaderName::Server), ""),
        93 => (StaticHeaderName::Header(KnownHeaderName::TimingAllowOrigin), "*"),
        94 => (StaticHeaderName::Header(KnownHeaderName::UpgradeInsecureRequests), "1"),
        95 => (StaticHeaderName::Header(KnownHeaderName::UserAgent), ""),
        96 => (StaticHeaderName::Header(KnownHeaderName::XforwardedFor), ""),
        97 => (StaticHeaderName::Header(KnownHeaderName::XframeOptions), "deny"),
        _ => (StaticHeaderName::Header(KnownHeaderName::XframeOptions), "sameorigin"),
    }
}

/// The static table entry at `index`, or `InvalidStaticIndex` past its end.
pub fn static_entry(index: usize) -> (entry: Result<(StaticHeaderName, &'static str), DecoderError>)
    ensures
        index < 99 ==> entry == Ok::<(StaticHeaderName, &'static str), DecoderError>(
            static_table_entry(index as u8),
        ),
        index >= 99 ==> entry == Err::<(StaticHeaderName, &'static str), DecoderError>(
            DecoderError::InvalidStaticIndex(index),
        ),
{
    if index < STATIC_TABLE_LEN {
        Ok(static_entry_at(index))
    } else {
        Err(DecoderError::InvalidStaticIndex(index))
    }
}

/// The static-table indices whose name is `name`, in table order.
pub open spec fn static_indices(name: EntryNameView) -> Option<Seq<u8>> {
    match name {
        EntryNameView::Pseudo(PseudoHeaderName::Authority) => Some(seq![0u8]),
        EntryNameView::Pseudo(PseudoHeaderName::Path) => Some(seq![1u8]),
        EntryNameView::Pseudo(PseudoHeaderName::Method) => Some(seq![15u8, 16, 17, 18, 19, 20, 21]),
        EntryNameView::Pseudo(PseudoHeaderName::Scheme) => Some(seq![22u8, 23]),
        EntryNameView::Pseudo(PseudoHeaderName::Status) => Some(seq![24u8, 25, 26, 27, 28, 63, 64, 65, 66, 67, 68, 69, 70, 71]),
        EntryNameView::Known(KnownHeaderName::Accept) => Some(seq![29u8, 30]),
        EntryNameView::Known(KnownHeaderName::AcceptEncoding) => Some(seq![31u8]),
        EntryNameView::Known(KnownHeaderName::AcceptLanguage) => Some(seq![72u8]),
        EntryNameView::Known(KnownHeaderName::AcceptRanges) => Some(seq![32u8]),
        EntryNameView::Known(KnownHeaderName::AccessControlAllowCredentials) => Some(seq![73u8, 74]),
        EntryNameView::Known(KnownHeaderName::AccessControlAllowHeaders) => Some(seq![33u8, 34, 75]),
        EntryNameView::Known(KnownHeaderName::AccessControlAllowMethods) => Some(seq![76u8, 77, 78]),
        EntryNameView::Known(KnownHeaderName::AccessControlAllowOrigin) => Some(seq![35u8]),
        EntryNameView::Known(KnownHeaderName::AccessControlExposeHeaders) => Some(seq![79u8]),
        EntryNameView::Known(KnownHeaderName::AccessControlRequestHeaders) => Some(seq![80u8]),
        EntryNameView::Known(KnownHeaderName::AccessControlRequestMethod) => Some(seq![81u8, 82]),
        EntryNameView::Known(KnownHeaderName::Age) => Some(seq![2u8]),
        EntryNameView::Known(KnownHeaderName::AltSvc) => Some(seq![83u8]),
        EntryNameView::Known(KnownHeaderName::Authorization) => Some(seq![84u8]),
        EntryNameView::Known(KnownHeaderName::CacheControl) => Some(seq![36u8, 37, 38, 39, 40, 41]),
        EntryNameView::Known(KnownHeaderName::ContentDisposition) => Some(seq![3u8]),
        EntryNameView::Known(KnownHeaderName::ContentEncoding) => Some(seq![42u8, 43]),
        EntryNameView::Known(KnownHeaderName::ContentLength) => Some(seq![4u8]),
        EntryNameView::Known(KnownHeaderName::ContentSecurityPolicy) => Some(seq![85u8]),
        EntryNameView::Known(KnownHeaderName::ContentType) => Some(seq![44u8, 45, 46, 47, 48, 49, 50, 51, 52, 53, 54]),
        EntryNameView::Known(KnownHeaderName::Cookie) => Some(seq![5u8]),
        EntryNameView::Known(KnownHeaderName::Date) => Some(seq![6u8]),
        EntryNameView::Known(KnownHeaderName::EarlyData) => Some(seq![86u8]),
        EntryNameView::Known(KnownHeaderName::Etag) => Some(seq![7u8]),
        EntryNameView::Known(KnownHeaderName::ExpectCt) => Some(seq![87u8]),
        EntryNameView::Known(KnownHeaderName::Forwarded) => Some(seq![88u8]),
        EntryNameView::Known(KnownHeaderName::IfModifiedSince) => Some(seq![8u8]),
        EntryNameView::Known(KnownHeaderName::IfNoneMatch) => Some(seq![9u8]),
        EntryNameView::Known(KnownHeaderName::IfRange) => Some(seq![89u8]),
        EntryNameView::Known(KnownHeaderName::LastModified) => Some(seq![10u8]),
        EntryNameView::Known(KnownHeaderName::Link) => Some(seq![11u8]),
        EntryNameView::Known(KnownHeaderName::Location) => Some(seq![12u8]),
        EntryNameView::Known(KnownHeaderName::Origin) => Some(seq![90u8]),
        EntryNameView::Known(KnownHeaderName::Purpose) => Some(seq![91u8]),
        EntryNameView::Known(KnownHeaderName::Range) => Some(seq![55u8]),
        EntryNameView::Known(KnownHeaderName::Referer) => Some(seq![13u8]),
        EntryNameView::Known(KnownHeaderName::Server) => Some(seq![92u8]),
        EntryNameView::Known(KnownHeaderName::SetCookie) => Some(seq![14u8]),
        EntryNameView::Known(KnownHeaderName::StrictTransportSecurity) => Some(seq![56u8, 57, 58]),
        EntryNameView::Known(KnownHeaderName::TimingAllowOrigin) => Some(seq![93u8]),
        EntryNameView::Known(KnownHeaderName::UpgradeInsecureRequests) => Some(seq![94u8]),
        EntryNameView::Known(KnownHeaderName::UserAgent) => Some(seq![95u8]),
        EntryNameView::Known(KnownHeaderName::Vary) => Some(seq![59u8, 60]),
        EntryNameView::Known(KnownHeaderName::XcontentTypeOptions) => Some(seq![61u8]),
        EntryNameView::Known(KnownHeaderName::XforwardedFor) => Some(seq![96u8]),
        EntryNameView::Known(KnownHeaderName::XframeOptions) => Some(seq![97u8, 98]),
        EntryNameView::Known(KnownHeaderName::XxssProtection) => Some(seq![62u8]),
        _ => None,
    }
}


const P_AUTHORITY: [u8; 1] = [0];
const P_PATH: [u8; 1] = [1];
const P_METHOD: [u8; 7] = [15, 16, 17, 18, 19, 20, 21];
const P_SCHEME: [u8; 2] = [22, 23];
const P_STATUS: [u8; 14] = [24, 25, 26, 27, 28, 63, 64, 65, 66, 67, 68, 69, 70, 71];
const K_ACCEPT: [u8; 2] = [29, 30];
const K_ACCEPT_ENCODING: [u8; 1] = [31];
const K_ACCEPT_LANGUAGE: [u8; 1] = [72];
const K_ACCEPT_RANGES: [u8; 1] = [32];
const K_ACCESS_CONTROL_ALLOW_CREDENTIALS: [u8; 2] = [73, 74];
const K_ACCESS_CONTROL_ALLOW_HEADERS: [u8; 3] = [33, 34, 75];
const K_ACCESS_CONTROL_ALLOW_METHODS: [u8; 3] = [76, 77, 78];
const K_ACCESS_CONTROL_ALLOW_ORIGIN: [u8; 1] = [35];
const K_ACCESS_CONTROL_EXPOSE_HEADERS: [u8; 1] = [79];
const K_ACCESS_CONTROL_REQUEST_HEADERS: [u8; 1] = [80];
const K_ACCESS_CONTROL_REQUEST_METHOD: [u8; 2] = [81, 82];
const K_AGE: [u8; 1] = [2];
const K_ALT_SVC: [u8; 1] = [83];
const K_AUTHORIZATION: [u8; 1] = [84];
const K_CACHE_CONTROL: [u8; 6] = [36, 37, 38, 39, 40, 41];
const K_CONTENT_DISPOSITION: [u8; 1] = [3];
const K_CONTENT_ENCODING: [u8; 2] = [42, 43];
const K_CONTENT_LENGTH: [u8; 1] = [4];
const K_CONTENT_SECURITY_POLICY: [u8; 1] = [85];
const K_CONTENT_TYPE: [u8; 11] = [44, 45, 46, 47, 48, 49, 50, 51, 52, 53, 54];
const K_COOKIE: [u8; 1] = [5];
const K_DATE: [u8; 1] = [6];
const K_EARLY_DATA: [u8; 1] = [86];
const K_ETAG: [u8; 1] = [7];
const K_EXPECT_CT: [u8; 1] = [87];
const K_FORWARDED: [u8; 1] = [88];
const K_IF_MODIFIED_SINCE: [u8; 1] = [8];
const K_IF_NONE_MATCH: [u8; 1] = [9];
const K_IF_RANGE: [u8; 1] = [89];
const K_LAST_MODIFIED: [u8; 1] = [10];
const K_LINK: [u8; 1] = [11];
const K_LOCATION: [u8; 1] = [12];
const K_ORIGIN: [u8; 1] = [90];
const K_PURPOSE: [u8; 1] = [91];
const K_RANGE: [u8; 1] = [55];
const K_REFERER: [u8; 1] = [13];
const K_SERVER: [u8; 1] = [92];
const K_SET_COOKIE: [u8; 1] = [14];
const K_STRICT_TRANSPORT_SECURITY: [u8; 3] = [56, 57, 58];
const K_TIMING_ALLOW_ORIGIN: [u8; 1] = [93];
const K_UPGRADE_INSECURE_REQUESTS: [u8; 1] = [94];
const K_USER_AGENT: [u8; 1] = [95];
const K_VARY: [u8; 2] = [59, 60];
const K_XCONTENT_TYPE_OPTIONS: [u8; 1] = [61];
const K_XFORWARDED_FOR: [u8; 1] = [96];
const K_XFRAME_OPTIONS: [u8; 2] = [97, 98];
const K_XXSS_PROTECTION: [u8; 1] = [62];

/// The static-table indices whose name is `name`, or `None` for a name that is not in
/// the static table.
pub fn static_lookup_name(name: &EntryName) -> (indices: Option<&'static [u8]>)
    ensures
        match static_indices(name@) {
            Some(s) => indices matches Some(i) && i@ == s,
            None => indices is None,
        },
{
    match name {
        EntryName::Pseudo(PseudoHeaderName::Authority) => {
            let s: &'static [u8] = &P_AUTHORITY;
            assert(s@ =~= static_indices(name@).unwrap());
            Some(s)
        },
        EntryName::Pseudo(PseudoHeaderName::Path) => {
            let s: &'static [u8] = &P_PATH;
            assert(s@ =~= static_indices(name@).unwrap());
            Some(s)
        },
        EntryName::Pseudo(PseudoHeaderName::Method) => {
            let s: &'static [u8] = &P_METHOD;
            assert(s@ =~= static_indices(name@).unwrap());
            Some(s)
        },
        EntryName::Pseudo(PseudoHeaderName::Scheme) => {
            let s: &'static [u8] = &P_SCHEME;
            assert(s@ =~= static_indices(name@).unwrap());
            Some(s)
        },
        EntryName::Pseudo(PseudoHeaderName::Status) => {
            let s: &'static [u8] = &P_STATUS;
            assert(s@ =~= static_indices(name@).unwrap());
            Some(s)
        },
        EntryName::Known(KnownHeaderName::Accept) => {
            let s: &'static [u8] = &K_ACCEPT;
            assert(s@ =~= static_indices(name@).unwrap());
            Some(s)
        },
        EntryName::Known(KnownHeaderName::AcceptEncoding) => {
            let s: &'static [u8] = &K_ACCEPT_ENCODING;
            assert(s@ =~= static_indices(name@).unwrap());
            Some(s)
        },
        EntryName::Known(KnownHeaderName::AcceptLanguage) => {
            let s: &'static [u8] = &K_ACCEPT_LANGUAGE;
            assert(s@ =~= static_indices(name@).unwrap());
            Some(s)
        },
        EntryName::Known(KnownHeaderName::AcceptRanges) => {
            let s: &'static [u8] = &K_ACCEPT_RANGES;
            assert(s@ =~= static_indices(name@).unwrap());
            Some(s)
        },
        EntryName::Known(KnownHeaderName::AccessControlAllowCredentials) => {
            let s: &'static [u8] = &K_ACCESS_CONTROL_ALLOW_CREDENTIALS;
            assert(s@ =~= static_indices(name@).unwrap());
            Some(s)
        },
        EntryName::Known(KnownHeaderName::AccessControlAllowHeaders) => {
            let s: &'static [u8] = &K_ACCESS_CONTROL_ALLOW_HEADERS;
            assert(s@ =~= static_indices(name@).unwrap());
            Some(s)
        },
        EntryName::Known(KnownHeaderName::AccessControlAllowMethods) => {
            let s: &'static [u8] = &K_ACCESS_CONTROL_ALLOW_METHODS;
            assert(s@ =~= static_indices(name@).unwrap());
            Some(s)
        },
        EntryName::Known(KnownHeaderName::AccessControlAllowOrigin) => {
            let s: &'static [u8] = &K_ACCESS_CONTROL_ALLOW_ORIGIN;
            assert(s@ =~= static_indices(name@).unwrap());
            Some(s)
        },
        EntryName::Known(KnownHeaderName::AccessControlExposeHeaders) => {
            let s: &'static [u8] = &K_ACCESS_CONTROL_EXPOSE_HEADERS;
            assert(s@ =~= static_indices(name@).unwrap());
            Some(s)
        },
        EntryName::Known(KnownHeaderName::AccessControlRequestHeaders) => {
            let s: &'static [u8] = &K_ACCESS_CONTROL_REQUEST_HEADERS;
            assert(s@ =~= static_indices(name@).unwrap());
            Some(s)
        },
        EntryName::Known(KnownHeaderName::AccessControlRequestMethod) => {
            let s: &'static [u8] = &K_ACCESS_CONTROL_REQUEST_METHOD;
            assert(s@ =~= static_indices(name@).unwrap());
            Some(s)
        },
        EntryName::Known(KnownHeaderName::Age) => {
            let s: &'static [u8] = &K_AGE;
            assert(s@ =~= static_indices(name@).unwrap());
            Some(s)
        },
        EntryName::Known(KnownHeaderName::AltSvc) => {
            let s: &'static [u8] = &K_ALT_SVC;
            assert(s@ =~= static_indices(name@).unwrap());
            Some(s)
        },
        EntryName::Known(KnownHeaderName::Authorization) => {
            let s: &'static [u8] = &K_AUTHORIZATION;
            assert(s@ =~= static_indices(name@).unwrap());
            Some(s)
        },
        EntryName::Known(KnownHeaderName::CacheControl) => {
            let s: &'static [u8] = &K_CACHE_CONTROL;
            assert(s@ =~= static_indices(name@).unwrap());
            Some(s)
        },
        EntryName::Known(KnownHeaderName::ContentDisposition) => {
            let s: &'static [u8] = &K_CONTENT_DISPOSITION;
            assert(s@ =~= static_indices(name@).unwrap());
            Some(s)
        },
        EntryName::Known(KnownHeaderName::ContentEncoding) => {
            let s: &'static [u8] = &K_CONTENT_ENCODING;
            assert(s@ =~= static_indices(name@).unwrap());
            Some(s)
        },
        EntryName::Known(KnownHeaderName::ContentLength) => {
            let s: &'static [u8] = &K_CONTENT_LENGTH;
            assert(s@ =~= static_indices(name@).unwrap());
            Some(s)
        },
        EntryName::Known(KnownHeaderName::ContentSecurityPolicy) => {
            let s: &'static [u8] = &K_CONTENT_SECURITY_POLICY;
            assert(s@ =~= static_indices(name@).unwrap());
            Some(s)
        },
        EntryName::Known(KnownHeaderName::ContentType) => {
            let s: &'static [u8] = &K_CONTENT_TYPE;
            assert(s@ =~= static_indices(name@).unwrap());
            Some(s)
        },
        EntryName::Known(KnownHeaderName::Cookie) => {
            let s: &'static [u8] = &K_COOKIE;
            assert(s@ =~= static_indices(name@).unwrap());
            Some(s)
        },
        EntryName::Known(KnownHeaderName::Date) => {
            let s: &'static [u8] = &K_DATE;
            assert(s@ =~= static_indices(name@).unwrap());
            Some(s)
        },
        EntryName::Known(KnownHeaderName::EarlyData) => {
            let s: &'static [u8] = &K_EARLY_DATA;
            assert(s@ =~= static_indices(name@).unwrap());
            Some(s)
        },
        EntryName::Known(KnownHeaderName::Etag) => {
            let s: &'static [u8] = &K_ETAG;
            assert(s@ =~= static_indices(name@).unwrap());
            Some(s)
        },
        EntryName::Known(KnownHeaderName::ExpectCt) => {
            let s: &'static [u8] = &K_EXPECT_CT;
            assert(s@ =~= static_indices(name@).unwrap());
            Some(s)
        },
        EntryName::Known(KnownHeaderName::Forwarded) => {
            let s: &'static [u8] = &K_FORWARDED;
            assert(s@ =~= static_indices(name@).unwrap());
            Some(s)
        },
        EntryName::Known(KnownHeaderName::IfModifiedSince) => {
            let s: &'static [u8] = &K_IF_MODIFIED_SINCE;
            assert(s@ =~= static_indices(name@).unwrap());
            Some(s)
        },
        EntryName::Known(KnownHeaderName::IfNoneMatch) => {
            let s: &'static [u8] = &K_IF_NONE_MATCH;
            assert(s@ =~= static_indices(name@).unwrap());
            Some(s)
        },
        EntryName::Known(KnownHeaderName::IfRange) => {
            let s: &'static [u8] = &K_IF_RANGE;
            assert(s@ =~= static_indices(name@).unwrap());
            Some(s)
        },
        EntryName::Known(KnownHeaderName::LastModified) => {
            let s: &'static [u8] = &K_LAST_MODIFIED;
            assert(s@ =~= static_indices(name@).unwrap());
            Some(s)
        },
        EntryName::Known(KnownHeaderName::Link) => {
            let s: &'static [u8] = &K_LINK;
            assert(s@ =~= static_indices(name@).unwrap());
            Some(s)
        },
        EntryName::Known(KnownHeaderName::Location) => {
            let s: &'static [u8] = &K_LOCATION;
            assert(s@ =~= static_indices(name@).unwrap());
            Some(s)
        },
        EntryName::Known(KnownHeaderName::Origin) => {
            let s: &'static [u8] = &K_ORIGIN;
            assert(s@ =~= static_indices(name@).unwrap());
            Some(s)
        },
        EntryName::Known(KnownHeaderName::Purpose) => {
            let s: &'static [u8] = &K_PURPOSE;
            assert(s@ =~= static_indices(name@).unwrap());
            Some(s)
        },
        EntryName::Known(KnownHeaderName::Range) => {
            let s: &'static [u8] = &K_RANGE;
            assert(s@ =~= static_indices(name@).unwrap());
            Some(s)
        },
        EntryName::Known(KnownHeaderName::Referer) => {
            let s: &'static [u8] = &K_REFERER;
            assert(s@ =~= static_indices(name@).unwrap());
            Some(s)
        },
        EntryName::Known(KnownHeaderName::Server) => {
            let s: &'static [u8] = &K_SERVER;
            assert(s@ =~= static_indices(name@).unwrap());
            Some(s)
        },
        EntryName::Known(KnownHeaderName::SetCookie) => {
            let s: &'static [u8] = &K_SET_COOKIE;
            assert(s@ =~= static_indices(name@).unwrap());
            Some(s)
        },
        EntryName::Known(KnownHeaderName::StrictTransportSecurity) => {
            let s: &'static [u8] = &K_STRICT_TRANSPORT_SECURITY;
            assert(s@ =~= static_indices(name@).unwrap());
            Some(s)
        },
        EntryName::Known(KnownHeaderName::TimingAllowOrigin) => {
            let s: &'static [u8] = &K_TIMING_ALLOW_ORIGIN;
            assert(s@ =~= static_indices(name@).unwrap());
            Some(s)
        },
        EntryName::Known(KnownHeaderName::UpgradeInsecureRequests) => {
            let s: &'static [u8] = &K_UPGRADE_INSECURE_REQUESTS;
            assert(s@ =~= static_indices(name@).unwrap());
            Some(s)
        },
        EntryName::Known(KnownHeaderName::UserAgent) => {
            let s: &'static [u8] = &K_USER_AGENT;
            assert(s@ =~= static_indices(name@).unwrap());
            Some(s)
        },
        EntryName::Known(KnownHeaderName::Vary) => {
            let s: &'static [u8] = &K_VARY;
            assert(s@ =~= static_indices(name@).unwrap());
            Some(s)
        },
        EntryName::Known(KnownHeaderName::XcontentTypeOptions) => {
            let s: &'static [u8] = &K_XCONTENT_TYPE_OPTIONS;
            assert(s@ =~= static_indices(name@).unwrap());
            Some(s)
        },
        EntryName::Known(KnownHeaderName::XforwardedFor) => {
            let s: &'static [u8] = &K_XFORWARDED_FOR;
            assert(s@ =~= static_indices(name@).unwrap());
            Some(s)
        },
        EntryName::Known(KnownHeaderName::XframeOptions) => {
            let s: &'static [u8] = &K_XFRAME_OPTIONS;
            assert(s@ =~= static_indices(name@).unwrap());
            Some(s)
        },
        EntryName::Known(KnownHeaderName::XxssProtection) => {
            let s: &'static [u8] = &K_XXSS_PROTECTION;
            assert(s@ =~= static_indices(name@).unwrap());
            Some(s)
        },
        _ => None,
    }
}


/// Every name's static-table indices are a non-empty list of valid indices.
pub proof fn lemma_static_indices_valid(name: EntryNameView)
    ensures
        static_indices(name) matches Some(s) ==> s.len() > 0 && forall|k: int|
            0 <= k < s.len() ==> s[k] < 99,
{
}

/// The name of a static-table entry, as a field name.
pub open spec fn static_name_view(name: StaticHeaderName) -> EntryNameView {
    match name {
        StaticHeaderName::Header(k) => EntryNameView::Known(k),
        StaticHeaderName::Pseudo(p) => EntryNameView::Pseudo(p),
    }
}

/// The entries listed for a name carry that name.
pub proof fn lemma_static_indices_name(name: EntryNameView)
    ensures
        static_indices(name) matches Some(s) ==> forall|k: int|
            0 <= k < s.len() ==> static_name_view(#[trigger] static_table_entry(s[k]).0) == name,
{
}

/// A value match is one of the listed entries, and holds the value.
pub proof fn lemma_first_value_match(indices: Seq<u8>, value: Seq<u8>, from: int)
    ensures
        first_value_match(indices, value, from) matches Some(i) ==> exists|k: int|
            0 <= k < indices.len() && indices[k] == i && static_table_entry(i).1.spec_bytes()
                == value,
    decreases indices.len() - from,
{
    if 0 <= from < indices.len() && static_table_entry(indices[from]).1.spec_bytes() != value {
        lemma_first_value_match(indices, value, from + 1);
    }
}

/// The first static-table index whose name is `name`.
pub open spec fn spec_first_match(name: EntryNameView) -> Option<u8> {
    match static_indices(name) {
        Some(s) => Some(s[0]),
        None => None,
    }
}

/// The first static-table index whose name is `name`, if any.
pub fn first_match(name: &EntryName) -> (index: Option<u8>)
    ensures
        index == spec_first_match(name@),
{
    proof {
        lemma_static_indices_valid(name@);
    }
    if let Some(indices) = static_lookup_name(name) {
        Some(indices[0])
    } else {
        None
    }
}

/// Result of looking up a field line in the QPACK static table.
#[derive(Debug, Clone, Copy, PartialEq, Eq, Structural)]
pub enum StaticLookup {
    /// Both name and value match a static table entry.
    FullMatch(u8),
    /// Name matches but value doesn't.
    NameMatch(u8),
    /// Name not in the static table.
    NoMatch,
}

impl StaticLookup {
    /// The index of a full match, if this is one.
    pub fn full_match(&self) -> (index: Option<u8>)
        ensures
            index == (match *self {
                StaticLookup::FullMatch(i) => Some(i),
                _ => None,
            }),
    {
        match self {
            StaticLookup::FullMatch(i) => Some(*i),
            _ => None,
        }
    }

    /// The index of a name-only match, if this is one.
    pub fn name_match(&self) -> (index: Option<u8>)
        ensures
            index == (match *self {
                StaticLookup::NameMatch(i) => Some(i),
                _ => None,
            }),
    {
        match self {
            StaticLookup::NameMatch(i) => Some(*i),
            _ => None,
        }
    }
}

/// The first of `indices[from..]` whose static-table value is `value`.
pub open spec fn first_value_match(indices: Seq<u8>, value: Seq<u8>, from: int) -> Option<u8>
    decreases indices.len() - from,
{
    if from < 0 || from >= indices.len() {
        None
    } else if static_table_entry(indices[from]).1.spec_bytes() == value {
        Some(indices[from])
    } else {
        first_value_match(indices, value, from + 1)
    }
}

/// Looking up a field line: the first entry with the same name and value, else the first
/// entry with the same name, else no match.  A line without a value only matches by name.
pub open spec fn spec_static_lookup(name: EntryNameView, value: Option<Seq<u8>>) -> StaticLookup {
    match static_indices(name) {
        None => StaticLookup::NoMatch,
        Some(indices) => match value {
            Some(v) => match first_value_match(indices, v, 0) {
                Some(i) => StaticLookup::FullMatch(i),
                None => StaticLookup::NameMatch(indices[0]),
            },
            None => StaticLookup::NameMatch(indices[0]),
        },
    }
}

/// Look up a field line (regular header or pseudo-header) in the QPACK static table.
pub fn static_table_lookup(name: &EntryName, value: Option<&[u8]>) -> (lookup: StaticLookup)
    ensures
        lookup == spec_static_lookup(
            name@,
            match value {
                Some(v) => Some(v@),
                None => None,
            },
        ),
{
    proof {
        lemma_static_indices_valid(name@);
    }
    let indices = match static_lookup_name(name) {
        Some(indices) => indices,
        None => {
            return StaticLookup::NoMatch;
        },
    };
    if let Some(v) = value {
        let mut k: usize = 0;
        while k < indices.len()
            invariant
                0 <= k <= indices@.len(),
                static_indices(name@) == Some(indices@),
                value == Some(v),
                forall|j: int| 0 <= j < indices@.len() ==> indices@[j] < 99,
                first_value_match(indices@, v@, 0) == first_value_match(
                    indices@,
                    v@,
                    k as int,
                ),
            decreases indices@.len() - k,
        {
            let i = indices[k];
            let (_, entry_value) = static_entry_at(i as usize);
            let entry_bytes = entry_value.as_bytes();
            if bytes_equal(v, entry_bytes) {
                assert(entry_value == static_table_entry(i).1);
                assert(v@ == static_table_entry(indices@[k as int]).1.spec_bytes());
                assert(first_value_match(indices@, v@, k as int) == Some(i));
                return StaticLookup::FullMatch(i);
            }
            k = k + 1;
        }
    }
    StaticLookup::NameMatch(indices[0])
}

/// Whether `i` is in `list`.
pub open spec fn index_listed(list: Seq<u8>, i: u8) -> bool
    decreases list.len(),
{
    list.len() > 0 && (list[0] == i || index_listed(list.drop_first(), i))
}

/// Whether each index in `list` is below the next.
pub open spec fn increasing(list: Seq<u8>) -> bool
    decreases list.len(),
{
    list.len() < 2 || (list[0] < list[1] && increasing(list.drop_first()))
}

/// Entry `i`'s name lists `i` among its indices, in increasing order.
pub open spec fn entry_listed(i: int) -> bool {
    match static_indices(static_name_view(static_table_entry(i as u8).0)) {
        Some(s) => index_listed(s, i as u8) && increasing(s),
        None => false,
    }
}

proof fn lemma_index_listed(list: Seq<u8>, i: u8)
    ensures
        index_listed(list, i) <==> list.contains(i),
    decreases list.len(),
{
    if list.len() > 0 {
        lemma_index_listed(list.drop_first(), i);
        if list.drop_first().contains(i) {
            let k = choose|k: int| 0 <= k < list.drop_first().len() && list.drop_first()[k] == i;
            assert(list[k + 1] == i);
        }
        if list.contains(i) && list[0] != i {
            let k = choose|k: int| 0 <= k < list.len() && list[k] == i;
            assert(list.drop_first()[k - 1] == i);
        }
    }
}

proof fn lemma_increasing(list: Seq<u8>)
    requires
        increasing(list),
    ensures
        forall|a: int, b: int| 0 <= a < b < list.len() ==> list[a] < list[b],
    decreases list.len(),
{
    if list.len() >= 2 {
        let rest = list.drop_first();
        lemma_increasing(rest);
        assert forall|a: int, b: int| 0 <= a < b < list.len() implies list[a] < list[b] by {
            if a == 0 {
                if b > 1 {
                    assert(rest[0] < rest[b - 1]);
                }
            } else {
                assert(rest[a - 1] < rest[b - 1]);
            }
        }
    }
}

proof fn lemma_entries_listed_0(i: int)
    requires
        0 <= i < 20,
    ensures
        entry_listed(i),
{
    reveal_with_fuel(index_listed, 15);
    reveal_with_fuel(increasing, 15);
    if i == 0 {
        assert(entry_listed(0));
    } else if i == 1 {
        assert(entry_listed(1));
    } else if i == 2 {
        assert(entry_listed(2));
    } else if i == 3 {
        assert(entry_listed(3));
    } else if i == 4 {
        assert(entry_listed(4));
    } else if i == 5 {
        assert(entry_listed(5));
    } else if i == 6 {
        assert(entry_listed(6));
    } else if i == 7 {
        assert(entry_listed(7));
    } else if i == 8 {
        assert(entry_listed(8));
    } else if i == 9 {
        assert(entry_listed(9));
    } else if i == 10 {
        assert(entry_listed(10));
    } else if i == 11 {
        assert(entry_listed(11));
    } else if i == 12 {
        assert(entry_listed(12));
    } else if i == 13 {
        assert(entry_listed(13));
    } else if i == 14 {
        assert(entry_listed(14));
    } else if i == 15 {
        assert(entry_listed(15));
    } else if i == 16 {
        assert(entry_listed(16));
    } else if i == 17 {
        assert(entry_listed(17));
    } else if i == 18 {
        assert(entry_listed(18));
    } else if i == 19 {
        assert(entry_listed(19));
    }
}

proof fn lemma_entries_listed_20(i: int)
    requires
        20 <= i < 40,
    ensures
        entry_listed(i),
{
    reveal_with_fuel(index_listed, 15);
    reveal_with_fuel(increasing, 15);
    if i == 20 {
        assert(entry_listed(20));
    } else if i == 21 {
        assert(entry_listed(21));
    } else if i == 22 {
        assert(entry_listed(22));
    } else if i == 23 {
        assert(entry_listed(23));
    } else if i == 24 {
        assert(entry_listed(24));
    } else if i == 25 {
        assert(entry_listed(25));
    } else if i == 26 {
        assert(entry_listed(26));
    } else if i == 27 {
        assert(entry_listed(27));
    } else if i == 28 {
        assert(entry_listed(28));
    } else if i == 29 {
        assert(entry_listed(29));
    } else if i == 30 {
        assert(entry_listed(30));
    } else if i == 31 {
        assert(entry_listed(31));
    } else if i == 32 {
        assert(entry_listed(32));
    } else if i == 33 {
        assert(entry_listed(33));
    } else if i == 34 {
        assert(entry_listed(34));
    } else if i == 35 {
        assert(entry_listed(35));
    } else if i == 36 {
        assert(entry_listed(36));
    } else if i == 37 {
        assert(entry_listed(37));
    } else if i == 38 {
        assert(entry_listed(38));
    } else if i == 39 {
        assert(entry_listed(39));
    }
}

proof fn lemma_entries_listed_40(i: int)
    requires
        40 <= i < 60,
    ensures
        entry_listed(i),
{
    reveal_with_fuel(index_listed, 15);
    reveal_with_fuel(increasing, 15);
    if i == 40 {
        assert(entry_listed(40));
    } else if i == 41 {
        assert(entry_listed(41));
    } else if i == 42 {
        assert(entry_listed(42));
    } else if i == 43 {
        assert(entry_listed(43));
    } else if i == 44 {
        assert(entry_listed(44));
    } else if i == 45 {
        assert(entry_listed(45));
    } else if i == 46 {
        assert(entry_listed(46));
    } else if i == 47 {
        assert(entry_listed(47));
    } else if i == 48 {
        assert(entry_listed(48));
    } else if i == 49 {
        assert(entry_listed(49));
    } else if i == 50 {
        assert(entry_listed(50));
    } else if i == 51 {
        assert(entry_listed(51));
    } else if i == 52 {
        assert(entry_listed(52));
    } else if i == 53 {
        assert(entry_listed(53));
    } else if i == 54 {
        assert(entry_listed(54));
    } else if i == 55 {
        assert(entry_listed(55));
    } else if i == 56 {
        assert(entry_listed(56));
    } else if i == 57 {
        assert(entry_listed(57));
    } else if i == 58 {
        assert(entry_listed(58));
    } else if i == 59 {
        assert(entry_listed(59));
    }
}

proof fn lemma_entries_listed_60(i: int)
    requires
        60 <= i < 80,
    ensures
        entry_listed(i),
{
    reveal_with_fuel(index_listed, 15);
    reveal_with_fuel(increasing, 15);
    if i == 60 {
        assert(entry_listed(60));
    } else if i == 61 {
        assert(entry_listed(61));
    } else if i == 62 {
        assert(entry_listed(62));
    } else if i == 63 {
        assert(entry_listed(63));
    } else if i == 64 {
        assert(entry_listed(64));
    } else if i == 65 {
        assert(entry_listed(65));
    } else if i == 66 {
        assert(entry_listed(66));
    } else if i == 67 {
        assert(entry_listed(67));
    } else if i == 68 {
        assert(entry_listed(68));
    } else if i == 69 {
        assert(entry_listed(69));
    } else if i == 70 {
        assert(entry_listed(70));
    } else if i == 71 {
        assert(entry_listed(71));
    } else if i == 72 {
        assert(entry_listed(72));
    } else if i == 73 {
        assert(entry_listed(73));
    } else if i == 74 {
        assert(entry_listed(74));
    } else if i == 75 {
        assert(entry_listed(75));
    } else if i == 76 {
        assert(entry_listed(76));
    } else if i == 77 {
        assert(entry_listed(77));
    } else if i == 78 {
        assert(entry_listed(78));
    } else if i == 79 {
        assert(entry_listed(79));
    }
}

proof fn lemma_entries_listed_80(i: int)
    requires
        80 <= i < 99,
    ensures
        entry_listed(i),
{
    reveal_with_fuel(index_listed, 15);
    reveal_with_fuel(increasing, 15);
    if i == 80 {
        assert(entry_listed(80));
    } else if i == 81 {
        assert(entry_listed(81));
    } else if i == 82 {
        assert(entry_listed(82));
    } else if i == 83 {
        assert(entry_listed(83));
    } else if i == 84 {
        assert(entry_listed(84));
    } else if i == 85 {
        assert(entry_listed(85));
    } else if i == 86 {
        assert(entry_listed(86));
    } else if i == 87 {
        assert(entry_listed(87));
    } else if i == 88 {
        assert(entry_listed(88));
    } else if i == 89 {
        assert(entry_listed(89));
    } else if i == 90 {
        assert(entry_listed(90));
    } else if i == 91 {
        assert(entry_listed(91));
    } else if i == 92 {
        assert(entry_listed(92));
    } else if i == 93 {
        assert(entry_listed(93));
    } else if i == 94 {
        assert(entry_listed(94));
    } else if i == 95 {
        assert(entry_listed(95));
    } else if i == 96 {
        assert(entry_listed(96));
    } else if i == 97 {
        assert(entry_listed(97));
    } else if i == 98 {
        assert(entry_listed(98));
    }
}

/// Every entry of the static table is listed under its name, in increasing order.
proof fn lemma_entries_listed(i: int)
    requires
        0 <= i < 99,
    ensures
        entry_listed(i),
{
    if i < 20 {
        lemma_entries_listed_0(i);
    } else if i < 40 {
        lemma_entries_listed_20(i);
    } else if i < 60 {
        lemma_entries_listed_40(i);
    } else if i < 80 {
        lemma_entries_listed_60(i);
    } else {
        lemma_entries_listed_80(i);
    }
}

/// The static indices of a name are exactly the static-table entries that carry the name,
/// in increasing order.
pub proof fn lemma_static_indices_complete(name: EntryNameView)
    ensures
        forall|i: int|
            0 <= i < 99 ==> (static_name_view(#[trigger] static_table_entry(i as u8).0) == name <==> (
            static_indices(name) matches Some(s) && s.contains(i as u8))),
        static_indices(name) matches Some(s) ==> forall|a: int, b: int| 0 <= a < b < s.len() ==> s[a] < s[b],
{
    lemma_static_indices_name(name);
    lemma_static_indices_valid(name);
    assert forall|i: int| 0 <= i < 99 implies (static_name_view(
        #[trigger] static_table_entry(i as u8).0,
    ) == name <==> (static_indices(name) matches Some(s) && s.contains(i as u8))) by {
        lemma_entries_listed(i);
        if let Some(s) = static_indices(name) {
            lemma_index_listed(s, i as u8);
            if s.contains(i as u8) {
                let k = choose|k: int| 0 <= k < s.len() && s[k] == i as u8;
                assert(static_name_view(static_table_entry(s[k]).0) == name);
            }
        }
    }
    if let Some(s) = static_indices(name) {
        assert(static_name_view(static_table_entry(s[0]).0) == name);
        lemma_entries_listed(s[0] as int);
        lemma_increasing(s);
    }
}

} // verus!
