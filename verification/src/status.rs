//! HTTP response status codes, and the decimal form in which they travel.
use vstd::prelude::*;

verus! {

/// An HTTP response status.
#[derive(Clone, Copy, PartialEq, Eq, Structural, Debug, Hash)]
pub enum Status {
    Continue,
    SwitchingProtocols,
    Processing,
    EarlyHints,
    Okay,
    Created,
    Accepted,
    NonAuthoritativeInformation,
    NoContent,
    ResetContent,
    PartialContent,
    MultiStatus,
    AlreadyReported,
    ImUsed,
    MultipleChoice,
    MovedPermanently,
    Found,
    SeeOther,
    NotModified,
    TemporaryRedirect,
    PermanentRedirect,
    BadRequest,
    Unauthorized,
    PaymentRequired,
    Forbidden,
    NotFound,
    MethodNotAllowed,
    NotAcceptable,
    ProxyAuthenticationRequired,
    RequestTimeout,
    Conflict,
    Gone,
    LengthRequired,
    PreconditionFailed,
    PayloadTooLarge,
    UriTooLong,
    UnsupportedMediaType,
    RequestedRangeNotSatisfiable,
    ExpectationFailed,
    ImATeapot,
    MisdirectedRequest,
    UnprocessableEntity,
    Locked,
    FailedDependency,
    TooEarly,
    UpgradeRequired,
    PreconditionRequired,
    TooManyRequests,
    RequestHeaderFieldsTooLarge,
    UnavailableForLegalReasons,
    InternalServerError,
    NotImplemented,
    BadGateway,
    ServiceUnavailable,
    GatewayTimeout,
    HttpVersionNotSupported,
    VariantAlsoNegotiates,
    InsufficientStorage,
    LoopDetected,
    NotExtended,
    NetworkAuthenticationRequired,
}

/// The numeric code of each status.
pub open spec fn status_code(status: Status) -> u16 {
    match status {
        Status::Continue => 100,
        Status::SwitchingProtocols => 101,
        Status::Processing => 102,
        Status::EarlyHints => 103,
        Status::Okay => 200,
        Status::Created => 201,
        Status::Accepted => 202,
        Status::NonAuthoritativeInformation => 203,
        Status::NoContent => 204,
        Status::ResetContent => 205,
        Status::PartialContent => 206,
        Status::MultiStatus => 207,
        Status::AlreadyReported => 208,
        Status::ImUsed => 226,
        Status::MultipleChoice => 300,
        Status::MovedPermanently => 301,
        Status::Found => 302,
        Status::SeeOther => 303,
        Status::NotModified => 304,
        Status::TemporaryRedirect => 307,
        Status::PermanentRedirect => 308,
        Status::BadRequest => 400,
        Status::Unauthorized => 401,
        Status::PaymentRequired => 402,
        Status::Forbidden => 403,
        Status::NotFound => 404,
        Status::MethodNotAllowed => 405,
        Status::NotAcceptable => 406,
        Status::ProxyAuthenticationRequired => 407,
        Status::RequestTimeout => 408,
        Status::Conflict => 409,
        Status::Gone => 410,
        Status::LengthRequired => 411,
        Status::PreconditionFailed => 412,
        Status::PayloadTooLarge => 413,
        Status::UriTooLong => 414,
        Status::UnsupportedMediaType => 415,
        Status::RequestedRangeNotSatisfiable => 416,
        Status::ExpectationFailed => 417,
        Status::ImATeapot => 418,
        Status::MisdirectedRequest => 421,
        Status::UnprocessableEntity => 422,
        Status::Locked => 423,
        Status::FailedDependency => 424,
        Status::TooEarly => 425,
        Status::UpgradeRequired => 426,
        Status::PreconditionRequired => 428,
        Status::TooManyRequests => 429,
        Status::RequestHeaderFieldsTooLarge => 431,
        Status::UnavailableForLegalReasons => 451,
        Status::InternalServerError => 500,
        Status::NotImplemented => 501,
        Status::BadGateway => 502,
        Status::ServiceUnavailable => 503,
        Status::GatewayTimeout => 504,
        Status::HttpVersionNotSupported => 505,
        Status::VariantAlsoNegotiates => 506,
        Status::InsufficientStorage => 507,
        Status::LoopDetected => 508,
        Status::NotExtended => 510,
        Status::NetworkAuthenticationRequired => 511,
    }
}

/// The status with a numeric code, if there is one.
pub open spec fn status_with_code(code: u16) -> Option<Status> {
    match code {
        100u16 => Some(Status::Continue),
        101u16 => Some(Status::SwitchingProtocols),
        102u16 => Some(Status::Processing),
        103u16 => Some(Status::EarlyHints),
        200u16 => Some(Status::Okay),
        201u16 => Some(Status::Created),
        202u16 => Some(Status::Accepted),
        203u16 => Some(Status::NonAuthoritativeInformation),
        204u16 => Some(Status::NoContent),
        205u16 => Some(Status::ResetContent),
        206u16 => Some(Status::PartialContent),
        207u16 => Some(Status::MultiStatus),
        208u16 => Some(Status::AlreadyReported),
        226u16 => Some(Status::ImUsed),
        300u16 => Some(Status::MultipleChoice),
        301u16 => Some(Status::MovedPermanently),
        302u16 => Some(Status::Found),
        303u16 => Some(Status::SeeOther),
        304u16 => Some(Status::NotModified),
        307u16 => Some(Status::TemporaryRedirect),
        308u16 => Some(Status::PermanentRedirect),
        400u16 => Some(Status::BadRequest),
        401u16 => Some(Status::Unauthorized),
        402u16 => Some(Status::PaymentRequired),
        403u16 => Some(Status::Forbidden),
        404u16 => Some(Status::NotFound),
        405u16 => Some(Status::MethodNotAllowed),
        406u16 => Some(Status::NotAcceptable),
        407u16 => Some(Status::ProxyAuthenticationRequired),
        408u16 => Some(Status::RequestTimeout),
        409u16 => Some(Status::Conflict),
        410u16 => Some(Status::Gone),
        411u16 => Some(Status::LengthRequired),
        412u16 => Some(Status::PreconditionFailed),
        413u16 => Some(Status::PayloadTooLarge),
        414u16 => Some(Status::UriTooLong),
        415u16 => Some(Status::UnsupportedMediaType),
        416u16 => Some(Status::RequestedRangeNotSatisfiable),
        417u16 => Some(Status::ExpectationFailed),
        418u16 => Some(Status::ImATeapot),
        421u16 => Some(Status::MisdirectedRequest),
        422u16 => Some(Status::UnprocessableEntity),
        423u16 => Some(Status::Locked),
        424u16 => Some(Status::FailedDependency),
        425u16 => Some(Status::TooEarly),
        426u16 => Some(Status::UpgradeRequired),
        428u16 => Some(Status::PreconditionRequired),
        429u16 => Some(Status::TooManyRequests),
        431u16 => Some(Status::RequestHeaderFieldsTooLarge),
        451u16 => Some(Status::UnavailableForLegalReasons),
        500u16 => Some(Status::InternalServerError),
        501u16 => Some(Status::NotImplemented),
        502u16 => Some(Status::BadGateway),
        503u16 => Some(Status::ServiceUnavailable),
        504u16 => Some(Status::GatewayTimeout),
        505u16 => Some(Status::HttpVersionNotSupported),
        506u16 => Some(Status::VariantAlsoNegotiates),
        507u16 => Some(Status::InsufficientStorage),
        508u16 => Some(Status::LoopDetected),
        510u16 => Some(Status::NotExtended),
        511u16 => Some(Status::NetworkAuthenticationRequired),
        _ => None,
    }
}

/// Every status has its own code.
pub proof fn lemma_status_code_roundtrip(status: Status)
    ensures
        status_with_code(status_code(status)) == Some(status),
        100 <= status_code(status) <= 999,
{
}

impl Status {
    /// The numeric code of this status.
    pub fn as_u16(self) -> (code: u16)
        ensures
            code == status_code(self),
    {
        match self {
            Status::Continue => 100,
            Status::SwitchingProtocols => 101,
            Status::Processing => 102,
            Status::EarlyHints => 103,
            Status::Okay => 200,
            Status::Created => 201,
            Status::Accepted => 202,
            Status::NonAuthoritativeInformation => 203,
            Status::NoContent => 204,
            Status::ResetContent => 205,
            Status::PartialContent => 206,
            Status::MultiStatus => 207,
            Status::AlreadyReported => 208,
            Status::ImUsed => 226,
            Status::MultipleChoice => 300,
            Status::MovedPermanently => 301,
            Status::Found => 302,
            Status::SeeOther => 303,
            Status::NotModified => 304,
            Status::TemporaryRedirect => 307,
            Status::PermanentRedirect => 308,
            Status::BadRequest => 400,
            Status::Unauthorized => 401,
            Status::PaymentRequired => 402,
            Status::Forbidden => 403,
            Status::NotFound => 404,
            Status::MethodNotAllowed => 405,
            Status::NotAcceptable => 406,
            Status::ProxyAuthenticationRequired => 407,
            Status::RequestTimeout => 408,
            Status::Conflict => 409,
            Status::Gone => 410,
            Status::LengthRequired => 411,
            Status::PreconditionFailed => 412,
            Status::PayloadTooLarge => 413,
            Status::UriTooLong => 414,
            Status::UnsupportedMediaType => 415,
            Status::RequestedRangeNotSatisfiable => 416,
            Status::ExpectationFailed => 417,
            Status::ImATeapot => 418,
            Status::MisdirectedRequest => 421,
            Status::UnprocessableEntity => 422,
            Status::Locked => 423,
            Status::FailedDependency => 424,
            Status::TooEarly => 425,
            Status::UpgradeRequired => 426,
            Status::PreconditionRequired => 428,
            Status::TooManyRequests => 429,
            Status::RequestHeaderFieldsTooLarge => 431,
            Status::UnavailableForLegalReasons => 451,
            Status::InternalServerError => 500,
            Status::NotImplemented => 501,
            Status::BadGateway => 502,
            Status::ServiceUnavailable => 503,
            Status::GatewayTimeout => 504,
            Status::HttpVersionNotSupported => 505,
            Status::VariantAlsoNegotiates => 506,
            Status::InsufficientStorage => 507,
            Status::LoopDetected => 508,
            Status::NotExtended => 510,
            Status::NetworkAuthenticationRequired => 511,
        }
    }

    /// The status with the given numeric code.
    pub fn from_code(code: u16) -> (status: Option<Status>)
        ensures
            status == status_with_code(code),
    {
        match code {
            100 => Some(Status::Continue),
            101 => Some(Status::SwitchingProtocols),
            102 => Some(Status::Processing),
            103 => Some(Status::EarlyHints),
            200 => Some(Status::Okay),
            201 => Some(Status::Created),
            202 => Some(Status::Accepted),
            203 => Some(Status::NonAuthoritativeInformation),
            204 => Some(Status::NoContent),
            205 => Some(Status::ResetContent),
            206 => Some(Status::PartialContent),
            207 => Some(Status::MultiStatus),
            208 => Some(Status::AlreadyReported),
            226 => Some(Status::ImUsed),
            300 => Some(Status::MultipleChoice),
            301 => Some(Status::MovedPermanently),
            302 => Some(Status::Found),
            303 => Some(Status::SeeOther),
            304 => Some(Status::NotModified),
            307 => Some(Status::TemporaryRedirect),
            308 => Some(Status::PermanentRedirect),
            400 => Some(Status::BadRequest),
            401 => Some(Status::Unauthorized),
            402 => Some(Status::PaymentRequired),
            403 => Some(Status::Forbidden),
            404 => Some(Status::NotFound),
            405 => Some(Status::MethodNotAllowed),
            406 => Some(Status::NotAcceptable),
            407 => Some(Status::ProxyAuthenticationRequired),
            408 => Some(Status::RequestTimeout),
            409 => Some(Status::Conflict),
            410 => Some(Status::Gone),
            411 => Some(Status::LengthRequired),
            412 => Some(Status::PreconditionFailed),
            413 => Some(Status::PayloadTooLarge),
            414 => Some(Status::UriTooLong),
            415 => Some(Status::UnsupportedMediaType),
            416 => Some(Status::RequestedRangeNotSatisfiable),
            417 => Some(Status::ExpectationFailed),
            418 => Some(Status::ImATeapot),
            421 => Some(Status::MisdirectedRequest),
            422 => Some(Status::UnprocessableEntity),
            423 => Some(Status::Locked),
            424 => Some(Status::FailedDependency),
            425 => Some(Status::TooEarly),
            426 => Some(Status::UpgradeRequired),
            428 => Some(Status::PreconditionRequired),
            429 => Some(Status::TooManyRequests),
            431 => Some(Status::RequestHeaderFieldsTooLarge),
            451 => Some(Status::UnavailableForLegalReasons),
            500 => Some(Status::InternalServerError),
            501 => Some(Status::NotImplemented),
            502 => Some(Status::BadGateway),
            503 => Some(Status::ServiceUnavailable),
            504 => Some(Status::GatewayTimeout),
            505 => Some(Status::HttpVersionNotSupported),
            506 => Some(Status::VariantAlsoNegotiates),
            507 => Some(Status::InsufficientStorage),
            508 => Some(Status::LoopDetected),
            510 => Some(Status::NotExtended),
            511 => Some(Status::NetworkAuthenticationRequired),
            _ => None,
        }
    }
}

/// An ASCII decimal digit.
pub open spec fn is_digit(b: u8) -> bool {
    48 <= b <= 57
}

pub open spec fn all_digits(text: Seq<u8>) -> bool {
    forall|i: int| 0 <= i < text.len() ==> is_digit(#[trigger] text[i])
}

/// The number written by a string of decimal digits.
pub open spec fn digits_value(digits: Seq<u8>) -> nat
    decreases digits.len(),
{
    if digits.len() == 0 {
        0
    } else {
        digits_value(digits.drop_last()) * 10 + (digits.last() - 48) as nat
    }
}

/// Reading a 16-bit unsigned integer from text: an optional `+` (when something follows
/// it), then one or more decimal digits whose value fits in 16 bits.
pub open spec fn u16_from_text(text: Seq<u8>) -> Option<u16> {
    let digits = if text.len() > 1 && text[0] == 43 {
        text.subrange(1, text.len() as int)
    } else {
        text
    };
    if digits.len() == 0 || !all_digits(digits) || digits_value(digits) > u16::MAX {
        None
    } else {
        Some(digits_value(digits) as u16)
    }
}

/// The decimal form of a number, without leading zeros.
pub open spec fn decimal(n: nat) -> Seq<u8>
    decreases n,
{
    if n < 10 {
        seq![(48 + n) as u8]
    } else {
        decimal(n / 10).push((48 + n % 10) as u8)
    }
}

/// Reading a status's code back from text.
pub open spec fn status_from_text(text: Seq<u8>) -> Option<Status> {
    match u16_from_text(text) {
        Some(code) => status_with_code(code),
        None => None,
    }
}

proof fn lemma_decimal(n: nat)
    ensures
        decimal(n).len() >= 1,
        decimal(n).len() <= n + 1,
        all_digits(decimal(n)),
        digits_value(decimal(n)) == n,
        decimal(n)[0] != 43,
    decreases n,
{
    if n >= 10 {
        lemma_decimal(n / 10);
        let d = decimal(n);
        assert(d.drop_last() =~= decimal(n / 10));
        assert(d[0] == decimal(n / 10)[0]);
        assert(d.last() == (48 + n % 10) as u8);
        assert(digits_value(d) == digits_value(d.drop_last()) * 10 + (d.last() - 48) as nat);
        assert(digits_value(d.drop_last()) == n / 10);
        assert(n / 10 * 10 + n % 10 == n);
        assert(digits_value(d) == n);
    } else {
        let d = decimal(n);
        assert(d.drop_last() =~= Seq::<u8>::empty());
        assert(digits_value(d.drop_last()) == 0);
        assert(d.last() == (48 + n) as u8);
        assert(digits_value(d) == n);
    }
}

/// The decimal form of a 16-bit number reads back as the number.
pub proof fn lemma_decimal_roundtrip(n: u16)
    ensures
        u16_from_text(decimal(n as nat)) == Some(n),
        decimal(n as nat).len() <= n + 1,
{
    lemma_decimal(n as nat);
}

/// Every status's code, written in decimal, reads back as the status.
pub proof fn lemma_status_text_roundtrip(status: Status)
    ensures
        status_from_text(decimal(status_code(status) as nat)) == Some(status),
{
    lemma_decimal_roundtrip(status_code(status));
    lemma_status_code_roundtrip(status);
}

proof fn lemma_digits_value_prefix(digits: Seq<u8>, k: int)
    requires
        all_digits(digits),
        0 <= k <= digits.len(),
    ensures
        digits_value(digits.subrange(0, k)) <= digits_value(digits),
    decreases digits.len(),
{
    if k < digits.len() {
        let shorter = digits.drop_last();
        assert(shorter.subrange(0, k) =~= digits.subrange(0, k));
        lemma_digits_value_prefix(shorter, k);
    } else {
        assert(digits.subrange(0, k) =~= digits);
    }
}

/// Read a 16-bit unsigned integer from text, as `str::parse::<u16>` does.
pub fn parse_u16(text: &[u8]) -> (value: Option<u16>)
    ensures
        value == u16_from_text(text@),
{
    let start: usize = if text.len() > 1 && text[0] == 43 {
        1
    } else {
        0
    };
    let ghost digits = if text@.len() > 1 && text@[0] == 43 {
        text@.subrange(1, text@.len() as int)
    } else {
        text@
    };
    assert(digits =~= text@.subrange(start as int, text@.len() as int));
    if start == text.len() {
        return None;
    }
    let mut value: u32 = 0;
    let mut i: usize = start;
    while i < text.len()
        invariant
            start <= i <= text@.len(),
            start < text@.len(),
            digits == text@.subrange(start as int, text@.len() as int),
            digits == (if text@.len() > 1 && text@[0] == 43 {
                text@.subrange(1, text@.len() as int)
            } else {
                text@
            }),
            all_digits(digits.subrange(0, i - start)),
            value == digits_value(digits.subrange(0, i - start)),
            value <= u16::MAX,
        decreases text@.len() - i,
    {
        let b = text[i];
        if b < 48 || b > 57 {
            assert(digits[i - start] == b);
            assert(!is_digit(digits[i - start]));
            return None;
        }
        let ghost before = value;
        value = value * 10 + (b - 48) as u32;
        i = i + 1;
        proof {
            let next = digits.subrange(0, i - start);
            assert(next.drop_last() =~= digits.subrange(0, i - start - 1));
            assert(next.last() == b);
            assert(value == digits_value(next));
            assert forall|j: int| 0 <= j < next.len() implies is_digit(#[trigger] next[j]) by {
                if j < next.len() - 1 {
                    assert(next[j] == digits.subrange(0, i - start - 1)[j]);
                }
            }
        }
        if value > 65535 {
            proof {
                if all_digits(digits) {
                    lemma_digits_value_prefix(digits, i - start);
                }
            }
            return None;
        }
    }
    assert(digits.subrange(0, i - start) =~= digits);
    Some(value as u16)
}

/// The decimal form of a number.
pub fn decimal_bytes(n: u16) -> (text: Vec<u8>)
    ensures
        text@ == decimal(n as nat),
    decreases n,
{
    if n < 10 {
        vec![48 + n as u8]
    } else {
        let mut text = decimal_bytes(n / 10);
        text.push(48 + (n % 10) as u8);
        text
    }
}

impl Status {
    /// The numeric code of this status in decimal, as it appears in `:status`.
    pub fn code(self) -> (text: Vec<u8>)
        ensures
            text@ == decimal(status_code(self) as nat),
    {
        decimal_bytes(self.as_u16())
    }

    /// Read a status from the decimal text of its code.
    pub fn parse(text: &[u8]) -> (status: Option<Status>)
        ensures
            status == status_from_text(text@),
    {
        match parse_u16(text) {
            Some(code) => Status::from_code(code),
            None => None,
        }
    }
}

} // verus!
