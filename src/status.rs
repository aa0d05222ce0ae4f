use vstd::prelude::*;

verus! {

/// A Gemini response status. The leading digit of its code gives the category.
#[derive(Debug, Clone, Copy, PartialEq, Eq, Structural)]
pub enum Status {
    Input,
    Success,
    SuccessEndOfSession,
    RedirectTemporary,
    RedirectPermanent,
    TemporaryFailure,
    ServerUnavailable,
    CGIError,
    ProxyError,
    SlowDown,
    PermanentFailure,
    NotFound,
    Gone,
    ProxyRequestRefused,
    BadRequest,
    ClientCertificateRequired,
    TransientCertificateRequested,
    AuthorisedCertificateRequired,
    CertificateNotAccepted,
    FutureCertificateRejected,
    ExpiredCertificateRejected,
}

/// The response categories, one per leading digit of a status code.
#[derive(Debug, Clone, Copy, PartialEq, Eq, Structural)]
pub enum Category {
    Input,
    Success,
    Redirect,
    TemporaryFailure,
    PermanentFailure,
    ClientCertificate,
}

/// How a terminal outcome is logged.
#[derive(Debug, Clone, Copy, PartialEq, Eq, Structural)]
pub enum Severity {
    Info,
    Warn,
}

impl Status {
    /// The two-digit code sent on the wire.
    pub open spec fn spec_code(self) -> u8 {
        match self {
            Status::Input => 10,
            Status::Success => 20,
            Status::SuccessEndOfSession => 21,
            Status::RedirectTemporary => 30,
            Status::RedirectPermanent => 31,
            Status::TemporaryFailure => 40,
            Status::ServerUnavailable => 41,
            Status::CGIError => 42,
            Status::ProxyError => 43,
            Status::SlowDown => 44,
            Status::PermanentFailure => 50,
            Status::NotFound => 51,
            Status::Gone => 52,
            Status::ProxyRequestRefused => 53,
            Status::BadRequest => 59,
            Status::ClientCertificateRequired => 60,
            Status::TransientCertificateRequested => 61,
            Status::AuthorisedCertificateRequired => 62,
            Status::CertificateNotAccepted => 63,
            Status::FutureCertificateRejected => 64,
            Status::ExpiredCertificateRejected => 65,
        }
    }

    /// The default human-readable reason sent when no other meta is given.
    pub open spec fn spec_reason(self) -> Seq<char> {
        match self {
            Status::Input => "Input"@,
            Status::Success => "Success"@,
            Status::SuccessEndOfSession => "Success End Of Session"@,
            Status::RedirectTemporary => "Redirect Temporary"@,
            Status::RedirectPermanent => "Redirect Permanent"@,
            Status::TemporaryFailure => "Temporary Failure"@,
            Status::ServerUnavailable => "Server Unavailable"@,
            Status::CGIError => "CGI Error!"@,
            Status::ProxyError => "Proxy Error!"@,
            Status::SlowDown => "Slow Down!"@,
            Status::PermanentFailure => "Permanent Failure"@,
            Status::NotFound => "Not Found!"@,
            Status::Gone => "Gone!"@,
            Status::ProxyRequestRefused => "Proxy Request Refused"@,
            Status::BadRequest => "Bad Request!"@,
            Status::ClientCertificateRequired => "Client Certificate Required"@,
            Status::TransientCertificateRequested => "Transient Certificate Requested"@,
            Status::AuthorisedCertificateRequired => "Authorised Certificate Required"@,
            Status::CertificateNotAccepted => "Certificate Not Accepted"@,
            Status::FutureCertificateRejected => "Future Certificate Rejected"@,
            Status::ExpiredCertificateRejected => "Expired Certificate Rejected"@,
        }
    }

    /// The name of the variant, as printed in diagnostics.
    pub open spec fn spec_name(self) -> Seq<char> {
        match self {
            Status::Input => "Input"@,
            Status::Success => "Success"@,
            Status::SuccessEndOfSession => "SuccessEndOfSession"@,
            Status::RedirectTemporary => "RedirectTemporary"@,
            Status::RedirectPermanent => "RedirectPermanent"@,
            Status::TemporaryFailure => "TemporaryFailure"@,
            Status::ServerUnavailable => "ServerUnavailable"@,
            Status::CGIError => "CGIError"@,
            Status::ProxyError => "ProxyError"@,
            Status::SlowDown => "SlowDown"@,
            Status::PermanentFailure => "PermanentFailure"@,
            Status::NotFound => "NotFound"@,
            Status::Gone => "Gone"@,
            Status::ProxyRequestRefused => "ProxyRequestRefused"@,
            Status::BadRequest => "BadRequest"@,
            Status::ClientCertificateRequired => "ClientCertificateRequired"@,
            Status::TransientCertificateRequested => "TransientCertificateRequested"@,
            Status::AuthorisedCertificateRequired => "AuthorisedCertificateRequired"@,
            Status::CertificateNotAccepted => "CertificateNotAccepted"@,
            Status::FutureCertificateRejected => "FutureCertificateRejected"@,
            Status::ExpiredCertificateRejected => "ExpiredCertificateRejected"@,
        }
    }

    /// The category named by the leading digit of the code.
    pub open spec fn spec_category(self) -> Category {
        let d = self.spec_code() / 10;
        if d == 1 {
            Category::Input
        } else if d == 2 {
            Category::Success
        } else if d == 3 {
            Category::Redirect
        } else if d == 4 {
            Category::TemporaryFailure
        } else if d == 5 {
            Category::PermanentFailure
        } else {
            Category::ClientCertificate
        }
    }

    /// Successes are logged as information, everything else as a warning.
    pub open spec fn spec_severity(self) -> Severity {
        if 20 <= self.spec_code() <= 29 {
            Severity::Info
        } else {
            Severity::Warn
        }
    }

    /// The numeric code of this status.
    pub fn code(&self) -> (r: u8)
        ensures
            r == self.spec_code(),
            10 <= r <= 65,
    {
        match self {
            Status::Input => 10,
            Status::Success => 20,
            Status::SuccessEndOfSession => 21,
            Status::RedirectTemporary => 30,
            Status::RedirectPermanent => 31,
            Status::TemporaryFailure => 40,
            Status::ServerUnavailable => 41,
            Status::CGIError => 42,
            Status::ProxyError => 43,
            Status::SlowDown => 44,
            Status::PermanentFailure => 50,
            Status::NotFound => 51,
            Status::Gone => 52,
            Status::ProxyRequestRefused => 53,
            Status::BadRequest => 59,
            Status::ClientCertificateRequired => 60,
            Status::TransientCertificateRequested => 61,
            Status::AuthorisedCertificateRequired => 62,
            Status::CertificateNotAccepted => 63,
            Status::FutureCertificateRejected => 64,
            Status::ExpiredCertificateRejected => 65,
        }
    }

    /// The default reason string of this status.
    pub fn to_str(&self) -> (r: &'static str)
        ensures
            r@ == self.spec_reason(),
    {
        match self {
            Status::Input => "Input",
            Status::Success => "Success",
            Status::SuccessEndOfSession => "Success End Of Session",
            Status::RedirectTemporary => "Redirect Temporary",
            Status::RedirectPermanent => "Redirect Permanent",
            Status::TemporaryFailure => "Temporary Failure",
            Status::ServerUnavailable => "Server Unavailable",
            Status::CGIError => "CGI Error!",
            Status::ProxyError => "Proxy Error!",
            Status::SlowDown => "Slow Down!",
            Status::PermanentFailure => "Permanent Failure",
            Status::NotFound => "Not Found!",
            Status::Gone => "Gone!",
            Status::ProxyRequestRefused => "Proxy Request Refused",
            Status::BadRequest => "Bad Request!",
            Status::ClientCertificateRequired => "Client Certificate Required",
            Status::TransientCertificateRequested => "Transient Certificate Requested",
            Status::AuthorisedCertificateRequired => "Authorised Certificate Required",
            Status::CertificateNotAccepted => "Certificate Not Accepted",
            Status::FutureCertificateRejected => "Future Certificate Rejected",
            Status::ExpiredCertificateRejected => "Expired Certificate Rejected",
        }
    }

    /// The variant's name; what the status prints as in diagnostics.
    pub fn name(&self) -> (r: &'static str)
        ensures
            r@ == self.spec_name(),
    {
        match self {
            Status::Input => "Input",
            Status::Success => "Success",
            Status::SuccessEndOfSession => "SuccessEndOfSession",
            Status::RedirectTemporary => "RedirectTemporary",
            Status::RedirectPermanent => "RedirectPermanent",
            Status::TemporaryFailure => "TemporaryFailure",
            Status::ServerUnavailable => "ServerUnavailable",
            Status::CGIError => "CGIError",
            Status::ProxyError => "ProxyError",
            Status::SlowDown => "SlowDown",
            Status::PermanentFailure => "PermanentFailure",
            Status::NotFound => "NotFound",
            Status::Gone => "Gone",
            Status::ProxyRequestRefused => "ProxyRequestRefused",
            Status::BadRequest => "BadRequest",
            Status::ClientCertificateRequired => "ClientCertificateRequired",
            Status::TransientCertificateRequested => "TransientCertificateRequested",
            Status::AuthorisedCertificateRequired => "AuthorisedCertificateRequired",
            Status::CertificateNotAccepted => "CertificateNotAccepted",
            Status::FutureCertificateRejected => "FutureCertificateRejected",
            Status::ExpiredCertificateRejected => "ExpiredCertificateRejected",
        }
    }

    /// The category of this status, from the leading digit of its code.
    pub fn category(&self) -> (r: Category)
        ensures
            r == self.spec_category(),
    {
        let d = self.code() / 10;
        if d == 1 {
            Category::Input
        } else if d == 2 {
            Category::Success
        } else if d == 3 {
            Category::Redirect
        } else if d == 4 {
            Category::TemporaryFailure
        } else if d == 5 {
            Category::PermanentFailure
        } else {
            Category::ClientCertificate
        }
    }

    /// The severity at which an outcome with this status is logged.
    pub fn severity(&self) -> (r: Severity)
        ensures
            r == self.spec_severity(),
    {
        let c = self.code();
        if 20 <= c && c <= 29 {
            Severity::Info
        } else {
            Severity::Warn
        }
    }
}

} // verus!
