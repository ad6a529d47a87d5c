//! Download failures.

use vstd::prelude::*;
use vstd::string::*;

use crate::host::IoFailure;
use crate::text::concat::{cat2, cat4};
use crate::text::number::{decimal, decimal_text};

verus! {

/// Why a download failed. Cancellation is not a failure: a cancelled download
/// ends with [`crate::download::types::Outcome::Cancelled`].
#[derive(Debug)]
pub enum DownloadError {
    /// A status that cannot be recovered from, or a retryable one.
    Http { status: u16, retryable: bool },
    /// The server reports another size than the caller expects.
    SizeMismatch { expected: u64, actual: u64 },
    /// The remote content changed and no checksum vouches for it.
    RemoteChanged(String),
    /// The response breaks the range protocol.
    Protocol(String),
    /// Connection, TLS, reset or stall.
    Network(String),
    /// Writing the target or the control file failed.
    Disk(IoFailure),
    /// The target exists, is not a finished download and has no control file.
    TargetConflict(String),
    /// More retryable failures in a row than the options allow.
    RetriesExhausted { attempts: u32, last: Box<DownloadError> },
    /// The request or the options are unusable.
    InvalidConfig(String),
}

impl DownloadError {
    /// Whether another attempt may succeed.
    pub open spec fn retryable(self) -> bool {
        match self {
            DownloadError::Http { status, retryable } => retryable,
            DownloadError::Protocol(_) => true,
            DownloadError::Network(_) => true,
            _ => false,
        }
    }

    /// The HTTP status behind the failure, also through exhausted retries.
    pub open spec fn status(self) -> Option<u16>
        decreases self,
    {
        match self {
            DownloadError::Http { status, retryable } => Some(status),
            DownloadError::RetriesExhausted { attempts, last } => (*last).status(),
            _ => None,
        }
    }

    pub open spec fn kind_name(self) -> Seq<char> {
        match self {
            DownloadError::Http { .. } => "http"@,
            DownloadError::SizeMismatch { .. } => "size_mismatch"@,
            DownloadError::RemoteChanged(_) => "remote_changed"@,
            DownloadError::Protocol(_) => "protocol"@,
            DownloadError::Network(_) => "network"@,
            DownloadError::Disk(_) => "disk"@,
            DownloadError::TargetConflict(_) => "target_conflict"@,
            DownloadError::RetriesExhausted { .. } => "retries_exhausted"@,
            DownloadError::InvalidConfig(_) => "invalid_config"@,
        }
    }

    /// The text shown to users.
    pub open spec fn text(self) -> Seq<char>
        decreases self,
    {
        match self {
            DownloadError::Http { status, retryable } => if retryable {
                "retryable HTTP status "@ + decimal(status as nat)
            } else {
                "HTTP status "@ + decimal(status as nat)
            },
            DownloadError::SizeMismatch { expected, actual } => "size mismatch: expected "@
                + decimal(expected as nat) + " bytes, server reports "@ + decimal(actual as nat),
            DownloadError::RemoteChanged(detail) => "remote resource changed: "@ + detail@,
            DownloadError::Protocol(detail) => "HTTP protocol violation: "@ + detail@,
            DownloadError::Network(detail) => "network error: "@ + detail@,
            DownloadError::Disk(failure) => "disk error: "@ + failure.text@,
            DownloadError::TargetConflict(path) =>
                "target already exists without a control file: "@ + path@,
            DownloadError::RetriesExhausted { attempts, last } => "gave up after "@ + decimal(
                attempts as nat,
            ) + " consecutive failures; last error: "@ + (*last).text(),
            DownloadError::InvalidConfig(detail) => "invalid configuration: "@ + detail@,
        }
    }

    /// Whether another attempt may succeed.
    #[must_use]
    pub fn is_retryable(&self) -> (retryable: bool)
        ensures
            retryable == self.retryable(),
    {
        match self {
            DownloadError::Http { status: _, retryable } => *retryable,
            DownloadError::Protocol(_) | DownloadError::Network(_) => true,
            DownloadError::SizeMismatch { .. }
            | DownloadError::RemoteChanged(_)
            | DownloadError::Disk(_)
            | DownloadError::TargetConflict(_)
            | DownloadError::RetriesExhausted { .. }
            | DownloadError::InvalidConfig(_) => false,
        }
    }

    /// The HTTP status behind the failure.
    #[must_use]
    pub fn http_status(&self) -> (status: Option<u16>)
        ensures
            status == self.status(),
        decreases self,
    {
        match self {
            DownloadError::Http { status, retryable: _ } => Some(*status),
            DownloadError::RetriesExhausted { attempts: _, last } => last.http_status(),
            _ => None,
        }
    }

    /// Stable name of the failure class.
    #[must_use]
    pub fn kind(&self) -> (name: &'static str)
        ensures
            name@ == self.kind_name(),
    {
        match self {
            DownloadError::Http { .. } => "http",
            DownloadError::SizeMismatch { .. } => "size_mismatch",
            DownloadError::RemoteChanged(_) => "remote_changed",
            DownloadError::Protocol(_) => "protocol",
            DownloadError::Network(_) => "network",
            DownloadError::Disk(_) => "disk",
            DownloadError::TargetConflict(_) => "target_conflict",
            DownloadError::RetriesExhausted { .. } => "retries_exhausted",
            DownloadError::InvalidConfig(_) => "invalid_config",
        }
    }

    /// The text shown to users.
    pub fn message(&self) -> (message: String)
        ensures
            message@ == self.text(),
        decreases self,
    {
        match self {
            DownloadError::Http { status, retryable } => {
                let number: String = decimal_text(*status as u64);
                if *retryable {
                    cat2("retryable HTTP status ", number.as_str())
                } else {
                    cat2("HTTP status ", number.as_str())
                }
            },
            DownloadError::SizeMismatch { expected, actual } => cat4(
                "size mismatch: expected ",
                decimal_text(*expected).as_str(),
                " bytes, server reports ",
                decimal_text(*actual).as_str(),
            ),
            DownloadError::RemoteChanged(detail) => cat2(
                "remote resource changed: ",
                detail.as_str(),
            ),
            DownloadError::Protocol(detail) => cat2("HTTP protocol violation: ", detail.as_str()),
            DownloadError::Network(detail) => cat2("network error: ", detail.as_str()),
            DownloadError::Disk(failure) => cat2("disk error: ", failure.text.as_str()),
            DownloadError::TargetConflict(path) => cat2(
                "target already exists without a control file: ",
                path.as_str(),
            ),
            DownloadError::RetriesExhausted { attempts, last } => {
                let inner: String = last.message();
                cat4(
                    "gave up after ",
                    decimal_text(*attempts as u64).as_str(),
                    " consecutive failures; last error: ",
                    inner.as_str(),
                )
            },
            DownloadError::InvalidConfig(detail) => cat2("invalid configuration: ", detail.as_str()),
        }
    }
}

/// What an HTTP client reports of a failed exchange.
#[derive(Clone, Debug)]
pub struct TransportFailure {
    pub timeout: bool,
    pub connect: bool,
    pub redirect: bool,
    pub body: bool,
    pub decode: bool,
    pub builder: bool,
    pub request: bool,
    pub text: String,
}

/// The failure that a transport failure counts as: the first class that
/// applies decides.
pub open spec fn transport_error(
    failure: TransportFailure,
    error: DownloadError,
) -> bool {
    if failure.timeout {
        error matches DownloadError::Network(t) && t@ == "request timed out: "@ + failure.text@
    } else if failure.connect {
        error matches DownloadError::Network(t) && t@ == "connection failed: "@ + failure.text@
    } else if failure.redirect {
        error matches DownloadError::Protocol(t) && t@ == "redirect policy violated: "@
            + failure.text@
    } else if failure.body || failure.decode {
        error matches DownloadError::Network(t) && t@ == "body transfer failed: "@ + failure.text@
    } else if failure.builder || failure.request {
        error matches DownloadError::InvalidConfig(t) && t@ == failure.text@
    } else {
        error matches DownloadError::Network(t) && t@ == failure.text@
    }
}

/// Classifies a failed exchange.
pub fn map_transport(failure: &TransportFailure) -> (error: DownloadError)
    ensures
        transport_error(*failure, error),
{
    let text: &str = failure.text.as_str();
    if failure.timeout {
        return DownloadError::Network(cat2("request timed out: ", text));
    }
    if failure.connect {
        return DownloadError::Network(cat2("connection failed: ", text));
    }
    if failure.redirect {
        return DownloadError::Protocol(cat2("redirect policy violated: ", text));
    }
    if failure.body || failure.decode {
        return DownloadError::Network(cat2("body transfer failed: ", text));
    }
    if failure.builder || failure.request {
        return DownloadError::InvalidConfig(text.to_owned());
    }
    DownloadError::Network(text.to_owned())
}

/// The network failure that stands for "cancelled while waiting".
pub open spec fn is_cancelled(error: DownloadError) -> bool {
    error matches DownloadError::Network(t) && t@ == "cancelled"@
}

pub fn cancelled_error() -> (error: DownloadError)
    ensures
        is_cancelled(error),
        error.retryable(),
{
    DownloadError::Network("cancelled".to_owned())
}

/// The disk failure that stands for a background task that did not finish.
pub fn join_error(detail: &str) -> (error: DownloadError)
    ensures
        error matches DownloadError::Disk(failure) && failure.kind == crate::host::IoKind::Other
            && failure.text@ == "worker task failed: "@ + detail@,
        !error.retryable(),
{
    DownloadError::Disk(
        IoFailure::new(crate::host::IoKind::Other, cat2("worker task failed: ", detail)),
    )
}

/// A protocol failure carries exactly the wanted text, a success the wanted
/// value.
pub open spec fn protocol_result<T>(
    result: Result<T, DownloadError>,
    wanted: Result<T, Seq<char>>,
) -> bool {
    match wanted {
        Ok(value) => result == Ok::<T, DownloadError>(value),
        Err(text) => result matches Err(DownloadError::Protocol(found)) && found@ == text,
    }
}

/// Another attempt is made after a broken connection, a broken protocol and a
/// status that was marked so; never after anything that an attempt cannot
/// change.
pub proof fn failures_worth_another_attempt(error: DownloadError)
    ensures
        error.retryable() <==> error is Network || error is Protocol || (error matches
            DownloadError::Http { status, retryable } && retryable),
{
}

/// A status is known of a failure that is one, and of retries that ended with
/// one; of nothing else.
pub proof fn statuses_show_through_retries(error: DownloadError, attempts: u32, status: u16, retryable: bool)
    ensures
        (DownloadError::Http { status, retryable }).status() == Some(status),
        (DownloadError::RetriesExhausted { attempts, last: Box::new(error) }).status()
            == error.status(),
        !(error is Http) && !(error is RetriesExhausted) ==> error.status() is None,
{
}

/// What broke a transfer decides the kind of error: a redirect is a matter of
/// protocol, a request that could not be made one of configuration, and all
/// else one of the network. The text is always kept.
pub proof fn transport_failures_keep_their_text(failure: TransportFailure, error: DownloadError)
    requires
        transport_error(failure, error),
    ensures
        error is Network || error is Protocol || error is InvalidConfig,
        error is Protocol <==> failure.redirect && !failure.timeout && !failure.connect,
        error is InvalidConfig <==> (failure.builder || failure.request) && !failure.timeout
            && !failure.connect && !failure.redirect && !failure.body && !failure.decode,
        error matches DownloadError::Network(text) ==> failure.text@.is_suffix_of(text@),
        error matches DownloadError::Protocol(text) ==> failure.text@.is_suffix_of(text@),
        error matches DownloadError::InvalidConfig(text) ==> failure.text@.is_suffix_of(text@),
{
    let text = match error {
        DownloadError::Network(text) => text@,
        DownloadError::Protocol(text) => text@,
        DownloadError::InvalidConfig(text) => text@,
        _ => Seq::empty(),
    };
    assert(text.subrange(text.len() - failure.text@.len(), text.len() as int) =~= failure.text@);
}

/// Errors are named by their kind; no two kinds share a name.
pub proof fn kinds_have_their_own_names(left: DownloadError)
    ensures
        left is Http <==> left.kind_name() == "http"@,
        left is SizeMismatch <==> left.kind_name() == "size_mismatch"@,
        left is RemoteChanged <==> left.kind_name() == "remote_changed"@,
        left is Protocol <==> left.kind_name() == "protocol"@,
        left is Network <==> left.kind_name() == "network"@,
        left is Disk <==> left.kind_name() == "disk"@,
        left is TargetConflict <==> left.kind_name() == "target_conflict"@,
        left is RetriesExhausted <==> left.kind_name() == "retries_exhausted"@,
        left is InvalidConfig <==> left.kind_name() == "invalid_config"@,
{
    reveal_strlit("http");
    reveal_strlit("size_mismatch");
    reveal_strlit("remote_changed");
    reveal_strlit("protocol");
    reveal_strlit("network");
    reveal_strlit("disk");
    reveal_strlit("target_conflict");
    reveal_strlit("retries_exhausted");
    reveal_strlit("invalid_config");
    assert("http"@[0] == 'h');
    assert("size_mismatch"@[0] == 's');
    assert("remote_changed"@[2] == 'm');
    assert("retries_exhausted"@[2] == 't');
    assert("protocol"@[0] == 'p');
    assert("network"@[0] == 'n');
    assert("disk"@[0] == 'd');
    assert("target_conflict"@[0] == 't');
    assert("invalid_config"@[0] == 'i');
    assert("remote_changed"@[0] == 'r');
    assert("retries_exhausted"@[0] == 'r');
}

} // verus!
