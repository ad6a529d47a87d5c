//! The first range request, what its answer means, and whether an earlier
//! download can be continued.

use reqwest::header::{HeaderMap, HeaderValue};
use vstd::prelude::*;

use super::control::{count_of, ControlFile, CONTROL_VERSION};
use super::error::DownloadError;
use super::http::{
    content_length, content_length_of, content_range, content_range_of, ensure_identity,
    header_string, header_string_of, header_text, identity_of, parse_unsatisfied_total,
    retryable_status, status_error, unsatisfied_value,
};
use super::types::DownloadRequest;
use crate::text::concat::{copy_option, option_view};

verus! {

/// What the server told about the file.
#[derive(Debug)]
pub struct ProbeResult {
    pub total: Option<u64>,
    pub range_supported: bool,
    pub etag: Option<String>,
    pub last_modified: Option<String>,
}

/// The `Range` header of a probe.
pub const PROBE_RANGE: &'static str = "bytes=0-0";

/// Attempts at a probe before its failure is final.
pub const PROBE_ATTEMPTS: u32 = 5;

/// What a probe answer amounts to.
pub enum ProbeMeaning {
    Facts { total: Option<u64>, range_supported: bool },
    Violation(Seq<char>),
    Status,
}

/// Meaning of an answer to the range request `bytes=0-0`.
pub open spec fn probe_meaning(status: u16, headers: HeaderMap<HeaderValue>) -> ProbeMeaning {
    if status == 206 {
        match identity_of(headers) {
            Err(text) => ProbeMeaning::Violation(text),
            Ok(_) => match content_range_of(headers) {
                Err(text) => ProbeMeaning::Violation(text),
                Ok(None) => ProbeMeaning::Violation("206 without Content-Range"@),
                Ok(Some(range)) => ProbeMeaning::Facts {
                    total: range.total,
                    range_supported: true,
                },
            },
        }
    } else if status == 200 {
        match identity_of(headers) {
            Err(text) => ProbeMeaning::Violation(text),
            Ok(_) => match content_length_of(headers) {
                Err(text) => ProbeMeaning::Violation(text),
                Ok(total) => ProbeMeaning::Facts { total, range_supported: false },
            },
        }
    } else if status == 416 {
        match header_text(headers, "content-range"@) {
            Some(Ok(text)) => match unsatisfied_value(text) {
                Err(text) => ProbeMeaning::Violation(text),
                Ok(total) => ProbeMeaning::Facts { total: Some(total), range_supported: true },
            },
            _ => ProbeMeaning::Violation("416 without Content-Range"@),
        }
    } else {
        ProbeMeaning::Status
    }
}

/// Interprets the answer to a probe.
pub fn interpret_probe(status: u16, headers: &HeaderMap<HeaderValue>) -> (result: Result<
    ProbeResult,
    DownloadError,
>)
    ensures
        match probe_meaning(status, *headers) {
            ProbeMeaning::Facts { total, range_supported } => {
                &&& result is Ok
                &&& result->Ok_0.total == total
                &&& result->Ok_0.range_supported == range_supported
                &&& option_view(result->Ok_0.etag) == header_string_of(*headers, "etag"@)
                &&& option_view(result->Ok_0.last_modified) == header_string_of(
                    *headers,
                    "last-modified"@,
                )
            },
            ProbeMeaning::Violation(text) => result matches Err(DownloadError::Protocol(found))
                && found@ == text,
            ProbeMeaning::Status => result == Err::<ProbeResult, DownloadError>(
                DownloadError::Http { status, retryable: retryable_status(status) },
            ),
        },
{
    let etag: Option<String> = header_string(headers, "etag");
    let last_modified: Option<String> = header_string(headers, "last-modified");
    if status == 206 {
        if let Err(error) = ensure_identity(headers) {
            return Err(error);
        }
        return match content_range(headers) {
            Err(error) => Err(error),
            Ok(None) => Err(DownloadError::Protocol("206 without Content-Range".to_owned())),
            Ok(Some(range)) => Ok(
                ProbeResult { total: range.total, range_supported: true, etag, last_modified },
            ),
        };
    }
    if status == 200 {
        if let Err(error) = ensure_identity(headers) {
            return Err(error);
        }
        return match content_length(headers) {
            Err(error) => Err(error),
            Ok(total) => Ok(ProbeResult { total, range_supported: false, etag, last_modified }),
        };
    }
    if status == 416 {
        return match super::http::readable_header(headers, "content-range") {
            None => Err(DownloadError::Protocol("416 without Content-Range".to_owned())),
            Some(text) => match parse_unsatisfied_total(text.as_str()) {
                Err(error) => Err(error),
                Ok(total) => Ok(
                    ProbeResult {
                        total: Some(total),
                        range_supported: true,
                        etag,
                        last_modified,
                    },
                ),
            },
        };
    }
    Err(status_error(status))
}

/// Whether a failed probe is tried again: only retryable failures are, and
/// only so many times.
pub fn probe_again(error: &DownloadError, attempt: u32) -> (again: bool)
    ensures
        again == (error.retryable() && attempt + 1 < PROBE_ATTEMPTS),
{
    error.is_retryable() && attempt < PROBE_ATTEMPTS - 1
}

/// Whether a second probe replaces a first one that saw no range support: it
/// must see it, and must not contradict a known size.
pub open spec fn second_wins(first: ProbeResult, second: Option<ProbeResult>) -> bool {
    match second {
        Some(second) => second.range_supported && (first.total is None || second.total
            == first.total),
        None => false,
    }
}

/// Picks between the first probe and one made a little later.
pub fn confirmed_probe(first: ProbeResult, second: Option<ProbeResult>) -> (probe: ProbeResult)
    ensures
        probe == if second_wins(first, second) {
            second->Some_0
        } else {
            first
        },
{
    match second {
        Some(second) => {
            let agrees: bool = match first.total {
                None => true,
                Some(known) => match second.total {
                    Some(seen) => seen == known,
                    None => false,
                },
            };
            if second.range_supported && agrees {
                second
            } else {
                first
            }
        },
        None => first,
    }
}

/// Equal where both are known.
pub open spec fn agree(stored: Option<Seq<char>>, current: Option<Seq<char>>) -> bool {
    stored is Some && current is Some ==> stored == current
}

fn texts_agree(stored: &Option<String>, current: &Option<String>) -> (found: bool)
    ensures
        found == agree(option_view(*stored), option_view(*current)),
{
    match (stored, current) {
        (Some(stored), Some(current)) => *stored == *current,
        _ => true,
    }
}

/// Whether the progress of an earlier download still describes the target.
///
/// The geometry must be the same. With a content identity on both sides only
/// that counts; otherwise the validators must not contradict each other.
pub open spec fn resumable(
    control: ControlFile,
    identity: Option<Seq<char>>,
    etag: Option<Seq<char>>,
    last_modified: Option<Seq<char>>,
    piece_size: u64,
    size: u64,
) -> bool {
    &&& control.size == size
    &&& control.piece_size == piece_size
    &&& if identity is Some && control.identity is Some {
        identity == option_view(control.identity)
    } else {
        agree(option_view(control.etag), etag) && agree(
            option_view(control.last_modified),
            last_modified,
        )
    }
}

/// The control file of a download that starts over.
pub open spec fn is_fresh(
    control: ControlFile,
    request: DownloadRequest,
    probe: ProbeResult,
    piece_size: u64,
    size: u64,
) -> bool {
    &&& control.version == CONTROL_VERSION
    &&& control.size == size
    &&& control.piece_size == piece_size
    &&& control.identity == request.identity
    &&& control.etag == probe.etag
    &&& control.last_modified == probe.last_modified
    &&& control.pieces@ == Seq::new(count_of(size as nat, piece_size as nat), |i: int| 0u64)
}

/// `control` is what a download goes on with: the record of an earlier one
/// where it can be continued, else a fresh one.
pub open spec fn reconciled(
    existing: Option<ControlFile>,
    request: DownloadRequest,
    probe: ProbeResult,
    piece_size: u64,
    size: u64,
    control: ControlFile,
) -> bool {
    if existing matches Some(found) && resumable(
        found,
        option_view(request.identity),
        option_view(probe.etag),
        option_view(probe.last_modified),
        piece_size,
        size,
    ) {
        control == existing->Some_0
    } else {
        is_fresh(control, request, probe, piece_size, size)
    }
}

/// Continues from `existing` where that is sound, else starts over.
pub fn reconcile(
    existing: Option<ControlFile>,
    request: &DownloadRequest,
    probe: &ProbeResult,
    piece_size: u64,
    size: u64,
) -> (control: ControlFile)
    requires
        piece_size > 0,
        count_of(size as nat, piece_size as nat) * 8 <= isize::MAX,
        existing matches Some(found) ==> found.valid(),
    ensures
        control.valid(),
        control.size == size,
        control.piece_size == piece_size,
        reconciled(existing, *request, *probe, piece_size, size, control),
{
    if let Some(control) = existing {
        if control.size == size && control.piece_size == piece_size {
            let keep: bool = match (&request.identity, &control.identity) {
                (Some(ours), Some(theirs)) => *ours == *theirs,
                _ => texts_agree(&control.etag, &probe.etag) && texts_agree(
                    &control.last_modified,
                    &probe.last_modified,
                ),
            };
            if keep {
                return control;
            }
        }
    }
    ControlFile::new(
        size,
        piece_size,
        copy_option(&request.identity),
        copy_option(&probe.etag),
        copy_option(&probe.last_modified),
    )
}

/// A download can be continued from another address: whether it is continued,
/// and what it starts over with, depends on what is wanted and not on the
/// address.
pub proof fn address_is_no_part_of_identity(
    existing: ControlFile,
    control: ControlFile,
    left: DownloadRequest,
    right: DownloadRequest,
    probe: ProbeResult,
    piece_size: u64,
    size: u64,
)
    requires
        left.identity == right.identity,
    ensures
        resumable(
            existing,
            option_view(left.identity),
            option_view(probe.etag),
            option_view(probe.last_modified),
            piece_size,
            size,
        ) == resumable(
            existing,
            option_view(right.identity),
            option_view(probe.etag),
            option_view(probe.last_modified),
            piece_size,
            size,
        ),
        is_fresh(control, left, probe, piece_size, size) == is_fresh(
            control,
            right,
            probe,
            piece_size,
            size,
        ),
{
}

/// With the same content identity on both sides, no validator can stop a
/// resume.
pub proof fn identity_outweighs_validators(
    control: ControlFile,
    etag: Option<Seq<char>>,
    last_modified: Option<Seq<char>>,
)
    requires
        control.identity is Some,
    ensures
        resumable(
            control,
            option_view(control.identity),
            etag,
            last_modified,
            control.piece_size,
            control.size,
        ),
{
}

/// Without a content identity on both sides, a changed validator stops a
/// resume.
pub proof fn changed_validator_stops_resume(
    control: ControlFile,
    identity: Option<Seq<char>>,
    etag: Option<Seq<char>>,
    last_modified: Option<Seq<char>>,
    piece_size: u64,
    size: u64,
)
    requires
        identity is None || control.identity is None,
        !agree(option_view(control.etag), etag) || !agree(
            option_view(control.last_modified),
            last_modified,
        ),
    ensures
        !resumable(control, identity, etag, last_modified, piece_size, size),
{
}

/// Two validators contradict each other: both are known, and they are not the
/// same text.
pub open spec fn contradict(stored: Option<String>, current: Option<String>) -> bool {
    &&& stored is Some
    &&& current is Some
    &&& stored->Some_0@ != current->Some_0@
}

/// A control file that claims no byte and carries what is known now: every
/// slot is zero, and there are just as many as it takes to cover the target.
pub open spec fn starts_over(
    control: ControlFile,
    request: DownloadRequest,
    probe: ProbeResult,
    piece_size: u64,
    size: u64,
) -> bool {
    &&& control.size == size
    &&& control.piece_size == piece_size
    &&& control.identity == request.identity
    &&& control.etag == probe.etag
    &&& control.last_modified == probe.last_modified
    &&& forall|i: int| 0 <= i < control.pieces@.len() ==> #[trigger] control.pieces@[i] == 0
    &&& size <= control.pieces@.len() * piece_size < size + piece_size
}

proof fn fresh_starts_over(
    control: ControlFile,
    request: DownloadRequest,
    probe: ProbeResult,
    piece_size: u64,
    size: u64,
)
    requires
        piece_size > 0,
        is_fresh(control, request, probe, piece_size, size),
    ensures
        starts_over(control, request, probe, piece_size, size),
{
    super::control::count_just_covers(size as nat, piece_size as nat, control.pieces@.len());
}

/// Without a content identity on both sides, a resume requires that each
/// validator known on both sides is the same text: if an ETag or a date has
/// changed, the download starts over and no byte of the old file counts.
pub proof fn a_changed_file_starts_over(
    found: ControlFile,
    request: DownloadRequest,
    probe: ProbeResult,
    piece_size: u64,
    size: u64,
    control: ControlFile,
)
    requires
        piece_size > 0,
        request.identity is None || found.identity is None,
        found.etag is Some && probe.etag is Some && found.etag->Some_0@ != probe.etag->Some_0@ || (
        found.last_modified is Some && probe.last_modified is Some && found.last_modified->Some_0@
            != probe.last_modified->Some_0@),
        reconciled(Some(found), request, probe, piece_size, size, control),
    ensures
        starts_over(control, request, probe, piece_size, size),
{
    fresh_starts_over(control, request, probe, piece_size, size);
}

/// With a content identity on both sides only that counts: the record is kept
/// if it is the same text, and dropped if it is not, whatever the validators
/// say.
pub proof fn identity_decides_alone(
    found: ControlFile,
    request: DownloadRequest,
    probe: ProbeResult,
    piece_size: u64,
    size: u64,
    control: ControlFile,
)
    requires
        piece_size > 0,
        found.size == size,
        found.piece_size == piece_size,
        request.identity is Some,
        found.identity is Some,
        reconciled(Some(found), request, probe, piece_size, size, control),
    ensures
        request.identity->Some_0@ == found.identity->Some_0@ ==> control == found,
        request.identity->Some_0@ != found.identity->Some_0@ ==> starts_over(
            control,
            request,
            probe,
            piece_size,
            size,
        ),
{
    if request.identity->Some_0@ != found.identity->Some_0@ {
        fresh_starts_over(control, request, probe, piece_size, size);
    }
}

/// An interrupted download goes on where it stopped while nothing speaks
/// against it: the same size and pieces, and no validator that is known on
/// both sides with another text.
pub proof fn an_unchanged_file_is_resumed(
    found: ControlFile,
    request: DownloadRequest,
    probe: ProbeResult,
    control: ControlFile,
)
    requires
        request.identity is None || found.identity is None || request.identity->Some_0@
            == found.identity->Some_0@,
        !contradict(found.etag, probe.etag),
        !contradict(found.last_modified, probe.last_modified),
        reconciled(Some(found), request, probe, found.piece_size, found.size, control),
    ensures
        control == found,
{
}

/// A record of another size or of other pieces is never continued, and
/// without a record the download starts from nothing.
pub proof fn another_geometry_starts_over(
    existing: Option<ControlFile>,
    request: DownloadRequest,
    probe: ProbeResult,
    piece_size: u64,
    size: u64,
    control: ControlFile,
)
    requires
        piece_size > 0,
        existing matches Some(found) ==> found.size != size || found.piece_size != piece_size,
        reconciled(existing, request, probe, piece_size, size, control),
    ensures
        starts_over(control, request, probe, piece_size, size),
{
    fresh_starts_over(control, request, probe, piece_size, size);
}

/// What a probe is taken to mean, by its status: a satisfied and an
/// unsatisfied range show that ranges work, a plain answer that they do not,
/// and any other status is a failure.
pub proof fn probe_statuses(status: u16, headers: HeaderMap<HeaderValue>)
    ensures
        status != 200 && status != 206 && status != 416 <==> probe_meaning(status, headers)
            is Status,
        probe_meaning(status, headers) matches ProbeMeaning::Facts { total, range_supported } ==> {
            &&& range_supported == (status == 206 || status == 416)
            &&& status == 206 ==> identity_of(headers) is Ok && (content_range_of(headers) matches Ok(
                Some(range),
            ) && range.total == total)
            &&& status == 200 ==> identity_of(headers) is Ok && content_length_of(headers) == Ok::<
                Option<u64>,
                Seq<char>,
            >(total)
            &&& status == 416 ==> total is Some
        },
        status == 206 && identity_of(headers) is Ok && (content_range_of(headers) matches Ok(
            Some(_),
        )) ==> probe_meaning(status, headers) is Facts,
        status == 200 && identity_of(headers) is Ok && content_length_of(headers) is Ok
            ==> probe_meaning(status, headers) is Facts,
        status == 416 && (header_text(headers, "content-range"@) matches Some(Ok(text))
            && unsatisfied_value(text) is Ok) ==> probe_meaning(status, headers)
            == (ProbeMeaning::Facts {
            total: Some(unsatisfied_value(header_text(headers, "content-range"@)->Some_0->Ok_0)->Ok_0),
            range_supported: true,
        }),
{
}

/// A second probe is believed only if it saw ranges work, and never against a
/// size that the first one knew; if it did and agrees, it is believed.
pub proof fn second_probes_only_add(first: ProbeResult, second: ProbeResult)
    ensures
        second_wins(first, Some(second)) ==> second.range_supported,
        second_wins(first, Some(second)) && first.total is Some ==> second.total == first.total,
        second.range_supported && second.total == first.total ==> second_wins(first, Some(second)),
        second.range_supported && first.total is None ==> second_wins(first, Some(second)),
        !second_wins(first, None),
{
}

/// A probe is made five times at most.
pub proof fn probes_are_few()
    ensures
        PROBE_ATTEMPTS == 5,
{
}

} // verus!
