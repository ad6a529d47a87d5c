//! The control file that records piece progress.
//!
//! It lies beside the target and is replaced atomically. While it exists the
//! target is unfinished; removing it is the last step of a download.

use vstd::arithmetic::div_mod::{lemma_div_is_ordered_by_denominator, lemma_fundamental_div_mod};
use vstd::prelude::*;

use crate::host::{IoFailure, IoKind};
use crate::text::concat::{cat2, cat4, cat6};
use crate::text::number::{decimal, decimal_text};

verus! {

/// Appended to the target path to name the control file.
pub const CONTROL_SUFFIX: &'static str = ".reina-dl";

/// The version this library writes and reads.
pub const CONTROL_VERSION: u32 = 1;

/// Path of the control file of `target`.
pub fn control_path(target: &str) -> (path: String)
    ensures
        path@ == target@ + CONTROL_SUFFIX@,
{
    cat2(target, CONTROL_SUFFIX)
}

/// Every path a download of `target` may create, the target first.
pub fn artifact_paths(target: &str) -> (paths: Vec<String>)
    ensures
        paths@.len() == 3,
        paths@[0]@ == target@,
        paths@[1]@ == target@ + CONTROL_SUFFIX@,
        paths@[2]@ == target@ + CONTROL_SUFFIX@ + ".tmp"@,
{
    let control: String = control_path(target);
    let temp: String = cat2(control.as_str(), ".tmp");
    vec![target.to_owned(), control, temp]
}

/// Number of pieces of a target: `size / piece_size`, rounded up.
pub open spec fn count_of(size: nat, piece_size: nat) -> nat {
    if size == 0 {
        0
    } else {
        (((size - 1) / (piece_size as int)) + 1) as nat
    }
}

/// Length of piece `index`: a full piece, or what is left of the target.
pub open spec fn len_of(size: int, piece_size: int, index: int) -> int {
    if size - index * piece_size < piece_size {
        size - index * piece_size
    } else {
        piece_size
    }
}

/// Total length of the first `count` pieces.
pub open spec fn lens_sum(size: int, piece_size: int, count: nat) -> int
    decreases count,
{
    if count == 0 {
        0
    } else {
        lens_sum(size, piece_size, (count - 1) as nat) + len_of(size, piece_size, count - 1)
    }
}

/// Sum of a list of byte counts.
pub open spec fn total(pieces: Seq<u64>) -> nat
    decreases pieces.len(),
{
    if pieces.len() == 0 {
        0
    } else {
        total(pieces.drop_last()) + pieces.last() as nat
    }
}

/// A piece starts inside the target exactly if its index is below the count.
pub proof fn piece_starts_inside(size: nat, piece_size: nat, index: nat)
    requires
        piece_size > 0,
    ensures
        index < count_of(size, piece_size) <==> index * piece_size < size,
{
    if size > 0 {
        let last = (size - 1) as int;
        lemma_fundamental_div_mod(last, piece_size as int);
        let quotient = last / (piece_size as int);
        if index < count_of(size, piece_size) {
            assert(index * piece_size <= quotient * piece_size) by (nonlinear_arith)
                requires
                    index <= quotient,
                    piece_size > 0,
            ;
            assert(quotient * piece_size == piece_size * quotient) by (nonlinear_arith);
        } else {
            assert(index * piece_size >= (quotient + 1) * piece_size) by (nonlinear_arith)
                requires
                    index >= quotient + 1,
                    piece_size > 0,
            ;
            assert((quotient + 1) * piece_size == piece_size * quotient + piece_size)
                by (nonlinear_arith);
        }
    } else {
        assert(index * piece_size >= 0) by (nonlinear_arith)
            requires
                index >= 0,
                piece_size > 0,
        ;
    }
}

/// There are never more pieces than bytes.
pub proof fn count_at_most_size(size: nat, piece_size: nat)
    requires
        piece_size > 0,
    ensures
        count_of(size, piece_size) <= size,
{
    if size > 0 {
        lemma_div_is_ordered_by_denominator(size - 1, 1, piece_size as int);
    }
}

/// The first pieces together cover the target from its start without gaps.
pub proof fn pieces_cover_prefix(size: nat, piece_size: nat, count: nat)
    requires
        piece_size > 0,
        count <= count_of(size, piece_size),
    ensures
        lens_sum(size as int, piece_size as int, count) == if count * piece_size < size {
            (count * piece_size) as int
        } else {
            size as int
        },
    decreases count,
{
    if count > 0 {
        let before = (count - 1) as nat;
        pieces_cover_prefix(size, piece_size, before);
        piece_starts_inside(size, piece_size, before);
        assert(count * piece_size == before * piece_size + piece_size) by (nonlinear_arith)
            requires
                count == before + 1,
        ;
    } else {
        assert(count * piece_size == 0) by (nonlinear_arith)
            requires
                count == 0,
        ;
    }
}

/// All pieces together are exactly as long as the target.
pub proof fn pieces_cover_target(size: nat, piece_size: nat)
    requires
        piece_size > 0,
    ensures
        lens_sum(size as int, piece_size as int, count_of(size, piece_size)) == size,
{
    pieces_cover_prefix(size, piece_size, count_of(size, piece_size));
    piece_starts_inside(size, piece_size, count_of(size, piece_size));
}

/// Every piece that starts inside the target holds at least one byte and at
/// most a full piece.
pub proof fn piece_len_bounds(size: nat, piece_size: nat, index: nat)
    requires
        piece_size > 0,
        index < count_of(size, piece_size),
    ensures
        0 < len_of(size as int, piece_size as int, index as int) <= piece_size,
        index * piece_size + len_of(size as int, piece_size as int, index as int) <= size,
{
    piece_starts_inside(size, piece_size, index);
}

/// Number of pieces of a target.
pub fn piece_count(size: u64, piece_size: u64) -> (count: u64)
    requires
        size == 0 || piece_size > 0,
    ensures
        count == count_of(size as nat, piece_size as nat),
{
    if size == 0 {
        0
    } else {
        proof {
            count_at_most_size(size as nat, piece_size as nat);
        }
        (size - 1) / piece_size + 1
    }
}

/// Length of one piece.
pub fn piece_len(size: u64, piece_size: u64, index: u64) -> (len: u64)
    requires
        index * piece_size <= size,
    ensures
        len == len_of(size as int, piece_size as int, index as int),
{
    let start: u64 = index * piece_size;
    if size - start < piece_size {
        size - start
    } else {
        piece_size
    }
}

/// Piece progress of one unfinished download.
#[derive(Clone, Debug)]
pub struct ControlFile {
    pub version: u32,
    pub size: u64,
    pub piece_size: u64,
    /// Names the content wanted, for example by its checksum.
    pub identity: Option<String>,
    pub etag: Option<String>,
    pub last_modified: Option<String>,
    /// Bytes on disk of each piece, counted from the start of the piece.
    pub pieces: Vec<u64>,
}

/// Index of the first piece at or behind `from` that claims more bytes than
/// it has.
pub open spec fn first_excess(
    size: int,
    piece_size: int,
    pieces: Seq<u64>,
    from: int,
) -> Option<int>
    decreases pieces.len() - from,
{
    if from < 0 || from >= pieces.len() {
        None
    } else if pieces[from] > len_of(size, piece_size, from) {
        Some(from)
    } else {
        first_excess(size, piece_size, pieces, from + 1)
    }
}

/// No piece claims more bytes than it has.
pub open spec fn within_pieces(size: int, piece_size: int, pieces: Seq<u64>) -> bool {
    forall|i: int| 0 <= i < pieces.len() ==> #[trigger] pieces[i] <= len_of(size, piece_size, i)
}

/// Every piece is full.
pub open spec fn all_full(size: int, piece_size: int, pieces: Seq<u64>) -> bool {
    forall|i: int| 0 <= i < pieces.len() ==> #[trigger] pieces[i] == len_of(size, piece_size, i)
}

proof fn first_excess_absent(size: int, piece_size: int, pieces: Seq<u64>, from: int)
    requires
        0 <= from <= pieces.len(),
        forall|i: int|
            0 <= i < from ==> #[trigger] pieces[i] <= len_of(size, piece_size, i),
    ensures
        first_excess(size, piece_size, pieces, from) is None <==> within_pieces(
            size,
            piece_size,
            pieces,
        ),
    decreases pieces.len() - from,
{
    if from < pieces.len() && pieces[from] <= len_of(size, piece_size, from) {
        first_excess_absent(size, piece_size, pieces, from + 1);
    }
}

proof fn total_bounded(size: nat, piece_size: nat, pieces: Seq<u64>)
    requires
        within_pieces(size as int, piece_size as int, pieces),
    ensures
        total(pieces) <= lens_sum(size as int, piece_size as int, pieces.len()),
        total(pieces) == lens_sum(size as int, piece_size as int, pieces.len()) <==> all_full(
            size as int,
            piece_size as int,
            pieces,
        ),
    decreases pieces.len(),
{
    if pieces.len() > 0 {
        let rest = pieces.drop_last();
        assert forall|i: int| 0 <= i < rest.len() implies #[trigger] rest[i] <= len_of(
            size as int,
            piece_size as int,
            i,
        ) by {
            assert(rest[i] == pieces[i]);
        }
        total_bounded(size, piece_size, rest);
        let last = pieces.len() - 1;
        assert(pieces[last] <= len_of(size as int, piece_size as int, last));
        if all_full(size as int, piece_size as int, pieces) {
            assert forall|i: int| 0 <= i < rest.len() implies #[trigger] rest[i] == len_of(
                size as int,
                piece_size as int,
                i,
            ) by {
                assert(rest[i] == pieces[i]);
            }
            assert(pieces[last] == len_of(size as int, piece_size as int, last));
        }
        if all_full(size as int, piece_size as int, rest) && pieces[last] == len_of(
            size as int,
            piece_size as int,
            last,
        ) {
            assert forall|i: int| 0 <= i < pieces.len() implies #[trigger] pieces[i] == len_of(
                size as int,
                piece_size as int,
                i,
            ) by {
                if i < last {
                    assert(rest[i] == pieces[i]);
                }
            }
        }
    }
}

/// Progress that stays within its pieces never sums to more than the target,
/// and sums to the target exactly if every piece is full.
pub proof fn progress_never_exceeds_target(size: nat, piece_size: nat, pieces: Seq<u64>)
    requires
        piece_size > 0,
        pieces.len() == count_of(size, piece_size),
        within_pieces(size as int, piece_size as int, pieces),
    ensures
        total(pieces) <= size,
        total(pieces) == size <==> all_full(size as int, piece_size as int, pieces),
{
    total_bounded(size, piece_size, pieces);
    pieces_cover_target(size, piece_size);
}

/// Validation accepts exactly the files that can be resumed from.
pub proof fn validation_is_validity(control: ControlFile)
    ensures
        control.validation() is Ok <==> control.valid(),
{
    first_excess_absent(control.size as int, control.piece_size as int, control.pieces@, 0);
}

/// The sum of a prefix is at most the whole sum.
pub proof fn total_of_prefix(pieces: Seq<u64>, count: int)
    requires
        0 <= count <= pieces.len(),
    ensures
        total(pieces.take(count)) <= total(pieces),
    decreases pieces.len(),
{
    if count == pieces.len() {
        assert(pieces.take(count) =~= pieces);
    } else {
        total_of_prefix(pieces.drop_last(), count);
        assert(pieces.drop_last().take(count) =~= pieces.take(count));
    }
}

/// Raising one entry raises the sum by the same amount.
pub proof fn total_of_update(pieces: Seq<u64>, index: int, value: u64)
    requires
        0 <= index < pieces.len(),
    ensures
        total(pieces.update(index, value)) == total(pieces) - pieces[index] + value,
    decreases pieces.len(),
{
    let changed = pieces.update(index, value);
    if index == pieces.len() - 1 {
        assert(changed.drop_last() =~= pieces.drop_last());
    } else {
        total_of_update(pieces.drop_last(), index, value);
        assert(changed.drop_last() =~= pieces.drop_last().update(index, value));
    }
}

/// A list of zeros sums to zero.
pub proof fn total_of_zeros(pieces: Seq<u64>)
    requires
        forall|i: int| 0 <= i < pieces.len() ==> #[trigger] pieces[i] == 0,
    ensures
        total(pieces) == 0,
    decreases pieces.len(),
{
    if pieces.len() > 0 {
        assert forall|i: int| 0 <= i < pieces.drop_last().len() implies
            #[trigger] pieces.drop_last()[i] == 0 by {
            assert(pieces.drop_last()[i] == pieces[i]);
        }
        total_of_zeros(pieces.drop_last());
    }
}

/// Sum of a list of byte counts.
pub fn sum_pieces(pieces: &Vec<u64>) -> (sum: u64)
    requires
        total(pieces@) <= u64::MAX,
    ensures
        sum == total(pieces@),
{
    let mut sum: u64 = 0;
    let mut at: usize = 0;
    while at < pieces.len()
        invariant
            at <= pieces@.len(),
            sum == total(pieces@.take(at as int)),
            total(pieces@) <= u64::MAX,
        decreases pieces@.len() - at,
    {
        proof {
            assert(pieces@.take(at + 1).drop_last() =~= pieces@.take(at as int));
            total_of_prefix(pieces@, at + 1);
        }
        sum += pieces[at];
        at += 1;
    }
    assert(pieces@.take(at as int) =~= pieces@);
    sum
}

/// A list of `count` zeros.
pub fn zeros(count: usize) -> (pieces: Vec<u64>)
    ensures
        pieces@ == Seq::new(count as nat, |i: int| 0u64),
{
    let mut pieces: Vec<u64> = Vec::new();
    let mut at: usize = 0;
    while at < count
        invariant
            at <= count,
            pieces@ == Seq::new(at as nat, |i: int| 0u64),
        decreases count - at,
    {
        pieces.push(0);
        at += 1;
        assert(pieces@ =~= Seq::new(at as nat, |i: int| 0u64));
    }
    pieces
}

/// What reading the control file gave.
#[derive(Clone, Debug)]
pub enum ControlRead {
    /// There is no control file.
    Missing,
    /// The file could not be read.
    Unreadable(IoFailure),
    /// The bytes are not a control file; the text says why.
    Malformed(String),
    /// The bytes were decoded.
    Decoded(ControlFile),
}

impl ControlFile {
    /// The piece list has the length that size and piece size give.
    pub open spec fn shaped(self) -> bool {
        self.piece_size > 0 && self.pieces@.len() == count_of(
            self.size as nat,
            self.piece_size as nat,
        )
    }

    /// The file can be resumed from.
    pub open spec fn valid(self) -> bool {
        &&& self.version == CONTROL_VERSION
        &&& self.shaped()
        &&& within_pieces(self.size as int, self.piece_size as int, self.pieces@)
    }

    /// Outcome of validation, with the message of the first fault.
    pub open spec fn validation(self) -> Result<(), Seq<char>> {
        let expected = count_of(self.size as nat, self.piece_size as nat);
        if self.version != CONTROL_VERSION {
            Err("unsupported control file version "@ + decimal(self.version as nat))
        } else if self.piece_size == 0 {
            Err("piece size must be positive"@)
        } else if self.pieces@.len() != expected {
            Err(
                "piece count mismatch: expected "@ + decimal(expected) + ", found "@ + decimal(
                    self.pieces@.len(),
                ),
            )
        } else {
            match first_excess(self.size as int, self.piece_size as int, self.pieces@, 0) {
                Some(index) => Err(
                    "piece "@ + decimal(index as nat) + " claims "@ + decimal(
                        self.pieces@[index] as nat,
                    ) + " bytes of "@ + decimal(
                        len_of(self.size as int, self.piece_size as int, index) as nat,
                    ),
                ),
                None => Ok(()),
            }
        }
    }

    /// A control file that claims nothing yet.
    pub fn new(
        size: u64,
        piece_size: u64,
        identity: Option<String>,
        etag: Option<String>,
        last_modified: Option<String>,
    ) -> (control: ControlFile)
        requires
            size == 0 || piece_size > 0,
            count_of(size as nat, piece_size as nat) * 8 <= isize::MAX,
        ensures
            control.version == CONTROL_VERSION,
            control.size == size,
            control.piece_size == piece_size,
            control.identity == identity,
            control.etag == etag,
            control.last_modified == last_modified,
            control.pieces@ == Seq::new(
                count_of(size as nat, piece_size as nat),
                |i: int| 0u64,
            ),
            piece_size > 0 ==> control.valid(),
            total(control.pieces@) == 0,
    {
        let count: u64 = piece_count(size, piece_size);
        let pieces: Vec<u64> = zeros(count as usize);
        proof {
            total_of_zeros(pieces@);
            assert forall|i: int| 0 <= i < pieces@.len() implies #[trigger] pieces@[i] <= len_of(
                size as int,
                piece_size as int,
                i,
            ) by {
                piece_len_bounds(size as nat, piece_size as nat, i as nat);
            }
        }
        ControlFile {
            version: CONTROL_VERSION,
            size,
            piece_size,
            identity,
            etag,
            last_modified,
            pieces,
        }
    }

    /// Accepts or rejects what was read from disk. A damaged file is an
    /// `InvalidData` failure; callers treat it as "start over".
    pub fn load(read: ControlRead) -> (loaded: Result<Option<ControlFile>, IoFailure>)
        ensures
            match read {
                ControlRead::Missing => loaded == Ok::<Option<ControlFile>, IoFailure>(None),
                ControlRead::Unreadable(failure) => loaded == Err::<Option<ControlFile>, IoFailure>(
                    failure,
                ),
                ControlRead::Malformed(text) => loaded == Err::<Option<ControlFile>, IoFailure>(
                    IoFailure { kind: IoKind::InvalidData, text },
                ),
                ControlRead::Decoded(control) => match control.validation() {
                    Ok(_) => loaded == Ok::<Option<ControlFile>, IoFailure>(Some(control))
                        && control.valid(),
                    Err(text) => !control.valid() && (loaded matches Err(failure)
                        && failure.kind == IoKind::InvalidData && failure.text@ == text),
                },
            },
    {
        match read {
            ControlRead::Missing => Ok(None),
            ControlRead::Unreadable(failure) => Err(failure),
            ControlRead::Malformed(text) => Err(IoFailure::new(IoKind::InvalidData, text)),
            ControlRead::Decoded(control) => match control.validate() {
                Ok(_) => Ok(Some(control)),
                Err(text) => Err(IoFailure::new(IoKind::InvalidData, text)),
            },
        }
    }

    /// Checks version, shape and claims.
    pub fn validate(&self) -> (result: Result<(), String>)
        ensures
            match self.validation() {
                Ok(_) => result is Ok,
                Err(text) => result matches Err(found) && found@ == text,
            },
            result is Ok <==> self.valid(),
    {
        if self.version != CONTROL_VERSION {
            return Err(
                cat2(
                    "unsupported control file version ",
                    decimal_text(self.version as u64).as_str(),
                ),
            );
        }
        if self.piece_size == 0 {
            return Err("piece size must be positive".to_owned());
        }
        let expected: u64 = piece_count(self.size, self.piece_size);
        if self.pieces.len() as u64 != expected {
            return Err(
                cat4(
                    "piece count mismatch: expected ",
                    decimal_text(expected).as_str(),
                    ", found ",
                    decimal_text(self.pieces.len() as u64).as_str(),
                ),
            );
        }
        proof {
            first_excess_absent(self.size as int, self.piece_size as int, self.pieces@, 0);
        }
        let mut at: usize = 0;
        while at < self.pieces.len()
            invariant
                at <= self.pieces@.len(),
                self.shaped(),
                first_excess(self.size as int, self.piece_size as int, self.pieces@, 0)
                    == first_excess(
                    self.size as int,
                    self.piece_size as int,
                    self.pieces@,
                    at as int,
                ),
                first_excess(self.size as int, self.piece_size as int, self.pieces@, 0) is None
                    <==> within_pieces(self.size as int, self.piece_size as int, self.pieces@),
                self.version == CONTROL_VERSION,
            decreases self.pieces@.len() - at,
        {
            proof {
                piece_starts_inside(self.size as nat, self.piece_size as nat, at as nat);
            }
            let len: u64 = piece_len(self.size, self.piece_size, at as u64);
            let written: u64 = self.pieces[at];
            if written > len {
                return Err(
                    cat6(
                        "piece ",
                        decimal_text(at as u64).as_str(),
                        " claims ",
                        decimal_text(written).as_str(),
                        " bytes of ",
                        decimal_text(len).as_str(),
                    ),
                );
            }
            at += 1;
        }
        Ok(())
    }

    /// Bytes on disk.
    pub fn written_total(&self) -> (sum: u64)
        requires
            total(self.pieces@) <= u64::MAX,
        ensures
            sum == total(self.pieces@),
            self.valid() ==> sum <= self.size,
    {
        proof {
            if self.valid() {
                progress_never_exceeds_target(
                    self.size as nat,
                    self.piece_size as nat,
                    self.pieces@,
                );
            }
        }
        sum_pieces(&self.pieces)
    }

    /// Whether every piece is full.
    pub fn is_complete(&self) -> (complete: bool)
        requires
            self.shaped(),
        ensures
            complete == all_full(self.size as int, self.piece_size as int, self.pieces@),
            self.valid() ==> (complete <==> total(self.pieces@) == self.size),
    {
        proof {
            if self.valid() {
                progress_never_exceeds_target(
                    self.size as nat,
                    self.piece_size as nat,
                    self.pieces@,
                );
            }
        }
        let mut at: usize = 0;
        while at < self.pieces.len()
            invariant
                at <= self.pieces@.len(),
                self.shaped(),
                self.valid() ==> (total(self.pieces@) == self.size <==> all_full(
                    self.size as int,
                    self.piece_size as int,
                    self.pieces@,
                )),
                forall|i: int|
                    0 <= i < at ==> #[trigger] self.pieces@[i] == len_of(
                        self.size as int,
                        self.piece_size as int,
                        i,
                    ),
            decreases self.pieces@.len() - at,
        {
            proof {
                piece_starts_inside(self.size as nat, self.piece_size as nat, at as nat);
            }
            if self.pieces[at] != piece_len(self.size, self.piece_size, at as u64) {
                return false;
            }
            at += 1;
        }
        true
    }

    /// A copy of this record with other piece progress.
    pub fn with_pieces(&self, pieces: Vec<u64>) -> (control: ControlFile)
        ensures
            control == (ControlFile { pieces, ..*self }),
    {
        ControlFile {
            version: self.version,
            size: self.size,
            piece_size: self.piece_size,
            identity: crate::text::concat::copy_option(&self.identity),
            etag: crate::text::concat::copy_option(&self.etag),
            last_modified: crate::text::concat::copy_option(&self.last_modified),
            pieces,
        }
    }
}

/// A piece reaches from its start to the start of the next one, the last one
/// to the end of the target.
pub proof fn pieces_meet(size: nat, piece_size: nat, index: nat)
    requires
        piece_size > 0,
        index * piece_size < size,
    ensures
        ({
            let len = len_of(size as int, piece_size as int, index as int);
            &&& (index + 1) * piece_size <= size ==> len == piece_size
            &&& (index + 1) * piece_size > size ==> index * piece_size + len == size
        }),
{
    assert((index + 1) * piece_size == index * piece_size + piece_size) by (nonlinear_arith);
}

/// There are just as many pieces as it takes to cover the target, and no
/// other number of them.
pub proof fn count_just_covers(size: nat, piece_size: nat, count: nat)
    requires
        piece_size > 0,
    ensures
        count == count_of(size, piece_size) <==> size <= count * piece_size < size + piece_size,
{
    let right = count_of(size, piece_size);
    piece_starts_inside(size, piece_size, right);
    piece_starts_inside(size, piece_size, count);
    if right > 0 {
        let last = (right - 1) as nat;
        piece_starts_inside(size, piece_size, last);
        assert(right * piece_size == last * piece_size + piece_size) by (nonlinear_arith)
            requires
                right == last + 1,
        ;
    }
    if count > 0 {
        let last = (count - 1) as nat;
        piece_starts_inside(size, piece_size, last);
        assert(count * piece_size == last * piece_size + piece_size) by (nonlinear_arith)
            requires
                count == last + 1,
        ;
    }
}

/// A record can be resumed from exactly if it has the known version, just as
/// many slots as it takes to cover the target, and no slot that reaches
/// beyond its piece or beyond the target.
pub proof fn validity_in_bytes(control: ControlFile)
    ensures
        control.validation() is Ok <==> {
            &&& control.version == 1
            &&& control.piece_size > 0
            &&& control.size <= control.pieces@.len() * control.piece_size < control.size
                + control.piece_size
            &&& forall|i: int|
                0 <= i < control.pieces@.len() ==> #[trigger] control.pieces@[i]
                    <= control.piece_size && i * control.piece_size + control.pieces@[i]
                    <= control.size
        },
{
    validation_is_validity(control);
    if control.piece_size > 0 {
        count_just_covers(control.size as nat, control.piece_size as nat, control.pieces@.len());
        assert(control.pieces@.len() * control.piece_size == control.pieces@.len() * (
        control.piece_size as nat));
    }
}

/// A target is complete exactly if every byte of it lies in the filled part
/// of some piece.
pub proof fn complete_means_every_byte(size: nat, piece_size: nat, pieces: Seq<u64>, offset: nat)
    requires
        piece_size > 0,
        all_full(size as int, piece_size as int, pieces),
        pieces.len() == count_of(size, piece_size),
        offset < size,
    ensures
        offset / piece_size < pieces.len(),
        offset % piece_size < pieces[(offset / piece_size) as int],
{
    let index = offset / piece_size;
    assert(index * piece_size + offset % piece_size == offset && offset % piece_size < piece_size)
        by (nonlinear_arith)
        requires
            piece_size > 0,
            index == offset / piece_size,
    ;
    piece_starts_inside(size, piece_size, index);
    assert(pieces[index as int] == len_of(size as int, piece_size as int, index as int));
    pieces_meet(size, piece_size, index);
    assert((index + 1) * piece_size == index * piece_size + piece_size) by (nonlinear_arith);
}

/// The control file lies beside the target, under its name and a suffix.
pub proof fn control_files_lie_beside(target: Seq<char>)
    ensures
        target + CONTROL_SUFFIX@ == target + ".reina-dl"@,
{
}

/// Control files are of the first version; others are not valid.
pub proof fn control_files_have_version_one(control: ControlFile)
    ensures
        control.valid() ==> control.version == 1,
{
}

} // verus!
