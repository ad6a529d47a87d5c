//! Checking a downloaded file against its request.

use vstd::prelude::*;
use vstd::string::*;

use super::hash::{digest_of, hex, Algorithm, FileHasher};
use super::types::{InstallRequest, TaskFailure};
use crate::host::IoFailure;
use crate::text::chars::same;
use crate::text::concat::cat4;
use crate::text::number::{decimal, decimal_text};

verus! {

/// What the size of the file leaves to do.
#[derive(Debug)]
pub enum VerifyPlan {
    Passed,
    Failed(TaskFailure),
    /// Hash the file with the named algorithm and compare.
    Hash { algorithm: String, expected: String },
}

/// `plan` is what the size of the file leaves to do.
pub open spec fn verify_planned(
    request: InstallRequest,
    file_len: Result<u64, IoFailure>,
    plan: VerifyPlan,
) -> bool {
    match file_len {
        Err(failure) => plan matches VerifyPlan::Failed(found) && found.says(
            "verify_failed"@,
            failure.text@,
        ),
        Ok(len) => if len != request.size {
            plan matches VerifyPlan::Failed(found) && found.says(
                "size_mismatch"@,
                "文件大小校验失败：期望 "@ + decimal(request.size as nat) + "，实际 "@ + decimal(
                    len as nat,
                ),
            )
        } else {
            match (request.checksum_algo, request.checksum) {
                (None, None) => plan == VerifyPlan::Passed,
                (Some(algorithm), Some(expected)) => plan == (VerifyPlan::Hash {
                    algorithm,
                    expected,
                }),
                _ => plan matches VerifyPlan::Failed(found) && found.says(
                    "invalid_checksum"@,
                    "校验算法与校验值必须同时提供"@,
                ),
            }
        },
    }
}

/// First half of the check: the size, and whether a checksum was given.
/// Algorithm and checksum come together or not at all.
pub fn plan_verify(request: &InstallRequest, file_len: Result<u64, IoFailure>) -> (plan: VerifyPlan)
    ensures
        verify_planned(*request, file_len, plan),
{
    let len: u64 = match file_len {
        Ok(len) => len,
        Err(failure) => {
            return VerifyPlan::Failed(TaskFailure::new("verify_failed", failure.text.as_str()));
        },
    };
    if len != request.size {
        let message: String = cat4(
            "文件大小校验失败：期望 ",
            decimal_text(request.size).as_str(),
            "，实际 ",
            decimal_text(len).as_str(),
        );
        return VerifyPlan::Failed(TaskFailure::new("size_mismatch", message.as_str()));
    }
    match (&request.checksum_algo, &request.checksum) {
        (None, None) => VerifyPlan::Passed,
        (Some(algorithm), Some(expected)) => VerifyPlan::Hash {
            algorithm: algorithm.clone(),
            expected: expected.clone(),
        },
        _ => VerifyPlan::Failed(
            TaskFailure::new("invalid_checksum", "校验算法与校验值必须同时提供"),
        ),
    }
}

/// The algorithm with a given name.
pub open spec fn algorithm_named(name: Seq<char>) -> Option<Algorithm> {
    if name == "sha256"@ {
        Some(Algorithm::Sha256)
    } else if name == "blake3"@ {
        Some(Algorithm::Blake3)
    } else {
        None
    }
}

/// Starts hashing once the file is open.
pub fn start_hash(algorithm: &str, opened: Result<(), IoFailure>) -> (result: Result<
    FileHasher,
    TaskFailure,
>)
    ensures
        match opened {
            Err(failure) => result matches Err(found) && found.says(
                "verify_failed"@,
                failure.text@,
            ),
            Ok(_) => match algorithm_named(algorithm@) {
                Some(kind) => {
                    &&& result is Ok
                    &&& result->Ok_0.wf()
                    &&& result->Ok_0.algorithm() == kind
                    &&& result->Ok_0.input() == Seq::<u8>::empty()
                },
                None => result matches Err(found) && found.says(
                    "unsupported_checksum"@,
                    "不支持的校验算法"@,
                ),
            },
        },
{
    if let Err(failure) = opened {
        return Err(TaskFailure::new("verify_failed", failure.text.as_str()));
    }
    proof {
        reveal_strlit("sha256");
        reveal_strlit("blake3");
        assert("sha256"@[0] != "blake3"@[0]);
    }
    if same(algorithm, "sha256") {
        Ok(FileHasher::new(Algorithm::Sha256))
    } else if same(algorithm, "blake3") {
        Ok(FileHasher::new(Algorithm::Blake3))
    } else {
        Err(TaskFailure::new("unsupported_checksum", "不支持的校验算法"))
    }
}

/// `result` is what comparing two checksums came to.
pub open spec fn compared(
    actual: Seq<char>,
    expected: Seq<char>,
    result: Result<(), TaskFailure>,
) -> bool {
    if actual == expected {
        result is Ok
    } else {
        result matches Err(found) && found.says("checksum_mismatch"@, "下载文件哈希校验失败"@)
    }
}

/// Second half of the check: the digest of what was read must be the one
/// expected.
pub fn finish_hash(hasher: FileHasher, expected: &str) -> (result: Result<(), TaskFailure>)
    requires
        hasher.wf(),
    ensures
        compared(hex(digest_of(hasher.algorithm(), hasher.input())), expected@, result),
{
    let actual: String = hasher.finish();
    compare_checksum(actual.as_str(), expected)
}

/// Compares a computed checksum with the expected one, letter for letter.
pub fn compare_checksum(actual: &str, expected: &str) -> (result: Result<(), TaskFailure>)
    ensures
        compared(actual@, expected@, result),
{
    if same(actual, expected) {
        Ok(())
    } else {
        Err(TaskFailure::new("checksum_mismatch", "下载文件哈希校验失败"))
    }
}

/// A failed read during hashing.
pub fn read_failed(failure: &IoFailure) -> (found: TaskFailure)
    ensures
        found.says("verify_failed"@, failure.text@),
{
    TaskFailure::new("verify_failed", failure.text.as_str())
}

/// A file passes at once exactly if it has the wanted size and no checksum was
/// given; with algorithm and checksum it still has to be hashed, for just that
/// checksum. Everything else fails.
pub proof fn files_pass_by_size_and_checksum(
    request: InstallRequest,
    file_len: Result<u64, IoFailure>,
    plan: VerifyPlan,
)
    requires
        verify_planned(request, file_len, plan),
    ensures
        plan is Passed <==> (file_len matches Ok(len) && len == request.size)
            && request.checksum_algo is None && request.checksum is None,
        plan is Hash <==> (file_len matches Ok(len) && len == request.size)
            && request.checksum_algo is Some && request.checksum is Some,
        plan matches VerifyPlan::Hash { algorithm, expected } ==> request.checksum_algo == Some(
            algorithm,
        ) && request.checksum == Some(expected),
{
}

/// A checksum is accepted exactly if it is the expected one, in every letter.
pub proof fn checksums_agree_in_every_letter(
    actual: Seq<char>,
    expected: Seq<char>,
    result: Result<(), TaskFailure>,
)
    requires
        compared(actual, expected, result),
    ensures
        result is Ok <==> actual.len() == expected.len() && forall|i: int|
            0 <= i < actual.len() ==> #[trigger] actual[i] == expected[i],
{
    if actual.len() == expected.len() && forall|i: int|
        0 <= i < actual.len() ==> #[trigger] actual[i] == expected[i] {
        assert(actual =~= expected);
    }
}

/// Two algorithms are known by name, and no other.
pub proof fn two_algorithms_are_known(name: Seq<char>)
    ensures
        algorithm_named(name) == Some(Algorithm::Sha256) <==> name == "sha256"@,
        algorithm_named(name) == Some(Algorithm::Blake3) <==> name == "blake3"@,
{
    reveal_strlit("sha256");
    reveal_strlit("blake3");
    assert("sha256"@[0] == 's');
    assert("blake3"@[0] == 'b');
}

} // verus!
