//! Small helpers: human-readable time spans and a processor capability probe.

use vstd::prelude::*;

verus! {

/// The text that `humantime` prints for a span of `millis` milliseconds.
pub uninterp spec fn humantime_text(millis: u64) -> Seq<char>;

/// Calls `humantime::format_duration` on a span of `millis` milliseconds and renders it.
/// The result is a function of the span alone; its exact wording is `humantime`'s.
#[verifier::external_body]
fn humantime_format(millis: u64) -> (out: String)
    ensures
        out@ == humantime_text(millis),
{
    format!("{}", humantime::format_duration(std::time::Duration::from_millis(millis)))
}

/// What is shown for a signed span, in milliseconds.
pub open spec fn time_v1_duration_text(millis: i64) -> Seq<char> {
    if millis < 0 {
        "<error: negative duration>"@
    } else {
        humantime_text(millis as u64)
    }
}

/// Formats a signed span of milliseconds into a human-readable string.
/// A negative span has no such form and is reported in words.
pub fn format_time_v1_duration(millis: i64) -> (out: String)
    ensures
        out@ == time_v1_duration_text(millis),
{
    if millis < 0 {
        "<error: negative duration>".to_owned()
    } else {
        humantime_format(millis as u64)
    }
}

/// What is shown for the time from `then` to `now`.
pub open spec fn time_since_text(now: i64, then: i64) -> Seq<char> {
    if now < then {
        "<error: negative duration>"@
    } else {
        humantime_text((now - then) as u64)
    }
}

/// Formats how long ago `then` was as of `now`, both in milliseconds from the epoch.
/// An instant that lies ahead of `now` is reported in words.
pub fn time_since(now: i64, then: i64) -> (out: String)
    ensures
        out@ == time_since_text(now, then),
        i64::MIN <= now - then <= i64::MAX ==> out@ == time_v1_duration_text((now - then) as i64),
{
    if now < then {
        "<error: negative duration>".to_owned()
    } else {
        humantime_format((now as i128 - then as i128) as u64)
    }
}

/// Bit 19 of the feature word: the processor has SSE 4.1.
pub open spec fn has_sse41(feature_word: u32) -> bool {
    (feature_word >> 19) & 1 == 1
}

/// Calls `std::arch::x86_64::__cpuid` for one leaf and hands back the ECX register of
/// the answer. The register depends on the machine, so nothing is stated of it.
#[verifier::external_body]
fn cpuid_ecx(leaf: u32) -> u32 {
    std::arch::x86_64::__cpuid(leaf).ecx
}

/// The leaf of the processor's identification that holds the feature words.
pub const FEATURE_LEAF: u32 = 1;

/// Tells from a processor's feature word whether it can run the vectorised text
/// transformer, which needs SSE 4.1.
pub fn feature_word_supports_uwu(feature_word: u32) -> (supported: bool)
    ensures
        supported == has_sse41(feature_word),
{
    (feature_word >> 19) & 1 == 1
}

/// Whether this machine can run the vectorised text transformer.
pub fn check_uwu_support() -> bool {
    feature_word_supports_uwu(cpuid_ecx(FEATURE_LEAF))
}

} // verus!
