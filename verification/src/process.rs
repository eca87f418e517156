//! The parts of Node's `process` module that compute: time readings, platform names.
use vstd::prelude::*;

verus! {

/// The time since the Unix epoch as whole seconds and the nanoseconds past them.
///
/// Trusted: calls `SystemTime::now().duration_since(UNIX_EPOCH)` (a zero
/// duration where the clock is before the epoch) and returns `as_secs` and
/// `subsec_nanos`. The time is not stated; the documentation of
/// `Duration::subsec_nanos` says it is below one billion, which the contract states.
#[verifier::external_body]
pub(crate) fn since_epoch() -> (r: (u64, u32))
    ensures
        r.1 < 1_000_000_000,
{
    let d = std::time::SystemTime::now().duration_since(std::time::UNIX_EPOCH).unwrap_or_default();
    (d.as_secs(), d.subsec_nanos())
}

/// The current time as seconds and nanoseconds since the Unix epoch.
pub fn hrtime() -> (r: (u64, u32))
    ensures
        r.1 < 1_000_000_000,
{
    since_epoch()
}

/// The number of nanoseconds in `secs` seconds and `nanos` nanoseconds.
pub open spec fn total_nanos_of(secs: u64, nanos: u32) -> int {
    secs as int * 1_000_000_000 + nanos as int
}

/// The number of nanoseconds in `secs` seconds and `nanos` nanoseconds.
pub fn total_nanos(secs: u64, nanos: u32) -> (r: u128)
    ensures
        r == secs as int * 1_000_000_000 + nanos as int,
{
    assert(secs as int * 1_000_000_000 <= 0xFFFF_FFFF_FFFF_FFFF * 1_000_000_000) by (nonlinear_arith)
        requires secs <= 0xFFFF_FFFF_FFFF_FFFF;
    secs as u128 * 1_000_000_000 + nanos as u128
}

/// The current time in nanoseconds since the Unix epoch: the reading's
/// whole seconds times one billion plus its nanoseconds.
pub fn hrtime_bigint() -> (r: u128)
    ensures
        r / 1_000_000_000 <= u64::MAX,
        exists|secs: u64, nanos: u32| nanos < 1_000_000_000 && r == #[trigger] total_nanos_of(secs, nanos),
{
    let (s, n) = since_epoch();
    let r = total_nanos(s, n);
    assert(r == total_nanos_of(s, n));
    assert(r / 1_000_000_000 == s) by (nonlinear_arith)
        requires r == s as int * 1_000_000_000 + n as int, n < 1_000_000_000, s >= 0;
    r
}

/// The platform name for the target OS named `target_os`.
pub fn platform(target_os: &str) -> (r: &'static str)
    ensures
        r@ == crate::os::platform_name(target_os@),
{
    crate::os::platform(target_os)
}

/// The architecture name for the target architecture named `target_arch`.
pub fn arch(target_arch: &str) -> (r: &'static str)
    ensures
        r@ == crate::os::arch_name(target_arch@),
{
    crate::os::arch(target_arch)
}

} // verus!
