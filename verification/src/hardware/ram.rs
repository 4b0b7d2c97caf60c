//! System memory through the `sysinfo` crate.
//!
//! What the system reports depends on the machine and the moment of the
//! call: the trusted items below promise nothing of their results.

use vstd::prelude::*;

verus! {

#[verifier::external_type_specification]
#[verifier::external_body]
pub struct ExSystem(sysinfo::System);

pub const BYTES_PER_MB: u64 = 1_048_576;

/// `sysinfo::System::new`: a system handle with nothing loaded yet.
#[verifier::external_body]
pub(crate) fn new_system() -> sysinfo::System {
    sysinfo::System::new()
}

/// `sysinfo::System::refresh_memory`: reloads the RAM and swap figures.
#[verifier::external_body]
fn refresh_memory(sys: &mut sysinfo::System) {
    sys.refresh_memory()
}

/// `sysinfo::System::total_memory`: the RAM size in bytes, as last loaded.
#[verifier::external_body]
fn total_memory(sys: &sysinfo::System) -> u64 {
    sys.total_memory()
}

/// `sysinfo::System::available_memory`: the RAM available for (re)use in
/// bytes, as last loaded.
#[verifier::external_body]
fn available_memory(sys: &sysinfo::System) -> u64 {
    sys.available_memory()
}

/// The RAM figures `(total, available)` in whole MiB (rounded down) for the
/// byte counts that the system reports.
pub fn ram_from_bytes(total_bytes: u64, available_bytes: u64) -> (r: (u64, u64))
    ensures
        r.0 == total_bytes / BYTES_PER_MB,
        r.1 == available_bytes / BYTES_PER_MB,
{
    (total_bytes / BYTES_PER_MB, available_bytes / BYTES_PER_MB)
}

/// Refreshes the memory figures and returns `(total_mb, available_mb)`.
pub fn query(sys: &mut sysinfo::System) -> (r: (u64, u64))
    ensures
        r.0 <= u64::MAX / BYTES_PER_MB,
        r.1 <= u64::MAX / BYTES_PER_MB,
{
    refresh_memory(sys);
    let total = total_memory(sys);
    let avail = available_memory(sys);
    ram_from_bytes(total, avail)
}

} // verus!
