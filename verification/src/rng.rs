use vstd::prelude::*;

verus! {

/// Relies on `std::time::SystemTime::now`: the nanoseconds elapsed since the
/// Unix epoch (0 when the clock precedes it). The result depends on the
/// clock, so nothing is promised of it.
#[verifier::external_body]
fn clock_nanos() -> (r: u128) {
    match std::time::SystemTime::now().duration_since(std::time::UNIX_EPOCH) {
        Ok(d) => d.as_nanos(),
        Err(_) => 0,
    }
}

/// Relies on `std::collections::hash_map::DefaultHasher`: scatters the value
/// into a 64-bit digest. The hasher's algorithm is unspecified, so nothing is
/// promised of the result.
#[verifier::external_body]
fn scatter(value: u128) -> (r: u64) {
    let mut hasher = std::collections::hash_map::DefaultHasher::new();
    std::hash::Hash::hash(&value, &mut hasher);
    std::hash::Hasher::finish(&hasher)
}

/// A pseudo-random value derived from the clock, for harnesses that drive
/// the ledger with arbitrary transactions. Nothing is promised of the
/// result: it depends on the clock.
pub fn random<T: From<u64>>() -> (r: T) {
    T::from(scatter(clock_nanos()))
}

} // verus!
