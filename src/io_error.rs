use vstd::prelude::*;

verus! {

/// `std::io::Error`, which `other` returns; opaque here.
#[verifier::external_type_specification]
#[verifier::external_body]
pub struct ExIoError(std::io::Error);

/// Relies on `std::io::Error::other`: wraps an error payload in an I/O error
/// of kind `Other`. Nothing is claimed of the value, which Verus cannot look into.
#[verifier::external_body]
fn io_error_other<E>(err: E) -> std::io::Error
    where E: std::error::Error + Send + Sync + 'static,
{
    std::io::Error::other(err)
}

/// Turns any error into an `std::io::Error` of kind `Other` that keeps `err`
/// as its source, so that errors of several origins can travel through one
/// I/O-shaped channel.
pub fn other<E>(err: E) -> std::io::Error
    where E: std::error::Error + Send + Sync + 'static,
{
    io_error_other(err)
}

} // verus!
