//! Random bytes. Nothing is known of them but their number and the source that gave them.
use vstd::prelude::*;

verus! {

/// Calls `rand::rngs::OsRng.fill_bytes`, which fills the bytes from the operating system and
/// panics where that has none to give.
#[verifier::external_body]
pub(crate) fn os_bytes<const N: usize>() -> (bytes: [u8; N]) {
    let mut bytes = [0u8; N];
    rand::RngCore::fill_bytes(&mut rand::rngs::OsRng, &mut bytes);
    bytes
}

/// The operating system gave these random bytes.
pub closed spec fn os_gave<const N: usize>(bytes: [u8; N]) -> bool {
    call_ensures(os_bytes::<N>, (), bytes)
}

/// Random bytes of the operating system, as it gave them.
pub(crate) fn os_draw<const N: usize>() -> (bytes: [u8; N])
    ensures
        os_gave(bytes),
{
    os_bytes()
}

/// Calls `fill_bytes` of `rand::thread_rng()`.
#[verifier::external_body]
pub(crate) fn thread_bytes<const N: usize>() -> (bytes: [u8; N]) {
    let mut bytes = [0u8; N];
    rand::RngCore::fill_bytes(&mut rand::thread_rng(), &mut bytes);
    bytes
}

/// The generator of the thread gave these random bytes.
pub closed spec fn thread_gave<const N: usize>(bytes: [u8; N]) -> bool {
    call_ensures(thread_bytes::<N>, (), bytes)
}

/// Random bytes of the thread's generator, as it gave them.
pub(crate) fn thread_draw<const N: usize>() -> (bytes: [u8; N])
    ensures
        thread_gave(bytes),
{
    thread_bytes()
}

/// Calls `fill` of `ring::rand::SystemRandom`, which fails where the operating system has no
/// random bytes to give.
#[verifier::external_body]
pub(crate) fn system_bytes<const N: usize>() -> (result: Result<[u8; N], String>)
    ensures
        result matches Err(message) ==> message@ == "ring::error::Unspecified"@,
{
    let mut bytes = [0u8; N];
    let source = ring::rand::SystemRandom::new();
    match ring::rand::SecureRandom::fill(&source, &mut bytes) {
        Ok(()) => Ok(bytes),
        Err(e) => Err(e.to_string()),
    }
}

/// The system's random source gave this result when it was asked for bytes.
pub closed spec fn system_gave<const N: usize>(result: Result<[u8; N], String>) -> bool {
    call_ensures(system_bytes::<N>, (), result)
}

/// The system's random source had no `N` bytes to give.
pub open spec fn system_failed<const N: usize>() -> bool {
    exists|message: String| #[trigger] system_gave(Err::<[u8; N], String>(message))
}

/// Random bytes of the system's source, as it gave them.
pub(crate) fn system_draw<const N: usize>() -> (result: Result<[u8; N], String>)
    ensures
        system_gave(result),
        result matches Err(message) ==> message@ == "ring::error::Unspecified"@,
{
    system_bytes()
}

/// Bytes that a source gave are what a call of that source returned.
pub(crate) proof fn given_bytes_were_drawn<const N: usize>(
    bytes: [u8; N],
    result: Result<[u8; N], String>,
)
    ensures
        os_gave(bytes) <==> call_ensures(os_bytes::<N>, (), bytes),
        thread_gave(bytes) <==> call_ensures(thread_bytes::<N>, (), bytes),
        system_gave(result) <==> call_ensures(system_bytes::<N>, (), result),
{
}

/// A source that failed answered a call with an error.
pub proof fn failed_source_was_asked<const N: usize>() -> (message: String)
    requires
        system_failed::<N>(),
    ensures
        system_gave(Err::<[u8; N], String>(message)),
{
    choose|message: String| #[trigger] system_gave(Err::<[u8; N], String>(message))
}

} // verus!
