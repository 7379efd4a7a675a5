use vstd::prelude::*;
use std::hash::BuildHasher;
use crate::container::views;
use crate::runtime::{join, join_path};

verus! {

/// Directory that holds the shims' sockets.
pub const SOCKET_ROOT: &'static str = "/run/shim";

/// Lower-case hexadecimal digits, by value.
pub const HEX_DIGITS: &'static str = "0123456789abcdef";

/// The 64-bit digest of a task id.
pub uninterp spec fn id_digest(id: Seq<char>) -> u64;

/// Relies on `BuildHasher::hash_one` over std's `DefaultHasher` built by
/// `BuildHasherDefault`, which starts from fixed keys: the digest depends on
/// the id alone.
#[verifier::external_body]
fn digest_of_id(id: &str) -> (r: u64)
    ensures
        r == id_digest(id@),
{
    std::hash::BuildHasherDefault::<std::hash::DefaultHasher>::default().hash_one(id)
}

/// Lower-case hexadecimal form of `n`, without leading zeros.
pub open spec fn hex_of(n: nat) -> Seq<char>
    decreases n,
{
    if n < 16 {
        seq![HEX_DIGITS@[n as int]]
    } else {
        hex_of(n / 16) + seq![HEX_DIGITS@[(n % 16) as int]]
    }
}

/// The socket path of the task whose id has digest `digest`.
pub open spec fn socket_path_of(digest: u64) -> Seq<char> {
    join_path(SOCKET_ROOT@, hex_of(digest as nat) + ".sock"@)
}

/// The address a client dials for the socket at `path`.
pub open spec fn socket_address_of(path: Seq<char>) -> Seq<char> {
    "unix://"@ + path
}

/// Writes `n` in lower-case hexadecimal.
pub fn hex(n: u64) -> (r: String)
    ensures
        r@ == hex_of(n as nat),
    decreases n,
{
    proof {
        reveal_strlit("0123456789abcdef");
    }
    if n < 16 {
        String::from_str(HEX_DIGITS.substring_char(n as usize, n as usize + 1))
    } else {
        let mut r = hex(n / 16);
        let d = (n % 16) as usize;
        r.append(HEX_DIGITS.substring_char(d, d + 1));
        proof {
            assert(HEX_DIGITS@.subrange(d as int, d as int + 1) =~= seq![HEX_DIGITS@[d as int]]);
        }
        r
    }
}

/// The socket path of the task whose id has digest `digest`:
/// `<SOCKET_ROOT>/<hex digest>.sock`.
pub fn socket_path_for_digest(digest: u64) -> (r: String)
    ensures
        r@ == socket_path_of(digest),
{
    let mut name = hex(digest);
    name.append(".sock");
    join(SOCKET_ROOT, name.as_str())
}

/// The socket path of the task `id`.
pub fn socket_path(id: &str) -> (r: String)
    ensures
        r@ == socket_path_of(id_digest(id@)),
{
    socket_path_for_digest(digest_of_id(id))
}

/// The address the launcher prints for the socket at `path`: `unix://<path>`.
pub fn socket_address(path: &str) -> (r: String)
    ensures
        r@ == socket_address_of(path@),
{
    let mut r = String::from_str("unix://");
    r.append(path);
    r
}

/// Arguments that start the daemon for task `id` on the socket at `socket_path`.
pub fn daemon_args(runtime: &str, id: &str, socket_path: &str) -> (r: Vec<String>)
    ensures
        views(r@) == seq!["--runtime"@, runtime@, "--id"@, id@, "daemon"@, socket_path@],
{
    let mut r: Vec<String> = Vec::new();
    r.push(String::from_str("--runtime"));
    r.push(String::from_str(runtime));
    r.push(String::from_str("--id"));
    r.push(String::from_str(id));
    r.push(String::from_str("daemon"));
    r.push(String::from_str(socket_path));
    assert(views(r@) =~= seq!["--runtime"@, runtime@, "--id"@, id@, "daemon"@, socket_path@]);
    r
}

} // verus!
