//! What the library asks of the machine that it runs on.
//!
//! The answers differ from machine to machine and from run to run, so nothing is stated of them.
use vstd::prelude::*;
use vstd::string::StringExecFns;

use crate::text::{decimal, decimal_text, lemma_decimal, number_of};

verus! {

/// The effective user: `nix::unistd::Uid::effective`, as a number. It may be any number.
#[verifier::external_body]
pub(crate) fn effective_uid() -> (uid: u32) {
    nix::unistd::Uid::effective().as_raw()
}

/// The configuration directory of the user: `dirs::config_dir`, as the bytes of its path. There may
/// be none, and its path may be any bytes.
#[verifier::external_body]
pub(crate) fn user_config_dir() -> (dir: Option<Vec<u8>>) {
    dirs::config_dir().map(|dir| dir.into_os_string().into_encoded_bytes())
}

/// The path of the runtime directory of a user.
pub open spec fn runtime_dir_of(uid: u32) -> Seq<char> {
    "/run/user/"@ + decimal_text(uid as nat)
}

/// The path of the runtime directory of a user.
pub fn runtime_dir_for(uid: u32) -> (r: String)
    ensures
        r@ == runtime_dir_of(uid),
{
    let mut path = "/run/user/".to_owned();
    path.append(decimal(uid as u64).as_str());
    path
}

/// The path of the runtime directory of the effective user.
pub fn runtime_dir() -> (r: String)
    ensures
        exists|uid: u32| r@ == #[trigger] runtime_dir_of(uid),
{
    runtime_dir_for(effective_uid())
}

/// Each user has a runtime directory of their own.
pub proof fn runtime_dirs_differ(a: u32, b: u32)
    ensures
        runtime_dir_of(a) == runtime_dir_of(b) ==> a == b,
        "/run/user/"@.is_prefix_of(runtime_dir_of(a)),
        number_of(runtime_dir_of(a).skip("/run/user/"@.len() as int)) == a,
{
    let start = "/run/user/"@;
    assert(start =~= runtime_dir_of(a).subrange(0, start.len() as int));
    assert(runtime_dir_of(a).skip(start.len() as int) =~= decimal_text(a as nat));
    assert(runtime_dir_of(b).skip(start.len() as int) =~= decimal_text(b as nat));
    lemma_decimal(a as nat);
    lemma_decimal(b as nat);
}

} // verus!
