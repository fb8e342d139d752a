//! Where vCenter passwords live: the names under which they are kept in the
//! operating system's credential store. The store itself is reached from the
//! application, not from this library.

use vstd::prelude::*;

verus! {

/// Credential-store service name. Shared with the bundle identifier so a
/// user looking through Keychain Access finds entries under a name they
/// recognise.
pub const SERVICE: &'static str = "ch.soultec.invar";

/// The account name for one host and user.
pub open spec fn account_of(host_label: Seq<char>, username: Seq<char>) -> Seq<char> {
    host_label + "|"@ + username
}

/// The credential-store account for one connection.
///
/// Host *and* user, matching `VCenterConnection::cache_key`: two accounts on
/// one vCenter are two credentials, not one that overwrites the other.
pub fn account(host_label: &str, username: &str) -> (r: String)
    ensures
        r@ == account_of(host_label@, username@),
{
    String::from_str(host_label).concat("|").concat(username)
}

/// Two users on one host never share a credential, and neither do two hosts
/// for one user.
pub proof fn lemma_account_separates(h1: Seq<char>, u1: Seq<char>, h2: Seq<char>, u2: Seq<char>)
    requires
        h1 == h2 || u1 == u2,
        account_of(h1, u1) == account_of(h2, u2),
    ensures
        h1 == h2 && u1 == u2,
{
    reveal_strlit("|");
    let a = account_of(h1, u1);
    if h1 == h2 {
        assert(u1 =~= a.skip(h1.len() + 1int));
        assert(u2 =~= a.skip(h2.len() + 1int));
    } else {
        assert(h1.len() == h2.len());
        assert(h1 =~= a.take(h1.len() as int));
        assert(h2 =~= a.take(h2.len() as int));
    }
}

/// What a failed credential-store operation tells an administrator. A
/// machine with no usable store is spelled out, since the fix there is the
/// environment variable rather than anything inside the application.
pub open spec fn store_error_of(host_label: Seq<char>, no_store: bool, detail: Seq<char>) -> Seq<char> {
    if no_store {
        "no OS credential store is available for "@ + host_label
            + ". On a headless machine, pass the password in INVAR_PASSWORD_<n> instead."@
    } else {
        "credential store failed for "@ + host_label + ": "@ + detail
    }
}

pub fn store_error(host_label: &str, no_store: bool, detail: &str) -> (r: String)
    ensures
        r@ == store_error_of(host_label@, no_store, detail@),
{
    if no_store {
        String::from_str("no OS credential store is available for ").concat(host_label).concat(
            ". On a headless machine, pass the password in INVAR_PASSWORD_<n> instead.",
        )
    } else {
        String::from_str("credential store failed for ").concat(host_label).concat(": ").concat(detail)
    }
}

} // verus!
