//! Names under which a host's secrets are stored.
use vstd::prelude::*;
use vstd::string::StringExecFns;

verus! {

pub open spec fn host_password_ref_spec(host_id: Seq<char>) -> Seq<char> {
    "host:"@ + host_id + ":password"@
}

pub open spec fn host_passphrase_ref_spec(host_id: Seq<char>) -> Seq<char> {
    "host:"@ + host_id + ":private_key_passphrase"@
}

/// Key of a host's password: `host:<id>:password`.
pub fn host_password_ref(host_id: &str) -> (r: String)
    ensures
        r@ == host_password_ref_spec(host_id@),
{
    String::from_str("host:").concat(host_id).concat(":password")
}

/// Key of a host's private key passphrase: `host:<id>:private_key_passphrase`.
pub fn host_passphrase_ref(host_id: &str) -> (r: String)
    ensures
        r@ == host_passphrase_ref_spec(host_id@),
{
    String::from_str("host:").concat(host_id).concat(":private_key_passphrase")
}


/// Secret keys never collide: two hosts with different ids have different
/// keys, and a password key is never a passphrase key.
pub proof fn law_secret_refs_distinct(a: Seq<char>, b: Seq<char>)
    ensures
        host_password_ref_spec(a) == host_password_ref_spec(b) ==> a == b,
        host_passphrase_ref_spec(a) == host_passphrase_ref_spec(b) ==> a == b,
        host_password_ref_spec(a) != host_passphrase_ref_spec(b),
{
    reveal_strlit("host:");
    reveal_strlit(":password");
    reveal_strlit(":private_key_passphrase");
    let pa = host_password_ref_spec(a);
    let pb = host_password_ref_spec(b);
    if pa == pb {
        assert(pa.subrange(5, 5 + a.len() as int) =~= a);
        assert(pb.subrange(5, 5 + b.len() as int) =~= b);
    }
    let qa = host_passphrase_ref_spec(a);
    let qb = host_passphrase_ref_spec(b);
    if qa == qb {
        assert(qa.subrange(5, 5 + a.len() as int) =~= a);
        assert(qb.subrange(5, 5 + b.len() as int) =~= b);
    }
    let qb2 = host_passphrase_ref_spec(b);
    assert(pa.last() == 'd');
    assert(qb2.last() == 'e');
}

} // verus!
