use vstd::prelude::*;
use vstd::string::StringExecFns;

verus! {

/// The backend key `prefix:address` of a blob.
pub open spec fn domain_key_spec(prefix: Seq<char>, address: Seq<char>) -> Seq<char> {
    prefix + seq![':'] + address
}

/// The key of the index set that enumerates the blobs of one prefix.
pub open spec fn plural_prefix_spec(prefix: Seq<char>) -> Seq<char> {
    prefix + seq!['s']
}

/// The key of the history list of a logical id.
pub open spec fn history_key_spec(id: Seq<char>) -> Seq<char> {
    domain_key_spec(seq!['h', 'i', 's', 't', 'o', 'r', 'y'], id)
}

/// Builds the backend key `prefix:address`.
pub fn domain_key(prefix: &str, address: &str) -> (r: String)
    ensures
        r@ == domain_key_spec(prefix@, address@),
{
    let mut r = String::from_str(prefix);
    proof {
        reveal_strlit(":");
    }
    r.append(":");
    r.append(address);
    assert(r@ =~= domain_key_spec(prefix@, address@));
    r
}

/// Builds the key of the index set of `prefix` (its plural, `prefix` + `s`).
pub fn plural_prefix(prefix: &str) -> (r: String)
    ensures
        r@ == plural_prefix_spec(prefix@),
{
    let mut r = String::from_str(prefix);
    proof {
        reveal_strlit("s");
    }
    r.append("s");
    assert(r@ =~= plural_prefix_spec(prefix@));
    r
}

/// Builds the key `history:id` of the history list of `id`.
pub fn history_key(id: &str) -> (r: String)
    ensures
        r@ == history_key_spec(id@),
{
    proof {
        reveal_strlit("history");
        assert("history"@ =~= seq!['h', 'i', 's', 't', 'o', 'r', 'y']);
    }
    domain_key("history", id)
}

} // verus!
