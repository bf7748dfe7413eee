use vstd::prelude::*;

verus! {

/// The key of the registry of representatives: a flat map from id to the
/// JSON of a `RepresentativeInfo`, outside the versioned store.
pub open spec fn reps_key_spec() -> Seq<char> {
    seq!['r', 'e', 'p', 's']
}

/// What the registry holds of a representative.
pub struct RepresentativeInfo {
    pub name: String,
    pub link: Option<String>,
    pub info: Option<String>,
}

impl RepresentativeInfo {
    pub fn new(name: String, link: Option<String>, info: Option<String>) -> (r: RepresentativeInfo)
        ensures
            r.name == name,
            r.link == link,
            r.info == info,
    {
        RepresentativeInfo { name, link, info }
    }
}

/// The key of the registry of representatives.
pub fn reps_key() -> (r: String)
    ensures
        r@ == reps_key_spec(),
{
    proof {
        reveal_strlit("reps");
    }
    let r = "reps".to_owned();
    assert(r@ =~= reps_key_spec());
    r
}

} // verus!
