use vstd::prelude::*;
use vstd::utf8::encode_utf8;
use crate::digest::{address_of, content_address, push_str_bytes};

verus! {

/// The blob namespace of vote descriptions.
pub open spec fn info_prefix() -> Seq<char> {
    seq!['i', 'n', 'f', 'o']
}

/// The blob namespace of vote parameters.
pub open spec fn params_prefix() -> Seq<char> {
    seq!['p', 'a', 'r', 'a', 'm', 's']
}

/// The description of a vote: a stable id, what is voted on, and the name of
/// the counting method. Its parameters (the voter weights) are hashed apart
/// and enter its hash through their own hash.
pub struct VoteInfo {
    pub id: String,
    pub title: String,
    pub description: String,
    pub method: String,
}

pub struct VoteInfoView {
    pub id: Seq<char>,
    pub title: Seq<char>,
    pub description: Seq<char>,
    pub method: Seq<char>,
}

impl View for VoteInfo {
    type V = VoteInfoView;

    open spec fn view(&self) -> VoteInfoView {
        VoteInfoView {
            id: self.id@,
            title: self.title@,
            description: self.description@,
            method: self.method@,
        }
    }
}

/// The canonical bytes of a vote description: its id, the hash of its
/// parameters, its title, its description and its method name.
pub open spec fn vote_info_bytes(v: VoteInfoView, params_hash: Seq<char>) -> Seq<u8> {
    encode_utf8(v.id) + encode_utf8(params_hash) + encode_utf8(v.title) + encode_utf8(
        v.description,
    ) + encode_utf8(v.method)
}

/// The hash of parameters whose canonical JSON (voters and targets sorted by
/// key) is `params_json`.
pub open spec fn params_hash_spec(params_json: Seq<u8>) -> Seq<char> {
    address_of(params_json)
}

/// The content hash of a vote description.
pub open spec fn vote_info_hash_spec(v: VoteInfoView, params_json: Seq<u8>) -> Seq<char> {
    address_of(vote_info_bytes(v, params_hash_spec(params_json)))
}

/// Hashes the canonical JSON of a vote's parameters.
pub fn params_hash(params_json: &[u8]) -> (r: String)
    ensures
        r@ == params_hash_spec(params_json@),
{
    content_address(params_json)
}

impl VoteInfo {
    pub fn new(id: &str, title: &str, description: &str, method: &str) -> (r: VoteInfo)
        ensures
            r@ == (VoteInfoView {
                id: id@,
                title: title@,
                description: description@,
                method: method@,
            }),
    {
        VoteInfo {
            id: id.to_owned(),
            title: title.to_owned(),
            description: description.to_owned(),
            method: method.to_owned(),
        }
    }

    /// The bytes that the hash is taken over, given the parameters' hash.
    pub fn hash_bytes(&self, params_hash: &str) -> (r: Vec<u8>)
        ensures
            r@ == vote_info_bytes(self@, params_hash@),
    {
        let mut out: Vec<u8> = Vec::new();
        push_str_bytes(&mut out, self.id.as_str());
        push_str_bytes(&mut out, params_hash);
        push_str_bytes(&mut out, self.title.as_str());
        push_str_bytes(&mut out, self.description.as_str());
        push_str_bytes(&mut out, self.method.as_str());
        assert(out@ =~= vote_info_bytes(self@, params_hash@));
        out
    }

    /// The content hash of this description, given the canonical JSON of
    /// its parameters.
    pub fn hash(&self, params_json: &[u8]) -> (r: String)
        ensures
            r@ == vote_info_hash_spec(self@, params_json@),
            r@.len() > 0,
    {
        let p = params_hash(params_json);
        let b = self.hash_bytes(p.as_str());
        content_address(b.as_slice())
    }
}

/// Hashing the same description with the same parameters twice gives the
/// same digest.
pub proof fn lemma_vote_info_hash_deterministic(
    v1: VoteInfoView,
    v2: VoteInfoView,
    params_json1: Seq<u8>,
    params_json2: Seq<u8>,
)
    requires
        v1 == v2,
        params_json1 == params_json2,
    ensures
        vote_info_hash_spec(v1, params_json1) == vote_info_hash_spec(v2, params_json2),
{
}

} // verus!
