use vstd::prelude::*;

verus! {

/// The blob namespace of pointer records.
pub open spec fn header_prefix() -> Seq<char> {
    seq!['h', 'e', 'a', 'd', 'e', 'r']
}

/// The blob namespace of topic contents.
pub open spec fn topic_prefix() -> Seq<char> {
    seq!['t', 'o', 'p', 'i', 'c']
}

/// The blob namespace of calculation results.
pub open spec fn result_prefix() -> Seq<char> {
    seq!['r', 'e', 's', 'u', 'l', 't']
}

/// The pointer record of a logical id: the hash of its current content, and
/// its title, kept here so that listings need no second read.
#[derive(Debug)]
pub struct TopicHeader {
    pub id: String,
    pub hash: String,
    pub title: String,
}

pub struct HeaderView {
    pub id: Seq<char>,
    pub hash: Seq<char>,
    pub title: Seq<char>,
}

impl View for TopicHeader {
    type V = HeaderView;

    open spec fn view(&self) -> HeaderView {
        HeaderView { id: self.id@, hash: self.hash@, title: self.title@ }
    }
}

impl TopicHeader {
    pub fn new(id: &str, hash: &str, title: &str) -> (r: TopicHeader)
        ensures
            r@ == (HeaderView { id: id@, hash: hash@, title: title@ }),
    {
        TopicHeader { id: id.to_owned(), hash: hash.to_owned(), title: title.to_owned() }
    }

    /// The namespace that pointer records are stored under.
    pub fn domain_prefix() -> (r: String)
        ensures
            r@ == header_prefix(),
    {
        proof {
            reveal_strlit("header");
        }
        let r = "header".to_owned();
        assert(r@ =~= header_prefix());
        r
    }

    /// A pointer record is addressed by its logical id.
    pub fn address(&self) -> (r: String)
        ensures
            r@ == self.id@,
    {
        self.id.clone()
    }

    /// A copy of this record.
    pub fn duplicate(&self) -> (r: TopicHeader)
        ensures
            r@ == self@,
    {
        TopicHeader { id: self.id.clone(), hash: self.hash.clone(), title: self.title.clone() }
    }
}

/// The outcome of a vote calculation over one version of a topic, stored
/// under that version's hash. `data` is the JSON text of the outcome.
pub struct TopicCalculationResult {
    pub topic_hash: String,
    pub data: String,
}

impl TopicCalculationResult {
    pub fn new(topic_hash: &str, data: &str) -> (r: TopicCalculationResult)
        ensures
            r.topic_hash@ == topic_hash@,
            r.data@ == data@,
    {
        TopicCalculationResult { topic_hash: topic_hash.to_owned(), data: data.to_owned() }
    }

    /// The namespace that results are stored under.
    pub fn domain_prefix() -> (r: String)
        ensures
            r@ == result_prefix(),
    {
        proof {
            reveal_strlit("result");
        }
        let r = "result".to_owned();
        assert(r@ =~= result_prefix());
        r
    }

    /// A result is addressed by the hash of the topic version it is about.
    pub fn address(&self) -> (r: String)
        ensures
            r@ == self.topic_hash@,
    {
        self.topic_hash.clone()
    }
}

/// The namespace that topic contents are stored under.
pub fn topic_domain_prefix() -> (r: String)
    ensures
        r@ == topic_prefix(),
{
    proof {
        reveal_strlit("topic");
    }
    let r = "topic".to_owned();
    assert(r@ =~= topic_prefix());
    r
}

} // verus!
