use vstd::prelude::*;
use vstd::utf8::encode_utf8;
use crate::digest::{address_of, content_address, push_str_bytes};

verus! {

/// A weight that a voter gives to one target, held as the bit pattern of the
/// `f64` that the client sent (`f64::to_bits`).
pub struct Weight {
    pub target: String,
    pub bits: u64,
}

/// A voter's whole weight mapping.
pub struct Ballot {
    pub voter: String,
    pub weights: Vec<Weight>,
}

/// A policy attached to a topic.
pub struct Policy {
    pub id: String,
    pub text: String,
}

/// A voter identity registered against a topic, with its display name.
pub struct Delegate {
    pub id: String,
    pub name: String,
}

/// A versioned topic: its fields, its policies and delegates in insertion
/// order, and one ballot per voter.
pub struct TopicData {
    pub id: String,
    pub title: String,
    pub description: String,
    pub policies: Vec<Policy>,
    pub delegates: Vec<Delegate>,
    pub votes: Vec<Ballot>,
}

/// The fields a client gives for a new topic.
pub struct PartialTopic {
    pub title: String,
    pub description: String,
}

impl PartialTopic {
    /// The new topic with these fields under logical id `id`.
    pub fn into_topic(&self, id: &str) -> (r: TopicData)
        ensures
            r@.id == id@,
            r@.title == self.title@,
            r@.description == self.description@,
            r@.policies.len() == 0,
            r@.delegates.len() == 0,
            r@.votes.len() == 0,
    {
        TopicData::new(id, self.title.as_str(), self.description.as_str())
    }
}

/// The fields of a topic that an update may name.
#[derive(PartialEq, Eq, Structural, Debug)]
pub enum Field {
    Title,
    Description,
}

/// Why a field update was refused.
#[derive(PartialEq, Eq, Structural, Debug)]
pub enum FieldError {
    /// The name is not that of an updatable field.
    InvalidField,
}

pub type WeightsView = Seq<(Seq<char>, u64)>;

pub struct TopicView {
    pub id: Seq<char>,
    pub title: Seq<char>,
    pub description: Seq<char>,
    pub policies: Seq<(Seq<char>, Seq<char>)>,
    pub delegates: Seq<(Seq<char>, Seq<char>)>,
    pub votes: Seq<(Seq<char>, WeightsView)>,
}

impl View for Weight {
    type V = (Seq<char>, u64);

    open spec fn view(&self) -> (Seq<char>, u64) {
        (self.target@, self.bits)
    }
}

impl View for Ballot {
    type V = (Seq<char>, WeightsView);

    open spec fn view(&self) -> (Seq<char>, WeightsView) {
        (self.voter@, self.weights@.map_values(|w: Weight| w@))
    }
}

impl View for TopicData {
    type V = TopicView;

    open spec fn view(&self) -> TopicView {
        TopicView {
            id: self.id@,
            title: self.title@,
            description: self.description@,
            policies: self.policies@.map_values(|p: Policy| (p.id@, p.text@)),
            delegates: self.delegates@.map_values(|d: Delegate| (d.id@, d.name@)),
            votes: self.votes@.map_values(|b: Ballot| b@),
        }
    }
}

/// The ballot of `voter`: the last entry for it, if any.
pub open spec fn ballot_of(votes: Seq<(Seq<char>, WeightsView)>, voter: Seq<char>) -> Option<
    WeightsView,
>
    decreases votes.len(),
{
    if votes.len() == 0 {
        None
    } else if votes.last().0 == voter {
        Some(votes.last().1)
    } else {
        ballot_of(votes.drop_last(), voter)
    }
}

/// Whether `id` is registered as a delegate.
pub open spec fn is_delegate(delegates: Seq<(Seq<char>, Seq<char>)>, id: Seq<char>) -> bool {
    exists|i: int| 0 <= i < delegates.len() && #[trigger] delegates[i].0 == id
}

/// `after` is `before` with the ballot of `voter` replaced, whole, by `w`.
pub open spec fn overwrote(
    before: TopicView,
    after: TopicView,
    voter: Seq<char>,
    w: WeightsView,
) -> bool {
    &&& after.id == before.id
    &&& after.title == before.title
    &&& after.description == before.description
    &&& after.policies == before.policies
    &&& after.delegates == before.delegates
    &&& ballot_of(after.votes, voter) == Some(w)
    &&& forall|v: Seq<char>| v != voter ==> ballot_of(after.votes, v) == ballot_of(before.votes, v)
}

/// `after` is `before` once `voter`, with display name `name`, submitted
/// the ballot `w`: the voter is registered as a delegate if it was not one,
/// and its ballot is replaced whole.
pub open spec fn voted(
    before: TopicView,
    after: TopicView,
    voter: Seq<char>,
    name: Seq<char>,
    w: WeightsView,
) -> bool {
    &&& after.delegates == if is_delegate(before.delegates, voter) {
        before.delegates
    } else {
        before.delegates.push((voter, name))
    }
    &&& overwrote(TopicView { delegates: after.delegates, ..before }, after, voter, w)
}

/// The UTF-8 bytes of the strings, one after the other.
pub open spec fn utf8_join(parts: Seq<Seq<char>>) -> Seq<u8>
    decreases parts.len(),
{
    if parts.len() == 0 {
        Seq::empty()
    } else {
        utf8_join(parts.drop_last()) + encode_utf8(parts.last())
    }
}

/// The canonical bytes of a topic: its title, its description, its policy
/// texts and its delegate names in insertion order, then the JSON bytes of the
/// voting structure derived from it.
pub open spec fn topic_bytes(t: TopicView, vote_json: Seq<u8>) -> Seq<u8> {
    encode_utf8(t.title) + encode_utf8(t.description) + utf8_join(
        t.policies.map_values(|p: (Seq<char>, Seq<char>)| p.1),
    ) + utf8_join(t.delegates.map_values(|d: (Seq<char>, Seq<char>)| d.1)) + vote_json
}

/// The content hash of a topic.
pub open spec fn topic_hash_spec(t: TopicView, vote_json: Seq<u8>) -> Seq<char> {
    address_of(topic_bytes(t, vote_json))
}

/// The field that an update names, if `name` is `title` or `description`.
pub open spec fn field_of(name: Seq<char>) -> Option<Field> {
    if name == seq!['t', 'i', 't', 'l', 'e'] {
        Some(Field::Title)
    } else if name == seq!['d', 'e', 's', 'c', 'r', 'i', 'p', 't', 'i', 'o', 'n'] {
        Some(Field::Description)
    } else {
        None
    }
}

/// Whether two strings hold the same text.
pub fn same_text(a: &str, b: &str) -> (r: bool)
    ensures
        r == (a@ == b@),
{
    a.to_owned() == b.to_owned()
}

impl Field {
    /// Reads the name of an updatable field.
    pub fn from_name(name: &str) -> (r: Option<Field>)
        ensures
            r == field_of(name@),
    {
        proof {
            reveal_strlit("title");
            reveal_strlit("description");
            assert("title"@ =~= seq!['t', 'i', 't', 'l', 'e']);
            assert("description"@ =~= seq!['d', 'e', 's', 'c', 'r', 'i', 'p', 't', 'i', 'o', 'n']);
        }
        if same_text(name, "title") {
            Some(Field::Title)
        } else if same_text(name, "description") {
            Some(Field::Description)
        } else {
            None
        }
    }
}

/// Appends the UTF-8 bytes of each string of `parts` to `out`, in order.
fn push_joined(out: &mut Vec<u8>, parts: &Vec<String>)
    ensures
        final(out)@ == old(out)@ + utf8_join(parts@.map_values(|s: String| s@)),
{
    let ghost base = out@;
    let ghost texts = parts@.map_values(|s: String| s@);
    let mut i: usize = 0;
    assert(texts.take(0) =~= Seq::<Seq<char>>::empty());
    assert(out@ =~= base + utf8_join(texts.take(0)));
    while i < parts.len()
        invariant
            i <= parts@.len(),
            texts == parts@.map_values(|s: String| s@),
            out@ == base + utf8_join(texts.take(i as int)),
        decreases parts.len() - i,
    {
        push_str_bytes(out, parts[i].as_str());
        proof {
            assert(texts.take(i + 1).drop_last() =~= texts.take(i as int));
            assert(texts.take(i + 1).last() == parts@[i as int]@);
            assert(out@ =~= base + utf8_join(texts.take(i + 1)));
        }
        i = i + 1;
    }
    assert(texts.take(i as int) =~= texts);
}

/// Replacing the last entry of `voter` changes its ballot and no other.
proof fn lemma_ballot_update(
    s: Seq<(Seq<char>, WeightsView)>,
    i: int,
    voter: Seq<char>,
    w: WeightsView,
    v: Seq<char>,
)
    requires
        0 <= i < s.len(),
        s[i].0 == voter,
        forall|j: int| i < j < s.len() ==> s[j].0 != voter,
    ensures
        ballot_of(s.update(i, (voter, w)), v) == if v == voter {
            Some(w)
        } else {
            ballot_of(s, v)
        },
    decreases s.len(),
{
    let t = s.update(i, (voter, w));
    if i == s.len() - 1 {
        assert(t.drop_last() =~= s.drop_last());
    } else {
        assert(t.drop_last() =~= s.drop_last().update(i, (voter, w)));
        lemma_ballot_update(s.drop_last(), i, voter, w, v);
    }
}

impl TopicData {
    /// A new topic with the given id and fields, and no policies, delegates or
    /// votes.
    pub fn new(id: &str, title: &str, description: &str) -> (r: TopicData)
        ensures
            r@.id == id@,
            r@.title == title@,
            r@.description == description@,
            r@.policies.len() == 0,
            r@.delegates.len() == 0,
            r@.votes.len() == 0,
    {
        let r = TopicData {
            id: id.to_owned(),
            title: title.to_owned(),
            description: description.to_owned(),
            policies: Vec::new(),
            delegates: Vec::new(),
            votes: Vec::new(),
        };
        assert(r@.policies =~= Seq::empty());
        assert(r@.delegates =~= Seq::empty());
        assert(r@.votes =~= Seq::empty());
        r
    }

    /// The texts of the policies, in insertion order.
    pub fn policies_values(&self) -> (r: Vec<String>)
        ensures
            r@.map_values(|s: String| s@) == self@.policies.map_values(
                |p: (Seq<char>, Seq<char>)| p.1,
            ),
    {
        let mut r: Vec<String> = Vec::new();
        let mut i: usize = 0;
        while i < self.policies.len()
            invariant
                i <= self.policies@.len(),
                r@.len() == i,
                forall|j: int| 0 <= j < i ==> #[trigger] r@[j]@ == self.policies@[j].text@,
            decreases self.policies.len() - i,
        {
            r.push(self.policies[i].text.clone());
            i = i + 1;
        }
        assert(r@.map_values(|s: String| s@) =~= self@.policies.map_values(
            |p: (Seq<char>, Seq<char>)| p.1,
        ));
        r
    }

    /// The names of the delegates, in insertion order.
    pub fn delegates_values(&self) -> (r: Vec<String>)
        ensures
            r@.map_values(|s: String| s@) == self@.delegates.map_values(
                |d: (Seq<char>, Seq<char>)| d.1,
            ),
    {
        let mut r: Vec<String> = Vec::new();
        let mut i: usize = 0;
        while i < self.delegates.len()
            invariant
                i <= self.delegates@.len(),
                r@.len() == i,
                forall|j: int| 0 <= j < i ==> #[trigger] r@[j]@ == self.delegates@[j].name@,
            decreases self.delegates.len() - i,
        {
            r.push(self.delegates[i].name.clone());
            i = i + 1;
        }
        assert(r@.map_values(|s: String| s@) =~= self@.delegates.map_values(
            |d: (Seq<char>, Seq<char>)| d.1,
        ));
        r
    }

    /// The canonical bytes that the content hash of this topic is taken over;
    /// `vote_json` is the JSON of the voting structure derived from it.
    pub fn hash_bytes(&self, vote_json: &[u8]) -> (r: Vec<u8>)
        ensures
            r@ == topic_bytes(self@, vote_json@),
    {
        let mut out: Vec<u8> = Vec::new();
        push_str_bytes(&mut out, self.title.as_str());
        push_str_bytes(&mut out, self.description.as_str());
        let p = self.policies_values();
        push_joined(&mut out, &p);
        let d = self.delegates_values();
        push_joined(&mut out, &d);
        out.extend_from_slice(vote_json);
        assert(out@ =~= topic_bytes(self@, vote_json@));
        out
    }

    /// The content hash of this topic, the address its blob is stored under.
    pub fn hash(&self, vote_json: &[u8]) -> (r: String)
        ensures
            r@ == topic_hash_spec(self@, vote_json@),
            r@.len() > 0,
    {
        let b = self.hash_bytes(vote_json);
        content_address(b.as_slice())
    }

    /// Replaces the named field with `value`; a name that is not `title` or
    /// `description` is refused and leaves the topic as it was.
    pub fn set_field(&mut self, name: &str, value: String) -> (r: Result<(), FieldError>)
        ensures
            match field_of(name@) {
                None => r == Err::<(), FieldError>(FieldError::InvalidField) && final(self)@ == old(
                    self,
                )@,
                Some(Field::Title) => r is Ok && final(self)@ == (TopicView {
                    title: value@,
                    ..old(self)@
                }),
                Some(Field::Description) => r is Ok && final(self)@ == (TopicView {
                    description: value@,
                    ..old(self)@
                }),
            },
    {
        match Field::from_name(name) {
            Some(Field::Title) => {
                self.title = value;
                Ok(())
            },
            Some(Field::Description) => {
                self.description = value;
                Ok(())
            },
            None => Err(FieldError::InvalidField),
        }
    }

    /// Appends a policy with the given id and text.
    pub fn add_new_policy(&mut self, id: String, text: String)
        ensures
            final(self)@ == (TopicView {
                policies: old(self)@.policies.push((id@, text@)),
                ..old(self)@
            }),
    {
        self.policies.push(Policy { id, text });
        assert(self@.policies =~= old(self)@.policies.push((id@, text@)));
    }

    /// Whether `id` is registered as a delegate.
    pub fn has_delegate(&self, id: &str) -> (r: bool)
        ensures
            r == is_delegate(self@.delegates, id@),
    {
        let mut i: usize = 0;
        while i < self.delegates.len()
            invariant
                i <= self.delegates@.len(),
                forall|j: int| 0 <= j < i ==> #[trigger] self.delegates@[j].id@ != id@,
            decreases self.delegates.len() - i,
        {
            if same_text(self.delegates[i].id.as_str(), id) {
                assert(self@.delegates[i as int].0 == id@);
                return true;
            }
            i = i + 1;
        }
        assert forall|j: int| 0 <= j < self@.delegates.len() implies #[trigger] self@.delegates[j].0
            != id@ by {
            assert(self@.delegates[j].0 == self.delegates@[j].id@);
        }
        false
    }

    /// Registers `id` as a delegate with display name `name`.
    pub fn add_delegate(&mut self, id: String, name: String)
        ensures
            final(self)@ == (TopicView {
                delegates: old(self)@.delegates.push((id@, name@)),
                ..old(self)@
            }),
    {
        self.delegates.push(Delegate { id, name });
        assert(self@.delegates =~= old(self)@.delegates.push((id@, name@)));
    }

    /// Replaces the whole ballot of `voter` by `weights`; nothing of the
    /// previous ballot is kept.
    pub fn overwrite_vote_for(&mut self, voter: String, weights: Vec<Weight>)
        ensures
            overwrote(old(self)@, final(self)@, voter@, weights@.map_values(|w: Weight| w@)),
    {
        let ghost wv = weights@.map_values(|w: Weight| w@);
        let mut i: usize = self.votes.len();
        while i > 0
            invariant
                i <= self.votes@.len(),
                wv == weights@.map_values(|w: Weight| w@),
                self@ == old(self)@,
                forall|j: int| i <= j < self.votes@.len() ==> #[trigger] self.votes@[j].voter@
                    != voter@,
            decreases i,
        {
            if same_text(self.votes[i - 1].voter.as_str(), voter.as_str()) {
                let ghost before = self@;
                proof {
                    assert forall|j: int| i - 1 < j < before.votes.len() implies #[trigger] before.votes[j].0
                        != voter@ by {
                        assert(before.votes[j].0 == self.votes@[j].voter@);
                    }
                }
                let ghost vv = voter@;
                let b = Ballot { voter, weights };
                assert(b@.1 =~= wv);
                assert(b@ == (vv, wv));
                self.votes.set(i - 1, b);
                proof {
                    assert(self@.votes =~= before.votes.update(i - 1, (before.votes[i - 1].0, wv)));
                    assert forall|v: Seq<char>| #[trigger] ballot_of(self@.votes, v) == if v == before.votes[i - 1].0 {
                        Some(wv)
                    } else {
                        ballot_of(before.votes, v)
                    } by {
                        lemma_ballot_update(before.votes, i - 1, before.votes[i - 1].0, wv, v);
                    }
                    assert(ballot_of(self@.votes, before.votes[i - 1].0) == Some(wv));
                }
                return;
            }
            i = i - 1;
        }
        let ghost before = self@;
        proof {
            assert forall|v: Seq<char>| v != voter@ implies ballot_of(before.votes.push((voter@, wv)), v)
                == ballot_of(before.votes, v) by {
                assert(before.votes.push((voter@, wv)).drop_last() =~= before.votes);
            }
        }
        let ghost vv = voter@;
        let b = Ballot { voter, weights };
        assert(b@.1 =~= wv);
        assert(b@ == (vv, wv));
        self.votes.push(b);
        assert(self@.votes =~= before.votes.push((vv, wv)));
    }

    /// Records the ballot of a voter: registers the voter as a delegate with
    /// display name `name` if it is not one yet, then replaces its whole
    /// ballot by `weights`.
    pub fn apply_user_vote(&mut self, voter: String, name: String, weights: Vec<Weight>)
        ensures
            voted(old(self)@, final(self)@, voter@, name@, weights@.map_values(|w: Weight| w@)),
    {
        if !self.has_delegate(voter.as_str()) {
            let id = voter.clone();
            self.add_delegate(id, name);
            assert(self@.delegates[self@.delegates.len() - 1].0 == voter@);
        }
        self.overwrite_vote_for(voter, weights);
    }
}

/// A ballot submitted twice by the same voter is the second one, whole:
/// nothing of the first is merged into it, the voter is registered once, and
/// the ballots of other voters are as they were.
pub proof fn lemma_ballot_total_replacement(
    t0: TopicView,
    t1: TopicView,
    t2: TopicView,
    voter: Seq<char>,
    name1: Seq<char>,
    name2: Seq<char>,
    w1: WeightsView,
    w2: WeightsView,
)
    requires
        voted(t0, t1, voter, name1, w1),
        voted(t1, t2, voter, name2, w2),
    ensures
        ballot_of(t2.votes, voter) == Some(w2),
        forall|v: Seq<char>| v != voter ==> ballot_of(t2.votes, v) == ballot_of(t0.votes, v),
        t2.delegates == t1.delegates,
{
    assert(is_delegate(t1.delegates, voter)) by {
        if !is_delegate(t0.delegates, voter) {
            assert(t1.delegates[t1.delegates.len() - 1].0 == voter);
        }
    }
}

/// Hashing the same field values twice gives the same digest: the hash of a
/// topic depends on its title, description, policy texts, delegate names and
/// the JSON of its voting structure, and on nothing else.
pub proof fn lemma_topic_hash_deterministic(
    t1: TopicView,
    t2: TopicView,
    vote_json1: Seq<u8>,
    vote_json2: Seq<u8>,
)
    requires
        t1.title == t2.title,
        t1.description == t2.description,
        t1.policies.map_values(|p: (Seq<char>, Seq<char>)| p.1) == t2.policies.map_values(
            |p: (Seq<char>, Seq<char>)| p.1,
        ),
        t1.delegates.map_values(|d: (Seq<char>, Seq<char>)| d.1) == t2.delegates.map_values(
            |d: (Seq<char>, Seq<char>)| d.1,
        ),
        vote_json1 == vote_json2,
    ensures
        topic_bytes(t1, vote_json1) == topic_bytes(t2, vote_json2),
        topic_hash_spec(t1, vote_json1) == topic_hash_spec(t2, vote_json2),
{
}

} // verus!
