use vstd::prelude::*;
use crate::header::{topic_domain_prefix, topic_prefix, HeaderView, TopicHeader};
use crate::keys::domain_key_spec;
use crate::history::{lemma_newest_first_reverses, newest_first_spec};
use crate::keys::history_key_spec;
use crate::store::{
    blob_at, history_of, lemma_blob_at_push, lemma_list_of_push, lemma_pointer_of_push,
    lemma_sadd_grows, list_of, members, pointer_of, push_history_spec, put_header_spec, put_spec,
    MemStore, StoreView,
};
use crate::topic::{same_text, topic_hash_spec, TopicData};

verus! {

/// What an update does once the pointer of its id has been read.
#[derive(PartialEq, Eq, Structural, Debug)]
pub enum UpdateStep {
    /// No pointer: the id was never created, and updates do not create.
    NoSuchEntity,
    /// The new content hashes to the current hash: nothing is written.
    NoChange,
    /// Write the content, move the pointer, append to the history.
    Commit,
}

/// The pointer record read, as a value.
pub open spec fn opt_header(o: Option<TopicHeader>) -> Option<HeaderView> {
    match o {
        Some(h) => Some(h@),
        None => None,
    }
}

/// A creation is a duplicate when the id already points at the same hash.
pub open spec fn is_duplicate_spec(current: Option<HeaderView>, hash: Seq<char>) -> bool {
    match current {
        Some(h) => h.hash == hash,
        None => false,
    }
}

pub open spec fn update_step_spec(current: Option<HeaderView>, hash: Seq<char>) -> UpdateStep {
    match current {
        None => UpdateStep::NoSuchEntity,
        Some(h) => if h.hash == hash {
            UpdateStep::NoChange
        } else {
            UpdateStep::Commit
        },
    }
}

/// Whether a creation of content hashed `hash` is a resubmission of the
/// current version, given the pointer record read for its id.
pub fn is_duplicate(current: &Option<TopicHeader>, hash: &str) -> (r: bool)
    ensures
        r == is_duplicate_spec(opt_header(*current), hash@),
{
    match current {
        Some(h) => same_text(h.hash.as_str(), hash),
        None => false,
    }
}

/// Decides an update of content hashed `hash`, given the pointer record read
/// for its id.
pub fn update_step(current: &Option<TopicHeader>, hash: &str) -> (r: UpdateStep)
    ensures
        r == update_step_spec(opt_header(*current), hash@),
{
    match current {
        None => UpdateStep::NoSuchEntity,
        Some(h) => if same_text(h.hash.as_str(), hash) {
            UpdateStep::NoChange
        } else {
            UpdateStep::Commit
        },
    }
}

/// What the three writes of a commit reported. The content write alone
/// decides success: a failed pointer or history write leaves the pointer
/// stale or the history short, and is not reported to the caller.
pub struct CommitReport {
    pub content_written: bool,
    pub pointer_written: bool,
    pub history_appended: bool,
}

impl CommitReport {
    pub fn succeeded(&self) -> (r: bool)
        ensures
            r == self.content_written,
    {
        self.content_written
    }

    /// Whether all three writes went through, so that pointer, content and
    /// history agree.
    pub fn consistent(&self) -> (r: bool)
        ensures
            r == (self.content_written && self.pointer_written && self.history_appended),
    {
        self.content_written && self.pointer_written && self.history_appended
    }
}

/// A commit: the content blob under its hash, the pointer moved to that hash,
/// the hash appended to the history.
pub open spec fn commit_spec(
    s: StoreView,
    prefix: Seq<char>,
    id: Seq<char>,
    hash: Seq<char>,
    title: Seq<char>,
    json: Seq<char>,
) -> StoreView {
    push_history_spec(
        put_header_spec(put_spec(s, prefix, hash, json), HeaderView { id, hash, title }),
        id,
        hash,
    )
}

/// The store after a creation request.
pub open spec fn create_state(
    s: StoreView,
    prefix: Seq<char>,
    id: Seq<char>,
    hash: Seq<char>,
    title: Seq<char>,
    json: Seq<char>,
) -> StoreView {
    if is_duplicate_spec(pointer_of(s.headers, id), hash) {
        s
    } else {
        commit_spec(s, prefix, id, hash, title, json)
    }
}

/// The store after an update request.
pub open spec fn update_state(
    s: StoreView,
    prefix: Seq<char>,
    id: Seq<char>,
    hash: Seq<char>,
    title: Seq<char>,
    json: Seq<char>,
) -> StoreView {
    if update_step_spec(pointer_of(s.headers, id), hash) == UpdateStep::Commit {
        commit_spec(s, prefix, id, hash, title, json)
    } else {
        s
    }
}

/// The pointer no longer names the hash an update was prepared against.
#[derive(PartialEq, Eq, Structural, Debug)]
pub struct Conflict;

/// The answer to a creation request.
#[derive(Debug, PartialEq, Eq)]
pub enum CreateOutcome {
    /// The id already pointed at this hash; nothing was written.
    Duplicate { hash: String, id: String },
    /// The content was committed under `hash`.
    Created { hash: String, id: String },
}

/// The answer to an update request.
#[derive(Debug, PartialEq, Eq)]
pub enum UpdateOutcome {
    NoSuchEntity,
    NoChange,
    Updated { hash: String },
}

impl MemStore {
    /// Commits content `json` hashed `hash` as the current version of `id`.
    pub fn commit(&mut self, prefix: &str, id: &str, hash: &str, title: &str, json: &str)
        requires
            old(self).wf(),
        ensures
            final(self).wf(),
            final(self)@ == commit_spec(old(self)@, prefix@, id@, hash@, title@, json@),
    {
        self.put(prefix, hash, json);
        self.put_header(TopicHeader::new(id, hash, title));
        self.push_history(id, hash);
    }

    /// Commits content `json` hashed `hash` as the current version of `id`
    /// only if the pointer of `id` still names `expected`, the hash the
    /// caller read before preparing its change. Otherwise nothing is written
    /// and the lost update is reported as a conflict.
    pub fn commit_if_current(
        &mut self,
        prefix: &str,
        id: &str,
        expected: &str,
        hash: &str,
        title: &str,
        json: &str,
    ) -> (r: Result<(), Conflict>)
        requires
            old(self).wf(),
        ensures
            final(self).wf(),
            is_duplicate_spec(pointer_of(old(self)@.headers, id@), expected@) ==> r is Ok
                && final(self)@ == commit_spec(old(self)@, prefix@, id@, hash@, title@, json@),
            !is_duplicate_spec(pointer_of(old(self)@.headers, id@), expected@) ==> r is Err
                && final(self)@ == old(self)@,
    {
        let current = self.resolve(id);
        if is_duplicate(&current, expected) {
            self.commit(prefix, id, hash, title, json);
            Ok(())
        } else {
            Err(Conflict)
        }
    }

    /// Creates `id` with content `json` hashed `hash`, or, when `id` already
    /// points at `hash`, writes nothing and reports the duplicate.
    pub fn create_entity(&mut self, prefix: &str, id: &str, hash: &str, title: &str, json: &str) -> (r:
        CreateOutcome)
        requires
            old(self).wf(),
        ensures
            final(self).wf(),
            final(self)@ == create_state(old(self)@, prefix@, id@, hash@, title@, json@),
            match r {
                CreateOutcome::Duplicate { hash: h, id: i } => is_duplicate_spec(
                    pointer_of(old(self)@.headers, id@),
                    hash@,
                ) && h@ == hash@ && i@ == id@,
                CreateOutcome::Created { hash: h, id: i } => !is_duplicate_spec(
                    pointer_of(old(self)@.headers, id@),
                    hash@,
                ) && h@ == hash@ && i@ == id@,
            },
    {
        let current = self.resolve(id);
        if is_duplicate(&current, hash) {
            CreateOutcome::Duplicate { hash: hash.to_owned(), id: id.to_owned() }
        } else {
            self.commit(prefix, id, hash, title, json);
            CreateOutcome::Created { hash: hash.to_owned(), id: id.to_owned() }
        }
    }

    /// Updates `id` to content `json` hashed `hash`: refused when `id` has no
    /// pointer, nothing written when the hash is the current one, committed
    /// otherwise.
    pub fn update_entity(&mut self, prefix: &str, id: &str, hash: &str, title: &str, json: &str) -> (r:
        UpdateOutcome)
        requires
            old(self).wf(),
        ensures
            final(self).wf(),
            final(self)@ == update_state(old(self)@, prefix@, id@, hash@, title@, json@),
            match r {
                UpdateOutcome::NoSuchEntity => pointer_of(old(self)@.headers, id@) is None,
                UpdateOutcome::NoChange => update_step_spec(pointer_of(old(self)@.headers, id@), hash@)
                    == UpdateStep::NoChange,
                UpdateOutcome::Updated { hash: h } => update_step_spec(
                    pointer_of(old(self)@.headers, id@),
                    hash@,
                ) == UpdateStep::Commit && h@ == hash@,
            },
    {
        let current = self.resolve(id);
        match update_step(&current, hash) {
            UpdateStep::NoSuchEntity => UpdateOutcome::NoSuchEntity,
            UpdateStep::NoChange => UpdateOutcome::NoChange,
            UpdateStep::Commit => {
                self.commit(prefix, id, hash, title, json);
                UpdateOutcome::Updated { hash: hash.to_owned() }
            },
        }
    }

    /// Creates a topic (see `create_entity`); `vote_json` is the JSON of its
    /// derived voting structure and `json` its serialized form.
    pub fn create_topic(&mut self, topic: &TopicData, vote_json: &[u8], json: &str) -> (r:
        CreateOutcome)
        requires
            old(self).wf(),
        ensures
            final(self).wf(),
            final(self)@ == create_state(
                old(self)@,
                topic_prefix(),
                topic@.id,
                topic_hash_spec(topic@, vote_json@),
                topic@.title,
                json@,
            ),
            match r {
                CreateOutcome::Duplicate { hash: h, id: i } => is_duplicate_spec(
                    pointer_of(old(self)@.headers, topic@.id),
                    topic_hash_spec(topic@, vote_json@),
                ) && h@ == topic_hash_spec(topic@, vote_json@) && i@ == topic@.id,
                CreateOutcome::Created { hash: h, id: i } => !is_duplicate_spec(
                    pointer_of(old(self)@.headers, topic@.id),
                    topic_hash_spec(topic@, vote_json@),
                ) && h@ == topic_hash_spec(topic@, vote_json@) && i@ == topic@.id,
            },
    {
        let hash = topic.hash(vote_json);
        let prefix = topic_domain_prefix();
        self.create_entity(prefix.as_str(), topic.id.as_str(), hash.as_str(), topic.title.as_str(), json)
    }

    /// Updates a topic (see `update_entity`).
    pub fn update_topic(&mut self, topic: &TopicData, vote_json: &[u8], json: &str) -> (r:
        UpdateOutcome)
        requires
            old(self).wf(),
        ensures
            final(self).wf(),
            final(self)@ == update_state(
                old(self)@,
                topic_prefix(),
                topic@.id,
                topic_hash_spec(topic@, vote_json@),
                topic@.title,
                json@,
            ),
            match r {
                UpdateOutcome::NoSuchEntity => pointer_of(old(self)@.headers, topic@.id) is None,
                UpdateOutcome::NoChange => update_step_spec(
                    pointer_of(old(self)@.headers, topic@.id),
                    topic_hash_spec(topic@, vote_json@),
                ) == UpdateStep::NoChange,
                UpdateOutcome::Updated { hash: h } => update_step_spec(
                    pointer_of(old(self)@.headers, topic@.id),
                    topic_hash_spec(topic@, vote_json@),
                ) == UpdateStep::Commit && h@ == topic_hash_spec(topic@, vote_json@),
            },
    {
        let hash = topic.hash(vote_json);
        let prefix = topic_domain_prefix();
        self.update_entity(prefix.as_str(), topic.id.as_str(), hash.as_str(), topic.title.as_str(), json)
    }

    /// The current content of topic `id`: its pointer, then the blob under
    /// the pointer's hash.
    pub fn fetch_topic_by_id(&self, id: &str) -> (r: Option<String>)
        ensures
            match pointer_of(self@.headers, id@) {
                None => r is None,
                Some(h) => match r {
                    Some(v) => blob_at(self@.blobs, domain_key_spec(topic_prefix(), h.hash)) == Some(v@),
                    None => blob_at(self@.blobs, domain_key_spec(topic_prefix(), h.hash)) is None,
                },
            },
    {
        match self.resolve(id) {
            None => None,
            Some(h) => {
                let prefix = topic_domain_prefix();
                self.get(prefix.as_str(), h.hash.as_str())
            },
        }
    }

    /// The topic content stored under `hash`, current or not.
    pub fn fetch_topic_by_hash(&self, hash: &str) -> (r: Option<String>)
        ensures
            match r {
                Some(v) => blob_at(self@.blobs, domain_key_spec(topic_prefix(), hash@)) == Some(v@),
                None => blob_at(self@.blobs, domain_key_spec(topic_prefix(), hash@)) is None,
            },
    {
        let prefix = topic_domain_prefix();
        self.get(prefix.as_str(), hash)
    }
}

/// Submitting the same content twice for one id gives the same hash both
/// times; the second submission is a duplicate, writes nothing, and leaves
/// the history as it was.
pub proof fn lemma_duplicate_create_writes_nothing(
    s: StoreView,
    prefix: Seq<char>,
    id: Seq<char>,
    hash: Seq<char>,
    title: Seq<char>,
    json: Seq<char>,
)
    ensures
        is_duplicate_spec(pointer_of(create_state(s, prefix, id, hash, title, json).headers, id), hash),
        create_state(create_state(s, prefix, id, hash, title, json), prefix, id, hash, title, json)
            == create_state(s, prefix, id, hash, title, json),
        history_of(
            create_state(create_state(s, prefix, id, hash, title, json), prefix, id, hash, title, json),
            id,
        ) == history_of(create_state(s, prefix, id, hash, title, json), id),
{
    if !is_duplicate_spec(pointer_of(s.headers, id), hash) {
        lemma_pointer_of_push(s.headers, HeaderView { id, hash, title }, id);
    }
}

/// Every pointer names a hash whose content blob is stored under `prefix`.
pub open spec fn pointers_resolve(s: StoreView, prefix: Seq<char>) -> bool {
    forall|id: Seq<char>|
        (#[trigger] pointer_of(s.headers, id)) is Some ==> blob_at(
            s.blobs,
            domain_key_spec(prefix, pointer_of(s.headers, id)->Some_0.hash),
        ) is Some
}

proof fn lemma_commit_resolves(
    s: StoreView,
    prefix: Seq<char>,
    id: Seq<char>,
    hash: Seq<char>,
    title: Seq<char>,
    json: Seq<char>,
)
    requires
        pointers_resolve(s, prefix),
    ensures
        pointers_resolve(commit_spec(s, prefix, id, hash, title, json), prefix),
{
    let after = commit_spec(s, prefix, id, hash, title, json);
    let p = (domain_key_spec(prefix, hash), json);
    assert(after.blobs == s.blobs.push(p));
    assert(after.headers == s.headers.push(HeaderView { id, hash, title }));
    assert forall|id2: Seq<char>| (#[trigger] pointer_of(after.headers, id2)) is Some implies blob_at(
        after.blobs,
        domain_key_spec(prefix, pointer_of(after.headers, id2)->Some_0.hash),
    ) is Some by {
        lemma_pointer_of_push(s.headers, HeaderView { id, hash, title }, id2);
        let k = domain_key_spec(prefix, pointer_of(after.headers, id2)->Some_0.hash);
        lemma_blob_at_push(s.blobs, p, k);
    }
}

/// A store without pointer records has no pointer to resolve.
pub proof fn lemma_no_pointers_resolve(s: StoreView, prefix: Seq<char>)
    requires
        s.headers.len() == 0,
    ensures
        pointers_resolve(s, prefix),
{
}

/// Creations and updates keep every pointer resolvable: the content blob of
/// the hash a pointer names is stored, from the commit that set the pointer
/// on.
pub proof fn lemma_pointers_stay_resolvable(
    s: StoreView,
    prefix: Seq<char>,
    id: Seq<char>,
    hash: Seq<char>,
    title: Seq<char>,
    json: Seq<char>,
)
    requires
        pointers_resolve(s, prefix),
    ensures
        pointers_resolve(create_state(s, prefix, id, hash, title, json), prefix),
        pointers_resolve(update_state(s, prefix, id, hash, title, json), prefix),
{
    lemma_commit_resolves(s, prefix, id, hash, title, json);
}

/// The store after the first version of `id` is created and each later
/// version is submitted as an update, in order. A version is
/// `(hash, title, json)`.
pub open spec fn run_versions(
    s: StoreView,
    prefix: Seq<char>,
    id: Seq<char>,
    versions: Seq<(Seq<char>, Seq<char>, Seq<char>)>,
) -> StoreView
    decreases versions.len(),
{
    if versions.len() == 0 {
        s
    } else {
        let before = run_versions(s, prefix, id, versions.drop_last());
        let v = versions.last();
        if versions.len() == 1 {
            create_state(before, prefix, id, v.0, v.1, v.2)
        } else {
            update_state(before, prefix, id, v.0, v.1, v.2)
        }
    }
}

pub open spec fn hashes_of(versions: Seq<(Seq<char>, Seq<char>, Seq<char>)>) -> Seq<Seq<char>> {
    versions.map_values(|v: (Seq<char>, Seq<char>, Seq<char>)| v.0)
}

proof fn lemma_run_versions(
    s: StoreView,
    prefix: Seq<char>,
    id: Seq<char>,
    versions: Seq<(Seq<char>, Seq<char>, Seq<char>)>,
)
    requires
        versions.len() > 0,
        pointer_of(s.headers, id) is None,
        list_of(s.lists, history_key_spec(id)) == Seq::<Seq<char>>::empty(),
        forall|i: int| 0 < i < versions.len() ==> #[trigger] versions[i].0 != versions[i - 1].0,
    ensures
        pointer_of(run_versions(s, prefix, id, versions).headers, id) == Some(
            HeaderView { id, hash: versions.last().0, title: versions.last().1 },
        ),
        list_of(run_versions(s, prefix, id, versions).lists, history_key_spec(id)) == hashes_of(
            versions,
        ),
    decreases versions.len(),
{
    let before = run_versions(s, prefix, id, versions.drop_last());
    let v = versions.last();
    let h = HeaderView { id, hash: v.0, title: v.1 };
    if versions.len() > 1 {
        let rest = versions.drop_last();
        assert forall|i: int| 0 < i < rest.len() implies #[trigger] rest[i].0 != rest[i - 1].0 by {
            assert(rest[i] == versions[i] && rest[i - 1] == versions[i - 1]);
        }
        lemma_run_versions(s, prefix, id, rest);
        assert(versions[versions.len() - 1].0 != versions[versions.len() - 2].0);
        assert(hashes_of(rest) =~= hashes_of(versions).drop_last());
    } else {
        assert(versions.drop_last().len() == 0);
        assert(hashes_of(versions) =~= seq![v.0]);
    }
    let after = commit_spec(before, prefix, id, v.0, v.1, v.2);
    assert(after.headers == before.headers.push(h));
    lemma_pointer_of_push(before.headers, h, id);
    assert(after.lists == before.lists.push((history_key_spec(id), v.0)));
    lemma_list_of_push(before.lists, (history_key_spec(id), v.0), history_key_spec(id));
    assert(hashes_of(versions) =~= list_of(before.lists, history_key_spec(id)).push(v.0));
}

/// Whatever versions are created and submitted, every pointer stays
/// resolvable to stored content.
pub proof fn lemma_versions_stay_resolvable(
    s: StoreView,
    prefix: Seq<char>,
    id: Seq<char>,
    versions: Seq<(Seq<char>, Seq<char>, Seq<char>)>,
)
    requires
        pointers_resolve(s, prefix),
    ensures
        pointers_resolve(run_versions(s, prefix, id, versions), prefix),
    decreases versions.len(),
{
    if versions.len() > 0 {
        let v = versions.last();
        let before = run_versions(s, prefix, id, versions.drop_last());
        lemma_versions_stay_resolvable(s, prefix, id, versions.drop_last());
        lemma_pointers_stay_resolvable(before, prefix, id, v.0, v.1, v.2);
    }
}

/// Creating a fresh id and then updating it through versions of pairwise
/// different, non-empty hashes H1..HN gives the history [HN, ..., H1].
pub proof fn lemma_history_newest_first(
    s: StoreView,
    prefix: Seq<char>,
    id: Seq<char>,
    versions: Seq<(Seq<char>, Seq<char>, Seq<char>)>,
)
    requires
        pointer_of(s.headers, id) is None,
        list_of(s.lists, history_key_spec(id)) == Seq::<Seq<char>>::empty(),
        forall|i: int, j: int|
            0 <= i < j < versions.len() ==> #[trigger] versions[i].0 != #[trigger] versions[j].0,
        forall|i: int| 0 <= i < versions.len() ==> #[trigger] versions[i].0.len() > 0,
    ensures
        history_of(run_versions(s, prefix, id, versions), id) == hashes_of(versions).reverse(),
{
    if versions.len() == 0 {
        assert(newest_first_spec(Seq::<Seq<char>>::empty()) =~= hashes_of(versions).reverse());
    } else {
        assert forall|i: int| 0 < i < versions.len() implies #[trigger] versions[i].0 != versions[i
            - 1].0 by {
            assert(versions[i - 1].0 != versions[i].0);
        }
        lemma_run_versions(s, prefix, id, versions);
        let hs = hashes_of(versions);
        assert forall|i: int| 0 <= i < hs.len() implies #[trigger] hs[i].len() > 0 by {
            assert(hs[i] == versions[i].0);
        }
        lemma_newest_first_reverses(hs);
    }
}

/// No creation, update or blob write removes a member of any index set.
pub proof fn lemma_listing_only_grows(
    s: StoreView,
    prefix: Seq<char>,
    id: Seq<char>,
    hash: Seq<char>,
    title: Seq<char>,
    json: Seq<char>,
    set_key: Seq<char>,
)
    ensures
        members(s.index, set_key).subset_of(members(put_spec(s, prefix, hash, json).index, set_key)),
        members(s.index, set_key).subset_of(
            members(create_state(s, prefix, id, hash, title, json).index, set_key),
        ),
        members(s.index, set_key).subset_of(
            members(update_state(s, prefix, id, hash, title, json).index, set_key),
        ),
{
    let s1 = put_spec(s, prefix, hash, json);
    let s2 = put_header_spec(s1, HeaderView { id, hash, title });
    lemma_sadd_grows(s.index, crate::keys::plural_prefix_spec(prefix), hash, set_key);
    lemma_sadd_grows(
        s1.index,
        crate::keys::plural_prefix_spec(crate::header::header_prefix()),
        id,
        set_key,
    );
    assert(commit_spec(s, prefix, id, hash, title, json).index == s2.index);
}

} // verus!
