use vstd::prelude::*;
use crate::topic::same_text;
use crate::header::{header_prefix, HeaderView, TopicHeader};
use crate::history::{newest_first, newest_first_spec, views};
use crate::keys::{
    domain_key, domain_key_spec, history_key, history_key_spec, plural_prefix, plural_prefix_spec,
};

verus! {

/// What a backend holds: blobs written under `prefix:address` keys (the last
/// write of a key wins), the members of the index sets, the pointer records
/// in the order they were written (the last one of an id wins), and the
/// elements pushed onto lists.
pub struct StoreView {
    pub blobs: Seq<(Seq<char>, Seq<char>)>,
    pub index: Seq<(Seq<char>, Seq<char>)>,
    pub headers: Seq<HeaderView>,
    pub lists: Seq<(Seq<char>, Seq<char>)>,
}

/// The blob last written under `key`.
pub open spec fn blob_at(blobs: Seq<(Seq<char>, Seq<char>)>, key: Seq<char>) -> Option<Seq<char>>
    decreases blobs.len(),
{
    if blobs.len() == 0 {
        None
    } else if blobs.last().0 == key {
        Some(blobs.last().1)
    } else {
        blob_at(blobs.drop_last(), key)
    }
}

/// The pointer record last written for `id`.
pub open spec fn pointer_of(headers: Seq<HeaderView>, id: Seq<char>) -> Option<HeaderView>
    decreases headers.len(),
{
    if headers.len() == 0 {
        None
    } else if headers.last().id == id {
        Some(headers.last())
    } else {
        pointer_of(headers.drop_last(), id)
    }
}

/// The members of the index set `set_key`.
pub open spec fn members(index: Seq<(Seq<char>, Seq<char>)>, set_key: Seq<char>) -> Set<Seq<char>> {
    Set::new(|m: Seq<char>| index.contains((set_key, m)))
}

/// The elements of the list `key`, in the order they were pushed.
pub open spec fn list_of(lists: Seq<(Seq<char>, Seq<char>)>, key: Seq<char>) -> Seq<Seq<char>>
    decreases lists.len(),
{
    if lists.len() == 0 {
        Seq::empty()
    } else if lists.last().0 == key {
        list_of(lists.drop_last(), key).push(lists.last().1)
    } else {
        list_of(lists.drop_last(), key)
    }
}

/// The history of `id` as it is read: most recent first.
pub open spec fn history_of(s: StoreView, id: Seq<char>) -> Seq<Seq<char>> {
    newest_first_spec(list_of(s.lists, history_key_spec(id)))
}

/// Adds `member` to the index set `set_key`.
pub open spec fn sadd_spec(
    index: Seq<(Seq<char>, Seq<char>)>,
    set_key: Seq<char>,
    member: Seq<char>,
) -> Seq<(Seq<char>, Seq<char>)> {
    if index.contains((set_key, member)) {
        index
    } else {
        index.push((set_key, member))
    }
}

/// Writes blob `json` under `prefix:address` and adds `address` to the index
/// set of `prefix`.
pub open spec fn put_spec(s: StoreView, prefix: Seq<char>, address: Seq<char>, json: Seq<char>) -> StoreView {
    StoreView {
        blobs: s.blobs.push((domain_key_spec(prefix, address), json)),
        index: sadd_spec(s.index, plural_prefix_spec(prefix), address),
        ..s
    }
}

/// Writes a pointer record and adds its id to the index set of pointers.
pub open spec fn put_header_spec(s: StoreView, h: HeaderView) -> StoreView {
    StoreView {
        headers: s.headers.push(h),
        index: sadd_spec(s.index, plural_prefix_spec(header_prefix()), h.id),
        ..s
    }
}

/// Appends `hash` to the history of `id`.
pub open spec fn push_history_spec(s: StoreView, id: Seq<char>, hash: Seq<char>) -> StoreView {
    StoreView { lists: s.lists.push((history_key_spec(id), hash)), ..s }
}

/// The pointer of `id` after one more record is written.
pub proof fn lemma_pointer_of_push(headers: Seq<HeaderView>, h: HeaderView, id: Seq<char>)
    ensures
        pointer_of(headers.push(h), id) == if h.id == id {
            Some(h)
        } else {
            pointer_of(headers, id)
        },
{
    assert(headers.push(h).drop_last() =~= headers);
}

/// The blob under `key` after one more write.
pub proof fn lemma_blob_at_push(
    blobs: Seq<(Seq<char>, Seq<char>)>,
    p: (Seq<char>, Seq<char>),
    key: Seq<char>,
)
    ensures
        blob_at(blobs.push(p), key) == if p.0 == key {
            Some(p.1)
        } else {
            blob_at(blobs, key)
        },
{
    assert(blobs.push(p).drop_last() =~= blobs);
}

/// The list `key` after one more push.
pub proof fn lemma_list_of_push(
    lists: Seq<(Seq<char>, Seq<char>)>,
    p: (Seq<char>, Seq<char>),
    key: Seq<char>,
)
    ensures
        list_of(lists.push(p), key) == if p.0 == key {
            list_of(lists, key).push(p.1)
        } else {
            list_of(lists, key)
        },
{
    assert(lists.push(p).drop_last() =~= lists);
}

/// Adding to an index set keeps every member of every set.
pub proof fn lemma_sadd_grows(
    index: Seq<(Seq<char>, Seq<char>)>,
    set_key: Seq<char>,
    member: Seq<char>,
    k: Seq<char>,
)
    ensures
        members(index, k).subset_of(members(sadd_spec(index, set_key, member), k)),
        members(sadd_spec(index, set_key, member), set_key).contains(member),
{
    let after = sadd_spec(index, set_key, member);
    assert forall|m: Seq<char>| members(index, k).contains(m) implies members(after, k).contains(m) by {
        if !index.contains((set_key, member)) {
            let j = choose|j: int| 0 <= j < index.len() && index[j] == (k, m);
            assert(after[j] == (k, m));
        }
    }
    if !index.contains((set_key, member)) {
        assert(after[index.len() as int] == (set_key, member));
    }
}

/// An in-memory backend. Every operation succeeds.
pub struct MemStore {
    blobs: Vec<(String, String)>,
    index: Vec<(String, String)>,
    headers: Vec<TopicHeader>,
    lists: Vec<(String, String)>,
}

pub open spec fn pair_view(p: (String, String)) -> (Seq<char>, Seq<char>) {
    (p.0@, p.1@)
}

impl View for MemStore {
    type V = StoreView;

    closed spec fn view(&self) -> StoreView {
        StoreView {
            blobs: self.blobs@.map_values(|p: (String, String)| pair_view(p)),
            index: self.index@.map_values(|p: (String, String)| pair_view(p)),
            headers: self.headers@.map_values(|h: TopicHeader| h@),
            lists: self.lists@.map_values(|p: (String, String)| pair_view(p)),
        }
    }
}

impl MemStore {
    /// The index sets hold no pair twice.
    pub closed spec fn wf(&self) -> bool {
        forall|i: int, j: int|
            0 <= i < j < self.index@.len() ==> #[trigger] pair_view(self.index@[i]) != #[trigger] pair_view(
                self.index@[j],
            )
    }

    /// An empty backend.
    pub fn new() -> (r: MemStore)
        ensures
            r.wf(),
            r@.blobs.len() == 0,
            r@.index.len() == 0,
            r@.headers.len() == 0,
            r@.lists.len() == 0,
    {
        let r = MemStore { blobs: Vec::new(), index: Vec::new(), headers: Vec::new(), lists: Vec::new() };
        assert(r@.blobs =~= Seq::empty());
        assert(r@.index =~= Seq::empty());
        assert(r@.headers =~= Seq::empty());
        assert(r@.lists =~= Seq::empty());
        r
    }

    fn sadd(&mut self, set_key: String, member: String)
        requires
            old(self).wf(),
        ensures
            final(self).wf(),
            final(self)@ == (StoreView {
                index: sadd_spec(old(self)@.index, set_key@, member@),
                ..old(self)@
            }),
    {
        let ghost key = (set_key@, member@);
        let mut i: usize = 0;
        while i < self.index.len()
            invariant
                i <= self.index@.len(),
                key == (set_key@, member@),
                self.wf(),
                forall|j: int| 0 <= j < i ==> #[trigger] pair_view(self.index@[j]) != key,
            decreases self.index.len() - i,
        {
            if same_text(self.index[i].0.as_str(), set_key.as_str()) && same_text(
                self.index[i].1.as_str(),
                member.as_str(),
            ) {
                assert(self@.index[i as int] == key);
                return;
            }
            i = i + 1;
        }
        assert(!self@.index.contains(key)) by {
            if self@.index.contains(key) {
                let j = choose|j: int| 0 <= j < self@.index.len() && self@.index[j] == key;
                assert(pair_view(self.index@[j]) == key);
            }
        }
        let ghost before = self@;
        self.index.push((set_key, member));
        assert(self@.index =~= before.index.push(key));
    }

    /// Writes blob `json` under `prefix:address` and adds `address` to the
    /// index set of `prefix`. The write is acknowledged.
    pub fn put(&mut self, prefix: &str, address: &str, json: &str) -> (r: bool)
        requires
            old(self).wf(),
        ensures
            final(self).wf(),
            r,
            final(self)@ == put_spec(old(self)@, prefix@, address@, json@),
    {
        let ghost before = self@;
        let key = domain_key(prefix, address);
        self.blobs.push((key, json.to_owned()));
        assert(self@.blobs =~= before.blobs.push((domain_key_spec(prefix@, address@), json@)));
        self.sadd(plural_prefix(prefix), address.to_owned());
        true
    }

    /// The blob under `prefix:address`, if one was written.
    pub fn get(&self, prefix: &str, address: &str) -> (r: Option<String>)
        ensures
            match r {
                Some(v) => blob_at(self@.blobs, domain_key_spec(prefix@, address@)) == Some(v@),
                None => blob_at(self@.blobs, domain_key_spec(prefix@, address@)) is None,
            },
    {
        let key = domain_key(prefix, address);
        let ghost all = self@.blobs;
        let mut i: usize = self.blobs.len();
        assert(all.take(i as int) =~= all);
        while i > 0
            invariant
                i <= self.blobs@.len(),
                all == self@.blobs,
                key@ == domain_key_spec(prefix@, address@),
                blob_at(all, key@) == blob_at(all.take(i as int), key@),
            decreases i,
        {
            assert(all.take(i as int).drop_last() =~= all.take(i - 1));
            if same_text(self.blobs[i - 1].0.as_str(), key.as_str()) {
                return Some(self.blobs[i - 1].1.clone());
            }
            i = i - 1;
        }
        None
    }

    /// The members of the index set of `prefix`, each once.
    pub fn list(&self, prefix: &str) -> (r: Vec<String>)
        requires
            self.wf(),
        ensures
            views(r@).to_set() == members(self@.index, plural_prefix_spec(prefix@)),
            views(r@).no_duplicates(),
    {
        let set_key = plural_prefix(prefix);
        let ghost k = set_key@;
        let mut r: Vec<String> = Vec::new();
        let mut i: usize = 0;
        while i < self.index.len()
            invariant
                i <= self.index@.len(),
                self.wf(),
                k == set_key@,
                views(r@).no_duplicates(),
                forall|m: Seq<char>|
                    #[trigger] views(r@).contains(m) <==> exists|j: int|
                        0 <= j < i && #[trigger] pair_view(self.index@[j]) == (k, m),
            decreases self.index.len() - i,
        {
            let ghost rv = views(r@);
            if same_text(self.index[i].0.as_str(), set_key.as_str()) {
                let ghost m = self.index@[i as int].1@;
                assert(!rv.contains(m)) by {
                    if rv.contains(m) {
                        let j = choose|j: int| 0 <= j < i && #[trigger] pair_view(self.index@[j]) == (k, m);
                        assert(pair_view(self.index@[j]) == pair_view(self.index@[i as int]));
                    }
                }
                r.push(self.index[i].1.clone());
                let ghost rv2 = views(r@);
                assert(rv2 =~= rv.push(m));
                assert forall|a: int, b: int| 0 <= a < b < rv2.len() implies rv2[a] != rv2[b] by {
                    if b == rv.len() {
                        assert(rv.contains(rv[a]));
                    }
                }
                assert(pair_view(self.index@[i as int]) == (k, m));
                assert forall|m2: Seq<char>| rv2.contains(m2) <==> exists|j: int|
                    0 <= j < i + 1 && #[trigger] pair_view(self.index@[j]) == (k, m2) by {
                    if rv2.contains(m2) {
                        if m2 != m {
                            let a = choose|a: int| 0 <= a < rv2.len() && rv2[a] == m2;
                            assert(rv[a] == m2);
                            assert(rv.contains(m2));
                            let j = choose|j: int| 0 <= j < i && #[trigger] pair_view(self.index@[j]) == (k, m2);
                            assert(0 <= j < i + 1 && pair_view(self.index@[j]) == (k, m2));
                        } else {
                            assert(0 <= i < i + 1 && pair_view(self.index@[i as int]) == (k, m2));
                        }
                    }
                    if exists|j: int| 0 <= j < i + 1 && #[trigger] pair_view(self.index@[j]) == (k, m2) {
                        let j = choose|j: int| 0 <= j < i + 1 && #[trigger] pair_view(self.index@[j]) == (k, m2);
                        if j == i {
                            assert(rv2[rv.len() as int] == m2);
                        } else {
                            assert(exists|j: int| 0 <= j < i && #[trigger] pair_view(self.index@[j]) == (k, m2));
                            assert(rv.contains(m2));
                            let a = choose|a: int| 0 <= a < rv.len() && rv[a] == m2;
                            assert(rv2[a] == m2);
                        }
                    }
                }
            } else {
                assert forall|m2: Seq<char>| rv.contains(m2) <==> exists|j: int|
                    0 <= j < i + 1 && #[trigger] pair_view(self.index@[j]) == (k, m2) by {
                    if exists|j: int| 0 <= j < i + 1 && #[trigger] pair_view(self.index@[j]) == (k, m2) {
                        let j = choose|j: int| 0 <= j < i + 1 && #[trigger] pair_view(self.index@[j]) == (k, m2);
                        if j == i {
                            assert(self.index@[i as int].0@ == k);
                        }
                    }
                }
            }
            i = i + 1;
        }
        let ghost rv = views(r@);
        assert forall|m: Seq<char>| rv.to_set().contains(m) == members(self@.index, k).contains(m) by {
            if members(self@.index, k).contains(m) {
                let j = choose|j: int| 0 <= j < self@.index.len() && self@.index[j] == (k, m);
                assert(pair_view(self.index@[j]) == (k, m));
            }
            if rv.contains(m) {
                let j = choose|j: int| 0 <= j < i && #[trigger] pair_view(self.index@[j]) == (k, m);
                assert(self@.index[j] == (k, m));
            }
        }
        assert(rv.to_set() =~= members(self@.index, k));
        r
    }

    /// Writes the pointer record `h` (last writer wins) and adds its id to the
    /// index set of pointers.
    pub fn put_header(&mut self, h: TopicHeader) -> (r: bool)
        requires
            old(self).wf(),
        ensures
            final(self).wf(),
            r,
            final(self)@ == put_header_spec(old(self)@, h@),
    {
        let ghost before = self@;
        let ghost hv = h@;
        let set_key = plural_prefix(TopicHeader::domain_prefix().as_str());
        let id = h.id.clone();
        self.headers.push(h);
        assert(self@.headers =~= before.headers.push(hv));
        self.sadd(set_key, id);
        true
    }

    /// The pointer record of `id`, if one was written.
    pub fn resolve(&self, id: &str) -> (r: Option<TopicHeader>)
        ensures
            match r {
                Some(h) => pointer_of(self@.headers, id@) == Some(h@),
                None => pointer_of(self@.headers, id@) is None,
            },
    {
        let ghost all = self@.headers;
        let mut i: usize = self.headers.len();
        assert(all.take(i as int) =~= all);
        while i > 0
            invariant
                i <= self.headers@.len(),
                all == self@.headers,
                pointer_of(all, id@) == pointer_of(all.take(i as int), id@),
            decreases i,
        {
            assert(all.take(i as int).drop_last() =~= all.take(i - 1));
            if same_text(self.headers[i - 1].id.as_str(), id) {
                return Some(self.headers[i - 1].duplicate());
            }
            i = i - 1;
        }
        None
    }

    /// Appends `hash` to the history of `id`, and returns the history's new
    /// length.
    pub fn push_history(&mut self, id: &str, hash: &str) -> (r: usize)
        requires
            old(self).wf(),
        ensures
            final(self).wf(),
            final(self)@ == push_history_spec(old(self)@, id@, hash@),
            r == list_of(final(self)@.lists, history_key_spec(id@)).len(),
    {
        let ghost before = self@;
        let key = history_key(id);
        self.lists.push((key, hash.to_owned()));
        assert(self@.lists =~= before.lists.push((history_key_spec(id@), hash@)));
        self.count_list(id)
    }

    /// The length of the history of `id`.
    fn count_list(&self, id: &str) -> (r: usize)
        ensures
            r == list_of(self@.lists, history_key_spec(id@)).len(),
    {
        let key = history_key(id);
        let ghost all = self@.lists;
        let mut n: usize = 0;
        let mut i: usize = 0;
        assert(all.take(0) =~= Seq::<(Seq<char>, Seq<char>)>::empty());
        while i < self.lists.len()
            invariant
                i <= self.lists@.len(),
                all == self@.lists,
                key@ == history_key_spec(id@),
                n == list_of(all.take(i as int), key@).len(),
                n <= i,
            decreases self.lists.len() - i,
        {
            assert(all.take(i + 1).drop_last() =~= all.take(i as int));
            if same_text(self.lists[i].0.as_str(), key.as_str()) {
                n = n + 1;
            }
            i = i + 1;
        }
        assert(all.take(i as int) =~= all);
        n
    }

    /// The history of `id`: every hash appended to it, most recent first.
    pub fn history(&self, id: &str) -> (r: Vec<String>)
        ensures
            views(r@) == history_of(self@, id@),
    {
        let key = history_key(id);
        let ghost all = self@.lists;
        let mut entries: Vec<String> = Vec::new();
        let mut i: usize = 0;
        assert(all.take(0) =~= Seq::<(Seq<char>, Seq<char>)>::empty());
        assert(views(entries@) =~= list_of(all.take(0), key@));
        while i < self.lists.len()
            invariant
                i <= self.lists@.len(),
                all == self@.lists,
                key@ == history_key_spec(id@),
                views(entries@) == list_of(all.take(i as int), key@),
            decreases self.lists.len() - i,
        {
            assert(all.take(i + 1).drop_last() =~= all.take(i as int));
            if same_text(self.lists[i].0.as_str(), key.as_str()) {
                let ghost before = views(entries@);
                entries.push(self.lists[i].1.clone());
                assert(views(entries@) =~= before.push(all[i as int].1));
            }
            i = i + 1;
        }
        assert(all.take(i as int) =~= all);
        newest_first(&entries)
    }
}

} // verus!
