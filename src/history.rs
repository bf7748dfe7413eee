use vstd::prelude::*;

verus! {

/// The texts of a sequence of strings.
pub open spec fn views(v: Seq<String>) -> Seq<Seq<char>> {
    v.map_values(|s: String| s@)
}

/// A history as it is read: the stored hashes, most recent first, with empty
/// entries dropped.
pub open spec fn newest_first_spec(entries: Seq<Seq<char>>) -> Seq<Seq<char>>
    decreases entries.len(),
{
    if entries.len() == 0 {
        Seq::empty()
    } else if entries.last().len() == 0 {
        newest_first_spec(entries.drop_last())
    } else {
        seq![entries.last()] + newest_first_spec(entries.drop_last())
    }
}

/// Turns a history list, in the order it was appended, into the order it is
/// read in: most recent first, empty entries dropped.
pub fn newest_first(entries: &Vec<String>) -> (r: Vec<String>)
    ensures
        r@.map_values(|s: String| s@) == newest_first_spec(entries@.map_values(|s: String| s@)),
{
    let ghost all = entries@.map_values(|s: String| s@);
    let mut r: Vec<String> = Vec::new();
    let mut i: usize = entries.len();
    proof {
        assert(all.take(i as int) =~= all);
        assert(r@.map_values(|s: String| s@) + newest_first_spec(all.take(i as int))
            =~= newest_first_spec(all));
    }
    while i > 0
        invariant
            i <= entries@.len(),
            all == entries@.map_values(|s: String| s@),
            r@.map_values(|s: String| s@) + newest_first_spec(all.take(i as int))
                == newest_first_spec(all),
        decreases i,
    {
        let ghost before = r@.map_values(|s: String| s@);
        assert(all.take(i as int).drop_last() =~= all.take(i - 1));
        if !entries[i - 1].as_str().is_empty() {
            r.push(entries[i - 1].clone());
            assert(r@.map_values(|s: String| s@) =~= before.push(all[i - 1]));
            assert(before.push(all[i - 1]) + newest_first_spec(all.take(i - 1))
                =~= before + (seq![all[i - 1]] + newest_first_spec(all.take(i - 1))));
        }
        i = i - 1;
    }
    assert(newest_first_spec(all.take(0)) =~= Seq::<Seq<char>>::empty());
    assert(r@.map_values(|s: String| s@) =~= newest_first_spec(all));
    r
}

/// Appended hashes are read back in reverse order of appending, when none is
/// empty.
pub proof fn lemma_newest_first_reverses(hs: Seq<Seq<char>>)
    requires
        forall|i: int| 0 <= i < hs.len() ==> #[trigger] hs[i].len() > 0,
    ensures
        newest_first_spec(hs) == hs.reverse(),
    decreases hs.len(),
{
    if hs.len() > 0 {
        let t = hs.drop_last();
        assert forall|i: int| 0 <= i < t.len() implies #[trigger] t[i].len() > 0 by {
            assert(t[i] == hs[i]);
        }
        lemma_newest_first_reverses(t);
        assert(newest_first_spec(hs) =~= hs.reverse());
    }
}

} // verus!
