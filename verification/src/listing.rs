//! Listings of names that the system gives, some of which it may fail to give.

use vstd::prelude::*;

use crate::text::{opt_view, views};

verus! {

/// The names of a listing, as their characters.
pub open spec fn names_view(names: Seq<Option<String>>) -> Seq<Option<Seq<char>>> {
    Seq::new(names.len(), |i: int| opt_view(names[i]))
}

/// The names in a listing, in its order, without the devices that do not tell theirs.
pub open spec fn known_names(names: Seq<Option<Seq<char>>>) -> Seq<Seq<char>>
    decreases names.len(),
{
    if names.len() == 0 {
        Seq::empty()
    } else {
        match names.last() {
            Some(n) => known_names(names.drop_last()).push(n),
            None => known_names(names.drop_last()),
        }
    }
}

/// The names in a listing; none where there is no listing.
pub open spec fn listed_names(listing: Option<Vec<Option<String>>>) -> Seq<Seq<char>> {
    match listing {
        Some(names) => known_names(names_view(names@)),
        None => Seq::empty(),
    }
}

/// The names in a listing; none where there is no listing.
pub(crate) fn readable(listing: Option<Vec<Option<String>>>) -> (r: Vec<String>)
    ensures
        views(r@) == listed_names(listing),
{
    let mut r: Vec<String> = Vec::new();
    match listing {
        None => {},
        Some(names) => {
            let ghost all = names_view(names@);
            let mut i: usize = 0;
            while i < names.len()
                invariant
                    i <= names@.len(),
                    all == names_view(names@),
                    views(r@) == known_names(all.take(i as int)),
                decreases names@.len() - i,
            {
                assert(all.take(i + 1).drop_last() =~= all.take(i as int));
                assert(all[i as int] == opt_view(names@[i as int]));
                let ghost before = r@;
                if let Some(n) = &names[i] {
                    r.push(n.clone());
                    assert(views(r@) =~= views(before).push(n@));
                }
                i = i + 1;
            }
            assert(all.take(i as int) =~= all);
        },
    }
    r
}

/// A listing is read name by name: two listings one behind the other give the names of the
/// first and then those of the second, a device that tells its name adds that name, and one
/// that does not adds nothing.
pub proof fn law_listings_are_read_name_by_name(
    a: Seq<Option<Seq<char>>>,
    b: Seq<Option<Seq<char>>>,
    name: Seq<char>,
)
    ensures
        known_names(a + b) == known_names(a) + known_names(b),
        known_names(seq![Some(name)]) == seq![name],
        known_names(seq![None]).len() == 0,
        known_names(Seq::empty()).len() == 0,
    decreases b.len(),
{
    if b.len() == 0 {
        assert(a + b =~= a);
        assert(known_names(a) + known_names(b) =~= known_names(a));
    } else {
        assert((a + b).drop_last() =~= a + b.drop_last());
        assert((a + b).last() == b.last());
        law_listings_are_read_name_by_name(a, b.drop_last(), name);
        assert(known_names(a + b) =~= known_names(a) + known_names(b));
    }
    reveal_with_fuel(known_names, 2);
    let one = seq![Some(name)];
    assert(one.drop_last() =~= Seq::empty());
    assert(known_names(one) =~= seq![name]);
    let unknown = seq![None::<Seq<char>>];
    assert(unknown.drop_last() =~= Seq::empty());
    assert(known_names(unknown) =~= Seq::empty());
}

/// Where every device tells its name, all names are listed, in the order of the devices;
/// without a listing there are none.
pub proof fn law_all_names_are_listed(names: Vec<Option<String>>, texts: Seq<Seq<char>>)
    requires
        names@.len() == texts.len(),
        forall|i: int|
            0 <= i < texts.len() ==> (#[trigger] names@[i]) is Some && names@[i]->Some_0@
                == texts[i],
    ensures
        listed_names(Some(names)) == texts,
        listed_names(None).len() == 0,
{
    let all = names_view(names@);
    assert forall|i: int| 0 <= i < texts.len() implies #[trigger] all[i] == Some(texts[i]) by {
        assert(names@[i] is Some);
    }
    lemma_known_names_of_known(all, texts);
}

proof fn lemma_known_names_of_known(names: Seq<Option<Seq<char>>>, texts: Seq<Seq<char>>)
    requires
        names.len() == texts.len(),
        forall|i: int| 0 <= i < texts.len() ==> #[trigger] names[i] == Some(texts[i]),
    ensures
        known_names(names) == texts,
    decreases names.len(),
{
    if names.len() > 0 {
        assert(names[names.len() - 1] == Some(texts[names.len() - 1]));
        lemma_known_names_of_known(names.drop_last(), texts.drop_last());
        assert(known_names(names) =~= texts);
    } else {
        assert(known_names(names) =~= texts);
    }
}

/// A listing is seen device by device, with every name as it is, and what is listed are the
/// names of all devices that tell theirs.
pub proof fn law_listing_is_seen_device_by_device(names: Vec<Option<String>>, i: int)
    ensures
        names_view(names@).len() == names@.len(),
        0 <= i < names@.len() ==> match names@[i] {
            Some(n) => names_view(names@)[i] == Some(n@),
            None => names_view(names@)[i] is None,
        },
        listed_names(Some(names)) == known_names(names_view(names@)),
{
}

} // verus!
