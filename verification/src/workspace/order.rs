//! The order in which the entries of a directory are listed: directories first,
//! then by name.

use vstd::prelude::*;
use vstd::multiset::Multiset;

verus! {

/// Whether a byte string comes before another in the dictionary.
pub open spec fn name_before(left: Seq<u8>, right: Seq<u8>) -> bool
    decreases left.len(),
{
    if right.len() == 0 {
        false
    } else if left.len() == 0 {
        true
    } else if left[0] != right[0] {
        left[0] < right[0]
    } else {
        name_before(left.skip(1), right.skip(1))
    }
}

/// What an entry is listed by.
#[derive(Debug)]
pub struct SortKey {
    pub directory: bool,
    pub name: Vec<u8>,
}

pub struct KeyView {
    pub directory: bool,
    pub name: Seq<u8>,
}

impl View for SortKey {
    type V = KeyView;

    open spec fn view(&self) -> KeyView {
        KeyView { directory: self.directory, name: self.name@ }
    }
}

/// Whether an entry is listed before another.
pub open spec fn key_before(left: KeyView, right: KeyView) -> bool {
    if left.directory != right.directory {
        left.directory
    } else {
        name_before(left.name, right.name)
    }
}

pub open spec fn key_views(keys: Seq<SortKey>) -> Seq<KeyView> {
    keys.map_values(|key: SortKey| key@)
}

/// Whether the entry at one place is listed before that at another: entries
/// that are listed alike keep their order.
pub open spec fn listed_before(keys: Seq<KeyView>, left: int, right: int) -> bool {
    key_before(keys[left], keys[right]) || (!key_before(keys[right], keys[left]) && left < right)
}

/// Whether the places are in the order in which their entries are listed.
pub open spec fn in_order(keys: Seq<KeyView>, order: Seq<usize>) -> bool {
    forall|i: int, j: int|
        0 <= i < j < order.len() ==> #[trigger] listed_before(
            keys,
            order[i] as int,
            order[j] as int,
        )
}

/// The places of a list from first to last.
pub open spec fn all_places(count: nat) -> Seq<usize> {
    Seq::new(count, |i: int| i as usize)
}

/// Whether `order` lists every entry once, in order.
pub open spec fn is_listing(keys: Seq<KeyView>, order: Seq<usize>) -> bool {
    &&& order.to_multiset() == all_places(keys.len()).to_multiset()
    &&& in_order(keys, order)
}

proof fn name_order(left: Seq<u8>, middle: Seq<u8>, right: Seq<u8>)
    ensures
        !name_before(left, left),
        name_before(left, middle) ==> !name_before(middle, left),
        name_before(left, middle) && name_before(middle, right) ==> name_before(left, right),
        !name_before(middle, left) && !name_before(right, middle) ==> !name_before(right, left),
        !name_before(left, right) && !name_before(right, left) ==> left == right,
    decreases left.len() + middle.len() + right.len(),
{
    if left.len() > 0 && right.len() > 0 && middle.len() > 0 {
        name_order(left.skip(1), middle.skip(1), right.skip(1));
    } else if left.len() > 0 && right.len() > 0 {
        name_order(left.skip(1), Seq::empty(), right.skip(1));
    } else if left.len() > 0 && middle.len() > 0 {
        name_order(left.skip(1), middle.skip(1), Seq::empty());
    } else if left.len() > 0 {
        name_order(left.skip(1), Seq::empty(), Seq::empty());
    } else if middle.len() > 0 && right.len() > 0 {
        name_order(Seq::empty(), middle.skip(1), right.skip(1));
    }
    if left.len() > 0 && right.len() > 0 && left[0] == right[0] {
        assert(left =~= seq![left[0]] + left.skip(1));
        assert(right =~= seq![right[0]] + right.skip(1));
    }
    if left.len() == 0 && right.len() == 0 {
        assert(left =~= right);
    }
}

/// Two entries are listed alike only where they have the same name and kind.
pub proof fn listings_are_total(left: KeyView, right: KeyView)
    ensures
        !key_before(left, left),
        key_before(left, right) ==> !key_before(right, left),
        !key_before(left, right) && !key_before(right, left) ==> left == right,
{
    name_order(left.name, right.name, right.name);
    name_order(left.name, left.name, right.name);
    name_order(right.name, left.name, right.name);
}

proof fn listed_chain(keys: Seq<KeyView>, a: int, b: int, c: int)
    requires
        listed_before(keys, a, b),
        listed_before(keys, b, c),
    ensures
        listed_before(keys, a, c),
{
    let (x, y, z) = (keys[a], keys[b], keys[c]);
    name_order(x.name, y.name, z.name);
    name_order(z.name, y.name, x.name);
    name_order(y.name, z.name, x.name);
    name_order(y.name, x.name, z.name);
    name_order(x.name, z.name, y.name);
    name_order(z.name, x.name, y.name);
    listings_are_total(x, y);
    listings_are_total(y, z);
    listings_are_total(x, z);
}

fn earlier_name(left: &Vec<u8>, right: &Vec<u8>) -> (result: bool)
    ensures
        result == name_before(left@, right@),
{
    let mut i: usize = 0;
    assert(left@.skip(0) =~= left@);
    assert(right@.skip(0) =~= right@);
    loop
        invariant
            i <= left@.len(),
            i <= right@.len(),
            name_before(left@, right@) == name_before(left@.skip(i as int), right@.skip(i as int)),
        decreases left@.len() - i,
    {
        if i == right.len() {
            return false;
        }
        if i == left.len() {
            return true;
        }
        if left[i] != right[i] {
            return left[i] < right[i];
        }
        assert(left@.skip(i as int).skip(1) =~= left@.skip(i + 1));
        assert(right@.skip(i as int).skip(1) =~= right@.skip(i + 1));
        i += 1;
    }
}

fn earlier(keys: &Vec<SortKey>, left: usize, right: usize) -> (result: bool)
    requires
        left < keys@.len(),
        right < keys@.len(),
        left != right,
    ensures
        result == listed_before(key_views(keys@), left as int, right as int),
        !result ==> listed_before(key_views(keys@), right as int, left as int),
{
    proof {
        listings_are_total(key_views(keys@)[left as int], key_views(keys@)[right as int]);
    }
    if keys[left].directory != keys[right].directory {
        keys[left].directory
    } else if earlier_name(&keys[left].name, &keys[right].name) {
        true
    } else if earlier_name(&keys[right].name, &keys[left].name) {
        false
    } else {
        left < right
    }
}

/// Whether the places are all different and all below a bound.
pub open spec fn places(order: Seq<usize>, bound: int) -> bool {
    &&& order.no_duplicates()
    &&& forall|i: int| 0 <= i < order.len() ==> #[trigger] order[i] < bound
}

/// Merges two sorted lists of places.
fn merge(keys: &Vec<SortKey>, left: &Vec<usize>, right: &Vec<usize>) -> (merged: Vec<usize>)
    requires
        places(left@ + right@, keys@.len() as int),
        in_order(key_views(keys@), left@),
        in_order(key_views(keys@), right@),
    ensures
        merged@.to_multiset() == (left@ + right@).to_multiset(),
        in_order(key_views(keys@), merged@),
        merged@.len() == left@.len() + right@.len(),
{
    broadcast use vstd::seq_lib::group_to_multiset_ensures;

    let ghost views = key_views(keys@);
    let ghost all = left@ + right@;
    let mut merged: Vec<usize> = Vec::new();
    let mut i: usize = 0;
    let mut j: usize = 0;
    proof {
        assert(left@.skip(0) + right@.skip(0) =~= left@ + right@);
        assert(merged@ + (left@.skip(0) + right@.skip(0)) =~= left@ + right@);
    }
    while i < left.len() || j < right.len()
        invariant
            views == key_views(keys@),
            all == left@ + right@,
            places(all, keys@.len() as int),
            in_order(views, left@),
            in_order(views, right@),
            i <= left@.len(),
            j <= right@.len(),
            merged@.len() == i + j,
            (merged@ + (left@.skip(i as int) + right@.skip(j as int))).to_multiset()
                == all.to_multiset(),
            in_order(views, merged@),
            forall|a: int, b: int|
                0 <= a < merged@.len() && i <= b < left@.len() ==> #[trigger] listed_before(
                    views,
                    merged@[a] as int,
                    left@[b] as int,
                ),
            forall|a: int, b: int|
                0 <= a < merged@.len() && j <= b < right@.len() ==> #[trigger] listed_before(
                    views,
                    merged@[a] as int,
                    right@[b] as int,
                ),
        decreases left@.len() - i + right@.len() - j,
    {
        let ghost before = merged@;
        let take_left: bool = if i == left.len() {
            false
        } else if j == right.len() {
            true
        } else {
            proof {
                assert(all[i as int] == left@[i as int]);
                assert(all[left@.len() + j] == right@[j as int]);
            }
            earlier(keys, left[i], right[j])
        };
        if take_left {
            let place: usize = left[i];
            merged.push(place);
            proof {
                let rest = left@.skip(i as int) + right@.skip(j as int);
                assert(before + rest =~= merged@ + (left@.skip(i + 1) + right@.skip(j as int)));
                assert forall|b: int| j <= b < right@.len() implies #[trigger] listed_before(
                    views,
                    place as int,
                    right@[b] as int,
                ) by {
                    if b > j {
                        listed_chain(views, place as int, right@[j as int] as int, right@[b] as int);
                    }
                }
                assert forall|b: int| i + 1 <= b < left@.len() implies #[trigger] listed_before(
                    views,
                    place as int,
                    left@[b] as int,
                ) by {}
                assert forall|a: int, b: int| 0 <= a < b < merged@.len() implies #[trigger] listed_before(
                    views,
                    merged@[a] as int,
                    merged@[b] as int,
                ) by {
                    if b == before.len() {
                        assert(listed_before(views, before[a] as int, left@[i as int] as int));
                    } else {
                        assert(listed_before(views, before[a] as int, before[b] as int));
                    }
                }
            }
            i += 1;
        } else {
            let place: usize = right[j];
            merged.push(place);
            proof {
                let rest = left@.skip(i as int) + right@.skip(j as int);
                let next = left@.skip(i as int) + right@.skip(j + 1);
                assert(rest =~= left@.skip(i as int) + (seq![place] + right@.skip(j + 1)));
                assert((before + rest).to_multiset() == (merged@ + next).to_multiset()) by {
                    let tail = right@.skip(j + 1);
                    let head = left@.skip(i as int);
                    assert(before + rest =~= before + head + seq![place] + tail);
                    assert(merged@ + next =~= before + seq![place] + head + tail);
                    vstd::seq_lib::lemma_multiset_commutative(before + head + seq![place], tail);
                    vstd::seq_lib::lemma_multiset_commutative(before + head, seq![place]);
                    vstd::seq_lib::lemma_multiset_commutative(before, head);
                    vstd::seq_lib::lemma_multiset_commutative(before + seq![place] + head, tail);
                    vstd::seq_lib::lemma_multiset_commutative(before + seq![place], head);
                    vstd::seq_lib::lemma_multiset_commutative(before, seq![place]);
                    assert((before + rest).to_multiset() =~= (merged@ + next).to_multiset());
                }
                assert forall|b: int| i <= b < left@.len() implies #[trigger] listed_before(
                    views,
                    place as int,
                    left@[b] as int,
                ) by {
                    if b > i {
                        listed_chain(views, place as int, left@[i as int] as int, left@[b] as int);
                    }
                }
                assert forall|a: int, b: int| 0 <= a < b < merged@.len() implies #[trigger] listed_before(
                    views,
                    merged@[a] as int,
                    merged@[b] as int,
                ) by {
                    if b == before.len() {
                        assert(listed_before(views, before[a] as int, right@[j as int] as int));
                    } else {
                        assert(listed_before(views, before[a] as int, before[b] as int));
                    }
                }
            }
            j += 1;
        }
    }
    proof {
        assert(merged@ + (left@.skip(i as int) + right@.skip(j as int)) =~= merged@);
    }
    merged
}

proof fn same_places(left: Seq<usize>, right: Seq<usize>, bound: int)
    requires
        places(left, bound),
        left.to_multiset() == right.to_multiset(),
    ensures
        places(right, bound),
        right.len() == left.len(),
{
    broadcast use vstd::seq_lib::group_to_multiset_ensures;

    vstd::seq_lib::to_multiset_len(left);
    vstd::seq_lib::to_multiset_len(right);
    left.lemma_multiset_has_no_duplicates();
    right.lemma_multiset_has_no_duplicates_conv();
    assert forall|i: int| 0 <= i < right.len() implies #[trigger] right[i] < bound by {
        assert(right.contains(right[i]));
        assert(right.to_multiset().count(right[i]) > 0);
        assert(left.contains(right[i]));
    }
}

/// Sorts places by how their entries are listed.
fn sort_places(keys: &Vec<SortKey>, order: &Vec<usize>) -> (sorted: Vec<usize>)
    requires
        places(order@, keys@.len() as int),
    ensures
        sorted@.to_multiset() == order@.to_multiset(),
        in_order(key_views(keys@), sorted@),
    decreases order@.len(),
{
    let middle: usize = order.len() / 2;
    let mut left: Vec<usize> = Vec::new();
    let mut right: Vec<usize> = Vec::new();
    let mut i: usize = 0;
    while i < order.len()
        invariant
            i <= order@.len(),
            middle == order@.len() / 2,
            i <= middle ==> left@ == order@.take(i as int) && right@.len() == 0,
            i > middle ==> left@ == order@.take(middle as int) && right@ == order@.subrange(
                middle as int,
                i as int,
            ),
        decreases order@.len() - i,
    {
        if i < middle {
            left.push(order[i]);
        } else {
            right.push(order[i]);
        }
        i += 1;
        proof {
            if i > middle {
                assert(right@ =~= order@.subrange(middle as int, i as int));
            }
        }
    }
    assert(left@ + right@ =~= order@);
    if order.len() < 2 {
        left.append(&mut right);
        assert(left@ =~= order@);
        return left;
    }
    proof {
        assert forall|a: int, b: int| 0 <= a < b < left@.len() implies left@[a] != left@[b] by {
            assert(order@[a] != order@[b]);
        }
        assert forall|a: int, b: int| 0 <= a < b < right@.len() implies right@[a] != right@[b] by {
            assert(order@[middle + a] != order@[middle + b]);
        }
        assert forall|a: int| 0 <= a < left@.len() implies #[trigger] left@[a] < keys@.len() by {
            assert(order@[a] < keys@.len());
        }
        assert forall|a: int| 0 <= a < right@.len() implies #[trigger] right@[a] < keys@.len() by {
            assert(order@[middle + a] < keys@.len());
        }
    }
    let sorted_left = sort_places(keys, &left);
    let sorted_right = sort_places(keys, &right);
    proof {
        vstd::seq_lib::lemma_multiset_commutative(sorted_left@, sorted_right@);
        vstd::seq_lib::lemma_multiset_commutative(left@, right@);
        same_places(order@, sorted_left@ + sorted_right@, keys@.len() as int);
    }
    merge(keys, &sorted_left, &sorted_right)
}

/// The order in which entries are listed.
pub fn listing_order(keys: &Vec<SortKey>) -> (order: Vec<usize>)
    ensures
        is_listing(key_views(keys@), order@),
        places(order@, keys@.len() as int),
        order@.len() == keys@.len(),
{
    let mut order: Vec<usize> = Vec::new();
    let mut i: usize = 0;
    while i < keys.len()
        invariant
            i <= keys@.len(),
            order@ == all_places(i as nat),
        decreases keys@.len() - i,
    {
        order.push(i);
        i += 1;
        assert(order@ =~= all_places(i as nat));
    }
    let sorted = sort_places(keys, &order);
    proof {
        same_places(order@, sorted@, keys@.len() as int);
    }
    sorted
}

/// Entries have one listing only.
pub proof fn listings_are_unique(keys: Seq<KeyView>, first: Seq<usize>, second: Seq<usize>)
    requires
        is_listing(keys, first),
        is_listing(keys, second),
    ensures
        first == second,
{
    unique_order(keys, first, second);
}

proof fn unique_order(keys: Seq<KeyView>, first: Seq<usize>, second: Seq<usize>)
    requires
        first.to_multiset() == second.to_multiset(),
        in_order(keys, first),
        in_order(keys, second),
    ensures
        first == second,
    decreases first.len(),
{
    broadcast use vstd::seq_lib::group_to_multiset_ensures;

    vstd::seq_lib::to_multiset_len(first);
    vstd::seq_lib::to_multiset_len(second);
    if first.len() > 0 {
        let (a, b) = (first.last(), second.last());
        if a != b {
            assert(first[first.len() - 1] == a && second[second.len() - 1] == b);
            assert(first.contains(a) && second.contains(b));
            assert(second.to_multiset().count(a) > 0);
            assert(first.to_multiset().count(b) > 0);
            assert(second.contains(a) && first.contains(b));
            let i = choose|i: int| 0 <= i < second.len() && second[i] == a;
            let j = choose|j: int| 0 <= j < first.len() && first[j] == b;
            assert(listed_before(keys, second[i] as int, second[second.len() - 1] as int));
            assert(listed_before(keys, first[j] as int, first[first.len() - 1] as int));
            listings_are_total(keys[a as int], keys[b as int]);
        }
        assert(first =~= first.drop_last().push(a));
        assert(second =~= second.drop_last().push(a));
        assert(first.drop_last().to_multiset() =~= first.to_multiset().remove(a));
        assert(second.drop_last().to_multiset() =~= second.to_multiset().remove(a));
        assert forall|i: int, j: int|
            0 <= i < j < first.drop_last().len() implies #[trigger] listed_before(
            keys,
            first.drop_last()[i] as int,
            first.drop_last()[j] as int,
        ) by {
            assert(listed_before(keys, first[i] as int, first[j] as int));
        }
        assert forall|i: int, j: int|
            0 <= i < j < second.drop_last().len() implies #[trigger] listed_before(
            keys,
            second.drop_last()[i] as int,
            second.drop_last()[j] as int,
        ) by {
            assert(listed_before(keys, second[i] as int, second[j] as int));
        }
        unique_order(keys, first.drop_last(), second.drop_last());
    } else {
        assert(first =~= second);
    }
}

/// Where a place goes in a list that is in order.
spec fn position_in(keys: Seq<KeyView>, order: Seq<usize>, place: int) -> nat
    decreases order.len(),
{
    if order.len() == 0 || listed_before(keys, place, order[0] as int) {
        0
    } else {
        1 + position_in(keys, order.skip(1), place)
    }
}

proof fn position_splits(keys: Seq<KeyView>, order: Seq<usize>, place: int)
    requires
        in_order(keys, order),
        forall|i: int| 0 <= i < order.len() ==> #[trigger] order[i] != place,
    ensures
        position_in(keys, order, place) <= order.len(),
        forall|i: int|
            0 <= i < position_in(keys, order, place) ==> listed_before(
                keys,
                #[trigger] order[i] as int,
                place,
            ),
        forall|i: int|
            position_in(keys, order, place) <= i < order.len() ==> listed_before(
                keys,
                place,
                #[trigger] order[i] as int,
            ),
    decreases order.len(),
{
    if order.len() > 0 {
        let rest = order.skip(1);
        assert forall|i: int, j: int| 0 <= i < j < rest.len() implies #[trigger] listed_before(
            keys,
            rest[i] as int,
            rest[j] as int,
        ) by {
            assert(listed_before(keys, order[i + 1] as int, order[j + 1] as int));
        }
        position_splits(keys, rest, place);
        let first = order[0] as int;
        assert(order[0] != place);
        if listed_before(keys, place, first) {
            assert forall|i: int| 0 <= i < order.len() implies listed_before(
                keys,
                place,
                #[trigger] order[i] as int,
            ) by {
                if i > 0 {
                    assert(listed_before(keys, order[0] as int, order[i] as int));
                    listed_chain(keys, place, first, order[i] as int);
                }
            }
        } else {
            listings_are_total(keys[place], keys[first]);
            assert(listed_before(keys, first, place));
            assert forall|i: int|
                0 <= i < position_in(keys, order, place) implies listed_before(
                keys,
                #[trigger] order[i] as int,
                place,
            ) by {
                if i > 0 {
                    assert(order[i] == rest[i - 1]);
                }
            }
            assert forall|i: int|
                position_in(keys, order, place) <= i < order.len() implies listed_before(
                keys,
                place,
                #[trigger] order[i] as int,
            ) by {
                assert(order[i] == rest[i - 1]);
            }
        }
    }
}

/// Entries always have a listing, as long as they can be counted.
pub proof fn listings_exist(keys: Seq<KeyView>) -> (order: Seq<usize>)
    requires
        keys.len() <= usize::MAX,
    ensures
        is_listing(keys, order),
        order.len() == keys.len(),
        places(order, keys.len() as int),
    decreases keys.len(),
{
    broadcast use vstd::seq_lib::group_to_multiset_ensures;

    if keys.len() == 0 {
        let order = Seq::<usize>::empty();
        assert(order =~= all_places(0));
        order
    } else {
        let known = keys.drop_last();
        let before = listings_exist(known);
        let place = (keys.len() - 1) as usize;
        assert forall|i: int, j: int| 0 <= i < j < before.len() implies #[trigger] listed_before(
            keys,
            before[i] as int,
            before[j] as int,
        ) by {
            assert(before[i] < known.len() && before[j] < known.len());
            assert(listed_before(known, before[i] as int, before[j] as int));
        }
        assert forall|i: int| 0 <= i < before.len() implies #[trigger] before[i] != place as int by {}
        position_splits(keys, before, place as int);
        let at = position_in(keys, before, place as int) as int;
        let order = before.insert(at, place);
        assert forall|i: int, j: int| 0 <= i < j < order.len() implies #[trigger] listed_before(
            keys,
            order[i] as int,
            order[j] as int,
        ) by {
            if i < at && j < at {
                assert(listed_before(keys, before[i] as int, before[j] as int));
            } else if i < at && j == at {
                assert(before[i] == order[i]);
            } else if i < at && j > at {
                assert(listed_before(keys, before[i] as int, before[j - 1] as int));
            } else if i == at {
                assert(before[j - 1] == order[j]);
            } else {
                assert(listed_before(keys, before[i - 1] as int, before[j - 1] as int));
            }
        }
        vstd::seq_lib::to_multiset_insert(before, at, place);
        assert(all_places(keys.len()) =~= all_places(known.len()).push(place));
        assert(order.to_multiset() =~= all_places(keys.len()).to_multiset());
        all_places_are_places(keys.len());
        same_places(all_places(keys.len()), order, keys.len() as int);
        order
    }
}

proof fn all_places_are_places(count: nat)
    requires
        count <= usize::MAX,
    ensures
        places(all_places(count), count as int),
{
}

/// Every place is somewhere in a listing.
pub proof fn listings_hold_every_place(keys: Seq<KeyView>, order: Seq<usize>, place: int)
    requires
        keys.len() <= usize::MAX,
        is_listing(keys, order),
        0 <= place < keys.len(),
    ensures
        exists|i: int| 0 <= i < order.len() && order[i] == place,
        order.len() == keys.len(),
        places(order, keys.len() as int),
{
    broadcast use vstd::seq_lib::group_to_multiset_ensures;

    all_places_are_places(keys.len());
    same_places(all_places(keys.len()), order, keys.len() as int);
    let wanted = place as usize;
    assert(all_places(keys.len())[place] == wanted);
    assert(all_places(keys.len()).contains(wanted));
    assert(order.to_multiset().count(wanted) > 0);
    assert(order.contains(wanted));
}

/// Names are compared byte by byte: the first byte that differs decides, and a
/// name comes before every longer one that starts with it.
pub proof fn names_are_compared_byte_by_byte(
    start: Seq<u8>,
    a: u8,
    b: u8,
    left: Seq<u8>,
    right: Seq<u8>,
)
    requires
        a < b,
    ensures
        name_before(start.push(a) + left, start.push(b) + right),
        !name_before(start.push(b) + right, start.push(a) + left),
        name_before(start, start.push(a) + left),
        !name_before(start.push(a) + left, start),
        !name_before(start, start),
    decreases start.len(),
{
    let l = start.push(a) + left;
    let r = start.push(b) + right;
    if start.len() > 0 {
        let rest = start.skip(1);
        names_are_compared_byte_by_byte(rest, a, b, left, right);
        assert(l.skip(1) =~= rest.push(a) + left);
        assert(r.skip(1) =~= rest.push(b) + right);
    }
}

/// Every directory is listed before everything else, whatever the names are.
pub proof fn directories_come_first(left: Seq<u8>, right: Seq<u8>)
    ensures
        key_before(
            KeyView { directory: true, name: left },
            KeyView { directory: false, name: right },
        ),
        !key_before(
            KeyView { directory: false, name: right },
            KeyView { directory: true, name: left },
        ),
        key_before(
            KeyView { directory: true, name: left },
            KeyView { directory: true, name: right },
        ) <==> name_before(left, right),
        key_before(
            KeyView { directory: false, name: left },
            KeyView { directory: false, name: right },
        ) <==> name_before(left, right),
{
}

} // verus!
