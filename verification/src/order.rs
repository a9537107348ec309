//! The order of titles, and sorting by it.

use vstd::prelude::*;
use vstd::string::StringSliceAdditionalSpecFns;

verus! {

/// The order of byte strings: `a` is a prefix of `b`, or the first byte in
/// which they differ is smaller in `a`.
pub open spec fn bytes_le(a: Seq<u8>, b: Seq<u8>) -> bool
    decreases a.len(),
{
    if a.len() == 0 {
        true
    } else if b.len() == 0 {
        false
    } else if a[0] == b[0] {
        bytes_le(a.drop_first(), b.drop_first())
    } else {
        a[0] < b[0]
    }
}

/// The order of titles: that of their UTF-8 bytes, which is the order of
/// `str`.
pub open spec fn title_le(a: Seq<char>, b: Seq<char>) -> bool {
    bytes_le(vstd::utf8::encode_utf8(a), vstd::utf8::encode_utf8(b))
}

/// Of two byte strings one is at most the other.
pub proof fn lemma_bytes_le_total(a: Seq<u8>, b: Seq<u8>)
    ensures
        bytes_le(a, b) || bytes_le(b, a),
    decreases a.len(),
{
    if a.len() > 0 && b.len() > 0 && a[0] == b[0] {
        lemma_bytes_le_total(a.drop_first(), b.drop_first());
    }
}

/// The order of byte strings is transitive.
pub proof fn lemma_bytes_le_transitive(a: Seq<u8>, b: Seq<u8>, c: Seq<u8>)
    requires
        bytes_le(a, b),
        bytes_le(b, c),
    ensures
        bytes_le(a, c),
    decreases a.len(),
{
    if a.len() > 0 && b.len() > 0 && c.len() > 0 && a[0] == b[0] && b[0] == c[0] {
        lemma_bytes_le_transitive(a.drop_first(), b.drop_first(), c.drop_first());
    }
}

/// Every byte string is at most itself.
pub proof fn lemma_bytes_le_reflexive(a: Seq<u8>)
    ensures
        bytes_le(a, a),
    decreases a.len(),
{
    if a.len() > 0 {
        lemma_bytes_le_reflexive(a.drop_first());
    }
}

/// Byte strings that are at most each other are equal.
pub proof fn lemma_bytes_le_antisymmetric(a: Seq<u8>, b: Seq<u8>)
    requires
        bytes_le(a, b),
        bytes_le(b, a),
    ensures
        a == b,
    decreases a.len(),
{
    if a.len() > 0 && b.len() > 0 {
        lemma_bytes_le_antisymmetric(a.drop_first(), b.drop_first());
        assert(a =~= seq![a[0]] + a.drop_first());
        assert(b =~= seq![b[0]] + b.drop_first());
    } else {
        assert(a =~= b);
    }
}

/// Whether title `a` is at most title `b`.
pub fn str_le(a: &str, b: &str) -> (at_most: bool)
    ensures
        at_most == title_le(a@, b@),
{
    let x = a.as_bytes();
    let y = b.as_bytes();
    let mut same: usize = 0;
    assert(x@.skip(0) =~= x@ && y@.skip(0) =~= y@);
    while same < x.len() && same < y.len()
        invariant
            x@ == a.spec_bytes(),
            y@ == b.spec_bytes(),
            same <= x@.len(),
            same <= y@.len(),
            bytes_le(x@, y@) == bytes_le(x@.skip(same as int), y@.skip(same as int)),
        decreases x@.len() - same,
    {
        proof {
            assert(x@.skip(same as int).drop_first() =~= x@.skip(same + 1));
            assert(y@.skip(same as int).drop_first() =~= y@.skip(same + 1));
        }
        if x[same] != y[same] {
            return x[same] < y[same];
        }
        same = same + 1;
    }
    same == x.len()
}

/// What has a title to be ordered by.
pub trait Titled {
    /// The title, as a mathematical value.
    spec fn title_view(&self) -> Seq<char>;

    /// The title.
    fn title(&self) -> (title: &str)
        ensures
            title@ == self.title_view(),
    ;
}

/// Whether a title `a` may stand before a title `b`: in ascending order where
/// `a` is at most `b`, in descending order where `b` is at most `a`.
pub open spec fn in_order(a: Seq<char>, b: Seq<char>, ascending: bool) -> bool {
    if ascending {
        title_le(a, b)
    } else {
        title_le(b, a)
    }
}

/// Whether each item may stand before all that follow it.
pub open spec fn ordered<T: Titled>(items: Seq<T>, ascending: bool) -> bool {
    forall|i: int, j: int|
        0 <= i < j < items.len() ==> in_order(
            #[trigger] items[i].title_view(),
            #[trigger] items[j].title_view(),
            ascending,
        )
}

/// Whether the titles ascend: each is at most all that follow it.
pub open spec fn titles_ascend(titles: Seq<Seq<char>>) -> bool {
    forall|i: int, j: int|
        0 <= i < j < titles.len() ==> title_le(#[trigger] titles[i], #[trigger] titles[j])
}

/// Of two titles one may stand before the other, and standing before is
/// transitive.
pub proof fn lemma_in_order(a: Seq<char>, b: Seq<char>, c: Seq<char>, ascending: bool)
    ensures
        in_order(a, b, ascending) || in_order(b, a, ascending),
        in_order(a, b, ascending) && in_order(b, c, ascending) ==> in_order(a, c, ascending),
        in_order(a, b, !ascending) == in_order(b, a, ascending),
{
    let x = vstd::utf8::encode_utf8(a);
    let y = vstd::utf8::encode_utf8(b);
    let z = vstd::utf8::encode_utf8(c);
    lemma_bytes_le_total(x, y);
    if in_order(a, b, ascending) && in_order(b, c, ascending) {
        if ascending {
            lemma_bytes_le_transitive(x, y, z);
        } else {
            lemma_bytes_le_transitive(z, y, x);
        }
    }
}

/// Holds of the items whose title ties with `title`: neither is before the
/// other.
pub open spec fn ties_with<T: Titled>(title: Seq<char>) -> spec_fn(T) -> bool {
    |item: T| title_le(item.title_view(), title) && title_le(title, item.title_view())
}

/// `items` as they are, or back to front.
spec fn in_direction<A>(items: Seq<A>, forward: bool) -> Seq<A> {
    if forward {
        items
    } else {
        items.reverse()
    }
}

/// Whether the items that tie stand in `sorted` as they stand in `items`:
/// in the same order where `sorted` ascends, back to front where it
/// descends.
spec fn keeps_ties<T: Titled>(items: Seq<T>, sorted: Seq<T>, ascending: bool) -> bool {
    forall|title: Seq<char>| #[trigger]
        sorted.filter(ties_with::<T>(title)) == in_direction(
            items.filter(ties_with::<T>(title)),
            ascending,
        )
}

/// Whether `a` may stand before `b`.
fn goes_first(a: &str, b: &str, ascending: bool) -> (first: bool)
    ensures
        first == in_order(a@, b@, ascending),
{
    if ascending {
        str_le(a, b)
    } else {
        str_le(b, a)
    }
}

/// Whether every item of `front` may stand before every item of `back`.
spec fn all_before<T: Titled>(front: Seq<T>, back: Seq<T>, ascending: bool) -> bool {
    forall|i: int, j: int|
        0 <= i < front.len() && 0 <= j < back.len() ==> in_order(
            #[trigger] front[i].title_view(),
            #[trigger] back[j].title_view(),
            ascending,
        )
}

/// One step of merging keeps the order: `item` is the last of a list that
/// is ordered the other way round, and it may stand before the last of the
/// other list. Then it may follow what is merged, and stand before all that
/// is left.
proof fn lemma_take_keeps_order<T: Titled>(
    merged: Seq<T>,
    rest: Seq<T>,
    other: Seq<T>,
    item: T,
    ascending: bool,
)
    requires
        ordered(merged, ascending),
        ordered(rest.push(item), !ascending),
        ordered(other, !ascending),
        all_before(merged, rest.push(item), ascending),
        all_before(merged, other, ascending),
        other.len() > 0 ==> in_order(item.title_view(), other.last().title_view(), ascending),
    ensures
        ordered(merged.push(item), ascending),
        ordered(rest, !ascending),
        all_before(merged.push(item), rest, ascending),
        all_before(merged.push(item), other, ascending),
{
    let longer = rest.push(item);
    let more = merged.push(item);
    assert forall|i: int, j: int| 0 <= i < j < rest.len() implies in_order(
        #[trigger] rest[i].title_view(),
        #[trigger] rest[j].title_view(),
        !ascending,
    ) by {
        assert(longer[i] == rest[i] && longer[j] == rest[j]);
    }
    assert forall|i: int, j: int| 0 <= i < j < more.len() implies in_order(
        #[trigger] more[i].title_view(),
        #[trigger] more[j].title_view(),
        ascending,
    ) by {
        assert(more[i] == merged[i]);
        if j < merged.len() {
            assert(more[j] == merged[j]);
        } else {
            assert(longer[rest.len() as int] == item);
        }
    }
    assert forall|i: int, j: int| 0 <= i < more.len() && 0 <= j < rest.len() implies in_order(
        #[trigger] more[i].title_view(),
        #[trigger] rest[j].title_view(),
        ascending,
    ) by {
        assert(longer[j] == rest[j]);
        if i < merged.len() {
            assert(more[i] == merged[i]);
        } else {
            assert(longer[rest.len() as int] == item);
            assert(in_order(longer[j].title_view(), longer[rest.len() as int].title_view(), !ascending));
            lemma_in_order(rest[j].title_view(), item.title_view(), item.title_view(), ascending);
        }
    }
    assert forall|i: int, j: int| 0 <= i < more.len() && 0 <= j < other.len() implies in_order(
        #[trigger] more[i].title_view(),
        #[trigger] other[j].title_view(),
        ascending,
    ) by {
        if i < merged.len() {
            assert(more[i] == merged[i]);
        } else {
            let last = other.last().title_view();
            if j < other.len() - 1 {
                assert(in_order(other[j].title_view(), other[other.len() - 1].title_view(), !ascending));
                lemma_in_order(other[j].title_view(), last, last, ascending);
                lemma_in_order(item.title_view(), last, other[j].title_view(), ascending);
            }
        }
    }
}

/// No item of `items` ties with `title`, where `items` is ordered the other
/// way round, `item` ties with `title`, and the last of `items` may not
/// stand before `item`.
proof fn lemma_none_ties<T: Titled>(items: Seq<T>, item: T, title: Seq<char>, ascending: bool)
    requires
        ordered(items, !ascending),
        ties_with::<T>(title)(item),
        items.len() > 0 ==> !in_order(items.last().title_view(), item.title_view(), ascending),
    ensures
        items.filter(ties_with::<T>(title)).len() == 0,
{
    let ties = ties_with::<T>(title);
    assert forall|j: int| 0 <= j < items.len() implies !ties(#[trigger] items[j]) by {
        let last = items.last().title_view();
        let this = items[j].title_view();
        if ties(items[j]) {
            lemma_in_order(this, title, item.title_view(), ascending);
            lemma_in_order(title, this, item.title_view(), ascending);
            lemma_in_order(last, this, item.title_view(), ascending);
            if j < items.len() - 1 {
                assert(in_order(this, last, !ascending));
                lemma_in_order(this, last, last, ascending);
            }
        }
    }
    assert(items.all(|other: T| !ties(other)));
    items.lemma_all_neg_filter_empty(ties);
}

/// What is merged of the items that tie with `title`, then what is left of
/// them in `first`, then what is left of them in `second`, the two read back
/// to front.
spec fn ties_in_turn<T: Titled>(
    merged: Seq<T>,
    first: Seq<T>,
    second: Seq<T>,
    title: Seq<char>,
) -> Seq<T> {
    merged.filter(ties_with::<T>(title)) + first.filter(ties_with::<T>(title)).reverse()
        + second.filter(ties_with::<T>(title)).reverse()
}

/// Taking the last item of `first` leaves the items that tie in their turn.
proof fn lemma_take_first_keeps_turn<T: Titled>(
    merged: Seq<T>,
    first: Seq<T>,
    second: Seq<T>,
    item: T,
    title: Seq<char>,
)
    ensures
        ties_in_turn(merged.push(item), first, second, title) == ties_in_turn(
            merged,
            first.push(item),
            second,
            title,
        ),
{
    let ties = ties_with::<T>(title);
    first.lemma_filter_push(item, ties);
    merged.lemma_filter_push(item, ties);
    assert(first.filter(ties).push(item).reverse() =~= seq![item] + first.filter(ties).reverse());
    assert(ties_in_turn(merged.push(item), first, second, title) =~= ties_in_turn(
        merged,
        first.push(item),
        second,
        title,
    ));
}

/// Taking the last item of `second` leaves the items that tie in their
/// turn, where no item of `first` ties with it.
proof fn lemma_take_second_keeps_turn<T: Titled>(
    merged: Seq<T>,
    first: Seq<T>,
    second: Seq<T>,
    item: T,
    title: Seq<char>,
)
    requires
        ties_with::<T>(title)(item) ==> first.filter(ties_with::<T>(title)).len() == 0,
    ensures
        ties_in_turn(merged.push(item), first, second, title) == ties_in_turn(
            merged,
            first,
            second.push(item),
            title,
        ),
{
    let ties = ties_with::<T>(title);
    second.lemma_filter_push(item, ties);
    merged.lemma_filter_push(item, ties);
    assert(second.filter(ties).push(item).reverse() =~= seq![item] + second.filter(
        ties,
    ).reverse());
    if ties(item) {
        assert(first.filter(ties).reverse() =~= Seq::<T>::empty());
    }
    assert(ties_in_turn(merged.push(item), first, second, title) =~= ties_in_turn(
        merged,
        first,
        second.push(item),
        title,
    ));
}

/// Merges two lists that are ordered the other way round into one that is
/// ordered as asked, taking from their ends. Of items that tie, those of
/// `first` are taken before those of `second`.
fn merge<T: Titled>(first: Vec<T>, second: Vec<T>, ascending: bool) -> (merged: Vec<T>)
    requires
        ordered(first@, !ascending),
        ordered(second@, !ascending),
    ensures
        ordered(merged@, ascending),
        merged@.to_multiset() == first@.to_multiset().add(second@.to_multiset()),
        forall|title: Seq<char>| #[trigger]
            merged@.filter(ties_with::<T>(title)) == first@.filter(
                ties_with::<T>(title),
            ).reverse() + second@.filter(ties_with::<T>(title)).reverse(),
{
    broadcast use vstd::seq_lib::group_to_multiset_ensures;

    let ghost first_given = first@;
    let ghost second_given = second@;
    let ghost total = first@.to_multiset().add(second@.to_multiset());
    let mut first = first;
    let mut second = second;
    let mut merged: Vec<T> = Vec::new();
    proof {
        assert(merged@.to_multiset().add(first@.to_multiset()).add(second@.to_multiset())
            =~= total);
        assert forall|title: Seq<char>| #[trigger]
            ties_in_turn(merged@, first@, second@, title) == ties_in_turn(
                Seq::empty(),
                first_given,
                second_given,
                title,
            ) by {
            assert(merged@ =~= Seq::<T>::empty());
        }
    }
    while first.len() > 0 || second.len() > 0
        invariant
            ordered(first@, !ascending),
            ordered(second@, !ascending),
            ordered(merged@, ascending),
            all_before(merged@, first@, ascending),
            all_before(merged@, second@, ascending),
            merged@.to_multiset().add(first@.to_multiset()).add(second@.to_multiset()) == total,
            forall|title: Seq<char>| #[trigger]
                ties_in_turn(merged@, first@, second@, title) == ties_in_turn(
                    Seq::empty(),
                    first_given,
                    second_given,
                    title,
                ),
        decreases first@.len() + second@.len(),
    {
        let from_first = if second.len() == 0 {
            true
        } else if first.len() == 0 {
            false
        } else {
            goes_first(first[first.len() - 1].title(), second[second.len() - 1].title(), ascending)
        };
        let ghost merged_before = merged@;
        if from_first {
            let ghost first_before = first@;
            let item = first.pop().unwrap();
            merged.push(item);
            proof {
                assert(first_before =~= first@.push(item));
                lemma_take_keeps_order(merged_before, first@, second@, item, ascending);
                vstd::seq_lib::to_multiset_build(first@, item);
                vstd::seq_lib::to_multiset_build(merged_before, item);
                assert(merged@.to_multiset().add(first@.to_multiset()).add(second@.to_multiset())
                    =~= total);
                assert forall|title: Seq<char>| #[trigger]
                    ties_in_turn(merged@, first@, second@, title) == ties_in_turn(
                        Seq::empty(),
                        first_given,
                        second_given,
                        title,
                    ) by {
                    lemma_take_first_keeps_turn(merged_before, first@, second@, item, title);
                    assert(ties_in_turn(merged_before, first_before, second@, title)
                        == ties_in_turn(Seq::empty(), first_given, second_given, title));
                }
            }
        } else {
            let ghost second_before = second@;
            let item = second.pop().unwrap();
            merged.push(item);
            proof {
                assert(second_before =~= second@.push(item));
                if first@.len() > 0 {
                    lemma_in_order(
                        first@.last().title_view(),
                        item.title_view(),
                        item.title_view(),
                        ascending,
                    );
                }
                lemma_take_keeps_order(merged_before, second@, first@, item, ascending);
                vstd::seq_lib::to_multiset_build(second@, item);
                vstd::seq_lib::to_multiset_build(merged_before, item);
                assert(merged@.to_multiset().add(first@.to_multiset()).add(second@.to_multiset())
                    =~= total);
                assert forall|title: Seq<char>| #[trigger]
                    ties_in_turn(merged@, first@, second@, title) == ties_in_turn(
                        Seq::empty(),
                        first_given,
                        second_given,
                        title,
                    ) by {
                    if ties_with::<T>(title)(item) {
                        lemma_none_ties(first@, item, title, ascending);
                    }
                    lemma_take_second_keeps_turn(merged_before, first@, second@, item, title);
                    assert(ties_in_turn(merged_before, first@, second_before, title)
                        == ties_in_turn(Seq::empty(), first_given, second_given, title));
                }
            }
        }
    }
    proof {
        assert(first@ =~= Seq::<T>::empty() && second@ =~= Seq::<T>::empty());
        assert(merged@.to_multiset() =~= total);
        assert forall|title: Seq<char>| #[trigger]
            merged@.filter(ties_with::<T>(title)) == first_given.filter(
                ties_with::<T>(title),
            ).reverse() + second_given.filter(ties_with::<T>(title)).reverse() by {
            let ties = ties_with::<T>(title);
            first@.lemma_filter_len(ties);
            second@.lemma_filter_len(ties);
            Seq::<T>::empty().lemma_filter_len(ties);
            assert(ties_in_turn(merged@, first@, second@, title) =~= merged@.filter(ties));
            assert(ties_in_turn(Seq::empty(), first_given, second_given, title)
                =~= first_given.filter(ties).reverse() + second_given.filter(ties).reverse());
        }
    }
    merged
}

/// Sorts by merging: each half is sorted the other way round, and the two
/// are merged from their ends.
fn sort_in_order<T: Titled>(items: Vec<T>, ascending: bool) -> (sorted: Vec<T>)
    ensures
        ordered(sorted@, ascending),
        sorted@.to_multiset() == items@.to_multiset(),
        keeps_ties(items@, sorted@, ascending),
    decreases items@.len(),
{
    let ghost all = items@;
    if items.len() < 2 {
        proof {
            assert forall|title: Seq<char>| #[trigger]
                all.filter(ties_with::<T>(title)) == in_direction(
                    all.filter(ties_with::<T>(title)),
                    ascending,
                ) by {
                let tied = all.filter(ties_with::<T>(title));
                all.lemma_filter_len(ties_with::<T>(title));
                assert(tied.reverse() =~= tied);
            }
        }
        return items;
    }
    let mut left = items;
    let half = left.len() / 2;
    let right = left.split_off(half);
    let ghost front = left@;
    let ghost back = right@;
    proof {
        assert(all =~= front + back);
        vstd::seq_lib::lemma_multiset_commutative(front, back);
    }
    let left = sort_in_order(left, !ascending);
    let right = sort_in_order(right, !ascending);
    if ascending {
        let sorted = merge(left, right, true);
        proof {
            assert forall|title: Seq<char>| #[trigger]
                sorted@.filter(ties_with::<T>(title)) == all.filter(ties_with::<T>(title)) by {
                let ties = ties_with::<T>(title);
                Seq::filter_distributes_over_add(front, back, ties);
                assert(left@.filter(ties) == front.filter(ties).reverse());
                assert(right@.filter(ties) == back.filter(ties).reverse());
                assert(front.filter(ties).reverse().reverse() =~= front.filter(ties));
                assert(back.filter(ties).reverse().reverse() =~= back.filter(ties));
            }
        }
        sorted
    } else {
        let sorted = merge(right, left, false);
        proof {
            assert(sorted@.to_multiset() =~= all.to_multiset());
            assert forall|title: Seq<char>| #[trigger]
                sorted@.filter(ties_with::<T>(title)) == all.filter(
                    ties_with::<T>(title),
                ).reverse() by {
                let ties = ties_with::<T>(title);
                Seq::filter_distributes_over_add(front, back, ties);
                assert(left@.filter(ties) == front.filter(ties));
                assert(right@.filter(ties) == back.filter(ties));
                assert(back.filter(ties).reverse() + front.filter(ties).reverse() =~= (
                front.filter(ties) + back.filter(ties)).reverse());
            }
        }
        sorted
    }
}

/// Sorts by title, ascending. The result holds the same items, each as often
/// as `items` does, and items whose titles tie keep their order.
pub fn sort_by_title<T: Titled>(items: Vec<T>) -> (sorted: Vec<T>)
    ensures
        ordered(sorted@, true),
        sorted@.to_multiset() == items@.to_multiset(),
        forall|title: Seq<char>| #[trigger]
            sorted@.filter(ties_with::<T>(title)) == items@.filter(ties_with::<T>(title)),
{
    sort_in_order(items, true)
}

} // verus!
