//! Sorted copies of a container of vacancies, by company name, by
//! specialization and by education: the items are cloned and the clones
//! sorted by their own keys. Each sort is stable, as `sort_by` is.
use vstd::prelude::*;
use crate::agency::{self, education_rank, Education, VacancyTrait};
use crate::agency_ext;
use crate::generic_container::GenericContainer;
use crate::order::{
    before, is_stable_order, key_lt, lemma_before_not_reversed, lemma_key_lt_irreflexive,
    lemma_single_key_lt,
    lemma_sorted_keys_stay, stable_order, text_key, text_key_of,
};

verus! {

/// The views of a list of keys.
pub open spec fn key_views(keys: Seq<Vec<u64>>) -> Seq<Seq<u64>> {
    keys.map_values(|k: Vec<u64>| k@)
}

/// `copy` holds, at each place, a clone of the item of `src` there.
pub open spec fn is_clone_list<Q: Clone>(src: Seq<Q>, copy: Seq<Q>) -> bool {
    &&& copy.len() == src.len()
    &&& forall|i: int| 0 <= i < src.len() ==> cloned(#[trigger] src[i], copy[i])
}

/// `res` holds the items of `items` in the stable order of `keys`.
pub open spec fn is_arranged<Q>(items: Seq<Q>, keys: Seq<Seq<u64>>, res: Seq<Q>) -> bool {
    exists|order: Seq<usize>|
        {
            &&& is_stable_order(keys, order)
            &&& res.len() == items.len()
            &&& forall|i: int| 0 <= i < res.len() ==> res[i] == #[trigger] items[order[i] as int]
        }
}

/// `res` is what sorting `src` by `field` gives: the items are cloned, and
/// the clones are put in the stable order of their own keys.
pub open spec fn is_sorted_copy<Q: VacancyTrait + Clone>(
    src: Seq<Q>,
    field: SortField,
    res: Seq<Q>,
) -> bool {
    exists|copy: Seq<Q>| is_clone_list(src, copy) && is_arranged(copy, keys_by(copy, field), res)
}

/// The keys of items by company name.
pub open spec fn company_keys<Q: VacancyTrait>(s: Seq<Q>) -> Seq<Seq<u64>> {
    s.map_values(|q: Q| text_key(q.company_name_spec()))
}

/// The keys of items by specialization.
pub open spec fn specialization_keys<Q: VacancyTrait>(s: Seq<Q>) -> Seq<Seq<u64>> {
    s.map_values(|q: Q| text_key(q.specialization_spec()))
}

/// The keys of items by education.
pub open spec fn education_keys<Q: VacancyTrait>(s: Seq<Q>) -> Seq<Seq<u64>> {
    s.map_values(|q: Q| seq![education_rank(q.education_spec())])
}

/// Keys in ascending order: no key is less than one before it.
pub open spec fn is_ascending(keys: Seq<Seq<u64>>) -> bool {
    forall|i: int, j: int| 0 <= i < j < keys.len() ==> !key_lt(#[trigger] keys[j], #[trigger] keys[i])
}

/// A clone of an item has the item's company name, specialization and
/// education (so sorting a copy sorts by the same keys).
pub open spec fn clones_keep_keys<Q: VacancyTrait + Clone>() -> bool {
    forall|a: Q, b: Q|
        #[trigger] cloned(a, b) ==> a.company_name_spec() == b.company_name_spec()
            && a.specialization_spec() == b.specialization_spec() && a.education_spec()
            == b.education_spec()
}

/// Clones of a vacancy keep its keys.
pub proof fn lemma_vacancy_clones_keep_keys()
    ensures
        clones_keep_keys::<agency::Vacancy>(),
{
    assert forall|a: agency::Vacancy, b: agency::Vacancy| #[trigger] cloned(a, b) implies a.company_name_spec()
        == b.company_name_spec() && a.specialization_spec() == b.specialization_spec()
        && a.education_spec() == b.education_spec() by {
        agency::lemma_clone_keeps_view(a, b);
    }
}

/// Clones of a vacancy with languages and car keep its keys.
pub proof fn lemma_extended_vacancy_clones_keep_keys()
    ensures
        clones_keep_keys::<agency_ext::Vacancy>(),
{
    assert forall|a: agency_ext::Vacancy, b: agency_ext::Vacancy| #[trigger] cloned(a, b) implies a.company_name_spec()
        == b.company_name_spec() && a.specialization_spec() == b.specialization_spec()
        && a.education_spec() == b.education_spec() by {
        agency_ext::lemma_clone_keeps_view(a, b);
    }
}

/// The key a sort by `field` uses for each item.
pub open spec fn keys_by<Q: VacancyTrait>(s: Seq<Q>, field: SortField) -> Seq<Seq<u64>> {
    match field {
        SortField::CompanyName => company_keys(s),
        SortField::Specialization => specialization_keys(s),
        SortField::Education => education_keys(s),
    }
}

/// What a sort orders by.
pub enum SortField {
    CompanyName,
    Specialization,
    Education,
}

/// Items put in the stable order of their keys have ascending keys.
proof fn lemma_arranged_ascending<Q: VacancyTrait>(items: Seq<Q>, res: Seq<Q>, field: SortField)
    requires
        is_arranged(items, keys_by(items, field), res),
    ensures
        is_ascending(keys_by(res, field)),
{
    let keys = keys_by(items, field);
    let order = choose|order: Seq<usize>|
        {
            &&& is_stable_order(keys, order)
            &&& res.len() == items.len()
            &&& forall|i: int| 0 <= i < res.len() ==> res[i] == #[trigger] items[order[i] as int]
        };
    let rk = keys_by(res, field);
    assert forall|i: int| 0 <= i < res.len() implies #[trigger] rk[i] == keys[order[i] as int] by {
        assert(res[i] == items[order[i] as int]);
    }
    assert forall|i: int, j: int| 0 <= i < j < rk.len() implies !key_lt(
        #[trigger] rk[j],
        #[trigger] rk[i],
    ) by {
        assert(rk[i] == keys[order[i] as int]);
        assert(rk[j] == keys[order[j] as int]);
        assert(before(keys, order[i] as int, order[j] as int));
        lemma_before_not_reversed(keys, order[i] as int, order[j] as int);
    }
}

/// A sorted copy is in the order its field asks for, read off the items
/// themselves: company names and specializations in the order of their
/// code points (as `str` compares them), educations from none required
/// through school to university.
pub proof fn lemma_sorted_copy_in_order<Q: VacancyTrait + Clone>(
    data: Seq<Q>,
    field: SortField,
    r: Seq<Q>,
)
    requires
        is_sorted_copy(data, field, r),
    ensures
        r.len() == data.len(),
        field is CompanyName ==> forall|i: int, j: int|
            0 <= i < j < r.len() ==> !key_lt(
                text_key((#[trigger] r[j]).company_name_spec()),
                text_key((#[trigger] r[i]).company_name_spec()),
            ),
        field is Specialization ==> forall|i: int, j: int|
            0 <= i < j < r.len() ==> !key_lt(
                text_key((#[trigger] r[j]).specialization_spec()),
                text_key((#[trigger] r[i]).specialization_spec()),
            ),
        field is Education ==> forall|i: int, j: int|
            0 <= i < j < r.len() ==> !education_before(
                (#[trigger] r[j]).education_spec(),
                (#[trigger] r[i]).education_spec(),
            ),
{
    let copy = choose|copy: Seq<Q>| is_clone_list(data, copy) && is_arranged(copy, keys_by(copy, field), r);
    lemma_arranged_ascending(copy, r, field);
    let rk = keys_by(r, field);
    assert forall|i: int, j: int| 0 <= i < j < r.len() implies !key_lt(#[trigger] rk[j], #[trigger] rk[i]) by {}
    if field is CompanyName {
        assert forall|i: int, j: int| 0 <= i < j < r.len() implies !key_lt(
            text_key((#[trigger] r[j]).company_name_spec()),
            text_key((#[trigger] r[i]).company_name_spec()),
        ) by {
            assert(!key_lt(rk[j], rk[i]));
            assert(rk[j] == text_key(r[j].company_name_spec()));
            assert(rk[i] == text_key(r[i].company_name_spec()));
        }
    }
    if field is Specialization {
        assert forall|i: int, j: int| 0 <= i < j < r.len() implies !key_lt(
            text_key((#[trigger] r[j]).specialization_spec()),
            text_key((#[trigger] r[i]).specialization_spec()),
        ) by {
            assert(!key_lt(rk[j], rk[i]));
            assert(rk[j] == text_key(r[j].specialization_spec()));
            assert(rk[i] == text_key(r[i].specialization_spec()));
        }
    }
    if field is Education {
        assert forall|i: int, j: int| 0 <= i < j < r.len() implies !education_before(
            (#[trigger] r[j]).education_spec(),
            (#[trigger] r[i]).education_spec(),
        ) by {
            assert(!key_lt(rk[j], rk[i]));
            lemma_single_key_lt(
                education_rank(r[j].education_spec()),
                education_rank(r[i].education_spec()),
            );
        }
    }
}

/// `a` comes before `b` in the order of educations: none required, then
/// school, then university.
pub open spec fn education_before(a: Education, b: Education) -> bool {
    match (a, b) {
        (Education::NoneRequired, Education::School) => true,
        (Education::NoneRequired, Education::University) => true,
        (Education::School, Education::University) => true,
        _ => false,
    }
}

/// Sorting a sorted copy again by the same field changes nothing, when
/// clones keep the keys: every item of the second copy is a clone of the
/// item at the same place in the first.
pub proof fn lemma_sort_twice<Q: VacancyTrait + Clone>(
    data: Seq<Q>,
    once: Seq<Q>,
    twice: Seq<Q>,
    field: SortField,
)
    requires
        clones_keep_keys::<Q>(),
        is_sorted_copy(data, field, once),
        is_sorted_copy(once, field, twice),
    ensures
        twice.len() == once.len(),
        forall|i: int| 0 <= i < twice.len() ==> cloned(#[trigger] once[i], twice[i]),
{
    let copy1 = choose|copy: Seq<Q>|
        is_clone_list(data, copy) && is_arranged(copy, keys_by(copy, field), once);
    lemma_arranged_ascending(copy1, once, field);
    let copy = choose|copy: Seq<Q>|
        is_clone_list(once, copy) && is_arranged(copy, keys_by(copy, field), twice);
    let keys = keys_by(copy, field);
    assert forall|i: int| 0 <= i < copy.len() implies #[trigger] keys[i] == keys_by(once, field)[i] by {
        assert(cloned(once[i], copy[i]));
    }
    assert forall|i: int, j: int| 0 <= i < j < keys.len() implies !key_lt(
        #[trigger] keys[j],
        #[trigger] keys[i],
    ) by {
        assert(keys[i] == keys_by(once, field)[i]);
        assert(keys[j] == keys_by(once, field)[j]);
    }
    let order = choose|order: Seq<usize>|
        {
            &&& is_stable_order(keys, order)
            &&& twice.len() == copy.len()
            &&& forall|i: int| 0 <= i < twice.len() ==> twice[i] == #[trigger] copy[order[i] as int]
        };
    lemma_sorted_keys_stay(keys, order);
    assert forall|i: int| 0 <= i < twice.len() implies cloned(#[trigger] once[i], twice[i]) by {
        assert(order[i] == i);
        assert(twice[i] == copy[order[i] as int]);
        assert(cloned(once[i], copy[i]));
    }
}

fn clone_all<Q: Clone>(items: &Vec<Q>) -> (r: Vec<Q>)
    ensures
        is_clone_list(items@, r@),
{
    let mut r: Vec<Q> = Vec::new();
    let mut i: usize = 0;
    while i < items.len()
        invariant
            i <= items@.len(),
            r@.len() == i,
            forall|j: int| 0 <= j < i ==> cloned(#[trigger] items@[j], r@[j]),
        decreases items@.len() - i,
    {
        let item = items[i].clone();
        r.push(item);
        i = i + 1;
    }
    r
}

/// Moves the items into the stable order of their keys.
fn arrange<Q>(items: Vec<Q>, keys: &Vec<Vec<u64>>) -> (r: Vec<Q>)
    requires
        keys@.len() == items@.len(),
    ensures
        is_arranged(items@, key_views(keys@), r@),
{
    let ghost all = items@;
    let n: usize = items.len();
    let order = stable_order(keys);
    let ghost ks = key_views(keys@);
    assert(ks == keys@.map_values(|k: Vec<u64>| k@));
    // Every position occurs once in the order.
    assert forall|a: int, b: int| 0 <= a < b < order@.len() implies order@[a] != order@[b] by {
        assert(before(ks, order@[a] as int, order@[b] as int));
        if order@[a] == order@[b] {
            lemma_key_lt_irreflexive(ks[order@[a] as int]);
        }
    }
    let mut rest = items;
    let mut slots: Vec<Option<Q>> = Vec::new();
    while rest.len() > 0
        invariant
            all.len() == n,
            slots@.len() + rest@.len() == n,
            rest@ == all.skip(slots@.len() as int),
            forall|k: int| 0 <= k < slots@.len() ==> #[trigger] slots@[k] == Some(all[k]),
        decreases rest@.len(),
    {
        let ghost done: int = slots@.len() as int;
        let x = rest.remove(0);
        assert(x == all[done]);
        assert(rest@ =~= all.skip(done + 1));
        slots.push(Some(x));
    }
    let mut r: Vec<Q> = Vec::new();
    let mut a: usize = 0;
    while a < n
        invariant
            all.len() == n,
            slots@.len() == n,
            order@.len() == n,
            is_stable_order(ks, order@),
            ks.len() == n,
            forall|x: int, y: int| 0 <= x < y < order@.len() ==> order@[x] != order@[y],
            a <= n,
            r@.len() == a,
            forall|b: int| 0 <= b < a ==> r@[b] == #[trigger] all[order@[b] as int],
            forall|k: int|
                0 <= k < n && (forall|b: int| 0 <= b < a ==> order@[b] != k) ==> #[trigger] slots@[k]
                    == Some(all[k]),
        decreases n - a,
    {
        let k: usize = order[a];
        assert(k < n);
        assert(forall|b: int| 0 <= b < a ==> order@[b] != k);
        assert(slots@[k as int] == Some(all[k as int]));
        let ghost before_slots = slots@;
        let mut taken: Option<Q> = None;
        slots.set_and_swap(k, &mut taken);
        assert forall|k2: int|
            0 <= k2 < n && (forall|b: int| 0 <= b < a + 1 ==> order@[b] != k2) implies #[trigger] slots@[k2]
                == Some(all[k2]) by {
            assert(order@[a as int] != k2);
            assert(slots@[k2] == before_slots[k2]);
        }
        match taken {
            Some(x) => {
                r.push(x);
            },
            None => {
                assert(false);
            },
        }
        a = a + 1;
    }
    r
}

fn company_key_list<Q: VacancyTrait>(items: &Vec<Q>) -> (keys: Vec<Vec<u64>>)
    ensures
        key_views(keys@) == company_keys(items@),
{
    let mut keys: Vec<Vec<u64>> = Vec::new();
    let mut i: usize = 0;
    while i < items.len()
        invariant
            i <= items@.len(),
            key_views(keys@) =~= company_keys(items@.take(i as int)),
        decreases items@.len() - i,
    {
        let key = text_key_of(items[i].company_name());
        let ghost old_keys = keys@;
        keys.push(key);
        assert(key_views(keys@) =~= key_views(old_keys).push(key@));
        assert(items@.take(i + 1) =~= items@.take(i as int).push(items@[i as int]));
        i = i + 1;
    }
    assert(items@.take(items@.len() as int) =~= items@);
    keys
}

fn specialization_key_list<Q: VacancyTrait>(items: &Vec<Q>) -> (keys: Vec<Vec<u64>>)
    ensures
        key_views(keys@) == specialization_keys(items@),
{
    let mut keys: Vec<Vec<u64>> = Vec::new();
    let mut i: usize = 0;
    while i < items.len()
        invariant
            i <= items@.len(),
            key_views(keys@) =~= specialization_keys(items@.take(i as int)),
        decreases items@.len() - i,
    {
        let key = text_key_of(items[i].specialization());
        let ghost old_keys = keys@;
        keys.push(key);
        assert(key_views(keys@) =~= key_views(old_keys).push(key@));
        assert(items@.take(i + 1) =~= items@.take(i as int).push(items@[i as int]));
        i = i + 1;
    }
    assert(items@.take(items@.len() as int) =~= items@);
    keys
}

fn education_key_list<Q: VacancyTrait>(items: &Vec<Q>) -> (keys: Vec<Vec<u64>>)
    ensures
        key_views(keys@) == education_keys(items@),
{
    let mut keys: Vec<Vec<u64>> = Vec::new();
    let mut i: usize = 0;
    while i < items.len()
        invariant
            i <= items@.len(),
            key_views(keys@) =~= education_keys(items@.take(i as int)),
        decreases items@.len() - i,
    {
        let mut key: Vec<u64> = Vec::new();
        key.push(items[i].education().rank());
        assert(key@ =~= seq![education_rank(items@[i as int].education_spec())]);
        let ghost old_keys = keys@;
        keys.push(key);
        assert(key_views(keys@) =~= key_views(old_keys).push(key@));
        assert(items@.take(i + 1) =~= items@.take(i as int).push(items@[i as int]));
        i = i + 1;
    }
    assert(items@.take(items@.len() as int) =~= items@);
    keys
}

/// A copy of the vacancies sorted by company name (stably; names compare as
/// `str` does): the vacancies are cloned and the clones sorted by name.
pub fn sort_by_company_name<Q: VacancyTrait + Clone>(data: &GenericContainer<Q>) -> (r:
    GenericContainer<Q>)
    ensures
        is_sorted_copy(data@, SortField::CompanyName, r@),
        is_ascending(company_keys(r@)),
        forall|i: int, j: int|
            0 <= i < j < r@.len() ==> !key_lt(
                text_key((#[trigger] r@[j]).company_name_spec()),
                text_key((#[trigger] r@[i]).company_name_spec()),
            ),
{
    let copy = clone_all(data.items());
    let keys = company_key_list(&copy);
    let ghost c = copy@;
    assert(key_views(keys@).len() == keys@.len());
    let sorted = arrange(copy, &keys);
    proof {
        lemma_arranged_ascending(c, sorted@, SortField::CompanyName);
    }
    let r = GenericContainer::new(sorted);
    proof {
        lemma_sorted_copy_in_order(data@, SortField::CompanyName, r@);
    }
    r
}

/// A copy of the vacancies sorted by specialization (stably; texts compare
/// as `str` does): the vacancies are cloned and the clones sorted.
pub fn sort_by_specialization<Q: VacancyTrait + Clone>(data: &GenericContainer<Q>) -> (r:
    GenericContainer<Q>)
    ensures
        is_sorted_copy(data@, SortField::Specialization, r@),
        is_ascending(specialization_keys(r@)),
        forall|i: int, j: int|
            0 <= i < j < r@.len() ==> !key_lt(
                text_key((#[trigger] r@[j]).specialization_spec()),
                text_key((#[trigger] r@[i]).specialization_spec()),
            ),
{
    let copy = clone_all(data.items());
    let keys = specialization_key_list(&copy);
    let ghost c = copy@;
    assert(key_views(keys@).len() == keys@.len());
    let sorted = arrange(copy, &keys);
    proof {
        lemma_arranged_ascending(c, sorted@, SortField::Specialization);
    }
    let r = GenericContainer::new(sorted);
    proof {
        lemma_sorted_copy_in_order(data@, SortField::Specialization, r@);
    }
    r
}

/// A copy of the vacancies sorted by the education asked (stably, from
/// none required to university): the vacancies are cloned and the clones
/// sorted.
pub fn sort_by_education<Q: VacancyTrait + Clone>(data: &GenericContainer<Q>) -> (r:
    GenericContainer<Q>)
    ensures
        is_sorted_copy(data@, SortField::Education, r@),
        is_ascending(education_keys(r@)),
        forall|i: int, j: int|
            0 <= i < j < r@.len() ==> !education_before(
                (#[trigger] r@[j]).education_spec(),
                (#[trigger] r@[i]).education_spec(),
            ),
{
    let copy = clone_all(data.items());
    let keys = education_key_list(&copy);
    let ghost c = copy@;
    assert(key_views(keys@).len() == keys@.len());
    let sorted = arrange(copy, &keys);
    proof {
        lemma_arranged_ascending(c, sorted@, SortField::Education);
    }
    let r = GenericContainer::new(sorted);
    proof {
        lemma_sorted_copy_in_order(data@, SortField::Education, r@);
    }
    r
}

} // verus!
