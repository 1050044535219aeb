//! What an export writes: all tags, the category hierarchy below the top
//! level categories, and the bookmarks, one per url, ordered by url.

use vstd::prelude::*;
use crate::records::{Bookmark, Category, Info, strings_view, copy_strings};
use crate::category_tree::{find_category, find_category_index, subs_of};
use crate::text_order::{
    distinct_at,
    lemma_earlier_has_first,
    lemma_first_occurrences_distinct,
    first_occurrences,
    first_occurrences_spec,
    is_first_occurrence,
    sorted_order,
    same_elements,
    strictly_sorted,
    text_less,
};

verus! {

/// Is `id` a random uuid: its version nibble 4 and its variant bits `10`?
pub open spec fn is_random_uuid(id: u128) -> bool {
    &&& (id >> 76u128) & 0xfu128 == 4
    &&& (id >> 62u128) & 0x3u128 == 2
}

/// Calls `uuid::Uuid::new_v4` and gives the uuid as a number. The uuid is
/// random; the source sets its version nibble to 4 and its variant bits to
/// `10`, which is all that is stated of it.
#[verifier::external_body]
fn new_uuid() -> (id: u128)
    ensures
        is_random_uuid(id),
{
    uuid::Uuid::new_v4().as_u128()
}

/// The identifiers of a category, as exported.
#[derive(Debug, Clone)]
pub struct IdentifierData {
    /// Identifiers that must all be contained.
    pub require: Vec<String>,
    /// Identifiers matched as whole words.
    pub whole: Vec<String>,
    /// Identifiers of which one must be contained.
    pub included: Vec<String>,
}

/// A category as exported, with its subcategories nested in it.
#[derive(Debug)]
pub struct CategoryData {
    /// Display name.
    pub name: String,
    /// Description.
    pub info: String,
    /// Identifiers.
    pub identifier: IdentifierData,
    /// Subcategories, in the order the category lists them.
    pub subcategory: Vec<CategoryData>,
}

/// A bookmark as exported.
#[derive(Debug, Clone)]
pub struct BookmarkData {
    /// Url.
    pub url: String,
    /// Description.
    pub info: String,
    /// A random identifier.
    pub uuid: u128,
    /// Tags.
    pub tag: Vec<String>,
}

/// Everything an export writes.
#[derive(Debug)]
pub struct FileData {
    /// The tags of all infos, in order.
    pub tag: Vec<String>,
    /// The top level categories, by id in order, each once.
    pub category: Vec<CategoryData>,
    /// The bookmarks, one per url, ordered by url.
    pub bookmark: Vec<BookmarkData>,
}

/// The concatenation of the tags of the infos.
pub open spec fn all_tags(infos: Seq<Info>) -> Seq<Seq<char>>
    decreases infos.len(),
{
    if infos.len() == 0 {
        Seq::empty()
    } else {
        all_tags(infos.drop_last()) + strings_view(infos.last().tags@)
    }
}

/// The concatenation of the top level category ids of the infos.
pub open spec fn all_top_ids(infos: Seq<Info>) -> Seq<Seq<char>>
    decreases infos.len(),
{
    if infos.len() == 0 {
        Seq::empty()
    } else {
        all_top_ids(infos.drop_last()) + strings_view(infos.last().categories@)
    }
}

/// Can the category `id` and all categories below it be found, within
/// `fuel` levels?
pub open spec fn category_resolves(cats: Seq<Category>, id: Seq<char>, fuel: nat) -> bool
    decreases fuel,
{
    if fuel == 0 {
        false
    } else {
        match find_category(cats, id) {
            Some(i) => forall|j: int|
                0 <= j < subs_of(cats, i).len() ==> category_resolves(
                    cats,
                    #[trigger] subs_of(cats, i)[j],
                    (fuel - 1) as nat,
                ),
            None => false,
        }
    }
}

/// Does `d` hold the category `id`: its name, description and identifiers,
/// and below it its subcategories in order?
pub open spec fn category_data_of(cats: Seq<Category>, id: Seq<char>, d: CategoryData, fuel: nat) -> bool
    decreases fuel,
{
    if fuel == 0 {
        false
    } else {
        match find_category(cats, id) {
            Some(i) => {
                &&& d.name@ == cats[i].name@
                &&& d.info@ == cats[i].description@
                &&& d.identifier.require@ == cats[i].require@
                &&& d.identifier.whole@ == cats[i].whole@
                &&& d.identifier.included@ == cats[i].included@
                &&& d.subcategory@.len() == subs_of(cats, i).len()
                &&& forall|j: int|
                    0 <= j < subs_of(cats, i).len() ==> category_data_of(
                        cats,
                        #[trigger] subs_of(cats, i)[j],
                        d.subcategory@[j],
                        (fuel - 1) as nat,
                    )
            },
            None => false,
        }
    }
}

/// Does `r` hold the bookmark `b` with the uuid `id`?
pub open spec fn bookmark_data_of(r: BookmarkData, b: Bookmark, id: u128) -> bool {
    &&& r.url@ == b.url@
    &&& r.info@ == b.description@
    &&& r.tag@ == b.tags@
    &&& r.uuid == id
}

/// The urls of the bookmarks.
pub open spec fn urls_of(bs: Seq<Bookmark>) -> Seq<Seq<char>> {
    bs.map_values(|b: Bookmark| b.url@)
}

/// Is `r` the bookmark at a first occurrence of its url, with that
/// bookmark's uuid?
pub open spec fn exported_entry(r: BookmarkData, bs: Seq<Bookmark>, ids: Seq<u128>) -> bool {
    exists|j: int| is_first_occurrence(urls_of(bs), j) && #[trigger] bookmark_data_of(r, bs[j], ids[j])
}

/// The exported bookmarks: for each url the first bookmark with it, with
/// that bookmark's uuid, ordered by url.
pub open spec fn bookmarks_exported(out: Seq<BookmarkData>, bs: Seq<Bookmark>, ids: Seq<u128>) -> bool {
    &&& forall|k: int| 0 <= k < out.len() ==> exported_entry(#[trigger] out[k], bs, ids)
    &&& forall|j: int|
        is_first_occurrence(urls_of(bs), j) ==> exists|k: int|
            0 <= k < out.len() && (#[trigger] out[k]).url@ == bs[j].url@
    &&& forall|a: int, b: int| 0 <= a < b < out.len() ==> text_less(out[a].url@, out[b].url@)
}

/// The exported bookmarks hold each url at most once.
pub proof fn lemma_exported_urls_distinct(out: Seq<BookmarkData>, bs: Seq<Bookmark>, ids: Seq<u128>)
    requires
        bookmarks_exported(out, bs, ids),
    ensures
        forall|a: int, b: int| 0 <= a < b < out.len() ==> out[a].url@ != out[b].url@,
{
    assert forall|a: int, b: int| 0 <= a < b < out.len() implies out[a].url@ != out[b].url@ by {
        crate::text_order::lemma_text_less_order(out[a].url@, out[b].url@, out[b].url@);
    }
}

/// Does `d` hold the category `id` with everything below it, to some depth?
pub open spec fn holds_category(cats: Seq<Category>, id: Seq<char>, d: CategoryData) -> bool {
    exists|fuel: nat| #[trigger] category_data_of(cats, id, d, fuel)
}

/// Do the category `id` and everything below it resolve, to some depth?
pub open spec fn resolves(cats: Seq<Category>, id: Seq<char>) -> bool {
    exists|fuel: nat| #[trigger] category_resolves(cats, id, fuel)
}

/// The exported top level categories, for the top level ids `top`: each top
/// level id once, ordered by id, each holding its category.
pub open spec fn categories_exported_as(
    out: Seq<CategoryData>,
    cats: Seq<Category>,
    infos: Seq<Info>,
    top: Seq<Seq<char>>,
) -> bool {
    &&& top.len() == out.len()
    &&& forall|a: int, b: int| 0 <= a < b < top.len() ==> text_less(top[a], top[b])
    &&& forall|k: int| 0 <= k < top.len() ==> all_top_ids(infos).contains(#[trigger] top[k])
    &&& forall|k: int|
        0 <= k < all_top_ids(infos).len() ==> top.contains(#[trigger] all_top_ids(infos)[k])
    &&& forall|k: int| 0 <= k < top.len() ==> holds_category(cats, #[trigger] top[k], out[k])
}

/// The exported top level categories: each top level id once, ordered by
/// id, each holding its category.
pub open spec fn categories_exported(out: Seq<CategoryData>, cats: Seq<Category>, infos: Seq<Info>) -> bool {
    exists|top: Seq<Seq<char>>| #[trigger] categories_exported_as(out, cats, infos, top)
}

/// The exported top level categories stand for pairwise different ids.
pub proof fn lemma_exported_categories_distinct(
    out: Seq<CategoryData>,
    cats: Seq<Category>,
    infos: Seq<Info>,
    top: Seq<Seq<char>>,
)
    requires
        categories_exported_as(out, cats, infos, top),
    ensures
        forall|a: int, b: int| 0 <= a < b < top.len() ==> top[a] != top[b],
{
    assert forall|a: int, b: int| 0 <= a < b < top.len() implies top[a] != top[b] by {
        crate::text_order::lemma_text_less_order(top[a], top[b], top[b]);
    }
}

/// Does every top level category resolve?
pub open spec fn tops_resolve(cats: Seq<Category>, infos: Seq<Info>) -> bool {
    forall|k: int| 0 <= k < all_top_ids(infos).len() ==> resolves(cats, #[trigger] all_top_ids(infos)[k])
}

proof fn lemma_resolves_sub(cats: Seq<Category>, id: Seq<char>, fuel: nat, i: int, j: int)
    requires
        category_resolves(cats, id, fuel),
        find_category(cats, id) == Some(i),
        0 <= j < subs_of(cats, i).len(),
    ensures
        fuel > 0,
        category_resolves(cats, subs_of(cats, i)[j], (fuel - 1) as nat),
{
    let found = find_category(cats, id).unwrap();
    assert(found == i);
    assert(subs_of(cats, found)[j] == subs_of(cats, i)[j]);
}

/// Builds the exported form of category `id` and of everything below it.
fn category_data(cats: &Vec<Category>, id: &String, Ghost(fuel): Ghost<nat>) -> (d: CategoryData)
    requires
        category_resolves(cats@, id@, fuel),
    ensures
        category_data_of(cats@, id@, d, fuel),
    decreases fuel,
{
    let i = match find_category_index(cats, id) {
        Some(i) => i,
        None => {
            assert(false);
            0
        },
    };
    let cat = &cats[i];
    let mut subcategory: Vec<CategoryData> = Vec::new();
    let mut j: usize = 0;
    while j < cat.subcategories.len()
        invariant
            fuel > 0,
            find_category(cats@, id@) == Some(i as int),
            i < cats@.len(),
            *cat == cats@[i as int],
            category_resolves(cats@, id@, fuel),
            j <= cat.subcategories@.len(),
            subcategory@.len() == j,
            forall|m: int|
                0 <= m < j ==> category_data_of(
                    cats@,
                    #[trigger] subs_of(cats@, i as int)[m],
                    subcategory@[m],
                    (fuel - 1) as nat,
                ),
        decreases cat.subcategories@.len() - j,
    {
        assert(subs_of(cats@, i as int)[j as int] == cat.subcategories@[j as int]@);
        proof {
            lemma_resolves_sub(cats@, id@, fuel, i as int, j as int);
        }
        let sub = category_data(cats, &cat.subcategories[j], Ghost((fuel - 1) as nat));
        subcategory.push(sub);
        j = j + 1;
    }
    CategoryData {
        name: cat.name.clone(),
        info: cat.description.clone(),
        identifier: IdentifierData {
            require: copy_strings(&cat.require),
            whole: copy_strings(&cat.whole),
            included: copy_strings(&cat.included),
        },
        subcategory,
    }
}

/// Decides whether the category `id` and everything below it resolve within
/// `depth` levels.
pub fn category_resolves_within(cats: &Vec<Category>, id: &String, depth: usize) -> (res: bool)
    ensures
        res == category_resolves(cats@, id@, depth as nat),
    decreases depth,
{
    if depth == 0 {
        return false;
    }
    match find_category_index(cats, id) {
        None => false,
        Some(i) => {
            let subs = &cats[i].subcategories;
            let mut j: usize = 0;
            while j < subs.len()
                invariant
                    depth > 0,
                    i < cats@.len(),
                    find_category(cats@, id@) == Some(i as int),
                    *subs == cats@[i as int].subcategories,
                    j <= subs@.len(),
                    forall|m: int|
                        0 <= m < j ==> category_resolves(
                            cats@,
                            #[trigger] subs_of(cats@, i as int)[m],
                            (depth - 1) as nat,
                        ),
                decreases subs@.len() - j,
            {
                assert(subs_of(cats@, i as int)[j as int] == subs@[j as int]@);
                if !category_resolves_within(cats, &subs[j], depth - 1) {
                    proof {
                        if category_resolves(cats@, id@, depth as nat) {
                            lemma_resolves_sub(cats@, id@, depth as nat, i as int, j as int);
                        }
                    }
                    return false;
                }
                j = j + 1;
            }
            true
        },
    }
}

/// The top level ids of all infos, in order.
fn top_ids(infos: &Vec<Info>) -> (ids: Vec<String>)
    ensures
        strings_view(ids@) == all_top_ids(infos@),
{
    let mut ids: Vec<String> = Vec::new();
    let mut n: usize = 0;
    while n < infos.len()
        invariant
            n <= infos@.len(),
            strings_view(ids@) == all_top_ids(infos@.subrange(0, n as int)),
        decreases infos@.len() - n,
    {
        assert(infos@.subrange(0, n + 1).drop_last() =~= infos@.subrange(0, n as int));
        let ghost before = ids@;
        let cs = &infos[n].categories;
        let mut k: usize = 0;
        while k < cs.len()
            invariant
                k <= cs@.len(),
                strings_view(ids@) == strings_view(before) + strings_view(cs@.subrange(0, k as int)),
            decreases cs@.len() - k,
        {
            let ghost prev = ids@;
            ids.push(cs[k].clone());
            assert(strings_view(ids@) =~= strings_view(prev).push(cs@[k as int]@));
            assert(strings_view(cs@.subrange(0, k + 1)) =~= strings_view(cs@.subrange(0, k as int)).push(
                cs@[k as int]@,
            ));
            assert(strings_view(ids@) =~= strings_view(before) + strings_view(cs@.subrange(0, k + 1)));
            k = k + 1;
        }
        assert(cs@.subrange(0, k as int) =~= cs@);
        n = n + 1;
    }
    assert(infos@.subrange(0, n as int) =~= infos@);
    ids
}

/// The tags of all infos, in order.
fn collect_tags(infos: &Vec<Info>) -> (tags: Vec<String>)
    ensures
        strings_view(tags@) == all_tags(infos@),
{
    let mut tags: Vec<String> = Vec::new();
    let mut n: usize = 0;
    while n < infos.len()
        invariant
            n <= infos@.len(),
            strings_view(tags@) == all_tags(infos@.subrange(0, n as int)),
        decreases infos@.len() - n,
    {
        assert(infos@.subrange(0, n + 1).drop_last() =~= infos@.subrange(0, n as int));
        let ghost before = tags@;
        let ts = &infos[n].tags;
        let mut k: usize = 0;
        while k < ts.len()
            invariant
                k <= ts@.len(),
                strings_view(tags@) == strings_view(before) + strings_view(ts@.subrange(0, k as int)),
            decreases ts@.len() - k,
        {
            let ghost prev = tags@;
            tags.push(ts[k].clone());
            assert(strings_view(tags@) =~= strings_view(prev).push(ts@[k as int]@));
            assert(strings_view(ts@.subrange(0, k + 1)) =~= strings_view(ts@.subrange(0, k as int)).push(
                ts@[k as int]@,
            ));
            assert(strings_view(tags@) =~= strings_view(before) + strings_view(ts@.subrange(0, k + 1)));
            k = k + 1;
        }
        assert(ts@.subrange(0, k as int) =~= ts@);
        n = n + 1;
    }
    assert(infos@.subrange(0, n as int) =~= infos@);
    tags
}

/// The urls of the bookmarks, in order.
fn collect_urls(bookmarks: &Vec<Bookmark>) -> (urls: Vec<String>)
    ensures
        urls@.len() == bookmarks@.len(),
        strings_view(urls@) == urls_of(bookmarks@),
{
    let mut urls: Vec<String> = Vec::new();
    let mut i: usize = 0;
    while i < bookmarks.len()
        invariant
            i <= bookmarks@.len(),
            urls@.len() == i,
            forall|m: int| 0 <= m < i ==> (#[trigger] urls@[m])@ == bookmarks@[m].url@,
        decreases bookmarks@.len() - i,
    {
        urls.push(bookmarks[i].url.clone());
        i = i + 1;
    }
    assert(strings_view(urls@) =~= urls_of(bookmarks@));
    urls
}

/// Every text of `keys` is the text at one of the first occurrences, when
/// `idx` holds the same elements as the first occurrences.
proof fn lemma_first_covers(kv: Seq<Seq<char>>, first: Seq<usize>, order: Seq<usize>, p: int)
    requires
        first_occurrences_spec(kv, first),
        same_elements(order, first),
        0 <= p < kv.len(),
    ensures
        exists|k: int| 0 <= k < order.len() && kv[order[k] as int] == kv[p],
{
    lemma_earlier_has_first(kv, p);
    let f = choose|f: int| 0 <= f <= p && is_first_occurrence(kv, f) && kv[f] == kv[p];
    let m = choose|m: int| 0 <= m < first.len() && first[m] == f;
    assert(order.contains(first[m]));
    let k = choose|k: int| 0 <= k < order.len() && order[k] == first[m];
    assert(kv[order[k] as int] == kv[p]);
}

/// The bookmarks taken in `order`, the first occurrences of their urls
/// sorted by url, are what an export writes.
proof fn lemma_bookmarks_exported(
    out: Seq<BookmarkData>,
    bs: Seq<Bookmark>,
    ids: Seq<u128>,
    first: Seq<usize>,
    order: Seq<usize>,
)
    requires
        ids.len() == bs.len(),
        first_occurrences_spec(urls_of(bs), first),
        same_elements(order, first),
        strictly_sorted(urls_of(bs), order),
        out.len() == order.len(),
        forall|m: int|
            0 <= m < out.len() ==> bookmark_data_of(
                #[trigger] out[m],
                bs[order[m] as int],
                ids[order[m] as int],
            ),
    ensures
        bookmarks_exported(out, bs, ids),
{
    let kv = urls_of(bs);
    assert forall|m: int| 0 <= m < out.len() implies exported_entry(#[trigger] out[m], bs, ids) by {
        assert(first.contains(order[m]));
        let f = choose|f: int| 0 <= f < first.len() && first[f] == order[m];
        let j = order[m] as int;
        assert(is_first_occurrence(urls_of(bs), j));
        assert(bookmark_data_of(out[m], bs[j], ids[j]));
    }
    assert forall|j: int| is_first_occurrence(kv, j) implies exists|m: int|
        0 <= m < out.len() && (#[trigger] out[m]).url@ == bs[j].url@ by {
        let f = choose|f: int| 0 <= f < first.len() && first[f] == j;
        assert(order.contains(first[f]));
        let m = choose|m: int| 0 <= m < order.len() && order[m] == first[f];
        assert(out[m].url@ == bs[j].url@);
    }
    assert forall|a: int, b: int| 0 <= a < b < out.len() implies text_less(
        out[a].url@,
        out[b].url@,
    ) by {
        assert(first.contains(order[a]));
        assert(first.contains(order[b]));
        let fa = choose|f: int| 0 <= f < first.len() && first[f] == order[a];
        let fb = choose|f: int| 0 <= f < first.len() && first[f] == order[b];
        assert(is_first_occurrence(kv, first[fa] as int));
        assert(is_first_occurrence(kv, first[fb] as int));
        assert(out[a].url@ == kv[order[a] as int]);
        assert(out[b].url@ == kv[order[b] as int]);
    }
}

/// The exported bookmarks, given the uuid of each bookmark.
fn export_bookmarks(bookmarks: &Vec<Bookmark>, uuids: &Vec<u128>) -> (out: Vec<BookmarkData>)
    requires
        uuids@.len() == bookmarks@.len(),
    ensures
        bookmarks_exported(out@, bookmarks@, uuids@),
{
    let urls = collect_urls(bookmarks);
    let ghost kv = strings_view(urls@);
    let first = first_occurrences(&urls);
    proof {
        lemma_first_occurrences_distinct(kv, first@);
    }
    let order = sorted_order(&urls, &first);
    let mut out: Vec<BookmarkData> = Vec::new();
    let mut k: usize = 0;
    while k < order.len()
        invariant
            kv == urls_of(bookmarks@),
            uuids@.len() == bookmarks@.len(),
            urls@.len() == bookmarks@.len(),
            first_occurrences_spec(kv, first@),
            same_elements(order@, first@),
            k <= order@.len(),
            out@.len() == k,
            forall|m: int|
                0 <= m < k ==> bookmark_data_of(
                    #[trigger] out@[m],
                    bookmarks@[order@[m] as int],
                    uuids@[order@[m] as int],
                ),
        decreases order@.len() - k,
    {
        let j = order[k];
        assert(first@.contains(j));
        let f = Ghost(choose|f: int| 0 <= f < first@.len() && first@[f] == j);
        assert(j < bookmarks@.len()) by {
            assert(is_first_occurrence(kv, first@[f@] as int));
        }
        let b = &bookmarks[j];
        out.push(
            BookmarkData {
                url: b.url.clone(),
                info: b.description.clone(),
                uuid: uuids[j],
                tag: copy_strings(&b.tags),
            },
        );
        k = k + 1;
    }
    proof {
        lemma_bookmarks_exported(out@, bookmarks@, uuids@, first@, order@);
    }
    out
}

/// The exported top level categories.
fn export_categories(categories: &Vec<Category>, infos: &Vec<Info>) -> (out: Vec<CategoryData>)
    requires
        tops_resolve(categories@, infos@),
    ensures
        categories_exported(out@, categories@, infos@),
{
    let ids = top_ids(infos);
    let ghost kv = strings_view(ids@);
    let first = first_occurrences(&ids);
    proof {
        lemma_first_occurrences_distinct(kv, first@);
    }
    let order = sorted_order(&ids, &first);
    let ghost top = order@.map_values(|i: usize| kv[i as int]);
    let mut out: Vec<CategoryData> = Vec::new();
    let mut k: usize = 0;
    while k < order.len()
        invariant
            kv == all_top_ids(infos@),
            kv == strings_view(ids@),
            tops_resolve(categories@, infos@),
            same_elements(order@, first@),
            first_occurrences_spec(kv, first@),
            strictly_sorted(kv, order@),
            top == order@.map_values(|i: usize| kv[i as int]),
            k <= order@.len(),
            out@.len() == k,
            forall|m: int| 0 <= m < k ==> holds_category(categories@, #[trigger] top[m], out@[m]),
        decreases order@.len() - k,
    {
        let j = order[k];
        assert(first@.contains(j));
        let f = Ghost(choose|f: int| 0 <= f < first@.len() && first@[f] == j);
        assert(j < ids@.len()) by {
            assert(is_first_occurrence(kv, first@[f@] as int));
        }
        assert(resolves(categories@, kv[j as int]));
        let ghost fuel = choose|fuel: nat| category_resolves(categories@, kv[j as int], fuel);
        let d = category_data(categories, &ids[j], Ghost(fuel));
        let ghost prev = out@;
        out.push(d);
        assert forall|m: int| 0 <= m < k + 1 implies holds_category(
            categories@,
            #[trigger] top[m],
            out@[m],
        ) by {
            if m < k {
                assert(out@[m] == prev[m]);
            } else {
                assert(top[m] == kv[j as int]);
                assert(category_data_of(categories@, top[m], out@[m], fuel));
            }
        }
        k = k + 1;
    }
    proof {
        assert forall|m: int| 0 <= m < top.len() implies all_top_ids(infos@).contains(
            #[trigger] top[m],
        ) by {
            assert(first@.contains(order@[m]));
            let f = choose|f: int| 0 <= f < first@.len() && first@[f] == order@[m];
            assert(is_first_occurrence(kv, first@[f] as int));
            assert(kv[order@[m] as int] == top[m]);
        }
        assert forall|p: int| 0 <= p < all_top_ids(infos@).len() implies top.contains(
            #[trigger] all_top_ids(infos@)[p],
        ) by {
            lemma_first_covers(kv, first@, order@, p);
            let m = choose|m: int| 0 <= m < order@.len() && kv[order@[m] as int] == kv[p];
            assert(top[m] == kv[p]);
        }
        assert(categories_exported_as(out@, categories@, infos@, top));
    }
    out
}

/// Why an export cannot be made.
#[derive(Debug, Clone)]
pub enum ExportError {
    /// Below this top level category an id names no category, or the
    /// categories nest deeper than there are categories, which only a cycle
    /// allows.
    UnresolvedCategory(String),
}

impl FileData {
    /// What an export writes, given the uuid of each bookmark: the tags of all
    /// infos, the top level categories by id each once with everything
    /// below them, and for each url the first bookmark with it, ordered by
    /// url.
    pub fn from_slices_with_ids(
        infos: &Vec<Info>,
        categories: &Vec<Category>,
        bookmarks: &Vec<Bookmark>,
        uuids: &Vec<u128>,
    ) -> (data: Self)
        requires
            uuids@.len() == bookmarks@.len(),
            tops_resolve(categories@, infos@),
        ensures
            strings_view(data.tag@) == all_tags(infos@),
            categories_exported(data.category@, categories@, infos@),
            bookmarks_exported(data.bookmark@, bookmarks@, uuids@),
    {
        FileData {
            tag: collect_tags(infos),
            category: export_categories(categories, infos),
            bookmark: export_bookmarks(bookmarks, uuids),
        }
    }

    /// What an export writes, each bookmark with a fresh random uuid.
    pub fn from_slices(infos: &Vec<Info>, categories: &Vec<Category>, bookmarks: &Vec<Bookmark>) -> (data:
        Self)
        requires
            tops_resolve(categories@, infos@),
        ensures
            strings_view(data.tag@) == all_tags(infos@),
            categories_exported(data.category@, categories@, infos@),
            exists|ids: Seq<u128>|
                ids.len() == bookmarks@.len() && bookmarks_exported(
                    data.bookmark@,
                    bookmarks@,
                    ids,
                ),
            forall|k: int|
                0 <= k < data.bookmark@.len() ==> is_random_uuid(#[trigger] data.bookmark@[k].uuid),
    {
        let mut uuids: Vec<u128> = Vec::new();
        let mut i: usize = 0;
        while i < bookmarks.len()
            invariant
                i <= bookmarks@.len(),
                uuids@.len() == i,
                forall|j: int| 0 <= j < i ==> is_random_uuid(#[trigger] uuids@[j]),
            decreases bookmarks@.len() - i,
        {
            uuids.push(new_uuid());
            i = i + 1;
        }
        let data = Self::from_slices_with_ids(infos, categories, bookmarks, &uuids);
        assert(bookmarks_exported(data.bookmark@, bookmarks@, uuids@));
        assert forall|k: int| 0 <= k < data.bookmark@.len() implies is_random_uuid(
            #[trigger] data.bookmark@[k].uuid,
        ) by {
            assert(exported_entry(data.bookmark@[k], bookmarks@, uuids@));
            let j = choose|j: int|
                is_first_occurrence(urls_of(bookmarks@), j) && #[trigger] bookmark_data_of(
                    data.bookmark@[k],
                    bookmarks@[j],
                    uuids@[j],
                );
            assert(uuids@[j] == data.bookmark@[k].uuid);
        }
        data
    }

    /// Checks that every top level category resolves, each within as many
    /// levels as there are categories, and makes the export.
    pub fn try_from_slices(infos: &Vec<Info>, categories: &Vec<Category>, bookmarks: &Vec<Bookmark>) -> (res:
        Result<Self, ExportError>)
        requires
            categories@.len() < usize::MAX,
        ensures
            match res {
                Ok(data) => {
                    &&& strings_view(data.tag@) == all_tags(infos@)
                    &&& categories_exported(data.category@, categories@, infos@)
                    &&& exists|ids: Seq<u128>|
                        ids.len() == bookmarks@.len() && bookmarks_exported(
                            data.bookmark@,
                            bookmarks@,
                            ids,
                        )
                    &&& forall|k: int|
                        0 <= k < data.bookmark@.len() ==> is_random_uuid(
                            #[trigger] data.bookmark@[k].uuid,
                        )
                },
                Err(ExportError::UnresolvedCategory(id)) => {
                    &&& all_top_ids(infos@).contains(id@)
                    &&& !category_resolves(categories@, id@, (categories@.len() + 1) as nat)
                },
            },
            (forall|k: int|
                0 <= k < all_top_ids(infos@).len() ==> category_resolves(
                    categories@,
                    #[trigger] all_top_ids(infos@)[k],
                    (categories@.len() + 1) as nat,
                )) ==> res is Ok,
    {
        let ids = top_ids(infos);
        let depth = categories.len() + 1;
        let mut k: usize = 0;
        while k < ids.len()
            invariant
                k <= ids@.len(),
                depth == categories@.len() + 1,
                strings_view(ids@) == all_top_ids(infos@),
                forall|m: int|
                    0 <= m < k ==> category_resolves(
                        categories@,
                        #[trigger] all_top_ids(infos@)[m],
                        depth as nat,
                    ),
            decreases ids@.len() - k,
        {
            if !category_resolves_within(categories, &ids[k], depth) {
                assert(all_top_ids(infos@)[k as int] == ids@[k as int]@);
                return Err(ExportError::UnresolvedCategory(ids[k].clone()));
            }
            k = k + 1;
        }
        assert(all_top_ids(infos@).len() == ids@.len());
        assert forall|m: int| 0 <= m < all_top_ids(infos@).len() implies resolves(
            categories@,
            #[trigger] all_top_ids(infos@)[m],
        ) by {
            assert(category_resolves(categories@, all_top_ids(infos@)[m], depth as nat));
        }
        Ok(Self::from_slices(infos, categories, bookmarks))
    }
}

/// The export command: writes the bookmarks, categories and tags to a file.
#[derive(Debug, Clone, Copy)]
pub struct Export;

impl Export {
    /// The name under which the command is called.
    pub fn name(&self) -> (s: &'static str)
        ensures
            s@ == "export"@,
    {
        "export"
    }

    /// The name of the map of subcommands; the command lists its
    /// subcommands under `import`.
    pub fn map_name(&self) -> (s: &'static str)
        ensures
            s@ == "import"@,
    {
        "import"
    }

    /// The subcommands with their help texts, in the order they are listed.
    pub fn subcommands(&self) -> (v: Vec<(&'static str, &'static str)>)
        ensures
            v@.len() == 2,
            v@[0].0@ == "xml"@ && v@[0].1@ == "export to an xml file"@,
            v@[1].0@ == "mp"@ && v@[1].1@ == "export to message pack binary"@,
    {
        vec![("xml", "export to an xml file"), ("mp", "export to message pack binary")]
    }
}

} // verus!
