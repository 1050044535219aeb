//! The category tree: every path through the categories reachable from the
//! top level categories that the infos name, parents before children.

use vstd::prelude::*;
use vstd::string::*;
use crate::records::{Category, Info, strings_view};
use crate::decimal::decimal;
use crate::number_text::usize_text;
use crate::app_state::Msg;

verus! {

/// Paths through the category tree are cut off at this depth.
pub const MAX_CATEGORY_DEPTH: usize = 12;

/// The index of the last category whose id is `id` among the first `n`.
pub open spec fn find_in_prefix(cats: Seq<Category>, id: Seq<char>, n: int) -> Option<int>
    decreases n,
{
    if n <= 0 {
        None
    } else if cats[n - 1].id@ == id {
        Some(n - 1)
    } else {
        find_in_prefix(cats, id, n - 1)
    }
}

/// The index of the category with id `id`; where several share it, the last.
pub open spec fn find_category(cats: Seq<Category>, id: Seq<char>) -> Option<int> {
    find_in_prefix(cats, id, cats.len() as int)
}

/// The ids of the subcategories of the category at `i`.
pub open spec fn subs_of(cats: Seq<Category>, i: int) -> Seq<Seq<char>> {
    strings_view(cats[i].subcategories@)
}

/// The paths that a visit of category `id` below the path `depend` adds,
/// in the order they are listed: the path to the category itself, then
/// those of its subcategories in order.
pub open spec fn expand(cats: Seq<Category>, depend: Seq<usize>, id: Seq<char>) -> Seq<Seq<usize>>
    decreases MAX_CATEGORY_DEPTH - depend.len(), 0int, 0int,
{
    if depend.len() >= MAX_CATEGORY_DEPTH {
        Seq::empty()
    } else {
        match find_category(cats, id) {
            None => Seq::empty(),
            Some(i) => {
                let path = depend.push(i as usize);
                seq![path] + expand_list(cats, path, subs_of(cats, i))
            },
        }
    }
}

/// The paths that visits of the categories `ids`, in order, add.
pub open spec fn expand_list(cats: Seq<Category>, depend: Seq<usize>, ids: Seq<Seq<char>>) -> Seq<
    Seq<usize>,
>
    decreases MAX_CATEGORY_DEPTH - depend.len(), 1int, ids.len(),
{
    if ids.len() == 0 {
        Seq::empty()
    } else {
        expand(cats, depend, ids[0]) + expand_list(cats, depend, ids.drop_first())
    }
}

/// How many visits, found or not, the visit of `id` below `depend` makes.
pub open spec fn visits(cats: Seq<Category>, depend: Seq<usize>, id: Seq<char>) -> nat
    decreases MAX_CATEGORY_DEPTH - depend.len(), 0int, 0int,
{
    if depend.len() >= MAX_CATEGORY_DEPTH {
        1
    } else {
        match find_category(cats, id) {
            None => 1,
            Some(i) => 1 + visits_list(cats, depend.push(i as usize), subs_of(cats, i)),
        }
    }
}

/// How many visits the visits of the categories `ids` make.
pub open spec fn visits_list(cats: Seq<Category>, depend: Seq<usize>, ids: Seq<Seq<char>>) -> nat
    decreases MAX_CATEGORY_DEPTH - depend.len(), 1int, ids.len(),
{
    if ids.len() == 0 {
        0
    } else {
        visits(cats, depend, ids[0]) + visits_list(cats, depend, ids.drop_first())
    }
}

/// The category tree of `infos`: the infos are visited last first, and each
/// one's categories in order.
pub open spec fn category_tree_of(cats: Seq<Category>, infos: Seq<Info>, n: int) -> Seq<Seq<usize>>
    decreases n,
{
    if n <= 0 {
        Seq::empty()
    } else {
        expand_list(cats, Seq::empty(), strings_view(infos[n - 1].categories@)) + category_tree_of(
            cats,
            infos,
            n - 1,
        )
    }
}

/// The category tree of all infos.
pub open spec fn category_tree_spec(cats: Seq<Category>, infos: Seq<Info>) -> Seq<Seq<usize>> {
    category_tree_of(cats, infos, infos.len() as int)
}

/// The paths still to be produced from the pending visits of a stack whose
/// top is its last element.
spec fn stack_expansion(cats: Seq<Category>, stack: Seq<(Vec<usize>, String)>) -> Seq<Seq<usize>>
    decreases stack.len(),
{
    if stack.len() == 0 {
        Seq::empty()
    } else {
        expand(cats, stack.last().0@, stack.last().1@) + stack_expansion(cats, stack.drop_last())
    }
}

/// The visits still to be made for the entries of a stack.
spec fn stack_visits(cats: Seq<Category>, stack: Seq<(Vec<usize>, String)>) -> nat
    decreases stack.len(),
{
    if stack.len() == 0 {
        0
    } else {
        visits(cats, stack.last().0@, stack.last().1@) + stack_visits(cats, stack.drop_last())
    }
}

/// Pushing the visits of `ids` last first on a stack puts their expansion
/// before that of the stack.
proof fn lemma_push_reversed(
    cats: Seq<Category>,
    below: Seq<(Vec<usize>, String)>,
    depend: Seq<usize>,
    ids: Seq<String>,
    stack: Seq<(Vec<usize>, String)>,
)
    requires
        stack.len() == below.len() + ids.len(),
        forall|k: int| 0 <= k < below.len() ==> stack[k] == below[k],
        forall|k: int|
            0 <= k < ids.len() ==> (#[trigger] stack[below.len() + k]).0@ == depend && stack[below.len()
                + k].1@ == ids[ids.len() - 1 - k]@,
    ensures
        stack_expansion(cats, stack) == expand_list(cats, depend, strings_view(ids))
            + stack_expansion(cats, below),
        stack_visits(cats, stack) == visits_list(cats, depend, strings_view(ids)) + stack_visits(
            cats,
            below,
        ),
    decreases ids.len(),
{
    if ids.len() == 0 {
        assert(stack =~= below);
        assert(strings_view(ids) =~= Seq::empty());
    } else {
        let rest = ids.drop_first();
        let inner = stack.drop_last();
        assert forall|k: int| 0 <= k < rest.len() implies (#[trigger] inner[below.len() + k]).0@
            == depend && inner[below.len() + k].1@ == rest[rest.len() - 1 - k]@ by {
            assert(inner[below.len() + k] == stack[below.len() + k]);
        }
        lemma_push_reversed(cats, below, depend, rest, inner);
        assert(stack[below.len() + ids.len() - 1].1@ == ids[0]@);
        assert(strings_view(rest) =~= strings_view(ids).drop_first());
    }
}

/// The index of the last category with id `id`, if any.
pub(crate) fn find_category_index(cats: &Vec<Category>, id: &String) -> (res: Option<usize>)
    ensures
        match res {
            Some(i) => find_category(cats@, id@) == Some(i as int),
            None => find_category(cats@, id@) is None,
        },
        res matches Some(i) ==> i < cats@.len(),
{
    let mut n = cats.len();
    while n > 0
        invariant
            n <= cats.len(),
            find_category(cats@, id@) == find_in_prefix(cats@, id@, n as int),
        decreases n,
    {
        if cats[n - 1].id == *id {
            return Some(n - 1);
        }
        n = n - 1;
    }
    None
}

/// Builds the category tree: for every top level category that an info
/// names, the path of category indices to it and to each subcategory below
/// it, depth first and parents before children, cut off at
/// `MAX_CATEGORY_DEPTH`. Ids that name no category are skipped.
pub fn category_tree(categories: &Vec<Category>, infos: &Vec<Info>) -> (tree: Vec<Vec<usize>>)
    ensures
        tree@.map_values(|p: Vec<usize>| p@) == category_tree_spec(categories@, infos@),
{
    let ghost cats = categories@;
    let mut stack: Vec<(Vec<usize>, String)> = Vec::new();
    let mut n: usize = 0;
    while n < infos.len()
        invariant
            n <= infos.len(),
            cats == categories@,
            stack_expansion(cats, stack@) == category_tree_of(cats, infos@, n as int),
        decreases infos.len() - n,
    {
        let ids = &infos[n].categories;
        let ghost below = stack@;
        let mut k = ids.len();
        while k > 0
            invariant
                k <= ids.len(),
                stack@.len() == below.len() + (ids.len() - k),
                forall|j: int| 0 <= j < below.len() ==> stack@[j] == below[j],
                forall|j: int|
                    0 <= j < ids.len() - k ==> (#[trigger] stack@[below.len() + j]).0@ == Seq::<
                        usize,
                    >::empty() && stack@[below.len() + j].1@ == ids@[ids.len() - 1 - j]@,
            decreases k,
        {
            k = k - 1;
            let empty: Vec<usize> = Vec::new();
            stack.push((empty, ids[k].clone()));
        }
        proof {
            lemma_push_reversed(cats, below, Seq::<usize>::empty(), ids@, stack@);
        }
        n = n + 1;
    }
    let ghost total = category_tree_spec(cats, infos@);
    let mut tree: Vec<Vec<usize>> = Vec::new();
    while stack.len() > 0
        invariant
            cats == categories@,
            tree@.map_values(|p: Vec<usize>| p@) + stack_expansion(cats, stack@) == total,
        decreases stack_visits(cats, stack@),
    {
        let ghost before = stack@;
        let (depend, cat_id) = stack.pop().unwrap();
        assert(before.last() == (depend, cat_id));
        if depend.len() >= MAX_CATEGORY_DEPTH {
            assert(stack@ =~= before.drop_last());
            continue;
        }
        match find_category_index(categories, &cat_id) {
            None => {
                assert(stack@ =~= before.drop_last());
            },
            Some(i) => {
                let mut path = depend;
                path.push(i);
                assert(path@ == depend@.push(i));
                let subs = &categories[i].subcategories;
                let ghost below = stack@;
                let mut k = subs.len();
                while k > 0
                    invariant
                        k <= subs.len(),
                        stack@.len() == below.len() + (subs.len() - k),
                        forall|j: int| 0 <= j < below.len() ==> stack@[j] == below[j],
                        forall|j: int|
                            0 <= j < subs.len() - k ==> (#[trigger] stack@[below.len() + j]).0@
                                == path@ && stack@[below.len() + j].1@ == subs@[subs.len() - 1
                                - j]@,
                    decreases k,
                {
                    k = k - 1;
                    stack.push((path.clone(), subs[k].clone()));
                }
                proof {
                    lemma_push_reversed(cats, below, path@, subs@, stack@);
                    assert(below =~= before.drop_last());
                }
                let ghost old_tree = tree@.map_values(|p: Vec<usize>| p@);
                tree.push(path);
                assert(tree@.map_values(|p: Vec<usize>| p@) =~= old_tree.push(path@));
                assert(depend@.len() < MAX_CATEGORY_DEPTH);
                assert(find_category(cats, cat_id@) == Some(i as int));
                assert(expand(cats, depend@, cat_id@) == seq![depend@.push(i)] + expand_list(cats, depend@.push(i), subs_of(cats, i as int)));
                assert(seq![path@] + expand_list(cats, path@, subs_of(cats, i as int))
                    =~= expand(cats, depend@, cat_id@));
            },
        }
    }
    assert(tree@.map_values(|p: Vec<usize>| p@) =~= total);
    tree
}

/// Each path of `s` extends `d`, stays within the depth limit, holds valid
/// category indices, and has its parent path somewhere before it, unless
/// the parent is `d` itself.
pub open spec fn parents_first(s: Seq<Seq<usize>>, d: Seq<usize>, n: nat) -> bool {
    forall|k: int|
        0 <= k < s.len() ==> {
            &&& d.len() < (#[trigger] s[k]).len() <= MAX_CATEGORY_DEPTH
            &&& s[k].subrange(0, d.len() as int) == d
            &&& forall|m: int| 0 <= m < s[k].len() ==> s[k][m] < n
            &&& s[k].len() > d.len() + 1 ==> exists|j: int| 0 <= j < k && s[j] == s[k].drop_last()
        }
}

proof fn lemma_parents_first_concat(a: Seq<Seq<usize>>, b: Seq<Seq<usize>>, d: Seq<usize>, n: nat)
    requires
        parents_first(a, d, n),
        parents_first(b, d, n),
    ensures
        parents_first(a + b, d, n),
{
    let c = a + b;
    assert forall|k: int| 0 <= k < c.len() implies {
        &&& d.len() < (#[trigger] c[k]).len() <= MAX_CATEGORY_DEPTH
        &&& c[k].subrange(0, d.len() as int) == d
        &&& forall|m: int| 0 <= m < c[k].len() ==> c[k][m] < n
        &&& c[k].len() > d.len() + 1 ==> exists|j: int| 0 <= j < k && c[j] == c[k].drop_last()
    } by {
        if k < a.len() {
            assert(c[k] == a[k]);
            if c[k].len() > d.len() + 1 {
                let j = choose|j: int| 0 <= j < k && a[j] == a[k].drop_last();
                assert(c[j] == a[j]);
            }
        } else {
            let kb = k - a.len();
            assert(c[k] == b[kb]);
            if c[k].len() > d.len() + 1 {
                let j = choose|j: int| 0 <= j < kb && b[j] == b[kb].drop_last();
                assert(c[j + a.len()] == b[j]);
            }
        }
    }
}

proof fn lemma_expand_parents_first(cats: Seq<Category>, d: Seq<usize>, id: Seq<char>)
    requires
        d.len() <= MAX_CATEGORY_DEPTH,
        forall|m: int| 0 <= m < d.len() ==> d[m] < cats.len(),
    ensures
        parents_first(expand(cats, d, id), d, cats.len()),
    decreases MAX_CATEGORY_DEPTH - d.len(), 0int, 0int,
{
    if d.len() < MAX_CATEGORY_DEPTH {
        if let Some(i) = find_category(cats, id) {
            lemma_find_in_range(cats, id, cats.len() as int);
            let p = d.push(i as usize);
            let rest = expand_list(cats, p, subs_of(cats, i));
            lemma_expand_list_parents_first(cats, p, subs_of(cats, i));
            let s = seq![p] + rest;
            assert(p.subrange(0, d.len() as int) =~= d);
            assert(p.drop_last() =~= d);
            assert forall|k: int| 0 <= k < s.len() implies {
                &&& d.len() < (#[trigger] s[k]).len() <= MAX_CATEGORY_DEPTH
                &&& s[k].subrange(0, d.len() as int) == d
                &&& forall|m: int| 0 <= m < s[k].len() ==> s[k][m] < cats.len()
                &&& s[k].len() > d.len() + 1 ==> exists|j: int| 0 <= j < k && s[j] == s[k].drop_last()
            } by {
                if k > 0 {
                    let r = rest[k - 1];
                    assert(s[k] == r);
                    assert(r.subrange(0, p.len() as int) == p);
                    assert(r.subrange(0, d.len() as int) =~= p.subrange(0, p.len() as int).subrange(
                        0,
                        d.len() as int,
                    ));
                    if r.len() > p.len() + 1 {
                        let j = choose|j: int| 0 <= j < k - 1 && rest[j] == r.drop_last();
                        assert(s[j + 1] == rest[j]);
                    } else if r.len() > d.len() + 1 {
                        assert(r.drop_last() =~= r.subrange(0, p.len() as int));
                        assert(s[0] == p);
                    }
                }
            }
        }
    }
}

proof fn lemma_expand_list_parents_first(cats: Seq<Category>, d: Seq<usize>, ids: Seq<Seq<char>>)
    requires
        d.len() <= MAX_CATEGORY_DEPTH,
        forall|m: int| 0 <= m < d.len() ==> d[m] < cats.len(),
    ensures
        parents_first(expand_list(cats, d, ids), d, cats.len()),
    decreases MAX_CATEGORY_DEPTH - d.len(), 1int, ids.len(),
{
    if ids.len() > 0 {
        lemma_expand_parents_first(cats, d, ids[0]);
        lemma_expand_list_parents_first(cats, d, ids.drop_first());
        lemma_parents_first_concat(
            expand(cats, d, ids[0]),
            expand_list(cats, d, ids.drop_first()),
            d,
            cats.len(),
        );
    }
}

proof fn lemma_find_in_range(cats: Seq<Category>, id: Seq<char>, n: int)
    requires
        n <= cats.len(),
    ensures
        find_in_prefix(cats, id, n) matches Some(i) ==> 0 <= i < n,
    decreases n,
{
    if n > 0 {
        lemma_find_in_range(cats, id, n - 1);
    }
}

/// The category tree lists parents before children: every path is a
/// non-empty list of valid category indices no longer than
/// `MAX_CATEGORY_DEPTH`, and the path of its parent, where it has one,
/// stands at an earlier position.
pub proof fn lemma_category_tree_parents_first(cats: Seq<Category>, infos: Seq<Info>)
    ensures
        parents_first(category_tree_spec(cats, infos), Seq::empty(), cats.len()),
{
    lemma_tree_of_parents_first(cats, infos, infos.len() as int);
}

proof fn lemma_tree_of_parents_first(cats: Seq<Category>, infos: Seq<Info>, n: int)
    ensures
        parents_first(category_tree_of(cats, infos, n), Seq::empty(), cats.len()),
    decreases n,
{
    if n > 0 {
        lemma_expand_list_parents_first(cats, Seq::empty(), strings_view(infos[n - 1].categories@));
        lemma_tree_of_parents_first(cats, infos, n - 1);
        lemma_parents_first_concat(
            expand_list(cats, Seq::empty(), strings_view(infos[n - 1].categories@)),
            category_tree_of(cats, infos, n - 1),
            Seq::empty(),
            cats.len(),
        );
    }
}

/// The button style of a category row, cycling with the depth.
#[derive(Clone, Copy, Debug, PartialEq, Eq, Structural)]
pub enum CategoryStyle {
    /// The style of depths divisible by three.
    Destructive,
    /// The style of depths one above a multiple of three.
    Primary,
    /// The style of depths two above a multiple of three.
    Positive,
}

/// How a path of the category tree is shown: the category it ends in, an
/// edit button in edit mode, how far the row is indented, and a button
/// with the category's name that applies the categories of the path.
#[derive(Clone, Debug)]
pub struct CategoryRow {
    /// The index of the category.
    pub index: usize,
    /// In edit mode, the message of the edit button that starts the row.
    pub edit: Option<Msg>,
    /// The indentation, 24 units per level below the top.
    pub indent: u16,
    /// The label of the apply button: the category's name.
    pub label: String,
    /// The message of the apply button.
    pub apply: Msg,
    /// The style of the apply button.
    pub style: CategoryStyle,
}

/// The style of a row at depth `depth`.
pub open spec fn style_at(depth: nat) -> CategoryStyle {
    if depth % 3 == 0 {
        CategoryStyle::Destructive
    } else if depth % 3 == 1 {
        CategoryStyle::Primary
    } else {
        CategoryStyle::Positive
    }
}

/// The row for a path of the category tree: an edit button for the
/// category exactly in edit mode, the indentation, and a button named after
/// the category that applies every category of the path.
pub fn category_row(categories: &Vec<Category>, level: &Vec<usize>, edit_mode_active: bool) -> (row:
    CategoryRow)
    requires
        level@.len() >= 1,
        level@.last() < categories@.len(),
        (level@.len() - 1) * 24 <= u16::MAX,
    ensures
        row.index == level@.last(),
        row.edit == (if edit_mode_active {
            Some(Msg::EditCategory(level@.last()))
        } else {
            None
        }),
        row.indent == (level@.len() - 1) * 24,
        row.label@ == categories@[level@.last() as int].name@,
        row.apply matches Msg::ApplyCategory(path) && path@ == level@,
        row.style == style_at(level@.len()),
{
    let depth = level.len();
    let index = level[depth - 1];
    let indent = ((depth - 1) * 24) as u16;
    let style = if depth % 3 == 0 {
        CategoryStyle::Destructive
    } else if depth % 3 == 1 {
        CategoryStyle::Primary
    } else {
        CategoryStyle::Positive
    };
    let edit = if edit_mode_active {
        Some(Msg::EditCategory(index))
    } else {
        None
    };
    let path = level.clone();
    assert(path@ =~= level@);
    let apply = Msg::ApplyCategory(path);
    CategoryRow { index, edit, indent, label: categories[index].name.clone(), apply, style }
}

/// Every path of the category tree can be shown as a row: it is not empty,
/// its indentation fits, and it ends in a category.
pub proof fn lemma_tree_rows_fit(cats: Seq<Category>, infos: Seq<Info>, k: int)
    requires
        0 <= k < category_tree_spec(cats, infos).len(),
    ensures
        category_tree_spec(cats, infos)[k].len() >= 1,
        (category_tree_spec(cats, infos)[k].len() - 1) * 24 <= u16::MAX,
        category_tree_spec(cats, infos)[k].last() < cats.len(),
{
    lemma_category_tree_parents_first(cats, infos);
    let path = category_tree_spec(cats, infos)[k];
    assert(path.len() <= MAX_CATEGORY_DEPTH);
    assert(path[path.len() - 1] < cats.len());
}

/// The header of the category column, with the number of rows.
pub open spec fn categories_header(rows: usize) -> Seq<char> {
    "Categories ("@ + decimal(rows as nat) + "): "@
}

/// Writes the header of the category column.
pub fn categories_header_text(rows: usize) -> (text: String)
    ensures
        text@ == categories_header(rows),
{
    let mut text = String::from_str("Categories (");
    let n = usize_text(rows);
    text.append(n.as_str());
    text.append("): ");
    text
}

} // verus!
