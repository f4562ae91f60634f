//! Catalog: products, categories, and the category-tree builder.
use vstd::prelude::*;

use crate::money::Cents;
use crate::text::{sanitize_checked, spec_check_len, spec_sanitize, text_error_message, CaseMap, TextError};

verus! {

/// A product identifier: trimmed, non-empty, at most 64 characters.
#[derive(Debug, PartialEq, Eq, PartialOrd, Ord, Hash)]
pub struct ProductId(String);

/// A category identifier: trimmed, non-empty, at most 64 characters.
#[derive(Debug, PartialEq, Eq, PartialOrd, Ord, Hash)]
pub struct CategoryId(String);

/// A stock-keeping unit: trimmed, upper-cased, non-empty, at most 32 characters.
#[derive(Debug, PartialEq, Eq, PartialOrd, Ord, Hash)]
pub struct Sku(String);

/// A name shown to people: trimmed, non-empty, at most 200 characters.
#[derive(Debug, PartialEq, Eq, PartialOrd, Ord, Hash)]
pub struct DisplayName(String);

/// A URL slug: trimmed, lower-cased, non-empty, at most 64 characters.
#[derive(Debug, PartialEq, Eq, PartialOrd, Ord, Hash)]
pub struct Slug(String);

impl View for ProductId {
    type V = Seq<char>;

    closed spec fn view(&self) -> Seq<char> {
        self.0@
    }
}

impl View for CategoryId {
    type V = Seq<char>;

    closed spec fn view(&self) -> Seq<char> {
        self.0@
    }
}

impl View for Sku {
    type V = Seq<char>;

    closed spec fn view(&self) -> Seq<char> {
        self.0@
    }
}

impl View for DisplayName {
    type V = Seq<char>;

    closed spec fn view(&self) -> Seq<char> {
        self.0@
    }
}

impl View for Slug {
    type V = Seq<char>;

    closed spec fn view(&self) -> Seq<char> {
        self.0@
    }
}

/// What `try_new` of a validated string type returns for `raw`.
pub open spec fn spec_validated(raw: Seq<char>, case: CaseMap, max: nat) -> Result<Seq<char>, TextError> {
    match spec_check_len(spec_sanitize(raw, case), max) {
        Some(e) => Err(e),
        None => Ok(spec_sanitize(raw, case)),
    }
}

/// The view of a validation result.
pub open spec fn result_view<T: View>(r: Result<T, TextError>) -> Result<T::V, TextError> {
    match r {
        Ok(v) => Ok(v@),
        Err(e) => Err(e),
    }
}

impl ProductId {
    pub fn try_new(raw: &str) -> (r: Result<Self, TextError>)
        ensures
            result_view(r) == spec_validated(raw@, CaseMap::Keep, 64),
    {
        match sanitize_checked(raw, CaseMap::Keep, 64) {
            Ok(v) => Ok(ProductId(v)),
            Err(e) => Err(e),
        }
    }

    pub fn as_ref(&self) -> (s: &str)
        ensures
            s@ == self@,
    {
        self.0.as_str()
    }

    pub fn into_inner(self) -> (s: String)
        ensures
            s@ == self@,
    {
        self.0
    }

    /// The message for a refusal of `try_new`.
    pub fn error_message(e: TextError) -> (s: String)
        ensures
            s@ == crate::text::spec_text_error_message("ProductId"@, 64, e),
    {
        text_error_message("ProductId", 64, e)
    }
}

impl Clone for ProductId {
    fn clone(&self) -> (r: Self)
        ensures
            r == *self,
    {
        ProductId(self.0.clone())
    }
}

impl CategoryId {
    pub fn try_new(raw: &str) -> (r: Result<Self, TextError>)
        ensures
            result_view(r) == spec_validated(raw@, CaseMap::Keep, 64),
    {
        match sanitize_checked(raw, CaseMap::Keep, 64) {
            Ok(v) => Ok(CategoryId(v)),
            Err(e) => Err(e),
        }
    }

    pub fn as_ref(&self) -> (s: &str)
        ensures
            s@ == self@,
    {
        self.0.as_str()
    }

    pub fn into_inner(self) -> (s: String)
        ensures
            s@ == self@,
    {
        self.0
    }

    /// Whether two ids hold the same text.
    pub fn same_as(&self, other: &CategoryId) -> (r: bool)
        ensures
            r == (self@ == other@),
    {
        crate::text::same_text(&self.0, &other.0)
    }

    pub fn error_message(e: TextError) -> (s: String)
        ensures
            s@ == crate::text::spec_text_error_message("CategoryId"@, 64, e),
    {
        text_error_message("CategoryId", 64, e)
    }
}

impl Clone for CategoryId {
    fn clone(&self) -> (r: Self)
        ensures
            r == *self,
    {
        CategoryId(self.0.clone())
    }
}

impl Sku {
    pub fn try_new(raw: &str) -> (r: Result<Self, TextError>)
        ensures
            result_view(r) == spec_validated(raw@, CaseMap::Upper, 32),
    {
        match sanitize_checked(raw, CaseMap::Upper, 32) {
            Ok(v) => Ok(Sku(v)),
            Err(e) => Err(e),
        }
    }

    pub fn as_ref(&self) -> (s: &str)
        ensures
            s@ == self@,
    {
        self.0.as_str()
    }

    pub fn into_inner(self) -> (s: String)
        ensures
            s@ == self@,
    {
        self.0
    }

    pub fn error_message(e: TextError) -> (s: String)
        ensures
            s@ == crate::text::spec_text_error_message("Sku"@, 32, e),
    {
        text_error_message("Sku", 32, e)
    }
}

impl Clone for Sku {
    fn clone(&self) -> (r: Self)
        ensures
            r == *self,
    {
        Sku(self.0.clone())
    }
}

impl DisplayName {
    pub fn try_new(raw: &str) -> (r: Result<Self, TextError>)
        ensures
            result_view(r) == spec_validated(raw@, CaseMap::Keep, 200),
    {
        match sanitize_checked(raw, CaseMap::Keep, 200) {
            Ok(v) => Ok(DisplayName(v)),
            Err(e) => Err(e),
        }
    }

    pub fn as_ref(&self) -> (s: &str)
        ensures
            s@ == self@,
    {
        self.0.as_str()
    }

    pub fn into_inner(self) -> (s: String)
        ensures
            s@ == self@,
    {
        self.0
    }

    pub fn error_message(e: TextError) -> (s: String)
        ensures
            s@ == crate::text::spec_text_error_message("DisplayName"@, 200, e),
    {
        text_error_message("DisplayName", 200, e)
    }
}

impl Clone for DisplayName {
    fn clone(&self) -> (r: Self)
        ensures
            r == *self,
    {
        DisplayName(self.0.clone())
    }
}

impl Slug {
    pub fn try_new(raw: &str) -> (r: Result<Self, TextError>)
        ensures
            result_view(r) == spec_validated(raw@, CaseMap::Lower, 64),
    {
        match sanitize_checked(raw, CaseMap::Lower, 64) {
            Ok(v) => Ok(Slug(v)),
            Err(e) => Err(e),
        }
    }

    pub fn as_ref(&self) -> (s: &str)
        ensures
            s@ == self@,
    {
        self.0.as_str()
    }

    pub fn into_inner(self) -> (s: String)
        ensures
            s@ == self@,
    {
        self.0
    }

    pub fn error_message(e: TextError) -> (s: String)
        ensures
            s@ == crate::text::spec_text_error_message("Slug"@, 64, e),
    {
        text_error_message("Slug", 64, e)
    }
}

impl Clone for Slug {
    fn clone(&self) -> (r: Self)
        ensures
            r == *self,
    {
        Slug(self.0.clone())
    }
}

/// A category of the catalog; `parent_id` is `None` for a top-level category.
#[derive(Debug, PartialEq, Eq)]
pub struct Category {
    pub id: CategoryId,
    pub name: DisplayName,
    pub slug: Slug,
    pub parent_id: Option<CategoryId>,
}

impl Clone for Category {
    fn clone(&self) -> (r: Self)
        ensures
            r == *self,
    {
        Category {
            id: self.id.clone(),
            name: self.name.clone(),
            slug: self.slug.clone(),
            parent_id: match &self.parent_id {
                Some(p) => Some(p.clone()),
                None => None,
            },
        }
    }
}

/// A product of the catalog.
#[derive(Debug, PartialEq, Eq)]
pub struct Product {
    pub id: ProductId,
    pub sku: Sku,
    pub name: DisplayName,
    pub description: String,
    pub price_cents: Cents,
    pub category_id: CategoryId,
    pub stock: u32,
}

impl Clone for Product {
    fn clone(&self) -> (r: Self)
        ensures
            r == *self,
    {
        Product {
            id: self.id.clone(),
            sku: self.sku.clone(),
            name: self.name.clone(),
            description: self.description.clone(),
            price_cents: self.price_cents,
            category_id: self.category_id.clone(),
            stock: self.stock,
        }
    }
}

/// The mathematical view of a category.
pub struct CategoryView {
    pub id: Seq<char>,
    pub name: Seq<char>,
    pub slug: Seq<char>,
    pub parent_id: Option<Seq<char>>,
}

impl View for Category {
    type V = CategoryView;

    open spec fn view(&self) -> CategoryView {
        CategoryView {
            id: self.id@,
            name: self.name@,
            slug: self.slug@,
            parent_id: match self.parent_id {
                Some(p) => Some(p@),
                None => None,
            },
        }
    }
}

/// The mathematical view of a product.
pub struct ProductView {
    pub id: Seq<char>,
    pub sku: Seq<char>,
    pub name: Seq<char>,
    pub description: Seq<char>,
    pub price_cents: u32,
    pub category_id: Seq<char>,
    pub stock: u32,
}

impl View for Product {
    type V = ProductView;

    open spec fn view(&self) -> ProductView {
        ProductView {
            id: self.id@,
            sku: self.sku@,
            name: self.name@,
            description: self.description@,
            price_cents: self.price_cents@,
            category_id: self.category_id@,
            stock: self.stock,
        }
    }
}

/// The response shape for category navigation: plain strings and nested children.
#[derive(Debug, PartialEq, Eq)]
pub struct CategoryTree {
    pub id: String,
    pub name: String,
    pub slug: String,
    pub children: Vec<CategoryTree>,
}


// ---------------------------------------------------------------------------
// The category tree: specifications.
// ---------------------------------------------------------------------------

/// Some category of `cats` has the id `x`.
pub open spec fn id_present(cats: Seq<Category>, x: Seq<char>) -> bool {
    exists|k: int| 0 <= k < cats.len() && (#[trigger] cats[k]).id@ == x
}

/// Category `i` has no usable parent: none, itself, or one missing from `cats`.
pub open spec fn is_root_at(cats: Seq<Category>, i: int) -> bool {
    match cats[i].parent_id {
        None => true,
        Some(p) => p@ == cats[i].id@ || !id_present(cats, p@),
    }
}

/// No two categories share an id.
pub open spec fn unique_ids(cats: Seq<Category>) -> bool {
    forall|j: int, k: int|
        0 <= j < cats.len() && 0 <= k < cats.len() && j != k ==> (#[trigger] cats[j]).id@
            != (#[trigger] cats[k]).id@
}

/// The indices below `i` of the categories that are roots, in input order.
pub open spec fn root_indices(cats: Seq<Category>, i: int) -> Seq<int>
    decreases i,
{
    if i <= 0 {
        Seq::empty()
    } else if is_root_at(cats, i - 1) {
        root_indices(cats, i - 1).push(i - 1)
    } else {
        root_indices(cats, i - 1)
    }
}

/// A tree node shows exactly the id, name and slug of a category.
pub open spec fn node_of(t: CategoryTree, c: Category) -> bool {
    t.id@ == c.id@ && t.name@ == c.name@ && t.slug@ == c.slug@
}

/// `t` shows some category of `cats`.
pub open spec fn node_in(t: CategoryTree, cats: Seq<Category>) -> bool {
    exists|j: int| 0 <= j < cats.len() && node_of(t, #[trigger] cats[j])
}

/// `t` shows some category of `cats` whose parent id is `parent`.
pub open spec fn child_in(t: CategoryTree, parent: Seq<char>, cats: Seq<Category>) -> bool {
    exists|j: int|
        0 <= j < cats.len() && node_of(t, #[trigger] cats[j]) && cats[j].parent_id is Some
            && cats[j].parent_id->0@ == parent
}

/// Every node shows a category, and every child shows a category whose parent is the node.
pub open spec fn tree_ok(t: CategoryTree, cats: Seq<Category>) -> bool
    decreases t,
{
    node_in(t, cats) && forest_ok_under(t.children@, t.id@, cats)
}

/// Every tree of `f` is well built and shows a child of `parent`.
pub open spec fn forest_ok_under(f: Seq<CategoryTree>, parent: Seq<char>, cats: Seq<Category>) -> bool
    decreases f,
{
    if f.len() == 0 {
        true
    } else {
        forest_ok_under(f.drop_last(), parent, cats) && tree_ok(f.last(), cats) && child_in(
            f.last(),
            parent,
            cats,
        )
    }
}

/// The input position of the category with id `x` (the only one, when ids are unique).
pub open spec fn index_of(cats: Seq<Category>, x: Seq<char>) -> int {
    choose|j: int| 0 <= j < cats.len() && cats[j].id@ == x
}

/// Every node's children come in input order.
pub open spec fn tree_ordered(t: CategoryTree, cats: Seq<Category>) -> bool
    decreases t,
{
    forest_ordered(t.children@, cats)
}

/// The trees of `f` come in input order, and each has its children in input order.
pub open spec fn forest_ordered(f: Seq<CategoryTree>, cats: Seq<Category>) -> bool
    decreases f,
{
    if f.len() == 0 {
        true
    } else {
        &&& forest_ordered(f.drop_last(), cats)
        &&& tree_ordered(f.last(), cats)
        &&& f.len() >= 2 ==> index_of(cats, f[f.len() - 2].id@) < index_of(cats, f.last().id@)
    }
}

proof fn lemma_ordered_push(f: Seq<CategoryTree>, t: CategoryTree, cats: Seq<Category>)
    ensures
        forest_ordered(f.push(t), cats) == (forest_ordered(f, cats) && tree_ordered(t, cats) && (f.len()
            >= 1 ==> index_of(cats, f.last().id@) < index_of(cats, t.id@))),
{
    assert(f.push(t).drop_last() =~= f);
}

proof fn lemma_index_of(cats: Seq<Category>, t: CategoryTree, k: int)
    requires
        unique_ids(cats),
        0 <= k < cats.len(),
        node_of(t, cats[k]),
    ensures
        index_of(cats, t.id@) == k,
{
    let j = index_of(cats, t.id@);
    assert(cats[k].id@ == t.id@);
    assert(0 <= j < cats.len() && cats[j].id@ == t.id@);
}

/// The ids of a tree in pre-order.
pub open spec fn tree_ids(t: CategoryTree) -> Seq<Seq<char>>
    decreases t,
{
    seq![t.id@] + forest_ids(t.children@)
}

/// The ids of a forest in pre-order.
pub open spec fn forest_ids(f: Seq<CategoryTree>) -> Seq<Seq<char>>
    decreases f,
{
    if f.len() == 0 {
        Seq::empty()
    } else {
        forest_ids(f.drop_last()) + tree_ids(f.last())
    }
}

/// The id `x` is marked visited at some index.
pub open spec fn visited_id(cats: Seq<Category>, v: Seq<bool>, x: Seq<char>) -> bool {
    exists|j: int| 0 <= j < cats.len() && v[j] && (#[trigger] cats[j]).id@ == x
}

/// Visited marks are per id: categories with the same id are marked together.
pub open spec fn closed(cats: Seq<Category>, v: Seq<bool>) -> bool {
    &&& v.len() == cats.len()
    &&& forall|j: int, k: int|
        0 <= j < cats.len() && 0 <= k < cats.len() && (#[trigger] cats[j]).id@ == (
        #[trigger] cats[k]).id@ ==> v[j] == v[k]
}

/// Number of unmarked entries.
pub open spec fn count_unvisited(v: Seq<bool>) -> nat
    decreases v.len(),
{
    if v.len() == 0 {
        0
    } else {
        count_unvisited(v.drop_last()) + if v.last() {
            0nat
        } else {
            1nat
        }
    }
}

/// `b` marks at least what `a` marks.
pub open spec fn grows(a: Seq<bool>, b: Seq<bool>) -> bool {
    a.len() == b.len() && forall|j: int| 0 <= j < a.len() && #[trigger] a[j] ==> b[j]
}

proof fn lemma_count_monotone(a: Seq<bool>, b: Seq<bool>)
    requires
        grows(a, b),
    ensures
        count_unvisited(b) <= count_unvisited(a),
    decreases a.len(),
{
    if a.len() > 0 {
        let (ad, bd) = (a.drop_last(), b.drop_last());
        assert forall|j: int| 0 <= j < ad.len() && #[trigger] ad[j] implies bd[j] by {
            assert(a[j]);
        }
        lemma_count_monotone(ad, bd);
        assert(a.last() ==> b.last()) by {
            assert(a[a.len() - 1] ==> b[a.len() - 1]);
        }
    }
}

proof fn lemma_count_strict(a: Seq<bool>, b: Seq<bool>, i: int)
    requires
        grows(a, b),
        0 <= i < a.len(),
        !a[i],
        b[i],
    ensures
        count_unvisited(b) < count_unvisited(a),
    decreases a.len(),
{
    let (ad, bd) = (a.drop_last(), b.drop_last());
    assert forall|j: int| 0 <= j < ad.len() && #[trigger] ad[j] implies bd[j] by {
        assert(a[j]);
    }
    if i == a.len() - 1 {
        lemma_count_monotone(ad, bd);
    } else {
        assert(!ad[i] && bd[i]);
        lemma_count_strict(ad, bd, i);
        assert(a.last() ==> b.last()) by {
            assert(a[a.len() - 1] ==> b[a.len() - 1]);
        }
    }
}

proof fn lemma_no_dup_concat(a: Seq<Seq<char>>, b: Seq<Seq<char>>)
    requires
        a.no_duplicates(),
        b.no_duplicates(),
        forall|x: Seq<char>| a.contains(x) ==> !b.contains(x),
    ensures
        (a + b).no_duplicates(),
{
    let c = a + b;
    assert forall|i: int, j: int| 0 <= i < c.len() && 0 <= j < c.len() && i != j implies c[i]
        != c[j] by {
        if i < a.len() && j >= a.len() {
            assert(a.contains(c[i]));
            assert(b.contains(c[j])) by {
                assert(b[j - a.len()] == c[j]);
            }
        } else if j < a.len() && i >= a.len() {
            assert(a.contains(c[j]));
            assert(b.contains(c[i])) by {
                assert(b[i - a.len()] == c[i]);
            }
        } else if i >= a.len() && j >= a.len() {
            assert(b[i - a.len()] == c[i]);
            assert(b[j - a.len()] == c[j]);
        }
    }
}

proof fn lemma_concat_contains(a: Seq<Seq<char>>, b: Seq<Seq<char>>, x: Seq<char>)
    ensures
        (a + b).contains(x) <==> (a.contains(x) || b.contains(x)),
{
    let c = a + b;
    if c.contains(x) {
        let i = choose|i: int| 0 <= i < c.len() && c[i] == x;
        if i < a.len() {
            assert(a[i] == x);
        } else {
            assert(b[i - a.len()] == x);
        }
    }
    if a.contains(x) {
        let i = choose|i: int| 0 <= i < a.len() && a[i] == x;
        assert(c[i] == x);
    }
    if b.contains(x) {
        let i = choose|i: int| 0 <= i < b.len() && b[i] == x;
        assert(c[i + a.len()] == x);
    }
}

proof fn lemma_forest_push(f: Seq<CategoryTree>, t: CategoryTree, parent: Seq<char>, cats: Seq<Category>)
    ensures
        forest_ids(f.push(t)) == forest_ids(f) + tree_ids(t),
        forest_ok_under(f.push(t), parent, cats) == (forest_ok_under(f, parent, cats) && tree_ok(
            t,
            cats,
        ) && child_in(t, parent, cats)),
{
    assert(f.push(t).drop_last() =~= f);
}

proof fn lemma_tree_ids_first(t: CategoryTree)
    ensures
        tree_ids(t).len() >= 1,
        tree_ids(t)[0] == t.id@,
        tree_ids(t).drop_first() == forest_ids(t.children@),
{
    assert((seq![t.id@] + forest_ids(t.children@)).drop_first() =~= forest_ids(t.children@));
}

// ---------------------------------------------------------------------------
// The category tree: executable code.
// ---------------------------------------------------------------------------

/// Whether some category has the given id.
fn contains_id(categories: &[Category], x: &CategoryId) -> (r: bool)
    ensures
        r == id_present(categories@, x@),
{
    let mut k: usize = 0;
    while k < categories.len()
        invariant
            k <= categories@.len(),
            forall|j: int| 0 <= j < k ==> (#[trigger] categories@[j]).id@ != x@,
        decreases categories.len() - k,
    {
        if categories[k].id.same_as(x) {
            return true;
        }
        k = k + 1;
    }
    false
}

/// Self-parenting and dangling parents both mean "no usable parent".
fn is_root(categories: &[Category], index: usize) -> (r: bool)
    requires
        index < categories@.len(),
    ensures
        r == is_root_at(categories@, index as int),
{
    match &categories[index].parent_id {
        None => true,
        Some(parent) => parent.same_as(&categories[index].id) || !contains_id(categories, parent),
    }
}

/// Marks every category with id `x` as visited.
fn mark_visited(categories: &[Category], x: &CategoryId, visited: &mut Vec<bool>)
    requires
        old(visited)@.len() == categories@.len(),
    ensures
        final(visited)@.len() == categories@.len(),
        forall|j: int|
            0 <= j < categories@.len() ==> #[trigger] final(visited)@[j] == (old(visited)@[j]
                || categories@[j].id@ == x@),
{
    let mut j: usize = 0;
    while j < categories.len()
        invariant
            j <= categories@.len() == visited@.len(),
            forall|m: int|
                0 <= m < categories@.len() ==> #[trigger] visited@[m] == (old(visited)@[m] || (m
                    < j && categories@[m].id@ == x@)),
        decreases categories.len() - j,
    {
        if categories[j].id.same_as(x) {
            visited.set(j, true);
        }
        j = j + 1;
    }
}

/// Builds the subtree of category `index`, claiming every unvisited descendant.
fn build_node(categories: &[Category], index: usize, visited: &mut Vec<bool>) -> (t: CategoryTree)
    requires
        index < categories@.len(),
        closed(categories@, old(visited)@),
    ensures
        closed(categories@, final(visited)@),
        grows(old(visited)@, final(visited)@),
        final(visited)@[index as int],
        tree_ok(t, categories@),
        node_of(t, categories@[index as int]),
        tree_ids(t)[0] == categories@[index as int].id@,
        tree_ids(t).no_duplicates(),
        forall|x: Seq<char>|
            #![trigger tree_ids(t).contains(x)]
            tree_ids(t).contains(x) ==> visited_id(categories@, final(visited)@, x) && (x
                == categories@[index as int].id@ || !visited_id(categories@, old(visited)@, x)),
        forall|j: int|
            0 <= j < categories@.len() && #[trigger] final(visited)@[j] && !old(visited)@[j]
                ==> tree_ids(t).contains(categories@[j].id@),
        forall|j: int|
            0 <= j < categories@.len() && #[trigger] final(visited)@[j] && !old(visited)@[j]
                && categories@[j].id@ != categories@[index as int].id@ ==> exists|m: int|
                0 <= m < categories@.len() && (#[trigger] categories@[m]).id@ == categories@[j].id@
                    && !is_root_at(categories@, m),
        children_claimed(categories@, final(visited)@, tree_ids(t)),
        unique_ids(categories@) ==> tree_ordered(t, categories@),
    decreases 2 * count_unvisited(old(visited)@) + if old(visited)@[index as int] {
        1nat
    } else {
        0nat
    },
{
    let ghost cats = categories@;
    let ghost v0 = visited@;
    let ghost me = cats[index as int].id@;
    mark_visited(categories, &categories[index].id, visited);
    let ghost v1 = visited@;
    proof {
        assert(grows(v0, v1));
        if !v0[index as int] {
            lemma_count_strict(v0, v1, index as int);
        } else {
            lemma_count_monotone(v0, v1);
        }
        assert forall|j: int, k: int|
            0 <= j < cats.len() && 0 <= k < cats.len() && (#[trigger] cats[j]).id@ == (
            #[trigger] cats[k]).id@ implies v1[j] == v1[k] by {}
    }
    let mut children: Vec<CategoryTree> = Vec::new();
    let mut k: usize = 0;
    proof {
        reveal(claimed_upto);
        lemma_claimed_empty(cats, visited@);
        assert(forest_ids(children@) =~= Seq::<Seq<char>>::empty());
        assert(forest_ordered(children@, cats));
    }
    while k < categories.len()
        invariant
            cats == categories@,
            v0 == old(visited)@,
            claimed_upto(cats, visited@, me, k as int),
            children_claimed(cats, visited@, forest_ids(children@)),
            unique_ids(cats) ==> forest_ordered(children@, cats),
            unique_ids(cats) && children@.len() > 0 ==> index_of(cats, children@.last().id@) < k,
            index < cats.len(),
            me == cats[index as int].id@,
            k <= cats.len(),
            closed(cats, v0),
            closed(cats, v1),
            grows(v0, v1),
            v1[index as int],
            forall|j: int| 0 <= j < cats.len() && #[trigger] v1[j] && !v0[j] ==> cats[j].id@ == me,
            count_unvisited(v1) + (if v0[index as int] {
                0nat
            } else {
                1nat
            }) <= count_unvisited(v0),
            closed(cats, visited@),
            grows(v1, visited@),
            count_unvisited(visited@) <= count_unvisited(v1),
            forest_ok_under(children@, me, cats),
            forest_ids(children@).no_duplicates(),
            forall|x: Seq<char>|
                #![trigger forest_ids(children@).contains(x)]
                forest_ids(children@).contains(x) ==> visited_id(cats, visited@, x)
                    && !visited_id(cats, v1, x),
            forall|j: int|
                0 <= j < cats.len() && #[trigger] visited@[j] && !v1[j] ==> forest_ids(
                    children@,
                ).contains(cats[j].id@),
            forall|j: int|
                0 <= j < cats.len() && #[trigger] visited@[j] && !v1[j] ==> exists|m: int|
                    0 <= m < cats.len() && (#[trigger] cats[m]).id@ == cats[j].id@
                        && !is_root_at(cats, m),
        decreases cats.len() - k,
    {
        let is_child = match &categories[k].parent_id {
            Some(p) => p.same_as(&categories[index].id),
            None => false,
        };
        if is_child && !visited[k] {
            let ghost vb = visited@;
            let ghost fb = forest_ids(children@);
            proof {
                lemma_count_monotone(vb, vb);
            }
            let child = build_node(categories, k, visited);
            let ghost va = visited@;
            let ghost fc = tree_ids(child);
            proof {
                lemma_forest_push(children@, child, me, cats);
                // The child's id differs from ours: ours is visited, the child's is not.
                assert(cats[k as int].id@ != me) by {
                    assert(vb[index as int]);
                }
                assert(!visited_id(cats, vb, cats[k as int].id@)) by {
                    if visited_id(cats, vb, cats[k as int].id@) {
                        let w = choose|w: int|
                            0 <= w < cats.len() && vb[w] && (#[trigger] cats[w]).id@ == cats[k as int].id@;
                        assert(vb[k as int]);
                    }
                }
                assert(child_in(child, me, cats)) by {
                    assert(node_of(child, cats[k as int]));
                }
                assert forall|x: Seq<char>| fb.contains(x) implies !fc.contains(x) by {
                    if fc.contains(x) {
                        assert(x == cats[k as int].id@ || !visited_id(cats, vb, x));
                    }
                }
                lemma_no_dup_concat(fb, fc);
                lemma_count_monotone(vb, va);
                assert forall|x: Seq<char>|
                    #![trigger forest_ids(children@.push(child)).contains(x)]
                    forest_ids(children@.push(child)).contains(x) implies visited_id(cats, va, x)
                        && !visited_id(cats, v1, x) by {
                    lemma_concat_contains(fb, fc, x);
                    if fb.contains(x) {
                        let w = choose|w: int|
                            0 <= w < cats.len() && vb[w] && (#[trigger] cats[w]).id@ == x;
                        assert(va[w]);
                    } else {
                        assert(fc.contains(x));
                        if visited_id(cats, v1, x) {
                            let w = choose|w: int|
                                0 <= w < cats.len() && v1[w] && (#[trigger] cats[w]).id@ == x;
                            assert(vb[w]);
                        }
                    }
                }
                assert forall|j: int|
                    0 <= j < cats.len() && #[trigger] va[j] && !v1[j] implies forest_ids(
                        children@.push(child),
                    ).contains(cats[j].id@) by {
                    lemma_concat_contains(fb, fc, cats[j].id@);
                }
                assert forall|j: int|
                    0 <= j < cats.len() && #[trigger] va[j] && !v1[j] implies exists|m: int|
                        0 <= m < cats.len() && (#[trigger] cats[m]).id@ == cats[j].id@
                            && !is_root_at(cats, m) by {
                    if !vb[j] && cats[j].id@ == cats[k as int].id@ {
                        assert(id_present(cats, me)) by {
                            assert(cats[index as int].id@ == me);
                        }
                        assert(!is_root_at(cats, k as int));
                    }
                }
            }
            proof {
                lemma_claimed_upto_grows(cats, vb, va, me, k as int);
                lemma_claimed_upto_step(cats, va, me, k as int);
                lemma_claimed_concat(cats, vb, va, fb, fc);
                lemma_ordered_push(children@, child, cats);
                if unique_ids(cats) {
                    lemma_index_of(cats, child, k as int);
                }
            }
            children.push(child);
        } else {
            proof {
                lemma_claimed_upto_step(cats, visited@, me, k as int);
            }
        }
        k = k + 1;
    }
    let t = CategoryTree {
        id: categories[index].id.as_ref().to_owned(),
        name: categories[index].name.as_ref().to_owned(),
        slug: categories[index].slug.as_ref().to_owned(),
        children,
    };
    proof {
        let vf = visited@;
        let fk = forest_ids(t.children@);
        lemma_tree_ids_first(t);
        assert(tree_ids(t) =~= seq![me] + fk);
        assert(node_of(t, cats[index as int]));
        assert(node_in(t, cats));
        assert(tree_ok(t, cats));
        assert(!fk.contains(me)) by {
            if fk.contains(me) {
                assert(visited_id(cats, v1, me)) by {
                    assert(v1[index as int]);
                }
            }
        }
        assert(seq![me].no_duplicates());
        assert forall|x: Seq<char>| seq![me].contains(x) implies !fk.contains(x) by {
            assert(seq![me][0] == me);
        }
        lemma_no_dup_concat(seq![me], fk);
        assert forall|x: Seq<char>|
            #![trigger tree_ids(t).contains(x)]
            tree_ids(t).contains(x) implies visited_id(cats, vf, x) && (x == me
                || !visited_id(cats, v0, x)) by {
            lemma_concat_contains(seq![me], fk, x);
            if x == me {
                assert(vf[index as int]);
            } else {
                assert(fk.contains(x));
                if visited_id(cats, v0, x) {
                    let w = choose|w: int| 0 <= w < cats.len() && v0[w] && (#[trigger] cats[w]).id@ == x;
                    assert(v1[w]);
                }
            }
        }
        assert forall|j: int|
            0 <= j < cats.len() && #[trigger] vf[j] && !v0[j] implies tree_ids(t).contains(
                cats[j].id@,
            ) by {
            lemma_concat_contains(seq![me], fk, cats[j].id@);
            if v1[j] {
                assert(seq![me][0] == me);
            }
        }
        assert(grows(v0, vf));
        lemma_claimed_upto_done(cats, vf, me);
        lemma_claimed_concat(cats, vf, vf, seq![me], fk);
        assert(unique_ids(cats) ==> tree_ordered(t, cats));
    }
    t
}


/// Category `c` names `x` as its parent.
pub open spec fn parent_is(c: Category, x: Seq<char>) -> bool {
    c.parent_id matches Some(p) && p@ == x
}

/// Every category whose parent is one of `ids` is marked.
#[verifier::opaque]
pub open spec fn children_claimed(cats: Seq<Category>, v: Seq<bool>, ids: Seq<Seq<char>>) -> bool {
    forall|j: int, x: Seq<char>|
        #![trigger ids.contains(x), parent_is(cats[j], x)]
        0 <= j < cats.len() && ids.contains(x) && parent_is(cats[j], x) ==> v[j]
}

/// Every category before index `k` whose parent is `x` is marked.
#[verifier::opaque]
spec fn claimed_upto(cats: Seq<Category>, v: Seq<bool>, x: Seq<char>, k: int) -> bool {
    forall|j: int| 0 <= j < k && #[trigger] parent_is(cats[j], x) ==> v[j]
}

proof fn lemma_claimed_upto_step(cats: Seq<Category>, v: Seq<bool>, x: Seq<char>, k: int)
    requires
        claimed_upto(cats, v, x, k),
        parent_is(cats[k], x) ==> v[k],
    ensures
        claimed_upto(cats, v, x, k + 1),
{
    reveal(claimed_upto);
}

proof fn lemma_claimed_upto_grows(cats: Seq<Category>, vb: Seq<bool>, va: Seq<bool>, x: Seq<char>, k: int)
    requires
        claimed_upto(cats, vb, x, k),
        grows(vb, va),
        k <= vb.len(),
    ensures
        claimed_upto(cats, va, x, k),
{
    reveal(claimed_upto);
}

proof fn lemma_claimed_upto_done(cats: Seq<Category>, v: Seq<bool>, x: Seq<char>)
    requires
        claimed_upto(cats, v, x, cats.len() as int),
    ensures
        children_claimed(cats, v, seq![x]),
{
    reveal(claimed_upto);
    reveal(children_claimed);
    assert forall|j: int, y: Seq<char>|
        0 <= j < cats.len() && seq![x].contains(y) && parent_is(cats[j], y) implies v[j] by {
        assert(seq![x][0] == x);
    }
}

proof fn lemma_claimed_concat(
    cats: Seq<Category>,
    vb: Seq<bool>,
    va: Seq<bool>,
    a: Seq<Seq<char>>,
    b: Seq<Seq<char>>,
)
    requires
        children_claimed(cats, vb, a),
        grows(vb, va),
        vb.len() == cats.len(),
        children_claimed(cats, va, b),
    ensures
        children_claimed(cats, va, a + b),
{
    reveal(children_claimed);
    assert forall|j: int, x: Seq<char>|
        0 <= j < cats.len() && (a + b).contains(x) && parent_is(cats[j], x) implies va[j] by {
        lemma_concat_contains(a, b, x);
        if a.contains(x) {
            assert(vb[j]);
        }
    }
}

proof fn lemma_claimed_empty(cats: Seq<Category>, v: Seq<bool>)
    ensures
        children_claimed(cats, v, Seq::empty()),
{
    reveal(children_claimed);
}

proof fn lemma_claimed_use(cats: Seq<Category>, v: Seq<bool>, ids: Seq<Seq<char>>, j: int, x: Seq<char>)
    requires
        children_claimed(cats, v, ids),
        0 <= j < cats.len(),
        ids.contains(x),
        parent_is(cats[j], x),
    ensures
        v[j],
{
    reveal(children_claimed);
}

/// Every category whose parent shows in the forest `f` shows in `f` too: nothing
/// is cut off from a parent that is there.
pub open spec fn closed_under_children(cats: Seq<Category>, f: Seq<CategoryTree>) -> bool {
    forall|j: int, x: Seq<char>|
        #![trigger forest_ids(f).contains(x), parent_is(cats[j], x)]
        0 <= j < cats.len() && forest_ids(f).contains(x) && parent_is(cats[j], x)
            ==> forest_ids(f).contains(cats[j].id@)
}

proof fn lemma_closed_from_claimed(cats: Seq<Category>, v: Seq<bool>, f: Seq<CategoryTree>)
    requires
        children_claimed(cats, v, forest_ids(f)),
        forall|j: int| 0 <= j < cats.len() && #[trigger] v[j] ==> forest_ids(f).contains(cats[j].id@),
    ensures
        closed_under_children(cats, f),
{
    reveal(children_claimed);
    assert forall|j: int, x: Seq<char>|
        0 <= j < cats.len() && forest_ids(f).contains(x) && parent_is(cats[j], x) implies forest_ids(
            f,
        ).contains(cats[j].id@) by {
        assert(v[j]);
    }
}

proof fn lemma_prefixes_push(cats: Seq<Category>, f: Seq<CategoryTree>, t: CategoryTree)
    requires
        forall|k: int| 0 <= k <= f.len() ==> closed_under_children(cats, #[trigger] f.take(k)),
        closed_under_children(cats, f.push(t)),
    ensures
        forall|k: int| 0 <= k <= f.len() + 1 ==> closed_under_children(cats, #[trigger] f.push(t).take(k)),
{
    assert forall|k: int| 0 <= k <= f.len() + 1 implies closed_under_children(
        cats,
        #[trigger] f.push(t).take(k),
    ) by {
        if k <= f.len() {
            assert(f.push(t).take(k) =~= f.take(k));
        } else {
            assert(f.push(t).take(k) =~= f.push(t));
        }
    }
}

proof fn lemma_prefixes_empty(cats: Seq<Category>, f: Seq<CategoryTree>)
    requires
        f.len() == 0,
    ensures
        forall|k: int| 0 <= k <= f.len() ==> closed_under_children(cats, #[trigger] f.take(k)),
{
    assert(f.take(0) =~= f);
    assert(forest_ids(f) =~= Seq::<Seq<char>>::empty());
}

/// Appending a freshly built tree keeps the forest's ids in step with the visited marks.
proof fn lemma_graft(
    cats: Seq<Category>,
    vb: Seq<bool>,
    va: Seq<bool>,
    f: Seq<CategoryTree>,
    t: CategoryTree,
    i: int,
)
    requires
        0 <= i < cats.len(),
        closed(cats, vb),
        closed(cats, va),
        grows(vb, va),
        va[i],
        tree_ids(t)[0] == cats[i].id@,
        tree_ids(t).no_duplicates(),
        forall|x: Seq<char>|
            #![trigger tree_ids(t).contains(x)]
            tree_ids(t).contains(x) ==> visited_id(cats, va, x) && (x == cats[i].id@
                || !visited_id(cats, vb, x)),
        forall|j: int|
            0 <= j < cats.len() && #[trigger] va[j] && !vb[j] ==> tree_ids(t).contains(
                cats[j].id@,
            ),
        forall|x: Seq<char>|
            #![trigger forest_ids(f).contains(x)]
            forest_ids(f).contains(x) ==> visited_id(cats, vb, x),
        forall|j: int|
            0 <= j < cats.len() && #[trigger] vb[j] ==> forest_ids(f).contains(cats[j].id@),
        unique_ids(cats) ==> forest_ids(f).no_duplicates(),
        unique_ids(cats) ==> !visited_id(cats, vb, cats[i].id@),
    ensures
        forall|x: Seq<char>|
            #![trigger forest_ids(f.push(t)).contains(x)]
            forest_ids(f.push(t)).contains(x) ==> visited_id(cats, va, x),
        forall|j: int|
            0 <= j < cats.len() && #[trigger] va[j] ==> forest_ids(f.push(t)).contains(
                cats[j].id@,
            ),
        unique_ids(cats) ==> forest_ids(f.push(t)).no_duplicates(),
{
    let fb = forest_ids(f);
    let ft = tree_ids(t);
    lemma_forest_push(f, t, Seq::empty(), cats);
    if unique_ids(cats) {
        assert forall|x: Seq<char>| fb.contains(x) implies !ft.contains(x) by {
            if ft.contains(x) {
                assert(!visited_id(cats, vb, x));
            }
        }
        lemma_no_dup_concat(fb, ft);
    }
    assert forall|x: Seq<char>|
        #![trigger forest_ids(f.push(t)).contains(x)]
        forest_ids(f.push(t)).contains(x) implies visited_id(cats, va, x) by {
        lemma_concat_contains(fb, ft, x);
        if fb.contains(x) {
            let w = choose|w: int| 0 <= w < cats.len() && vb[w] && (#[trigger] cats[w]).id@ == x;
            assert(va[w]);
        }
    }
    assert forall|j: int|
        0 <= j < cats.len() && #[trigger] va[j] implies forest_ids(f.push(t)).contains(
            cats[j].id@,
        ) by {
        lemma_concat_contains(fb, ft, cats[j].id@);
    }
}

/// Every visited id belongs to a non-root category or to a root before index `i`.
#[verifier::opaque]
spec fn claimed_before(cats: Seq<Category>, v: Seq<bool>, i: int) -> bool {
    forall|j: int|
        0 <= j < cats.len() && #[trigger] v[j] ==> exists|m: int|
            0 <= m < cats.len() && (#[trigger] cats[m]).id@ == cats[j].id@ && (!is_root_at(cats, m)
                || m < i)
}

/// With unique ids, a root that is not yet processed is not yet visited.
proof fn lemma_root_unvisited(cats: Seq<Category>, v: Seq<bool>, i: int)
    requires
        0 <= i < cats.len(),
        closed(cats, v),
        unique_ids(cats),
        is_root_at(cats, i),
        claimed_before(cats, v, i),
    ensures
        !visited_id(cats, v, cats[i].id@),
{
    reveal(claimed_before);
    if visited_id(cats, v, cats[i].id@) {
        let w = choose|w: int| 0 <= w < cats.len() && v[w] && (#[trigger] cats[w]).id@ == cats[i].id@;
        assert(v[i]);
        let m = choose|m: int|
            0 <= m < cats.len() && (#[trigger] cats[m]).id@ == cats[i].id@ && (!is_root_at(cats, m)
                || m < i);
        assert(m == i);
    }
}

/// Building root `i` keeps every visited id claimed, now by roots up to `i`.
proof fn lemma_root_step(cats: Seq<Category>, vb: Seq<bool>, va: Seq<bool>, i: int)
    requires
        0 <= i < cats.len(),
        grows(vb, va),
        claimed_before(cats, vb, i),
        forall|j: int|
            0 <= j < cats.len() && #[trigger] va[j] && !vb[j] && cats[j].id@ != cats[i].id@
                ==> exists|m: int|
                0 <= m < cats.len() && (#[trigger] cats[m]).id@ == cats[j].id@ && !is_root_at(
                    cats,
                    m,
                ),
    ensures
        claimed_before(cats, va, i + 1),
{
    reveal(claimed_before);
    assert forall|j: int| 0 <= j < cats.len() && #[trigger] va[j] implies exists|m: int|
        0 <= m < cats.len() && (#[trigger] cats[m]).id@ == cats[j].id@ && (!is_root_at(cats, m)
            || m < i + 1) by {
        if vb[j] {
            let m = choose|m: int|
                0 <= m < cats.len() && (#[trigger] cats[m]).id@ == cats[j].id@ && (!is_root_at(
                    cats,
                    m,
                ) || m < i);
        } else if cats[j].id@ == cats[i].id@ {
            assert(cats[i].id@ == cats[j].id@);
        }
    }
}

/// Flat category list to forest. Total: every input category is accounted for,
/// whatever the input, including self-parents, dangling parents and cycles.
///
/// Roots (no parent, self-parent, or a parent missing from the input) come first,
/// in input order; anything still unclaimed afterwards belongs to a cycle or hangs
/// below one, and is grafted on as a root rather than dropped.
#[verifier::rlimit(100)]
#[verifier::spinoff_prover]
pub fn build_category_tree(categories: &[Category]) -> (forest: Vec<CategoryTree>)
    ensures
        forall|k: int| 0 <= k < forest@.len() ==> tree_ok(#[trigger] forest@[k], categories@),
        forall|j: int|
            0 <= j < categories@.len() ==> forest_ids(forest@).contains(
                (#[trigger] categories@[j]).id@,
            ),
        forall|x: Seq<char>|
            #![trigger forest_ids(forest@).contains(x)]
            forest_ids(forest@).contains(x) ==> id_present(categories@, x),
        unique_ids(categories@) ==> forest_ids(forest@).no_duplicates(),
        unique_ids(categories@) ==> forest_ids(forest@).len() == categories@.len(),
        root_indices(categories@, categories@.len() as int).len() <= forest@.len(),
        forall|k: int|
            0 <= k < root_indices(categories@, categories@.len() as int).len() ==> node_of(
                #[trigger] forest@[k],
                categories@[root_indices(categories@, categories@.len() as int)[k]],
            ),
        forall|k: int|
            root_indices(categories@, categories@.len() as int).len() <= k < forest@.len()
                ==> exists|j: int|
                0 <= j < categories@.len() && node_of(#[trigger] forest@[k], categories@[j])
                    && !is_root_at(categories@, j) && !forest_ids(
                    forest@.take(root_indices(categories@, categories@.len() as int).len() as int),
                ).contains(categories@[j].parent_id->0@),
        forall|k: int|
            0 <= k <= forest@.len() ==> closed_under_children(categories@, #[trigger] forest@.take(k)),
        unique_ids(categories@) ==> forall|k: int|
            0 <= k < forest@.len() ==> tree_ordered(#[trigger] forest@[k], categories@),
        unique_ids(categories@) ==> forall|k1: int, k2: int|
            root_indices(categories@, categories@.len() as int).len() <= k1 < k2 < forest@.len()
                ==> index_of(categories@, (#[trigger] forest@[k1]).id@) < index_of(
                categories@,
                (#[trigger] forest@[k2]).id@,
            ),
{
    let ghost cats = categories@;
    let n = categories.len();
    let mut visited: Vec<bool> = Vec::new();
    while visited.len() < n
        invariant
            visited@.len() <= n == cats.len(),
            forall|j: int| 0 <= j < visited@.len() ==> !#[trigger] visited@[j],
        decreases n - visited.len(),
    {
        visited.push(false);
    }
    let mut forest: Vec<CategoryTree> = Vec::new();
    let mut i: usize = 0;
    proof {
        reveal(claimed_before);
        lemma_claimed_empty(cats, visited@);
        assert(forest_ids(forest@) =~= Seq::<Seq<char>>::empty());
        lemma_prefixes_empty(cats, forest@);
    }
    // Roots first, in input order.
    while i < n
        invariant
            cats == categories@,
            n == cats.len(),
            i <= n,
            closed(cats, visited@),
            forall|k: int| 0 <= k < forest@.len() ==> tree_ok(#[trigger] forest@[k], cats),
            forall|x: Seq<char>|
                #![trigger forest_ids(forest@).contains(x)]
                forest_ids(forest@).contains(x) ==> visited_id(cats, visited@, x),
            forall|j: int|
                0 <= j < cats.len() && #[trigger] visited@[j] ==> forest_ids(forest@).contains(
                    cats[j].id@,
                ),
            unique_ids(cats) ==> forest_ids(forest@).no_duplicates(),
            claimed_before(cats, visited@, i as int),
            forall|j: int| 0 <= j < i && is_root_at(cats, j) ==> #[trigger] visited@[j],
            forest@.len() == root_indices(cats, i as int).len(),
            forall|k: int|
                0 <= k < root_indices(cats, i as int).len() ==> node_of(
                    #[trigger] forest@[k],
                    cats[root_indices(cats, i as int)[k]],
                ),
            children_claimed(cats, visited@, forest_ids(forest@)),
            forall|k: int| 0 <= k <= forest@.len() ==> closed_under_children(cats, #[trigger] forest@.take(k)),
            unique_ids(cats) ==> forall|k: int| 0 <= k < forest@.len() ==> tree_ordered(#[trigger] forest@[k], cats),
        decreases n - i,
    {
        let ghost ri = root_indices(cats, i as int);
        if is_root(categories, i) {
            let ghost vb = visited@;
            proof {
                if unique_ids(cats) {
                    lemma_root_unvisited(cats, vb, i as int);
                }
            }
            let t = build_node(categories, i, &mut visited);
            let ghost va = visited@;
            proof {
                lemma_forest_push(forest@, t, Seq::empty(), cats);
                lemma_graft(cats, vb, va, forest@, t, i as int);
                lemma_root_step(cats, vb, va, i as int);
                assert forall|j: int| 0 <= j < i + 1 && is_root_at(cats, j) implies #[trigger] va[j] by {
                    if j < i {
                        assert(vb[j]);
                    }
                }
                assert(root_indices(cats, i + 1) == ri.push(i as int));
                lemma_claimed_concat(cats, vb, va, forest_ids(forest@), tree_ids(t));
                lemma_closed_from_claimed(cats, va, forest@.push(t));
                lemma_prefixes_push(cats, forest@, t);
            }
            forest.push(t);
        } else {
            proof {
                assert(root_indices(cats, i + 1) == ri);
                reveal(claimed_before);
            }
        }
        i = i + 1;
    }
    let ghost root_count = forest@.len();
    let ghost roots = forest@;
    let ghost root_ids = forest_ids(forest@);
    // Anything still unvisited sits in a cycle or below one: graft it on.
    let mut o: usize = 0;
    while o < n
        invariant
            cats == categories@,
            n == cats.len(),
            o <= n,
            closed(cats, visited@),
            forall|j: int| 0 <= j < n && is_root_at(cats, j) ==> #[trigger] visited@[j],
            forall|k: int| 0 <= k < forest@.len() ==> tree_ok(#[trigger] forest@[k], cats),
            forall|x: Seq<char>|
                #![trigger forest_ids(forest@).contains(x)]
                forest_ids(forest@).contains(x) ==> visited_id(cats, visited@, x),
            forall|j: int|
                0 <= j < cats.len() && #[trigger] visited@[j] ==> forest_ids(forest@).contains(
                    cats[j].id@,
                ),
            unique_ids(cats) ==> forest_ids(forest@).no_duplicates(),
            forall|j: int| 0 <= j < o ==> #[trigger] visited@[j],
            root_count == root_indices(cats, n as int).len(),
            root_count <= forest@.len(),
            forall|k: int|
                0 <= k < root_count ==> node_of(
                    #[trigger] forest@[k],
                    cats[root_indices(cats, n as int)[k]],
                ),
            roots.len() == root_count,
            forest@.take(root_count as int) == roots,
            root_ids == forest_ids(roots),
            children_claimed(cats, visited@, root_ids),
            children_claimed(cats, visited@, forest_ids(forest@)),
            forall|k: int| 0 <= k <= forest@.len() ==> closed_under_children(cats, #[trigger] forest@.take(k)),
            unique_ids(cats) ==> forall|k: int| 0 <= k < forest@.len() ==> tree_ordered(#[trigger] forest@[k], cats),
            unique_ids(cats) ==> forall|k: int|
                root_count <= k < forest@.len() ==> index_of(cats, (#[trigger] forest@[k]).id@) < o,
            unique_ids(cats) ==> forall|k1: int, k2: int|
                root_count <= k1 < k2 < forest@.len() ==> index_of(cats, (#[trigger] forest@[k1]).id@)
                    < index_of(cats, (#[trigger] forest@[k2]).id@),
            forall|k: int|
                root_count <= k < forest@.len() ==> exists|j: int|
                    0 <= j < cats.len() && node_of(#[trigger] forest@[k], cats[j])
                        && !is_root_at(cats, j) && !root_ids.contains(cats[j].parent_id->0@),
        decreases n - o,
    {
        if !visited[o] {
            let ghost vb = visited@;
            let t = build_node(categories, o, &mut visited);
            let ghost va = visited@;
            proof {
                lemma_forest_push(forest@, t, Seq::empty(), cats);
                assert(!visited_id(cats, vb, cats[o as int].id@)) by {
                    if visited_id(cats, vb, cats[o as int].id@) {
                        let w = choose|w: int|
                            0 <= w < cats.len() && vb[w] && (#[trigger] cats[w]).id@
                                == cats[o as int].id@;
                        assert(vb[o as int]);
                    }
                }
                lemma_graft(cats, vb, va, forest@, t, o as int);
                assert forall|j: int| 0 <= j < n && is_root_at(cats, j) implies #[trigger] va[j] by {
                    assert(vb[j]);
                }
                assert forall|j: int| 0 <= j < o + 1 implies #[trigger] va[j] by {
                    if j < o {
                        assert(vb[j]);
                    }
                }
                assert(!is_root_at(cats, o as int));
                assert(node_of(forest@.push(t)[forest@.len() as int], cats[o as int]));
                let p = cats[o as int].parent_id->0@;
                if root_ids.contains(p) {
                    lemma_claimed_use(cats, vb, root_ids, o as int, p);
                }
                lemma_claimed_empty(cats, va);
                lemma_claimed_concat(cats, vb, va, root_ids, Seq::empty());
                assert(root_ids + Seq::<Seq<char>>::empty() =~= root_ids);
                assert(forest@.push(t).take(root_count as int) =~= forest@.take(root_count as int));
                lemma_claimed_concat(cats, vb, va, forest_ids(forest@), tree_ids(t));
                lemma_closed_from_claimed(cats, va, forest@.push(t));
                lemma_prefixes_push(cats, forest@, t);
                if unique_ids(cats) {
                    lemma_index_of(cats, t, o as int);
                }
            }
            forest.push(t);
        }
        o = o + 1;
    }
    proof {
        let f = forest_ids(forest@);
        assert forall|j: int| 0 <= j < cats.len() implies f.contains((#[trigger] cats[j]).id@) by {
            assert(visited@[j]);
        }
        assert forall|x: Seq<char>|
            #![trigger forest_ids(forest@).contains(x)]
            forest_ids(forest@).contains(x) implies id_present(cats, x) by {
            let w = choose|w: int| 0 <= w < cats.len() && visited@[w] && (#[trigger] cats[w]).id@ == x;
            assert(cats[w].id@ == x);
        }
        if unique_ids(cats) {
            let ids = cats.map_values(|c: Category| c.id@);
            assert(ids.no_duplicates()) by {
                assert forall|a: int, b: int| 0 <= a < ids.len() && 0 <= b < ids.len() && a != b
                    implies ids[a] != ids[b] by {
                    assert(cats[a].id@ != cats[b].id@);
                }
            }
            assert(f.to_set() =~= ids.to_set()) by {
                assert forall|x: Seq<char>| f.to_set().contains(x) implies ids.to_set().contains(x) by {
                    assert(f.contains(x));
                    let w = choose|w: int| 0 <= w < cats.len() && (#[trigger] cats[w]).id@ == x;
                    assert(ids[w] == x);
                }
                assert forall|x: Seq<char>| ids.to_set().contains(x) implies f.to_set().contains(x) by {
                    assert(ids.contains(x));
                    let w = choose|w: int| 0 <= w < ids.len() && ids[w] == x;
                    assert(visited@[w]);
                    assert(f.contains(cats[w].id@));
                }
            }
            f.unique_seq_to_set();
            ids.unique_seq_to_set();
        }
    }
    forest
}

} // verus!
