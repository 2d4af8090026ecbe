//! Categories: the tree built from the flat list of categories.
use vstd::prelude::*;
use vstd::string::StringExecFns;
use crate::text::{concat2, decimal};

verus! {

/// Why a category operation failed.
#[derive(Debug, Clone, PartialEq)]
pub enum CategoryError {
    /// The database failed (its message).
    Database(String),
    /// No category has this slug.
    NotFound(String),
    /// The parent category does not exist.
    InvalidParent(i32),
}

/// The message of a category error, as its display shows it.
pub open spec fn category_error_text(e: CategoryError) -> Seq<char> {
    match e {
        CategoryError::Database(m) => "Database error: "@ + m@,
        CategoryError::NotFound(s) => "Category not found: "@ + s@,
        CategoryError::InvalidParent(p) => "Invalid parent category: "@ + decimal(p as int),
    }
}

impl CategoryError {
    /// The message shown for this error.
    pub fn message(&self) -> (r: String)
        ensures
            r@ == category_error_text(*self),
    {
        match self {
            CategoryError::Database(m) => concat2("Database error: ", m.as_str()),
            CategoryError::NotFound(s) => concat2("Category not found: ", s.as_str()),
            CategoryError::InvalidParent(p) => {
                let t = crate::text::i64_to_decimal(*p as i64);
                concat2("Invalid parent category: ", t.as_str())
            },
        }
    }
}

/// The values of a category that the tree reads.
#[derive(Debug, Clone)]
pub struct Category {
    pub id: i32,
    pub name: String,
    pub slug: String,
    pub parent_id: Option<i32>,
    pub icon: Option<String>,
    pub description: Option<String>,
}

/// One step of a category's breadcrumb.
#[derive(Debug, Clone)]
pub struct CategoryBreadcrumb {
    pub id: i32,
    pub name: String,
    pub slug: String,
    pub level: i32,
}

/// A node of the category tree, with its children.
#[derive(Debug)]
pub struct CategoryView {
    pub id: i32,
    pub name: String,
    pub slug: String,
    pub icon: String,
    pub description: String,
    pub children: Vec<CategoryView>,
}

/// The categories whose parent is `parent` (`None`: the roots), in order.
pub open spec fn kids(all: Seq<Category>, parent: Option<i32>) -> Seq<Category>
    decreases all.len(),
{
    if all.len() == 0 {
        Seq::empty()
    } else if all.last().parent_id == parent {
        kids(all.drop_last(), parent).push(all.last())
    } else {
        kids(all.drop_last(), parent)
    }
}

/// Below the category `id`, no chain of children is `n` or more long (so
/// the tree below it is finite).
pub open spec fn depth_below(all: Seq<Category>, id: i32, n: nat) -> bool
    decreases n,
{
    n > 0 && forall|i: int|
        0 <= i < kids(all, Some(id)).len() ==> depth_below(all, #[trigger] kids(all, Some(id))[i].id, (n - 1) as nat)
}

/// The tree below the category `id` is finite.
pub open spec fn finite_below(all: Seq<Category>, id: i32) -> bool {
    exists|n: nat| depth_below(all, id, n)
}

/// A depth that bounds the tree below `id`, when it is finite.
pub open spec fn depth_of(all: Seq<Category>, id: i32) -> nat {
    choose|n: nat| depth_below(all, id, n)
}

/// An optional text, or the empty text.
pub open spec fn text_or_empty(t: Option<String>) -> Seq<char> {
    match t {
        Some(s) => s@,
        None => Seq::empty(),
    }
}

/// `v` is the node of the category `c`, with the subtree below it to depth `n`.
pub open spec fn node_of(all: Seq<Category>, c: Category, v: CategoryView, n: nat) -> bool
    decreases n, 0nat,
{
    &&& v.id == c.id
    &&& v.name@ == c.name@
    &&& v.slug@ == c.slug@
    &&& v.icon@ == text_or_empty(c.icon)
    &&& v.description@ == text_or_empty(c.description)
    &&& n > 0 ==> nodes_of(all, Some(c.id), v.children@, (n - 1) as nat)
}

/// `vs` are the nodes of the children of `parent`, in order, each with its
/// subtree to depth `n`.
pub open spec fn nodes_of(all: Seq<Category>, parent: Option<i32>, vs: Seq<CategoryView>, n: nat) -> bool
    decreases n, 1nat,
{
    &&& vs.len() == kids(all, parent).len()
    &&& forall|i: int| 0 <= i < vs.len() ==> node_of(all, #[trigger] kids(all, parent)[i], vs[i], n)
}

proof fn lemma_kids_step(all: Seq<Category>, parent: Option<i32>, i: int)
    requires
        0 <= i < all.len(),
    ensures
        kids(all.subrange(0, i + 1), parent) == if all[i].parent_id == parent {
            kids(all.subrange(0, i), parent).push(all[i])
        } else {
            kids(all.subrange(0, i), parent)
        },
{
    let p = all.subrange(0, i + 1);
    assert(p.drop_last() =~= all.subrange(0, i));
    assert(p.last() == all[i]);
}

fn text_or_empty_exec(t: &Option<String>) -> (r: String)
    ensures
        r@ == text_or_empty(*t),
{
    match t {
        Some(s) => s.clone(),
        None => String::new(),
    }
}

/// The nodes of the children of `parent`, each with its subtree.
fn children_of(all: &Vec<Category>, parent: i32, Ghost(n): Ghost<nat>) -> (r: Vec<CategoryView>)
    requires
        depth_below(all@, parent, n),
    ensures
        nodes_of(all@, Some(parent), r@, (n - 1) as nat),
    decreases n,
{
    let ghost ks = kids(all@, Some(parent));
    let mut out: Vec<CategoryView> = Vec::new();
    let mut i: usize = 0;
    assert(all@.subrange(0, 0) =~= Seq::<Category>::empty());
    while i < all.len()
        invariant
            i <= all.len(),
            n > 0,
            ks == kids(all@, Some(parent)),
            forall|j: int| 0 <= j < ks.len() ==> depth_below(all@, #[trigger] ks[j].id, (n - 1) as nat),
            out@.len() == kids(all@.subrange(0, i as int), Some(parent)).len(),
            forall|j: int|
                0 <= j < out@.len() ==> node_of(
                    all@,
                    #[trigger] kids(all@.subrange(0, i as int), Some(parent))[j],
                    out@[j],
                    (n - 1) as nat,
                ),
            kids(all@.subrange(0, i as int), Some(parent)).len() <= ks.len(),
            forall|j: int|
                0 <= j < kids(all@.subrange(0, i as int), Some(parent)).len() ==> #[trigger] kids(
                    all@.subrange(0, i as int),
                    Some(parent),
                )[j] == ks[j],
        decreases all.len() - i,
    {
        proof {
            lemma_kids_step(all@, Some(parent), i as int);
            lemma_kids_prefix(all@, Some(parent), i + 1);
        }
        if all[i].parent_id == Some(parent) {
            let c = &all[i];
            let ghost k = kids(all@.subrange(0, i as int), Some(parent)).len();
            proof {
                assert(kids(all@.subrange(0, i + 1), Some(parent))[k as int] == all@[i as int]);
                assert(ks[k as int] == all@[i as int]);
                assert(depth_below(all@, ks[k as int].id, (n - 1) as nat));
            }
            let sub = children_of(all, c.id, Ghost((n - 1) as nat));
            let v = CategoryView {
                id: c.id,
                name: c.name.clone(),
                slug: c.slug.clone(),
                icon: text_or_empty_exec(&c.icon),
                description: text_or_empty_exec(&c.description),
                children: sub,
            };
            proof {
                assert(node_of(all@, all@[i as int], v, (n - 1) as nat));
            }
            let ghost before = out@;
            out.push(v);
            proof {
                let kn = kids(all@.subrange(0, i + 1), Some(parent));
                assert forall|j: int| 0 <= j < out@.len() implies node_of(
                    all@,
                    #[trigger] kn[j],
                    out@[j],
                    (n - 1) as nat,
                ) by {
                    if j < before.len() {
                        assert(out@[j] == before[j]);
                    }
                }
            }
        }
        i += 1;
    }
    proof {
        assert(all@.subrange(0, all.len() as int) =~= all@);
    }
    out
}

/// The categories of `all` after the first `n` come after the kids of the
/// first `n`: the kids of a prefix are a prefix of the kids.
proof fn lemma_kids_prefix(all: Seq<Category>, parent: Option<i32>, n: int)
    requires
        0 <= n <= all.len(),
    ensures
        kids(all.subrange(0, n), parent).len() <= kids(all, parent).len(),
        forall|j: int|
            0 <= j < kids(all.subrange(0, n), parent).len() ==> #[trigger] kids(
                all.subrange(0, n),
                parent,
            )[j] == kids(all, parent)[j],
    decreases all.len(),
{
    if n == all.len() {
        assert(all.subrange(0, n) =~= all);
    } else {
        let t = all.drop_last();
        assert(t.subrange(0, n) =~= all.subrange(0, n));
        lemma_kids_prefix(t, parent, n);
    }
}

/// The tree of categories: a node for each root (a category without a
/// parent), in order, and below each node the nodes of its children, in
/// order. Every root's subtree must be finite (no cycle of parents below
/// it), for the tree would never end.
pub fn build_tree(all: Vec<Category>) -> (r: Vec<CategoryView>)
    requires
        forall|i: int|
            0 <= i < kids(all@, None).len() ==> finite_below(all@, #[trigger] kids(all@, None)[i].id),
    ensures
        r@.len() == kids(all@, None).len(),
        forall|i: int|
            0 <= i < r@.len() ==> node_of(
                all@,
                #[trigger] kids(all@, None)[i],
                r@[i],
                depth_of(all@, kids(all@, None)[i].id),
            ),
{
    let ghost ks = kids(all@, None);
    let mut out: Vec<CategoryView> = Vec::new();
    let mut i: usize = 0;
    assert(all@.subrange(0, 0) =~= Seq::<Category>::empty());
    while i < all.len()
        invariant
            i <= all.len(),
            ks == kids(all@, None),
            forall|j: int| 0 <= j < ks.len() ==> finite_below(all@, #[trigger] ks[j].id),
            out@.len() == kids(all@.subrange(0, i as int), None).len(),
            kids(all@.subrange(0, i as int), None).len() <= ks.len(),
            forall|j: int|
                0 <= j < kids(all@.subrange(0, i as int), None).len() ==> #[trigger] kids(
                    all@.subrange(0, i as int),
                    None,
                )[j] == ks[j],
            forall|j: int|
                0 <= j < out@.len() ==> node_of(all@, #[trigger] ks[j], out@[j], depth_of(all@, ks[j].id)),
        decreases all.len() - i,
    {
        proof {
            lemma_kids_step(all@, None, i as int);
            lemma_kids_prefix(all@, None, i + 1);
        }
        if all[i].parent_id.is_none() {
            let c = &all[i];
            let ghost k = kids(all@.subrange(0, i as int), None).len();
            proof {
                assert(kids(all@.subrange(0, i + 1), None)[k as int] == all@[i as int]);
                assert(ks[k as int] == all@[i as int]);
            }
            let ghost n: nat = depth_of(all@, ks[k as int].id);
            proof {
                assert(finite_below(all@, ks[k as int].id));
            }
            let sub = children_of(&all, c.id, Ghost(n));
            let v = CategoryView {
                id: c.id,
                name: c.name.clone(),
                slug: c.slug.clone(),
                icon: text_or_empty_exec(&c.icon),
                description: text_or_empty_exec(&c.description),
                children: sub,
            };
            proof {
                assert(node_of(all@, ks[k as int], v, n));
            }
            let ghost before = out@;
            out.push(v);
            proof {
                assert forall|j: int| 0 <= j < out@.len() implies node_of(
                    all@,
                    #[trigger] ks[j],
                    out@[j],
                    depth_of(all@, ks[j].id),
                ) by {
                    if j < before.len() {
                        assert(out@[j] == before[j]);
                    }
                }
            }
        }
        i += 1;
    }
    proof {
        assert(all@.subrange(0, all.len() as int) =~= all@);
    }
    out
}

} // verus!

verus! {

/// Whether no chain of children below the category `id` is `fuel` or more
/// long.
fn depth_within(all: &Vec<Category>, id: i32, fuel: u64) -> (b: bool)
    ensures
        b == depth_below(all@, id, fuel as nat),
    decreases fuel,
{
    if fuel == 0 {
        return false;
    }
    let ghost ks = kids(all@, Some(id));
    let mut i: usize = 0;
    assert(all@.subrange(0, 0) =~= Seq::<Category>::empty());
    while i < all.len()
        invariant
            i <= all.len(),
            fuel > 0,
            ks == kids(all@, Some(id)),
            kids(all@.subrange(0, i as int), Some(id)).len() <= ks.len(),
            forall|j: int|
                0 <= j < kids(all@.subrange(0, i as int), Some(id)).len() ==> #[trigger] kids(
                    all@.subrange(0, i as int),
                    Some(id),
                )[j] == ks[j],
            forall|j: int|
                0 <= j < kids(all@.subrange(0, i as int), Some(id)).len() ==> depth_below(
                    all@,
                    #[trigger] ks[j].id,
                    (fuel - 1) as nat,
                ),
        decreases all.len() - i,
    {
        proof {
            lemma_kids_step(all@, Some(id), i as int);
            lemma_kids_prefix(all@, Some(id), i + 1);
        }
        if all[i].parent_id == Some(id) {
            let ghost k = kids(all@.subrange(0, i as int), Some(id)).len();
            proof {
                assert(kids(all@.subrange(0, i + 1), Some(id))[k as int] == all@[i as int]);
                assert(ks[k as int] == all@[i as int]);
            }
            if !depth_within(all, all[i].id, fuel - 1) {
                proof {
                    assert(k < ks.len());
                    assert(!depth_below(all@, ks[k as int].id, (fuel - 1) as nat));
                }
                return false;
            }
        }
        i += 1;
    }
    proof {
        assert(all@.subrange(0, all.len() as int) =~= all@);
    }
    true
}

/// How long a chain of children may be in a list of `n` categories without
/// a cycle of parents: one more than there are categories (capped at the
/// largest `u64`).
pub open spec fn chain_limit(n: nat) -> nat {
    if n >= u64::MAX { u64::MAX as nat } else { n + 1 }
}

/// The tree of categories (see `build_tree`), when the subtree of every root
/// is found finite; `None` when a chain of children below a root is longer
/// than there are categories, which only a cycle of parents makes.
pub fn build_tree_checked(all: Vec<Category>) -> (r: Option<Vec<CategoryView>>)
    ensures
        r is Some <==> forall|j: int|
            0 <= j < kids(all@, None).len() ==> depth_below(
                all@,
                #[trigger] kids(all@, None)[j].id,
                chain_limit(all@.len()),
            ),
        r matches Some(t) ==> (t@.len() == kids(all@, None).len() && forall|i: int|
            0 <= i < t@.len() ==> node_of(
                all@,
                #[trigger] kids(all@, None)[i],
                t@[i],
                depth_of(all@, kids(all@, None)[i].id),
            )),
{
    let ghost ks = kids(all@, None);
    let fuel: u64 = if all.len() as u64 >= u64::MAX { u64::MAX } else { all.len() as u64 + 1 };
    let mut i: usize = 0;
    assert(all@.subrange(0, 0) =~= Seq::<Category>::empty());
    while i < all.len()
        invariant
            i <= all.len(),
            ks == kids(all@, None),
            kids(all@.subrange(0, i as int), None).len() <= ks.len(),
            forall|j: int|
                0 <= j < kids(all@.subrange(0, i as int), None).len() ==> #[trigger] kids(
                    all@.subrange(0, i as int),
                    None,
                )[j] == ks[j],
            forall|j: int|
                0 <= j < kids(all@.subrange(0, i as int), None).len() ==> depth_below(
                    all@,
                    #[trigger] ks[j].id,
                    fuel as nat,
                ),
            fuel == chain_limit(all@.len()),
        decreases all.len() - i,
    {
        proof {
            lemma_kids_step(all@, None, i as int);
            lemma_kids_prefix(all@, None, i + 1);
        }
        if all[i].parent_id.is_none() {
            let ghost k = kids(all@.subrange(0, i as int), None).len();
            proof {
                assert(kids(all@.subrange(0, i + 1), None)[k as int] == all@[i as int]);
                assert(ks[k as int] == all@[i as int]);
            }
            if !depth_within(&all, all[i].id, fuel) {
                proof {
                    assert(k < ks.len());
                    assert(!depth_below(all@, ks[k as int].id, fuel as nat));
                }
                return None;
            }
        }
        i += 1;
    }
    proof {
        assert(all@.subrange(0, all.len() as int) =~= all@);
        assert forall|j: int| 0 <= j < ks.len() implies finite_below(all@, #[trigger] ks[j].id) by {
            assert(depth_below(all@, ks[j].id, fuel as nat));
        }
    }
    Some(build_tree(all))
}

} // verus!
