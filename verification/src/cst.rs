//! The concrete syntax tree that the mutation patterns walk.
//!
//! A tree is a list of nodes in document order: a node stands before all
//! of its descendants, and the children of a node follow each other in
//! the order in which they occur in the source. Each node names its
//! parent by position. A parser's tree is brought into this form by
//! writing its nodes down in preorder.

use crate::text::str_eq;
use vstd::prelude::*;

verus! {

/// One node of a concrete syntax tree.
#[derive(Clone, Debug)]
pub struct SyntaxNode {
    /// The grammar's name for this kind of node.
    pub kind: String,
    /// First byte of the node in the source.
    pub start_byte: usize,
    /// One past the last byte of the node in the source.
    pub end_byte: usize,
    /// Position of the parent in the tree; `None` for a root.
    pub parent: Option<usize>,
    /// The field of the parent that this node fills, where it has one.
    pub field_name: Option<String>,
    /// Named nodes stand for rules of the grammar, the others for literal tokens.
    pub is_named: bool,
    /// The parser made this node up to recover from an error.
    pub is_missing: bool,
    /// The node covers text that the parser could not make sense of.
    pub is_error: bool,
}

/// A concrete syntax tree, its nodes in document order.
#[derive(Clone, Debug)]
pub struct SyntaxTree {
    pub nodes: Vec<SyntaxNode>,
}

/// The strings of a list of string slices.
pub open spec fn str_views(items: Seq<&str>) -> Seq<Seq<char>> {
    items.map_values(|s: &str| s@)
}

impl SyntaxTree {
    /// Number of nodes.
    pub open spec fn len(&self) -> nat {
        self.nodes@.len()
    }

    /// Every parent stands before its children.
    pub open spec fn well_formed(&self) -> bool {
        forall|i: int|
            0 <= i < self.nodes@.len() ==> match (#[trigger] self.nodes@[i]).parent {
                Some(p) => p < i,
                None => true,
            }
    }

    /// Kind of node `i`.
    pub open spec fn kind(&self, i: int) -> Seq<char> {
        self.nodes@[i].kind@
    }

    /// The parent of node `i`. A parent that does not stand before the
    /// node is not followed, so that every walk towards the root ends.
    pub open spec fn parent_of(&self, i: int) -> Option<int> {
        match self.nodes@[i].parent {
            Some(p) => if p < i {
                Some(p as int)
            } else {
                None
            },
            None => None,
        }
    }

    /// Node `j` is a child of node `i`.
    pub open spec fn is_child(&self, i: int, j: int) -> bool {
        0 <= j < self.nodes@.len() && self.parent_of(j) == Some(i)
    }

    /// Node `i` or one of its ancestors is a comment.
    pub open spec fn in_comment(&self, i: int) -> bool
        decreases i,
    {
        0 <= i < self.nodes@.len() && (self.kind(i) == "comment"@ || match self.parent_of(i) {
            Some(p) => self.in_comment(p),
            None => false,
        })
    }

    /// A proper ancestor of node `i` has one of the given kinds.
    pub open spec fn has_ancestor_of_kinds(&self, i: int, kinds: Seq<Seq<char>>) -> bool
        decreases i,
    {
        0 <= i < self.nodes@.len() && match self.parent_of(i) {
            Some(p) => kinds.contains(self.kind(p)) || self.has_ancestor_of_kinds(p, kinds),
            None => false,
        }
    }

    /// The children of node `i` among the first `n` nodes, in document order.
    pub open spec fn children_upto(&self, i: int, n: nat) -> Seq<usize>
        decreases n,
    {
        if n == 0 {
            Seq::empty()
        } else if self.is_child(i, n - 1) {
            self.children_upto(i, (n - 1) as nat).push((n - 1) as usize)
        } else {
            self.children_upto(i, (n - 1) as nat)
        }
    }

    /// The children of node `i`, in document order.
    pub open spec fn children(&self, i: int) -> Seq<usize> {
        self.children_upto(i, self.nodes@.len())
    }

    /// Node `j` fills the field `field` of its parent.
    pub open spec fn has_field(&self, j: int, field: Seq<char>) -> bool {
        0 <= j < self.nodes@.len() && match self.nodes@[j].field_name {
            Some(f) => f@ == field,
            None => false,
        }
    }

    /// The first of `items` that fills the field `field`.
    pub open spec fn first_with_field(&self, items: Seq<usize>, field: Seq<char>) -> Option<usize>
        decreases items.len(),
    {
        if items.len() == 0 {
            None
        } else if self.has_field(items[0] as int, field) {
            Some(items[0])
        } else {
            self.first_with_field(items.drop_first(), field)
        }
    }

    /// The first of `items` whose kind is one of `kinds`.
    pub open spec fn first_with_kind(&self, items: Seq<usize>, kinds: Seq<Seq<char>>) -> Option<
        usize,
    >
        decreases items.len(),
    {
        if items.len() == 0 {
            None
        } else if kinds.contains(self.kind(items[0] as int)) {
            Some(items[0])
        } else {
            self.first_with_kind(items.drop_first(), kinds)
        }
    }

    /// The first child of node `i` that fills the field `field`.
    pub open spec fn child_by_field(&self, i: int, field: Seq<char>) -> Option<usize> {
        self.first_with_field(self.children(i), field)
    }

    /// The first child of node `i` whose kind is one of `kinds`.
    pub open spec fn child_by_kinds(&self, i: int, kinds: Seq<Seq<char>>) -> Option<usize> {
        self.first_with_kind(self.children(i), kinds)
    }

    /// A tree without nodes.
    pub fn new() -> (r: SyntaxTree)
        ensures
            r.nodes@.len() == 0,
            r.well_formed(),
    {
        SyntaxTree { nodes: Vec::new() }
    }

    /// Number of nodes in the tree.
    pub fn node_count(&self) -> (r: usize)
        ensures
            r == self.len(),
    {
        self.nodes.len()
    }

    /// Appends a node and returns its position. A parent that is not yet
    /// in the tree is not recorded: the node becomes a root.
    pub fn add_node(&mut self, node: SyntaxNode) -> (r: usize)
        ensures
            r == old(self).nodes@.len(),
            final(self).nodes@.len() == old(self).nodes@.len() + 1,
            final(self).nodes@.subrange(0, r as int) == old(self).nodes@,
            final(self).nodes@[r as int].kind == node.kind,
            final(self).nodes@[r as int].start_byte == node.start_byte,
            final(self).nodes@[r as int].end_byte == node.end_byte,
            final(self).nodes@[r as int].field_name == node.field_name,
            final(self).nodes@[r as int].is_named == node.is_named,
            final(self).nodes@[r as int].is_missing == node.is_missing,
            final(self).nodes@[r as int].is_error == node.is_error,
            final(self).nodes@[r as int].parent == match node.parent {
                Some(p) => if p < r {
                    Some(p)
                } else {
                    None
                },
                None => None,
            },
            old(self).well_formed() ==> final(self).well_formed(),
    {
        let at = self.nodes.len();
        let parent = match node.parent {
            Some(p) => if p < at {
                Some(p)
            } else {
                None
            },
            None => None,
        };
        let ghost before = self.nodes@;
        self.nodes.push(
            SyntaxNode {
                kind: node.kind,
                start_byte: node.start_byte,
                end_byte: node.end_byte,
                parent,
                field_name: node.field_name,
                is_named: node.is_named,
                is_missing: node.is_missing,
                is_error: node.is_error,
            },
        );
        proof {
            assert(self.nodes@.subrange(0, at as int) =~= before);
            if old(self).well_formed() {
                assert forall|i: int| 0 <= i < self.nodes@.len() implies match (
                #[trigger] self.nodes@[i]).parent {
                    Some(p) => p < i,
                    None => true,
                } by {
                    if i < at {
                        assert(self.nodes@[i] == before[i]);
                    }
                }
            }
        }
        at
    }

    /// Whether every parent stands before its children.
    pub fn is_well_formed(&self) -> (r: bool)
        ensures
            r == self.well_formed(),
    {
        let mut i: usize = 0;
        while i < self.nodes.len()
            invariant
                i <= self.nodes@.len(),
                forall|k: int|
                    0 <= k < i ==> match (#[trigger] self.nodes@[k]).parent {
                        Some(p) => p < k,
                        None => true,
                    },
            decreases self.nodes@.len() - i,
        {
            match self.nodes[i].parent {
                Some(p) => {
                    if p >= i {
                        return false;
                    }
                },
                None => {},
            }
            i += 1;
        }
        true
    }

    /// Whether node `i` has the kind `kind`.
    pub fn kind_is(&self, i: usize, kind: &str) -> (r: bool)
        requires
            i < self.len(),
        ensures
            r == (self.kind(i as int) == kind@),
    {
        str_eq(self.nodes[i].kind.as_str(), kind)
    }

    /// Whether the kind of node `i` is one of `kinds`.
    pub fn kind_in(&self, i: usize, kinds: &[&str]) -> (r: bool)
        requires
            i < self.len(),
        ensures
            r == str_views(kinds@).contains(self.kind(i as int)),
    {
        contains_str(kinds, self.nodes[i].kind.as_str())
    }

    /// The parent of node `i`, if it has one that stands before it.
    pub fn parent(&self, i: usize) -> (r: Option<usize>)
        requires
            i < self.len(),
        ensures
            match r {
                Some(p) => self.parent_of(i as int) == Some(p as int) && p < i,
                None => self.parent_of(i as int) is None,
            },
    {
        match self.nodes[i].parent {
            Some(p) => if p < i {
                Some(p)
            } else {
                None
            },
            None => None,
        }
    }

    /// The children of node `i`, in document order.
    pub fn child_indices(&self, i: usize) -> (r: Vec<usize>)
        ensures
            r@ == self.children(i as int),
            forall|k: int| 0 <= k < r@.len() ==> (#[trigger] r@[k]) < self.len(),
    {
        let mut out: Vec<usize> = Vec::new();
        let mut j: usize = 0;
        while j < self.nodes.len()
            invariant
                j <= self.nodes@.len(),
                out@ == self.children_upto(i as int, j as nat),
                forall|k: int| 0 <= k < out@.len() ==> (#[trigger] out@[k]) < self.len(),
            decreases self.nodes@.len() - j,
        {
            let is_child = match self.nodes[j].parent {
                Some(p) => p < j && p == i,
                None => false,
            };
            if is_child {
                out.push(j);
            }
            j += 1;
        }
        out
    }

    /// The first child of node `i` that fills the field `field`.
    pub fn child_by_field_name(&self, i: usize, field: &str) -> (r: Option<usize>)
        ensures
            r == self.child_by_field(i as int, field@),
            r matches Some(j) ==> j < self.len(),
    {
        let children = self.child_indices(i);
        let mut k: usize = 0;
        assert(children@.subrange(0, children@.len() as int) =~= children@);
        while k < children.len()
            invariant
                k <= children@.len(),
                children@ == self.children(i as int),
                forall|n: int| 0 <= n < children@.len() ==> (#[trigger] children@[n]) < self.len(),
                self.first_with_field(children@, field@) == self.first_with_field(
                    children@.subrange(k as int, children@.len() as int),
                    field@,
                ),
            decreases children@.len() - k,
        {
            let j = children[k];
            let ghost rest = children@.subrange(k as int, children@.len() as int);
            assert(rest[0] == j);
            assert(rest.drop_first() =~= children@.subrange(k + 1, children@.len() as int));
            let hit = match &self.nodes[j].field_name {
                Some(f) => str_eq(f.as_str(), field),
                None => false,
            };
            if hit {
                assert(self.has_field(rest[0] as int, field@));
                assert(self.first_with_field(rest, field@) == Some(j));
                return Some(j);
            }
            k += 1;
        }
        None
    }

    /// The first child of node `i` whose kind is one of `kinds`.
    pub fn child_by_kind_in(&self, i: usize, kinds: &[&str]) -> (r: Option<usize>)
        ensures
            r == self.child_by_kinds(i as int, str_views(kinds@)),
            r matches Some(j) ==> j < self.len(),
    {
        let children = self.child_indices(i);
        let mut k: usize = 0;
        assert(children@.subrange(0, children@.len() as int) =~= children@);
        while k < children.len()
            invariant
                k <= children@.len(),
                children@ == self.children(i as int),
                forall|n: int| 0 <= n < children@.len() ==> (#[trigger] children@[n]) < self.len(),
                self.first_with_kind(children@, str_views(kinds@)) == self.first_with_kind(
                    children@.subrange(k as int, children@.len() as int),
                    str_views(kinds@),
                ),
            decreases children@.len() - k,
        {
            let j = children[k];
            let ghost rest = children@.subrange(k as int, children@.len() as int);
            assert(rest[0] == j);
            assert(rest.drop_first() =~= children@.subrange(k + 1, children@.len() as int));
            if self.kind_in(j, kinds) {
                assert(self.first_with_kind(rest, str_views(kinds@)) == Some(j));
                return Some(j);
            }
            k += 1;
        }
        None
    }
}

/// Whether `item` is one of `items`.
pub fn contains_str(items: &[&str], item: &str) -> (r: bool)
    ensures
        r == str_views(items@).contains(item@),
{
    let mut k: usize = 0;
    while k < items.len()
        invariant
            k <= items@.len(),
            forall|n: int| 0 <= n < k ==> str_views(items@)[n] != item@,
        decreases items@.len() - k,
    {
        if str_eq(items[k], item) {
            assert(str_views(items@)[k as int] == item@);
            return true;
        }
        k += 1;
    }
    false
}

/// Check if a node is inside a comment: whether it or one of its
/// ancestors has the kind `comment`.
pub fn is_in_comment(tree: &SyntaxTree, i: usize) -> (r: bool)
    ensures
        r == tree.in_comment(i as int),
{
    if i >= tree.nodes.len() {
        return false;
    }
    let mut cur: usize = i;
    loop
        invariant
            cur < tree.nodes@.len(),
            tree.in_comment(i as int) == tree.in_comment(cur as int),
        decreases cur,
    {
        if tree.kind_is(cur, "comment") {
            return true;
        }
        match tree.parent(cur) {
            Some(p) => {
                cur = p;
            },
            None => {
                return false;
            },
        }
    }
}

/// Whether a proper ancestor of node `i` has one of the given kinds.
pub fn has_ancestor_with_kind(tree: &SyntaxTree, i: usize, kinds: &[&str]) -> (r: bool)
    ensures
        r == tree.has_ancestor_of_kinds(i as int, str_views(kinds@)),
{
    if i >= tree.nodes.len() {
        return false;
    }
    let mut cur: usize = i;
    loop
        invariant
            cur < tree.nodes@.len(),
            tree.has_ancestor_of_kinds(i as int, str_views(kinds@)) == tree.has_ancestor_of_kinds(
                cur as int,
                str_views(kinds@),
            ),
        decreases cur,
    {
        match tree.parent(cur) {
            Some(p) => {
                if tree.kind_in(p, kinds) {
                    return true;
                }
                cur = p;
            },
            None => {
                return false;
            },
        }
    }
}

} // verus!
