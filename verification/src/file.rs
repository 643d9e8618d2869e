//! Hierarchical storage-path nodes. A path is a chain of named segments;
//! directory nodes carry a name and an optional parent, file nodes add a
//! content type whose extension completes the file's name. The functions
//! here are the pure path algebra: parsing a path string into a chain,
//! deriving the absolute path back out of it, renaming, reparenting and
//! grafting. The filesystem actions that back these operations (create,
//! rename on disk, existence checks) are the caller's: the mutators hand
//! back the old and new absolute paths so the caller can apply them.
//!
//! A lineage is a store of (name, parent-link) cells owned by one
//! holder; nodes are handles into it. Clones of a node name the same
//! cell, so a rename or move performed through any clone is visible to
//! all clones of the lineage. Nodes built by independent constructions
//! (their own cells, even from equal path strings) share nothing:
//! mutating one never affects the other.

use crate::content_type::{spec_guess, spec_registry, ContentType, ContentTypeView};
use vstd::prelude::*;
use vstd::string::StrSliceExecFns;
use vstd::string::StringExecFns;

verus! {

/// Index of the first occurrence of `c` in `s`, or -1.
pub open spec fn first_index(s: Seq<char>, c: char) -> int
    decreases s.len(),
{
    if s.len() == 0 {
        -1
    } else if s[0] == c {
        0
    } else {
        let r = first_index(s.drop_first(), c);
        if r == -1 {
            -1
        } else {
            r + 1
        }
    }
}

/// What `first_index` finds: the first occurrence, and no occurrence
/// before it; -1 exactly when `c` does not occur at all.
pub proof fn lemma_first_index(s: Seq<char>, c: char)
    ensures
        first_index(s, c) >= -1,
        first_index(s, c) == -1 ==> forall|i: int| 0 <= i < s.len() ==> s[i] != c,
        first_index(s, c) >= 0 ==> {
            &&& 0 <= first_index(s, c) < s.len()
            &&& s[first_index(s, c)] == c
            &&& forall|i: int| 0 <= i < first_index(s, c) ==> s[i] != c
        },
    decreases s.len(),
{
    if s.len() == 0 {
    } else if s[0] == c {
    } else {
        lemma_first_index(s.drop_first(), c);
        let r = first_index(s.drop_first(), c);
        assert(forall|i: int| 1 <= i < s.len() ==> s[i] == s.drop_first()[i - 1]);
        if r == -1 {
            assert(first_index(s, c) == -1);
            assert forall|i: int| 0 <= i < s.len() implies s[i] != c by {
                if i >= 1 {
                    assert(s.drop_first()[i - 1] != c);
                }
            }
        } else {
            assert(first_index(s, c) == r + 1);
            assert(s[r + 1] == s.drop_first()[r]);
            assert forall|i: int| 0 <= i < r + 1 implies s[i] != c by {
                if i >= 1 {
                    assert(s.drop_first()[i - 1] != c);
                }
            }
        }
    }
}

/// How often `c` occurs in `s`.
pub open spec fn count_char(s: Seq<char>, c: char) -> int
    decreases s.len(),
{
    if s.len() == 0 {
        0
    } else {
        (if s[0] == c {
            1int
        } else {
            0int
        }) + count_char(s.drop_first(), c)
    }
}

/// Occurrences add up over concatenation.
proof fn lemma_count_concat(a: Seq<char>, b: Seq<char>, c: char)
    ensures
        count_char(a + b, c) == count_char(a, c) + count_char(b, c),
    decreases a.len(),
{
    if a.len() == 0 {
        assert(a + b =~= b);
    } else {
        lemma_count_concat(a.drop_first(), b, c);
        assert((a + b).drop_first() =~= a.drop_first() + b);
        assert((a + b)[0] == a[0]);
    }
}

/// A sequence without `c` counts zero occurrences.
proof fn lemma_count_zero(s: Seq<char>, c: char)
    requires
        forall|i: int| 0 <= i < s.len() ==> s[i] != c,
    ensures
        count_char(s, c) == 0,
    decreases s.len(),
{
    if s.len() > 0 {
        assert(forall|i: int| 0 <= i < s.drop_first().len() ==> s.drop_first()[i] == s[i + 1]);
        lemma_count_zero(s.drop_first(), c);
    }
}

/// The segments of a path string: maximal runs between separators.
/// Always at least one segment; an empty string yields one empty segment.
pub open spec fn spec_split(s: Seq<char>) -> Seq<Seq<char>>
    decreases s.len(),
{
    let i = first_index(s, '/');
    if 0 <= i < s.len() {
        seq![s.take(i)] + spec_split(s.skip(i + 1))
    } else {
        seq![s]
    }
}

/// A split yields at least one segment.
pub proof fn lemma_split_min_len(s: Seq<char>)
    ensures
        spec_split(s).len() >= 1,
{
}

/// The segments joined back with the separator.
pub open spec fn spec_join(segs: Seq<Seq<char>>) -> Seq<char>
    decreases segs.len(),
{
    if segs.len() == 0 {
        Seq::empty()
    } else if segs.len() == 1 {
        segs[0]
    } else {
        segs[0] + seq!['/'] + spec_join(segs.drop_first())
    }
}

/// Appending one more segment appends a separator and that segment.
pub proof fn lemma_join_snoc(a: Seq<Seq<char>>, x: Seq<char>)
    requires
        a.len() >= 1,
    ensures
        spec_join(a + seq![x]) == spec_join(a) + seq!['/'] + x,
    decreases a.len(),
{
    let b = a + seq![x];
    if a.len() == 1 {
        assert(b.len() == 2);
        assert(b.drop_first() =~= seq![x]);
        assert(spec_join(seq![x]) == x);
        assert(spec_join(b) == b[0] + seq!['/'] + spec_join(b.drop_first()));
        assert(b[0] == a[0]);
        assert(spec_join(a) == a[0]);
        assert(spec_join(b) =~= spec_join(a) + seq!['/'] + x);
    } else {
        lemma_join_snoc(a.drop_first(), x);
        assert(b.drop_first() =~= a.drop_first() + seq![x]);
        assert(b[0] == a[0]);
        assert(spec_join(b) =~= spec_join(a) + seq!['/'] + x);
    }
}

/// Splitting a path string and joining the segments again rebuilds the
/// original string exactly: `absolute_path` on a freshly parsed node
/// reconstructs the path it was built from.
pub proof fn lemma_join_split_round_trip(s: Seq<char>)
    ensures
        spec_join(spec_split(s)) == s,
    decreases s.len(),
{
    lemma_first_index(s, '/');
    let i = first_index(s, '/');
    if 0 <= i < s.len() {
        lemma_join_split_round_trip(s.skip(i + 1));
        lemma_split_min_len(s.skip(i + 1));
        let rest = spec_split(s.skip(i + 1));
        let whole = seq![s.take(i)] + rest;
        assert(spec_split(s) == whole);
        assert(whole[0] == s.take(i));
        assert(whole.drop_first() =~= rest);
        assert(s[i] == '/');
        assert(spec_join(whole) =~= s);
    }
}

/// A node parsed from a path string prints that string back: whatever
/// `from` built (its segments are the split of the path), the absolute
/// path it derives is the original string, separator for separator.
pub proof fn lemma_parse_then_print(path: Seq<char>, segs: Seq<Seq<char>>)
    requires
        segs == spec_split(path),
    ensures
        spec_join(segs) == path,
{
    lemma_join_split_round_trip(path);
}

/// A path string splits into one segment more than it has separators:
/// the depth of a freshly parsed chain (ancestors above the node) is
/// exactly the number of separators in the path it was parsed from.
pub proof fn lemma_split_counts_separators(s: Seq<char>)
    ensures
        spec_split(s).len() == count_char(s, '/') + 1,
    decreases s.len(),
{
    lemma_first_index(s, '/');
    let i = first_index(s, '/');
    if 0 <= i < s.len() {
        lemma_split_counts_separators(s.skip(i + 1));
        let head = s.take(i);
        let mid = seq![s[i]];
        let rest = s.skip(i + 1);
        assert(s =~= head + mid + rest);
        lemma_count_concat(head + mid, rest, '/');
        lemma_count_concat(head, mid, '/');
        assert(forall|j: int| 0 <= j < head.len() ==> head[j] == s[j]);
        lemma_count_zero(head, '/');
        assert(mid.drop_first() =~= Seq::<char>::empty());
        assert(mid[0] == s[i]);
        assert(s[i] == '/');
        assert(count_char(Seq::<char>::empty(), '/') == 0);
        assert(count_char(mid, '/') == 1);
    } else {
        lemma_count_zero(s, '/');
    }
}

/// Splits a path string on the separator into its segment names.
#[verifier::loop_isolation(false)]
fn split_path(s: &str) -> (r: Vec<String>)
    ensures
        r@.map_values(|t: String| t@) == spec_split(s@),
    decreases s@.len(),
{
    proof {
        lemma_first_index(s@, '/');
    }
    let s_len: usize = s.unicode_len();
    match find_char(s, '/') {
        None => {
            let mut v: Vec<String> = Vec::new();
            v.push(String::from_str(s));
            proof {
                assert(v@.map_values(|t: String| t@) =~= spec_split(s@));
            }
            v
        },
        Some(i) => {
            let head = String::from_str(s.substring_char(0, i));
            let rest = s.substring_char(i + 1, s_len);
            let mut v = split_path(rest);
            v.insert(0, head);
            proof {
                assert(rest@ =~= s@.skip(i + 1));
                assert(head@ =~= s@.take(i as int));
                assert(v@.map_values(|t: String| t@) =~= spec_split(s@));
            }
            v
        },
    }
}

/// First occurrence of `c` in `s`, if any.
#[verifier::loop_isolation(false)]
fn find_char(s: &str, c: char) -> (r: Option<usize>)
    ensures
        match r {
            None => first_index(s@, c) == -1,
            Some(i) => first_index(s@, c) == i,
        },
{
    proof {
        lemma_first_index(s@, c);
    }
    let ghost fi = first_index(s@, c);
    let s_len: usize = s.unicode_len();
    let mut i: usize = 0;
    while i < s_len
        invariant
            0 <= i <= s_len,
            forall|j: int| 0 <= j < i ==> s@[j] != c,
        decreases s_len - i,
    {
        if s.get_char(i) == c {
            proof {
                if fi == -1 {
                    assert(false);
                }
                if fi < i as int {
                    assert(s@[fi] != c);
                    assert(false);
                }
                if fi > i as int {
                    assert(s@[i as int] != c);
                    assert(false);
                }
            }
            return Some(i);
        }
        i += 1;
    }
    proof {
        if fi >= 0 {
            assert(s@[fi] != c);
            assert(false);
        }
    }
    None
}

/// The name stem of a file segment: what stands before the first dot.
pub open spec fn spec_stem(last: Seq<char>) -> Seq<char> {
    let d = first_index(last, '.');
    if d < 0 {
        last
    } else {
        last.take(d)
    }
}

/// The extension candidate of a file segment: a dot and what stands
/// between the first dot and the second (or the end). None when the
/// segment has no dot. Anything after a second dot belongs to no field.
pub open spec fn spec_ext_raw(last: Seq<char>) -> Option<Seq<char>> {
    let d = first_index(last, '.');
    if d < 0 {
        Option::None
    } else {
        let rest = last.skip(d + 1);
        let d2 = first_index(rest, '.');
        let body = if d2 < 0 {
            rest
        } else {
            rest.take(d2)
        };
        Option::Some(seq!['.'] + body)
    }
}

/// The content type a file segment's extension maps to: the registry's
/// first extension match, or the Unknown entry when the segment has no
/// dot or the extension is not in the registry.
pub open spec fn spec_ext_ct(last: Seq<char>) -> ContentTypeView {
    match spec_ext_raw(last) {
        Option::None => spec_registry()[0],
        Option::Some(e) => spec_guess(e),
    }
}/// One lineage cell: a segment name and an optional link to a parent
/// cell of the same store.
pub struct NodeCell {
    name: String,
    parent: Option<usize>,
}

/// The mathematical value of a cell.
#[verifier::ext_equal]
pub ghost struct NodeCellView {
    pub name: Seq<char>,
    pub parent: Option<int>,
}

impl View for NodeCell {
    type V = NodeCellView;

    closed spec fn view(&self) -> NodeCellView {
        NodeCellView {
            name: self.name@,
            parent: match self.parent {
                Option::None => Option::None,
                Option::Some(p) => Option::Some(p as int),
            },
        }
    }
}

/// The cells of one construction lineage, owned by one holder. Nodes
/// are handles into this store, so every clone of a node reads and
/// writes the same cell: a rename or move performed through any handle
/// is visible through all handles of the lineage. A cell's parent link
/// always points to an older cell, which keeps every chain acyclic.
pub struct NodeStore {
    cells: Vec<NodeCell>,
}

/// Every parent link points to a strictly older cell.
pub open spec fn store_wf(cells: Seq<NodeCellView>) -> bool {
    forall|i: int|
        0 <= i < cells.len() ==> ((#[trigger] cells[i]).parent matches Some(p) ==> 0 <= p < i)
}

/// The segment names from the root of cell `i`'s chain down to `i`.
pub open spec fn segs_at(cells: Seq<NodeCellView>, i: int) -> Seq<Seq<char>>
    decreases i,
{
    if 0 <= i < cells.len() {
        match cells[i].parent {
            Option::None => seq![cells[i].name],
            Option::Some(p) => if 0 <= p < i {
                segs_at(cells, p) + seq![cells[i].name]
            } else {
                seq![cells[i].name]
            },
        }
    } else {
        Seq::empty()
    }
}

/// The topmost ancestor of cell `i`'s chain.
pub open spec fn root_of(cells: Seq<NodeCellView>, i: int) -> int
    decreases i,
{
    if 0 <= i < cells.len() {
        match cells[i].parent {
            Option::None => i,
            Option::Some(p) => if 0 <= p < i {
                root_of(cells, p)
            } else {
                i
            },
        }
    } else {
        i
    }
}

/// A chain has at least its own segment, and its root lies at or below
/// its own index, carrying no parent link.
pub proof fn lemma_chain_shape(cells: Seq<NodeCellView>, i: int)
    requires
        0 <= i < cells.len(),
    ensures
        segs_at(cells, i).len() >= 1,
        segs_at(cells, i).last() == cells[i].name,
        0 <= root_of(cells, i) <= i,
        cells[root_of(cells, i)].parent is None || !(0 <= cells[root_of(cells, i)].parent.unwrap()
            < root_of(cells, i)),
    decreases i,
{
    match cells[i].parent {
        Option::None => {},
        Option::Some(p) => {
            if 0 <= p < i {
                lemma_chain_shape(cells, p);
            }
        },
    }
}

/// Growing a store leaves every existing chain as it was.
pub proof fn lemma_segs_grow(cells: Seq<NodeCellView>, bigger: Seq<NodeCellView>, i: int)
    requires
        cells.len() <= bigger.len(),
        forall|j: int| 0 <= j < cells.len() ==> #[trigger] bigger[j] == cells[j],
        0 <= i < cells.len(),
    ensures
        segs_at(bigger, i) == segs_at(cells, i),
        root_of(bigger, i) == root_of(cells, i),
    decreases i,
{
    match cells[i].parent {
        Option::None => {},
        Option::Some(p) => {
            if 0 <= p < i {
                lemma_segs_grow(cells, bigger, p);
            }
        },
    }
}

/// Updating a younger cell leaves every older chain as it was.
pub proof fn lemma_segs_update_above(cells: Seq<NodeCellView>, j: int, x: NodeCellView, i: int)
    requires
        0 <= i < cells.len(),
        i < j < cells.len(),
    ensures
        segs_at(cells.update(j, x), i) == segs_at(cells, i),
        root_of(cells.update(j, x), i) == root_of(cells, i),
    decreases i,
{
    match cells[i].parent {
        Option::None => {},
        Option::Some(p) => {
            if 0 <= p < i {
                lemma_segs_update_above(cells, j, x, p);
            }
        },
    }
}

/// Hanging a chain's root cell under an older cell `q` prefixes every
/// chain through that root with `q`'s own chain.
proof fn lemma_graft_segs(cells: Seq<NodeCellView>, q: int, r0: int, i: int)
    requires
        store_wf(cells),
        0 <= q < r0 < cells.len(),
        cells[r0].parent is None,
        0 <= i < cells.len(),
        root_of(cells, i) == r0,
    ensures
        segs_at(
            cells.update(r0, NodeCellView { name: cells[r0].name, parent: Option::Some(q) }),
            i,
        ) == segs_at(cells, q) + segs_at(cells, i),
    decreases i,
{
    let newc = cells.update(r0, NodeCellView { name: cells[r0].name, parent: Option::Some(q) });
    if i == r0 {
        lemma_segs_update_above(cells, r0, newc[r0], q);
        assert(segs_at(newc, r0) =~= segs_at(cells, q) + segs_at(cells, r0));
    } else {
        let p = cells[i].parent.unwrap();
        assert(0 <= p < i);
        lemma_chain_shape(cells, i);
        assert(root_of(cells, p) == r0);
        lemma_graft_segs(cells, q, r0, p);
        assert(newc[i] == cells[i]);
        assert(segs_at(newc, i) =~= segs_at(cells, q) + segs_at(cells, i));
    }
}

impl Clone for NodeCell {
    fn clone(&self) -> (res: Self)
        ensures
            res@ == self@,
    {
        NodeCell { name: self.name.clone(), parent: self.parent }
    }
}

impl View for NodeStore {
    type V = Seq<NodeCellView>;

    closed spec fn view(&self) -> Seq<NodeCellView> {
        self.cells@.map_values(|c: NodeCell| c@)
    }
}

impl NodeStore {
    /// Every parent link points to a strictly older cell.
    pub open spec fn wf(self) -> bool {
        store_wf(self@)
    }

    /// An empty lineage.
    pub fn new() -> (r: NodeStore)
        ensures
            r@ == Seq::<NodeCellView>::empty(),
            r.wf(),
    {
        let r = NodeStore { cells: Vec::new() };
        proof {
            assert(r@ =~= Seq::<NodeCellView>::empty());
        }
        r
    }

    /// Appends one cell; the store's old cells are untouched.
    fn push_cell(&mut self, name: String, parent: Option<usize>) -> (r: usize)
        requires
            old(self).wf(),
            parent matches Some(p) ==> (p as int) < old(self)@.len(),
        ensures
            final(self)@ == old(self)@.push(
                NodeCellView {
                    name: name@,
                    parent: match parent {
                        Option::None => Option::None,
                        Option::Some(p) => Option::Some(p as int),
                    },
                },
            ),
            final(self).wf(),
            r as int == old(self)@.len(),
    {
        let r = self.cells.len();
        self.cells.push(NodeCell { name, parent });
        proof {
            assert(self@ =~= old(self)@.push(self.cells@.last()@));
            assert forall|i: int|
                0 <= i < self@.len() implies ((#[trigger] self@[i]).parent matches Some(p) ==> 0
                <= p < i) by {
                if i < old(self)@.len() {
                    assert(self@[i] == old(self)@[i]);
                }
            }
        }
        r
    }
}

impl Clone for NodeStore {
    /// An independent copy of the lineage: equal cells, separate state.
    fn clone(&self) -> (res: Self)
        ensures
            res@ == self@,
    {
        let cells = self.cells.clone();
        let r = NodeStore { cells };
        proof {
            assert forall|i: int| 0 <= i < r@.len() implies #[trigger] r@[i] == self@[i] by {
                assert(vstd::pervasive::cloned::<NodeCell>(
                    self.cells@[i],
                    r.cells@[i],
                ));
            }
            assert(r@ =~= self@);
        }
        r
    }
}

/// A rename performed through any handle of a cell is visible through
/// every handle of the lineage: a child whose cell links to the renamed
/// cell sees its own chain end in the renamed parent's chain, whose
/// last segment is the new name.
pub proof fn lemma_rename_visible_through_children(
    cells: Seq<NodeCellView>,
    parent: DirNode,
    child: DirNode,
    new_name: Seq<char>,
)
    requires
        store_wf(cells),
        child.valid(cells),
        cells[child.spec_cell()].parent == Option::Some(parent.spec_cell()),
    ensures
        ({
            let renamed = cells.update(
                parent.spec_cell(),
                NodeCellView { name: new_name, parent: cells[parent.spec_cell()].parent },
            );
            &&& child.segs(renamed) == parent.segs(renamed) + seq![
                cells[child.spec_cell()].name,
            ]
            &&& parent.segs(renamed).last() == new_name
        }),
{
    let q = parent.spec_cell();
    let c = child.spec_cell();
    assert(0 <= q < c);
    let renamed = cells.update(q, NodeCellView { name: new_name, parent: cells[q].parent });
    assert(renamed[c] == cells[c]);
    assert(child.segs(renamed) =~= parent.segs(renamed) + seq![cells[c].name]);
    assert(store_wf(renamed)) by {
        assert forall|i: int|
            0 <= i < renamed.len() implies ((#[trigger] renamed[i]).parent matches Some(p) ==> 0
            <= p < i) by {
            if i != q {
                assert(renamed[i] == cells[i]);
            }
        }
    }
    lemma_chain_shape(renamed, q);
}

/// A handle to a directory cell of a lineage store. Copying the handle
/// shares the cell, so a rename or move through any copy is visible
/// through every copy.
#[derive(Clone, Copy, PartialEq, Eq, Structural, Debug)]
pub struct DirNode {
    cell: usize,
}

/// A handle to a file cell of a lineage store: the cell carries the
/// name stem and the parent link (shared by every copy of the handle),
/// while the content type, whose extension completes the file's name,
/// belongs to the handle itself.
pub struct FileNode {
    cell: usize,
    content_type: ContentType,
}

impl DirNode {
    /// The cell this handle names.
    pub closed spec fn spec_cell(self) -> int {
        self.cell as int
    }

    /// The handle points into the store.
    pub open spec fn valid(self, cells: Seq<NodeCellView>) -> bool {
        0 <= self.spec_cell() < cells.len()
    }

    /// The segment names from the root of this node's chain down to it.
    pub open spec fn segs(self, cells: Seq<NodeCellView>) -> Seq<Seq<char>> {
        segs_at(cells, self.spec_cell())
    }

    /// A fresh root cell with the given name.
    pub fn new(store: &mut NodeStore, name: String) -> (r: DirNode)
        requires
            old(store).wf(),
        ensures
            final(store)@ == old(store)@.push(NodeCellView { name: name@, parent: Option::None }),
            final(store).wf(),
            r.spec_cell() == old(store)@.len(),
            r.segs(final(store)@) == seq![name@],
    {
        let cell = store.push_cell(name, None);
        DirNode { cell }
    }

    /// The node's local name.
    pub fn name(&self, store: &NodeStore) -> (r: String)
        requires
            self.valid(store@),
        ensures
            r@ == store@[self.spec_cell()].name,
    {
        store.cells[self.cell].name.clone()
    }

    /// The parent handle, if the cell has one.
    pub fn up(&self, store: &NodeStore) -> (r: Option<DirNode>)
        requires
            self.valid(store@),
        ensures
            match store@[self.spec_cell()].parent {
                Option::None => r is None,
                Option::Some(p) => r matches Some(d) && d.spec_cell() == p,
            },
    {
        match store.cells[self.cell].parent {
            None => None,
            Some(p) => Some(DirNode { cell: p }),
        }
    }

    /// A child cell of this node; the child's chain shares this node's
    /// cells, so later renames above it move the child's path too.
    pub fn next(&self, store: &mut NodeStore, name: String) -> (r: DirNode)
        requires
            old(store).wf(),
            self.valid(old(store)@),
        ensures
            final(store)@ == old(store)@.push(
                NodeCellView { name: name@, parent: Option::Some(self.spec_cell()) },
            ),
            final(store).wf(),
            r.spec_cell() == old(store)@.len(),
            r.segs(final(store)@) == self.segs(old(store)@) + seq![name@],
            root_of(final(store)@, r.spec_cell()) == root_of(old(store)@, self.spec_cell()),
    {
        let cell = store.push_cell(name, Some(self.cell));
        proof {
            lemma_segs_grow(old(store)@, store@, self.spec_cell());
        }
        DirNode { cell }
    }

    /// A file cell directly under this node.
    pub fn to(&self, store: &mut NodeStore, name: String, context_type: ContentType) -> (r:
        FileNode)
        requires
            old(store).wf(),
            self.valid(old(store)@),
        ensures
            final(store)@ == old(store)@.push(
                NodeCellView { name: name@, parent: Option::Some(self.spec_cell()) },
            ),
            final(store).wf(),
            r.spec_cell() == old(store)@.len(),
            r.spec_ct() == context_type@,
            r.segs(final(store)@) == self.segs(old(store)@) + seq![name@ + context_type@.ext],
            root_of(final(store)@, r.spec_cell()) == root_of(old(store)@, self.spec_cell()),
    {
        let cell = store.push_cell(name, Some(self.cell));
        let r = FileNode { cell, content_type: context_type };
        proof {
            lemma_segs_grow(old(store)@, store@, self.spec_cell());
            assert(r.segs(store@) =~= self.segs(old(store)@) + seq![
                store@[r.spec_cell()].name + r.spec_ct().ext,
            ]);
        }
        r
    }

    /// Parses a path string into a fresh chain of this store, one cell
    /// per segment.
    pub fn from(store: &mut NodeStore, path: &str) -> (r: DirNode)
        requires
            old(store).wf(),
        ensures
            final(store)@.len() == old(store)@.len() + spec_split(path@).len(),
            final(store)@.subrange(0, old(store)@.len() as int) == old(store)@,
            final(store).wf(),
            r.spec_cell() == final(store)@.len() - 1,
            r.segs(final(store)@) == spec_split(path@),
            root_of(final(store)@, r.spec_cell()) == old(store)@.len(),
    {
        let segs = split_path(path);
        proof {
            lemma_split_min_len(path@);
        }
        append_chain(store, segs)
    }

    /// The segment names of this node's chain, root first.
    pub fn seg_names(&self, store: &NodeStore) -> (r: Vec<String>)
        requires
            store.wf(),
            self.valid(store@),
        ensures
            r@.map_values(|t: String| t@) == self.segs(store@),
        decreases self.spec_cell(),
    {
        match store.cells[self.cell].parent {
            None => {
                let mut v: Vec<String> = Vec::new();
                v.push(store.cells[self.cell].name.clone());
                proof {
                    assert(v@.map_values(|t: String| t@) =~= self.segs(store@));
                }
                v
            },
            Some(p) => {
                let up = DirNode { cell: p };
                let mut v = up.seg_names(store);
                v.push(store.cells[self.cell].name.clone());
                proof {
                    assert(v@.map_values(|t: String| t@) =~= self.segs(store@));
                }
                v
            },
        }
    }

    /// The separator-joined path from the root of the chain to this
    /// node.
    pub fn absolute_path(&self, store: &NodeStore) -> (r: String)
        requires
            store.wf(),
            self.valid(store@),
        ensures
            r@ == spec_join(self.segs(store@)),
        decreases self.spec_cell(),
    {
        match store.cells[self.cell].parent {
            None => store.cells[self.cell].name.clone(),
            Some(p) => {
                let up = DirNode { cell: p };
                let pre = up.absolute_path(store);
                proof {
                    lemma_chain_shape(store@, p as int);
                    lemma_join_snoc(segs_at(store@, p as int), store@[self.spec_cell()].name);
                    reveal_strlit("/");
                }
                let r = pre.concat("/").concat(store.cells[self.cell].name.as_str());
                proof {
                    assert(r@ =~= spec_join(self.segs(store@)));
                }
                r
            },
        }
    }

    /// Number of ancestors above this node.
    pub fn deep(&self, store: &NodeStore) -> (r: i16)
        requires
            store.wf(),
            self.valid(store@),
            self.segs(store@).len() <= 0x7fff,
        ensures
            r as int == self.segs(store@).len() - 1,
        decreases self.spec_cell(),
    {
        match store.cells[self.cell].parent {
            None => 0,
            Some(p) => {
                let up = DirNode { cell: p };
                proof {
                    lemma_chain_shape(store@, p as int);
                }
                up.deep(store) + 1
            },
        }
    }

    /// Replaces this cell's name; the change is visible through every
    /// handle of the lineage, clones and children alike.
    pub fn set_name(&self, store: &mut NodeStore, new_name: String)
        requires
            old(store).wf(),
            self.valid(old(store)@),
        ensures
            final(store)@ == old(store)@.update(
                self.spec_cell(),
                NodeCellView {
                    name: new_name@,
                    parent: old(store)@[self.spec_cell()].parent,
                },
            ),
            final(store).wf(),
    {
        let parent = store.cells[self.cell].parent;
        store.cells.set(self.cell, NodeCell { name: new_name, parent });
        proof {
            assert(store@ =~= old(store)@.update(self.spec_cell(), store.cells@[self.spec_cell()]@));
            assert forall|i: int|
                0 <= i < store@.len() implies ((#[trigger] store@[i]).parent matches Some(p) ==> 0
                <= p < i) by {
                if i != self.spec_cell() {
                    assert(store@[i] == old(store)@[i]);
                }
            }
        }
    }

    /// Hangs this cell directly under an older cell.
    pub fn set_parent(&self, store: &mut NodeStore, parent: &DirNode)
        requires
            old(store).wf(),
            self.valid(old(store)@),
            parent.valid(old(store)@),
            parent.spec_cell() < self.spec_cell(),
        ensures
            final(store)@ == old(store)@.update(
                self.spec_cell(),
                NodeCellView {
                    name: old(store)@[self.spec_cell()].name,
                    parent: Option::Some(parent.spec_cell()),
                },
            ),
            final(store).wf(),
            self.segs(final(store)@) == parent.segs(old(store)@) + seq![
                old(store)@[self.spec_cell()].name,
            ],
    {
        let name = store.cells[self.cell].name.clone();
        store.cells.set(self.cell, NodeCell { name, parent: Some(parent.cell) });
        proof {
            assert(store@ =~= old(store)@.update(self.spec_cell(), store.cells@[self.spec_cell()]@));
            assert forall|i: int|
                0 <= i < store@.len() implies ((#[trigger] store@[i]).parent matches Some(p) ==> 0
                <= p < i) by {
                if i != self.spec_cell() {
                    assert(store@[i] == old(store)@[i]);
                }
            }
            lemma_segs_update_above(old(store)@, self.spec_cell(), store@[self.spec_cell()],
                parent.spec_cell());
            assert(self.segs(store@) =~= parent.segs(old(store)@) + seq![
                old(store)@[self.spec_cell()].name,
            ]);
        }
    }

    /// Walks to the topmost ancestor and hangs it under `parent`,
    /// grafting the whole chain — and every handle sharing its cells —
    /// without changing the chain's internal segments. The new base
    /// must be an older cell than the chain's root.
    pub fn set_root_parent(&self, store: &mut NodeStore, parent: &DirNode)
        requires
            old(store).wf(),
            self.valid(old(store)@),
            parent.valid(old(store)@),
            parent.spec_cell() < root_of(old(store)@, self.spec_cell()),
        ensures
            final(store)@ == old(store)@.update(
                root_of(old(store)@, self.spec_cell()),
                NodeCellView {
                    name: old(store)@[root_of(old(store)@, self.spec_cell())].name,
                    parent: Option::Some(parent.spec_cell()),
                },
            ),
            final(store).wf(),
            self.segs(final(store)@) == parent.segs(old(store)@) + self.segs(old(store)@),
    {
        let mut cur: usize = self.cell;
        loop
            invariant
                store.wf(),
                0 <= cur as int <= self.spec_cell(),
                (cur as int) < store@.len(),
                root_of(store@, cur as int) == root_of(store@, self.spec_cell()),
                store@ == old(store)@,
            ensures
                (cur as int) < store@.len(),
                store@[cur as int].parent is None,
                cur as int == root_of(store@, self.spec_cell()),
                store@ == old(store)@,
            decreases cur,
        {
            match store.cells[cur].parent {
                None => {
                    break ;
                },
                Some(p) => {
                    cur = p;
                },
            }
        }
        let root = DirNode { cell: cur };
        let ghost r0 = cur as int;
        let name = store.cells[cur].name.clone();
        store.cells.set(cur, NodeCell { name, parent: Some(parent.cell) });
        proof {
            assert(store@ =~= old(store)@.update(r0, store.cells@[r0]@));
            assert forall|i: int|
                0 <= i < store@.len() implies ((#[trigger] store@[i]).parent matches Some(p) ==> 0
                <= p < i) by {
                if i != r0 {
                    assert(store@[i] == old(store)@[i]);
                }
            }
            lemma_graft_segs(old(store)@, parent.spec_cell(), r0, self.spec_cell());
        }
    }

    /// Renames the node. When the caller reports that the old path is
    /// backed by the filesystem (`on_disk`), the store is left
    /// unchanged and the old and new absolute paths come back: the
    /// caller applies the physical rename and commits the name with
    /// `set_name` only after it succeeds, so a failed rename leaves the
    /// name as it was. Without a backing path only the in-memory name
    /// changes (visible through every handle) and no plan is returned.
    pub fn rename(&self, store: &mut NodeStore, new_name: String, on_disk: bool) -> (r: Option<
        (String, String),
    >)
        requires
            old(store).wf(),
            self.valid(old(store)@),
        ensures
            !on_disk ==> final(store)@ == old(store)@.update(
                self.spec_cell(),
                NodeCellView {
                    name: new_name@,
                    parent: old(store)@[self.spec_cell()].parent,
                },
            ) && final(store).wf() && r is None,
            on_disk ==> (final(store)@ == old(store)@ && (r matches Some(plan) && plan.0@
                == spec_join(self.segs(old(store)@)) && plan.1@ == spec_join(
                self.segs(old(store)@).update(
                    self.segs(old(store)@).len() - 1,
                    new_name@,
                ),
            ))),
    {
        if on_disk {
            let old_path = self.absolute_path(store);
            let new_path = renamed_path(store, self.cell, new_name);
            Some((old_path, new_path))
        } else {
            self.set_name(store, new_name);
            None
        }
    }

    /// Reparents the node under an older cell and returns the old and
    /// new absolute paths, so the caller can apply the physical rename;
    /// the node is left reparented whatever the caller's rename then
    /// does.
    pub fn move_to(&self, store: &mut NodeStore, parent: &DirNode) -> (r: (String, String))
        requires
            old(store).wf(),
            self.valid(old(store)@),
            parent.valid(old(store)@),
            parent.spec_cell() < self.spec_cell(),
        ensures
            final(store)@ == old(store)@.update(
                self.spec_cell(),
                NodeCellView {
                    name: old(store)@[self.spec_cell()].name,
                    parent: Option::Some(parent.spec_cell()),
                },
            ),
            final(store).wf(),
            self.segs(final(store)@) == parent.segs(old(store)@) + seq![
                old(store)@[self.spec_cell()].name,
            ],
            r.0@ == spec_join(self.segs(old(store)@)),
            r.1@ == spec_join(self.segs(final(store)@)),
    {
        let old_path = self.absolute_path(store);
        self.set_parent(store, parent);
        let new_path = self.absolute_path(store);
        (old_path, new_path)
    }
}

/// The absolute path cell `cell` would have if its name were replaced,
/// without touching the store.
fn renamed_path(store: &NodeStore, cell: usize, new_name: String) -> (r: String)
    requires
        store.wf(),
        0 <= cell < store@.len(),
    ensures
        r@ == spec_join(
            segs_at(store@, cell as int).update(segs_at(store@, cell as int).len() - 1, new_name@),
        ),
{
    proof {
        lemma_chain_shape(store@, cell as int);
    }
    match store.cells[cell].parent {
        None => {
            proof {
                assert(segs_at(store@, cell as int).update(0, new_name@) =~= seq![new_name@]);
            }
            new_name
        },
        Some(p) => {
            let up = DirNode { cell: p };
            let pre = up.absolute_path(store);
            proof {
                lemma_chain_shape(store@, p as int);
                let base = segs_at(store@, p as int);
                assert(segs_at(store@, cell as int).update(
                    segs_at(store@, cell as int).len() - 1,
                    new_name@,
                ) =~= base + seq![new_name@]);
                lemma_join_snoc(base, new_name@);
                reveal_strlit("/");
            }
            let r = pre.concat("/").concat(new_name.as_str());
            proof {
                assert(r@ =~= spec_join(
                    segs_at(store@, cell as int).update(
                        segs_at(store@, cell as int).len() - 1,
                        new_name@,
                    ),
                ));
            }
            r
        },
    }
}

/// Appends a non-empty list of segment names as a fresh chain.
pub fn append_chain(store: &mut NodeStore, segs: Vec<String>) -> (r: DirNode)
    requires
        old(store).wf(),
        segs@.len() >= 1,
    ensures
        final(store)@.len() == old(store)@.len() + segs@.len(),
        final(store)@.subrange(0, old(store)@.len() as int) == old(store)@,
        final(store).wf(),
        r.spec_cell() == final(store)@.len() - 1,
        r.segs(final(store)@) == segs@.map_values(|t: String| t@),
        root_of(final(store)@, r.spec_cell()) == old(store)@.len(),
{
    let mut node = DirNode::new(store, segs[0].clone());
    proof {
        assert(store@.subrange(0, old(store)@.len() as int) =~= old(store)@);
        assert(node.segs(store@) =~= segs@.take(1).map_values(|t: String| t@));
    }
    let mut k: usize = 1;
    while k < segs.len()
        invariant
            1 <= k <= segs@.len(),
            store.wf(),
            store@.len() == old(store)@.len() + k,
            store@.subrange(0, old(store)@.len() as int) == old(store)@,
            node.spec_cell() == store@.len() - 1,
            node.segs(store@) == segs@.take(k as int).map_values(|t: String| t@),
            root_of(store@, node.spec_cell()) == old(store)@.len(),
        decreases segs@.len() - k,
    {
        node = node.next(store, segs[k].clone());
        proof {
            assert(store@.subrange(0, old(store)@.len() as int) =~= old(store)@);
            assert(node.segs(store@) =~= segs@.take(k + 1 as int).map_values(|t: String| t@));
        }
        k += 1;
    }
    proof {
        assert(segs@.take(segs@.len() as int) =~= segs@);
    }
    node
}

impl FileNode {
    /// The cell this handle names.
    pub closed spec fn spec_cell(self) -> int {
        self.cell as int
    }

    /// The file's content type; per handle, as the cell carries only
    /// the name stem and the parent link.
    pub closed spec fn spec_ct(self) -> ContentTypeView {
        self.content_type@
    }

    /// The handle points into the store.
    pub open spec fn valid(self, cells: Seq<NodeCellView>) -> bool {
        0 <= self.spec_cell() < cells.len()
    }

    /// The file's full segment name: stem plus content-type extension.
    pub open spec fn spec_name(self, cells: Seq<NodeCellView>) -> Seq<char> {
        cells[self.spec_cell()].name + self.spec_ct().ext
    }

    /// The segment names from the root down to this file, the last one
    /// completed by the extension.
    pub open spec fn segs(self, cells: Seq<NodeCellView>) -> Seq<Seq<char>> {
        let base = segs_at(cells, self.spec_cell());
        base.update(base.len() - 1, self.spec_name(cells))
    }

    /// The file's full name: stem plus content-type extension.
    pub fn name(&self, store: &NodeStore) -> (r: String)
        requires
            self.valid(store@),
        ensures
            r@ == self.spec_name(store@),
    {
        store.cells[self.cell].name.clone().concat(self.content_type.ext.as_str())
    }

    /// The name stem alone.
    pub fn stem(&self, store: &NodeStore) -> (r: String)
        requires
            self.valid(store@),
        ensures
            r@ == store@[self.spec_cell()].name,
    {
        store.cells[self.cell].name.clone()
    }

    /// The file's content type, cloned out.
    pub fn content_type(&self) -> (r: ContentType)
        ensures
            r@ == self.spec_ct(),
    {
        self.content_type.clone()
    }

    /// The parent handle, if the cell has one.
    pub fn up(&self, store: &NodeStore) -> (r: Option<DirNode>)
        requires
            self.valid(store@),
        ensures
            match store@[self.spec_cell()].parent {
                Option::None => r is None,
                Option::Some(p) => r matches Some(d) && d.spec_cell() == p,
            },
    {
        match store.cells[self.cell].parent {
            None => None,
            Some(p) => Some(DirNode { cell: p }),
        }
    }

    /// Parses a path string with at least two segments into a fresh
    /// file chain of this store. The final segment splits at its first
    /// dot into stem and extension; the extension (if any) picks the
    /// content type via the registry, and an unrecognized or missing
    /// extension leaves the file typed Unknown.
    pub fn from(store: &mut NodeStore, path: &str) -> (r: FileNode)
        requires
            old(store).wf(),
            spec_split(path@).len() >= 2,
        ensures
            final(store)@.len() == old(store)@.len() + spec_split(path@).len(),
            final(store)@.subrange(0, old(store)@.len() as int) == old(store)@,
            final(store).wf(),
            r.valid(final(store)@),
            final(store)@[r.spec_cell()].name == spec_stem(spec_split(path@).last()),
            r.spec_ct() == spec_ext_ct(spec_split(path@).last()),
            r.segs(final(store)@) == spec_split(path@).drop_last() + seq![
                spec_stem(spec_split(path@).last()) + spec_ext_ct(spec_split(path@).last()).ext,
            ],
            root_of(final(store)@, r.spec_cell()) == old(store)@.len(),
    {
        let mut segs = split_path(path);
        proof {
            assert(segs@.len() == spec_split(path@).len());
        }
        let last = segs.pop().unwrap();
        proof {
            assert(last@ == spec_split(path@).last());
            assert(segs@.map_values(|t: String| t@) =~= spec_split(path@).drop_last());
        }
        let dir = append_chain(store, segs);
        let l = last.as_str();
        let l_len: usize = l.unicode_len();
        proof {
            lemma_first_index(l@, '.');
        }
        let (stem, ct) = match find_char(l, '.') {
            None => (String::from_str(l), crate::content_type::unknown()),
            Some(d1) => {
                let stem = String::from_str(l.substring_char(0, d1));
                let rest = l.substring_char(d1 + 1, l_len);
                proof {
                    assert(rest@ =~= l@.skip(d1 + 1));
                    lemma_first_index(rest@, '.');
                }
                let body_end: usize = match find_char(rest, '.') {
                    None => l_len - d1 - 1,
                    Some(d2) => d2,
                };
                let ext = l.substring_char(d1, d1 + 1 + body_end);
                proof {
                    let d = first_index(l@, '.');
                    let spec_rest = l@.skip(d + 1);
                    let d2 = first_index(spec_rest, '.');
                    let body = if d2 < 0 {
                        spec_rest
                    } else {
                        spec_rest.take(d2)
                    };
                    assert(ext@ =~= seq!['.'] + body);
                    assert(stem@ =~= spec_stem(l@));
                }
                (stem, crate::content_type::guess(ext))
            },
        };
        let r = dir.to(store, stem, ct);
        proof {
            assert(r.segs(store@) =~= spec_split(path@).drop_last() + seq![
                spec_stem(spec_split(path@).last()) + spec_ext_ct(spec_split(path@).last()).ext,
            ]);
            assert(store@.subrange(0, old(store)@.len() as int) =~= old(store)@);
        }
        r
    }

    /// The separator-joined path from the root to this file.
    pub fn absolute_path(&self, store: &NodeStore) -> (r: String)
        requires
            store.wf(),
            self.valid(store@),
        ensures
            r@ == spec_join(self.segs(store@)),
    {
        match store.cells[self.cell].parent {
            None => {
                proof {
                    assert(self.segs(store@) =~= seq![self.spec_name(store@)]);
                }
                self.name(store)
            },
            Some(p) => {
                let up = DirNode { cell: p };
                let pre = up.absolute_path(store);
                proof {
                    lemma_chain_shape(store@, p as int);
                    assert(self.segs(store@) =~= segs_at(store@, p as int) + seq![
                        self.spec_name(store@),
                    ]);
                    lemma_join_snoc(segs_at(store@, p as int), self.spec_name(store@));
                    reveal_strlit("/");
                }
                let r = pre.concat("/").concat(self.name(store).as_str());
                proof {
                    assert(r@ =~= spec_join(self.segs(store@)));
                }
                r
            },
        }
    }

    /// Number of ancestors above this file.
    pub fn deep(&self, store: &NodeStore) -> (r: i16)
        requires
            store.wf(),
            self.valid(store@),
            self.segs(store@).len() <= 0x7fff,
        ensures
            r as int == self.segs(store@).len() - 1,
    {
        match store.cells[self.cell].parent {
            None => 0,
            Some(p) => {
                let up = DirNode { cell: p };
                proof {
                    lemma_chain_shape(store@, p as int);
                }
                up.deep(store) + 1
            },
        }
    }

    /// Replaces the name stem; the change is visible through every
    /// handle of the cell.
    pub fn set_name(&self, store: &mut NodeStore, new_name: String)
        requires
            old(store).wf(),
            self.valid(old(store)@),
        ensures
            final(store)@ == old(store)@.update(
                self.spec_cell(),
                NodeCellView {
                    name: new_name@,
                    parent: old(store)@[self.spec_cell()].parent,
                },
            ),
            final(store).wf(),
    {
        let d = DirNode { cell: self.cell };
        d.set_name(store, new_name);
    }

    /// Replaces the content type of this handle; the file's name
    /// follows the new extension. The cell, and with it every other
    /// handle, is untouched, as the type belongs to the handle.
    pub fn set_content_type(&mut self, content_type: ContentType)
        ensures
            final(self).spec_ct() == content_type@,
            final(self).spec_cell() == old(self).spec_cell(),
    {
        self.content_type = content_type;
    }

    /// Hangs this file's cell directly under an older directory cell.
    pub fn set_parent(&self, store: &mut NodeStore, parent: &DirNode)
        requires
            old(store).wf(),
            self.valid(old(store)@),
            parent.valid(old(store)@),
            parent.spec_cell() < self.spec_cell(),
        ensures
            final(store)@ == old(store)@.update(
                self.spec_cell(),
                NodeCellView {
                    name: old(store)@[self.spec_cell()].name,
                    parent: Option::Some(parent.spec_cell()),
                },
            ),
            final(store).wf(),
            self.segs(final(store)@) == parent.segs(old(store)@) + seq![
                self.spec_name(final(store)@),
            ],
    {
        let d = DirNode { cell: self.cell };
        d.set_parent(store, parent);
        proof {
            assert(self.segs(store@) =~= parent.segs(old(store)@) + seq![self.spec_name(store@)]);
        }
    }

    /// Grafts the whole chain above this file under `parent` without
    /// changing the chain's internal segments; the new base must be an
    /// older cell than the chain's root.
    pub fn set_root_parent(&self, store: &mut NodeStore, parent: &DirNode)
        requires
            old(store).wf(),
            self.valid(old(store)@),
            parent.valid(old(store)@),
            parent.spec_cell() < root_of(old(store)@, self.spec_cell()),
        ensures
            final(store)@ == old(store)@.update(
                root_of(old(store)@, self.spec_cell()),
                NodeCellView {
                    name: old(store)@[root_of(old(store)@, self.spec_cell())].name,
                    parent: Option::Some(parent.spec_cell()),
                },
            ),
            final(store).wf(),
            final(store)@.len() == old(store)@.len(),
            self.segs(final(store)@) == parent.segs(old(store)@) + self.segs(old(store)@),
    {
        let d = DirNode { cell: self.cell };
        d.set_root_parent(store, parent);
        proof {
            let r0 = root_of(old(store)@, self.spec_cell());
            lemma_chain_shape(old(store)@, self.spec_cell());
            if r0 < self.spec_cell() {
                assert(store@[self.spec_cell()] == old(store)@[self.spec_cell()]);
            } else {
                assert(r0 == self.spec_cell());
            }
            assert(self.segs(store@) =~= parent.segs(old(store)@) + self.segs(old(store)@));
        }
    }

    /// Renames the file's stem. When the caller reports that the old
    /// path is backed by the filesystem (`on_disk`), the store is left
    /// unchanged and the old and new absolute paths come back: the
    /// caller applies the physical rename and commits the stem with
    /// `set_name` only after it succeeds. Without a backing path only
    /// the in-memory stem changes and no plan is returned.
    pub fn rename(&self, store: &mut NodeStore, new_name: String, on_disk: bool) -> (r: Option<
        (String, String),
    >)
        requires
            old(store).wf(),
            self.valid(old(store)@),
        ensures
            !on_disk ==> final(store)@ == old(store)@.update(
                self.spec_cell(),
                NodeCellView {
                    name: new_name@,
                    parent: old(store)@[self.spec_cell()].parent,
                },
            ) && final(store).wf() && r is None,
            on_disk ==> (final(store)@ == old(store)@ && (r matches Some(plan) && plan.0@
                == spec_join(self.segs(old(store)@)) && plan.1@ == spec_join(
                self.segs(old(store)@).update(
                    self.segs(old(store)@).len() - 1,
                    new_name@ + self.spec_ct().ext,
                ),
            ))),
    {
        if on_disk {
            let old_path = self.absolute_path(store);
            let new_path = renamed_path(
                store,
                self.cell,
                new_name.concat(self.content_type.ext.as_str()),
            );
            proof {
                lemma_chain_shape(store@, self.spec_cell());
                let base = segs_at(store@, self.spec_cell());
                assert(base.update(base.len() - 1, new_name@ + self.spec_ct().ext)
                    =~= self.segs(store@).update(
                    self.segs(store@).len() - 1,
                    new_name@ + self.spec_ct().ext,
                ));
            }
            Some((old_path, new_path))
        } else {
            self.set_name(store, new_name);
            None
        }
    }

    /// Reparents the file under an older cell and returns the old and
    /// new absolute paths so the caller can apply the physical rename;
    /// the file is left reparented whatever the caller's rename then
    /// does.
    pub fn move_to(&self, store: &mut NodeStore, parent: &DirNode) -> (r: (String, String))
        requires
            old(store).wf(),
            self.valid(old(store)@),
            parent.valid(old(store)@),
            parent.spec_cell() < self.spec_cell(),
        ensures
            final(store).wf(),
            final(store)@.len() == old(store)@.len(),
            self.segs(final(store)@) == parent.segs(old(store)@) + seq![
                self.spec_name(final(store)@),
            ],
            r.0@ == spec_join(self.segs(old(store)@)),
            r.1@ == spec_join(self.segs(final(store)@)),
    {
        let old_path = self.absolute_path(store);
        self.set_parent(store, parent);
        let new_path = self.absolute_path(store);
        (old_path, new_path)
    }
}

impl Clone for FileNode {
    /// The clone shares the cell — and so the stem and parent link —
    /// while carrying its own copy of the content type.
    fn clone(&self) -> (res: Self)
        ensures
            res.spec_cell() == self.spec_cell(),
            res.spec_ct() == self.spec_ct(),
    {
        FileNode { cell: self.cell, content_type: self.content_type.clone() }
    }
}

} // verus!
