//! The keyset pagination cursor. A cursor tracks an inclusive lower and
//! an exclusive upper id bound, a direction, and optionally an explicit
//! ordered id list that tag conditions produced. Each pull asks the
//! caller to run one bounded storage query (the cursor itself touches no
//! storage); the returned page is re-sorted defensively and the bound is
//! advanced past the last id returned, so no row is ever returned twice.
//!
//! Scalar id bounds do not filter an explicit id list: once a tag
//! condition has produced a list, later range tightening moves the
//! scalar bounds only and has no effect on list-driven pulls. That
//! cross-condition inconsistency is deliberate, observed behavior.

use crate::item::Item;
use vstd::multiset::Multiset;
use vstd::prelude::*;

verus! {

broadcast use vstd::seq_lib::group_to_multiset_ensures;

/// Tightens the cursor's lower bound to at least `id`.
pub struct StartIdCondition {
    pub id: i64,
}

/// Tightens the cursor's upper bound to at most `id`.
pub struct EndIdCondition {
    pub id: i64,
}

/// Restricts the cursor to items carrying all of the given tags; the
/// caller resolves the tag ids to an item id list before applying.
pub struct TagCondition {
    pub tags: Vec<i64>,
}

/// A list condition with its storage lookups already resolved: scalar
/// bounds as given, a tag condition as the item id list it yielded.
pub enum ItemCondition {
    StartId(StartIdCondition),
    EndId(EndIdCondition),
    Tag(Vec<i64>),
}

/// The mathematical state of a cursor.
#[verifier::ext_equal]
pub ghost struct CursorView {
    pub start_id: int,
    pub end_id: int,
    pub from_big: bool,
    pub repo_id: int,
    pub id_list: Option<Seq<i64>>,
}

/// The elements of `l`, in order, that also occur in `keep`.
pub open spec fn seq_inter(l: Seq<i64>, keep: Seq<i64>) -> Seq<i64>
    decreases l.len(),
{
    if l.len() == 0 {
        Seq::empty()
    } else {
        seq_inter(l.drop_last(), keep) + (if keep.contains(l.last()) {
            seq![l.last()]
        } else {
            Seq::empty()
        })
    }
}

/// One condition applied to a cursor state: scalar bounds tighten by
/// max/min; an id list becomes the list, or intersects an existing one,
/// keeping the existing order.
pub open spec fn spec_apply(s: CursorView, c: ItemCondition) -> CursorView {
    match c {
        ItemCondition::StartId(sc) => CursorView {
            start_id: if sc.id > s.start_id {
                sc.id as int
            } else {
                s.start_id
            },
            end_id: s.end_id,
            from_big: s.from_big,
            repo_id: s.repo_id,
            id_list: s.id_list,
        },
        ItemCondition::EndId(ec) => CursorView {
            start_id: s.start_id,
            end_id: if (ec.id as int) < s.end_id {
                ec.id as int
            } else {
                s.end_id
            },
            from_big: s.from_big,
            repo_id: s.repo_id,
            id_list: s.id_list,
        },
        ItemCondition::Tag(ids) => CursorView {
            start_id: s.start_id,
            end_id: s.end_id,
            from_big: s.from_big,
            repo_id: s.repo_id,
            id_list: match s.id_list {
                Option::None => Option::Some(ids@),
                Option::Some(l) => Option::Some(seq_inter(l, ids@)),
            },
        },
    }
}

/// All conditions applied in caller order.
pub open spec fn spec_apply_all(s: CursorView, cs: Seq<ItemCondition>) -> CursorView
    decreases cs.len(),
{
    if cs.len() == 0 {
        s
    } else {
        spec_apply(spec_apply_all(s, cs.drop_last()), cs.last())
    }
}

/// Ids in cursor order: descending when `desc`, ascending otherwise.
pub open spec fn ids_sorted(s: Seq<Item>, desc: bool) -> bool {
    forall|i: int, j: int|
        #![trigger s[i], s[j]]
        0 <= i < j < s.len() ==> if desc {
            s[i].id >= s[j].id
        } else {
            s[i].id <= s[j].id
        }
}

/// Plain ids in cursor order.
pub open spec fn plain_sorted(s: Seq<i64>, desc: bool) -> bool {
    forall|i: int, j: int|
        #![trigger s[i], s[j]]
        0 <= i < j < s.len() ==> if desc {
            s[i] >= s[j]
        } else {
            s[i] <= s[j]
        }
}

/// The one bounded storage query that a pull asks the caller to run.
/// `ByIds` fetches the given ids (order of the result not relied on;
/// missing or soft-deleted ids are simply absent). `Range` fetches up
/// to `limit` non-deleted rows of the repository with `start_id <= id <
/// end_id`, descending by id when `from_big`, else ascending.
pub enum PullQuery {
    ByIds(Vec<i64>),
    Range { repo_id: i64, start_id: i64, end_id: i64, from_big: bool, limit: usize },
}

/// The keyset pagination cursor.
pub struct ItemTun {
    start_id: i64,
    end_id: i64,
    from_big: bool,
    repo_id: i64,
    id_list: Option<Vec<i64>>,
}

impl View for ItemTun {
    type V = CursorView;

    closed spec fn view(&self) -> CursorView {
        CursorView {
            start_id: self.start_id as int,
            end_id: self.end_id as int,
            from_big: self.from_big,
            repo_id: self.repo_id as int,
            id_list: match self.id_list {
                Option::None => Option::None,
                Option::Some(l) => Option::Some(l@),
            },
        }
    }
}

impl ItemTun {
    /// A fresh cursor over one repository: bounds wide open, no list.
    pub fn new(from_big: bool, repo_id: i64) -> (r: Self)
        ensures
            r@ == (CursorView {
                start_id: 0,
                end_id: 0x7fffffffffffffff,
                from_big,
                repo_id: repo_id as int,
                id_list: Option::None,
            }),
    {
        let r = ItemTun {
            start_id: 0,
            end_id: 0x7fffffffffffffff,
            from_big,
            repo_id,
            id_list: None,
        };
        proof {
            assert(r@ =~= CursorView {
                start_id: 0,
                end_id: 0x7fffffffffffffff,
                from_big,
                repo_id: repo_id as int,
                id_list: Option::None,
            });
        }
        r
    }

    /// Initializes the bounds from the repository's (min id, max id) —
    /// lower inclusive, upper one past the max — then applies the
    /// conditions in caller order, and finally sorts an explicit id
    /// list, descending when the cursor runs from big ids down.
    pub fn init(&mut self, min_id: i64, max_id: i64, conditions: &Vec<ItemCondition>)
        requires
            max_id < 0x7fffffffffffffff,
        ensures
            ({
                let base = CursorView {
                    start_id: min_id as int,
                    end_id: max_id + 1,
                    from_big: old(self)@.from_big,
                    repo_id: old(self)@.repo_id,
                    id_list: Option::None,
                };
                let applied = spec_apply_all(base, conditions@);
                &&& final(self)@.start_id == applied.start_id
                &&& final(self)@.end_id == applied.end_id
                &&& final(self)@.from_big == old(self)@.from_big
                &&& final(self)@.repo_id == old(self)@.repo_id
                &&& match applied.id_list {
                    Option::None => final(self)@.id_list is None,
                    Option::Some(l) => final(self)@.id_list matches Some(out)
                        && out.to_multiset() == l.to_multiset() && plain_sorted(
                        out,
                        old(self)@.from_big,
                    ),
                }
            }),
    {
        self.start_id = min_id;
        self.end_id = max_id + 1;
        self.id_list = None;
        let ghost base = self@;
        let mut i: usize = 0;
        while i < conditions.len()
            invariant
                0 <= i <= conditions@.len(),
                self@ == spec_apply_all(base, conditions@.take(i as int)),
                self@.from_big == base.from_big,
                self@.repo_id == base.repo_id,
            decreases conditions@.len() - i,
        {
            let ghost pre = self@;
            match &conditions[i] {
                ItemCondition::StartId(c) => {
                    if c.id > self.start_id {
                        self.start_id = c.id;
                    }
                },
                ItemCondition::EndId(c) => {
                    if c.id < self.end_id {
                        self.end_id = c.id;
                    }
                },
                ItemCondition::Tag(ids) => {
                    let new_list: Vec<i64> = match &self.id_list {
                        None => ids.clone(),
                        Some(l) => inter_vec(l, ids),
                    };
                    proof {
                        if pre.id_list is None {
                            assert(new_list@ =~= ids@);
                        }
                    }
                    self.id_list = Some(new_list);
                },
            }
            proof {
                assert(self@ =~= spec_apply(pre, conditions@[i as int]));
                assert(conditions@.take(i + 1 as int).drop_last() =~= conditions@.take(i as int));
                assert(conditions@.take(i + 1 as int).last() == conditions@[i as int]);
            }
            i += 1;
        }
        proof {
            assert(conditions@.take(conditions@.len() as int) =~= conditions@);
        }
        let cur = self.id_list.take();
        match cur {
            None => {
                self.id_list = None;
            },
            Some(l) => {
                let sorted = sort_ids(l, self.from_big);
                self.id_list = Some(sorted);
            },
        }
    }

    /// Plans one pull. With an explicit id list active, up to `limit`
    /// ids leave the front of the list and are to be fetched by id; the
    /// scalar bounds play no part. Otherwise the caller is to run one
    /// bounded range query over the current bounds, and the cursor is
    /// left unchanged until the page comes back.
    pub fn pull_request(&mut self, limit: usize) -> (r: PullQuery)
        ensures
            old(self)@.id_list matches Some(l) ==> {
                let k = if limit <= l.len() {
                    limit as int
                } else {
                    l.len() as int
                };
                &&& r matches PullQuery::ByIds(ids) && ids@ == l.take(k)
                &&& final(self)@.id_list matches Some(rest) && rest == l.skip(k)
                &&& final(self)@.start_id == old(self)@.start_id
                &&& final(self)@.end_id == old(self)@.end_id
                &&& final(self)@.from_big == old(self)@.from_big
                &&& final(self)@.repo_id == old(self)@.repo_id
            },
            old(self)@.id_list is None ==> *final(self) == *old(self) && (r
                matches PullQuery::Range { repo_id, start_id, end_id, from_big, limit: lim }
                && repo_id == old(self)@.repo_id && start_id == old(self)@.start_id && end_id
                == old(self)@.end_id && from_big == old(self)@.from_big && lim == limit),
    {
        let has_list = self.id_list.is_some();
        if has_list {
            let mut lst = self.id_list.take().unwrap();
            let k: usize = if limit <= lst.len() {
                limit
            } else {
                lst.len()
            };
            let rest = lst.split_off(k);
            self.id_list = Some(rest);
            PullQuery::ByIds(lst)
        } else {
            PullQuery::Range {
                repo_id: self.repo_id,
                start_id: self.start_id,
                end_id: self.end_id,
                from_big: self.from_big,
                limit,
            }
        }
    }

    /// Takes the page a pull's query returned: re-sorts it by id in the
    /// cursor's direction, and — unless the page is empty — advances
    /// the scalar bound past the last id returned (ascending: lower
    /// becomes last + 1; descending: upper becomes last). An empty page
    /// leaves the cursor unchanged and is the end-of-stream signal.
    pub fn pull_complete(&mut self, items: Vec<Item>) -> (r: Vec<Item>)
        requires
            forall|i: int|
                0 <= i < items@.len() ==> (#[trigger] items@[i]).id < 0x7fffffffffffffff,
        ensures
            r@.to_multiset() == items@.to_multiset(),
            ids_sorted(r@, old(self)@.from_big),
            r@.len() == items@.len(),
            final(self)@.from_big == old(self)@.from_big,
            final(self)@.repo_id == old(self)@.repo_id,
            final(self)@.id_list == old(self)@.id_list,
            items@.len() == 0 ==> *final(self) == *old(self) && r@.len() == 0,
            items@.len() > 0 && old(self)@.from_big ==> final(self)@.end_id == r@.last().id
                && final(self)@.start_id == old(self)@.start_id,
            items@.len() > 0 && !old(self)@.from_big ==> final(self)@.start_id == r@.last().id + 1
                && final(self)@.end_id == old(self)@.end_id,
    {
        let ghost orig = items@;
        let sorted = sort_items(items, self.from_big);
        if sorted.len() > 0 {
            proof {
                let li = sorted@.len() - 1;
                assert(sorted@.to_multiset().contains(sorted@[li]));
                assert(orig.contains(sorted@[li]));
            }
            let last_id = sorted[sorted.len() - 1].id;
            if self.from_big {
                self.end_id = last_id;
            } else {
                self.start_id = last_id + 1;
            }
        }
        sorted
    }
}

/// The elements of `l`, in order, that also occur in `keep`.
fn inter_vec(l: &Vec<i64>, keep: &Vec<i64>) -> (r: Vec<i64>)
    ensures
        r@ == seq_inter(l@, keep@),
{
    let mut out: Vec<i64> = Vec::new();
    let mut i: usize = 0;
    while i < l.len()
        invariant
            0 <= i <= l@.len(),
            out@ == seq_inter(l@.take(i as int), keep@),
        decreases l@.len() - i,
    {
        if contains_id(keep, l[i]) {
            out.push(l[i]);
        }
        proof {
            assert(l@.take(i + 1 as int).drop_last() =~= l@.take(i as int));
            assert(l@.take(i + 1 as int).last() == l@[i as int]);
            assert(out@ =~= seq_inter(l@.take(i + 1 as int), keep@));
        }
        i += 1;
    }
    proof {
        assert(l@.take(l@.len() as int) =~= l@);
    }
    out
}

/// Whether `v` holds `x`.
fn contains_id(v: &Vec<i64>, x: i64) -> (r: bool)
    ensures
        r == v@.contains(x),
{
    let mut i: usize = 0;
    while i < v.len()
        invariant
            0 <= i <= v@.len(),
            forall|j: int| 0 <= j < i ==> v@[j] != x,
        decreases v@.len() - i,
    {
        if v[i] == x {
            return true;
        }
        i += 1;
    }
    false
}

/// Sorts plain ids in cursor order by repeated extraction of the
/// extreme element.
fn sort_ids(v: Vec<i64>, desc: bool) -> (r: Vec<i64>)
    ensures
        r@.to_multiset() == v@.to_multiset(),
        plain_sorted(r@, desc),
        r@.len() == v@.len(),
{
    let mut rest = v;
    let mut out: Vec<i64> = Vec::new();
    proof {
        assert(out@.to_multiset().add(rest@.to_multiset()) =~= v@.to_multiset());
    }
    while rest.len() > 0
        invariant
            out@.to_multiset().add(rest@.to_multiset()) == v@.to_multiset(),
            out@.len() + rest@.len() == v@.len(),
            plain_sorted(out@, desc),
            forall|i: int, j: int|
                #![trigger out@[i], rest@[j]]
                0 <= i < out@.len() && 0 <= j < rest@.len() ==> if desc {
                    out@[i] >= rest@[j]
                } else {
                    out@[i] <= rest@[j]
                },
        decreases rest@.len(),
    {
        let m = extreme_index(&rest, desc);
        let x = rest.remove(m);
        let ghost pre_out = out@;
        out.push(x);
        proof {
            assert(out@ == pre_out.push(x));
            assert(out@.to_multiset().add(rest@.to_multiset()) =~= v@.to_multiset());
        }
    }
    proof {
        assert(rest@.to_multiset() =~= Multiset::<i64>::empty());
        assert(out@.to_multiset().add(Multiset::<i64>::empty()) =~= out@.to_multiset());
    }
    out
}

/// Index of the smallest id (largest when `desc`).
fn extreme_index(v: &Vec<i64>, desc: bool) -> (r: usize)
    requires
        v@.len() > 0,
    ensures
        0 <= r < v@.len(),
        forall|j: int|
            0 <= j < v@.len() ==> if desc {
                v@[r as int] >= #[trigger] v@[j]
            } else {
                v@[r as int] <= #[trigger] v@[j]
            },
{
    let mut m: usize = 0;
    let mut i: usize = 1;
    while i < v.len()
        invariant
            0 <= m < i <= v@.len(),
            forall|j: int|
                0 <= j < i ==> if desc {
                    v@[m as int] >= #[trigger] v@[j]
                } else {
                    v@[m as int] <= #[trigger] v@[j]
                },
        decreases v@.len() - i,
    {
        if desc {
            if v[i] > v[m] {
                m = i;
            }
        } else {
            if v[i] < v[m] {
                m = i;
            }
        }
        i += 1;
    }
    m
}

/// Sorts a page of items by id in cursor order by repeated extraction
/// of the extreme element.
fn sort_items(v: Vec<Item>, desc: bool) -> (r: Vec<Item>)
    ensures
        r@.to_multiset() == v@.to_multiset(),
        ids_sorted(r@, desc),
        r@.len() == v@.len(),
{
    let mut rest = v;
    let mut out: Vec<Item> = Vec::new();
    proof {
        assert(out@.to_multiset().add(rest@.to_multiset()) =~= v@.to_multiset());
    }
    while rest.len() > 0
        invariant
            out@.to_multiset().add(rest@.to_multiset()) == v@.to_multiset(),
            out@.len() + rest@.len() == v@.len(),
            ids_sorted(out@, desc),
            forall|i: int, j: int|
                #![trigger out@[i], rest@[j]]
                0 <= i < out@.len() && 0 <= j < rest@.len() ==> if desc {
                    out@[i].id >= rest@[j].id
                } else {
                    out@[i].id <= rest@[j].id
                },
        decreases rest@.len(),
    {
        let m = extreme_item_index(&rest, desc);
        let x = rest.remove(m);
        let ghost pre_out = out@;
        out.push(x);
        proof {
            assert(out@ == pre_out.push(x));
            assert(out@.to_multiset().add(rest@.to_multiset()) =~= v@.to_multiset());
        }
    }
    proof {
        assert(rest@.to_multiset() =~= Multiset::<Item>::empty());
        assert(out@.to_multiset().add(Multiset::<Item>::empty()) =~= out@.to_multiset());
    }
    out
}

/// Index of the item with the smallest id (largest when `desc`).
fn extreme_item_index(v: &Vec<Item>, desc: bool) -> (r: usize)
    requires
        v@.len() > 0,
    ensures
        0 <= r < v@.len(),
        forall|j: int|
            0 <= j < v@.len() ==> if desc {
                v@[r as int].id >= (#[trigger] v@[j]).id
            } else {
                v@[r as int].id <= (#[trigger] v@[j]).id
            },
{
    let mut m: usize = 0;
    let mut i: usize = 1;
    while i < v.len()
        invariant
            0 <= m < i <= v@.len(),
            forall|j: int|
                0 <= j < i ==> if desc {
                    v@[m as int].id >= (#[trigger] v@[j]).id
                } else {
                    v@[m as int].id <= (#[trigger] v@[j]).id
                },
        decreases v@.len() - i,
    {
        if desc {
            if v[i].id > v[m].id {
                m = i;
            }
        } else {
            if v[i].id < v[m].id {
                m = i;
            }
        }
        i += 1;
    }
    m
}

} // verus!
