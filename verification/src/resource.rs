//! Per-repository resource layout. Each repository owns a home
//! directory with a hidden cache and a hidden temp directory under it,
//! all cells of one lineage store, so the cache and temp nodes share
//! the home chain: a rename of a shared ancestor moves every derived
//! path. The store builds and grafts file nodes for temp files,
//! persisted files and cached thumbnails; a top-level manager keeps one
//! store per repository name. Directory creation, existence checks and
//! physical renames are the caller's; the functions here compute every
//! path.

use crate::content_type::{spec_registry, ContentType};
use crate::file::{
    append_chain, root_of, spec_ext_ct, spec_join, spec_split, spec_stem, store_wf, DirNode,
    FileNode, NodeCellView, NodeStore,
};
use crate::ident;
use crate::manager::Setting;
use vstd::prelude::*;
use vstd::string::StringExecFns;

verus! {

/// One repository's directory layout: home, hidden cache, hidden temp,
/// as handles into the repository's own lineage store.
pub struct RepoResourceManager {
    store: NodeStore,
    home: DirNode,
    cache: DirNode,
    temp: DirNode,
}

impl RepoResourceManager {
    /// The cells of the repository's lineage.
    pub closed spec fn spec_store(self) -> Seq<NodeCellView> {
        self.store@
    }

    /// The home directory handle.
    pub closed spec fn spec_home(self) -> DirNode {
        self.home
    }

    /// The hidden thumbnail-cache directory handle.
    pub closed spec fn spec_cache(self) -> DirNode {
        self.cache
    }

    /// The hidden temp directory handle.
    pub closed spec fn spec_temp(self) -> DirNode {
        self.temp
    }

    /// The lineage is acyclic and the three layout handles point into
    /// it.
    pub open spec fn wf(self) -> bool {
        &&& store_wf(self.spec_store())
        &&& self.spec_home().valid(self.spec_store())
        &&& self.spec_cache().valid(self.spec_store())
        &&& self.spec_temp().valid(self.spec_store())
    }

    /// The home directory's segments.
    pub open spec fn home_segs(self) -> Seq<Seq<char>> {
        self.spec_home().segs(self.spec_store())
    }

    /// The cache directory's segments.
    pub open spec fn cache_segs(self) -> Seq<Seq<char>> {
        self.spec_cache().segs(self.spec_store())
    }

    /// The temp directory's segments.
    pub open spec fn temp_segs(self) -> Seq<Seq<char>> {
        self.spec_temp().segs(self.spec_store())
    }

    /// Lays the cache and temp directories out under `home`, in home's
    /// own lineage, so all three share the home chain's cells. The
    /// caller creates the three directories on the filesystem
    /// (idempotently) before using the store.
    pub fn new(store: NodeStore, home: DirNode) -> (r: Self)
        requires
            store.wf(),
            home.valid(store@),
        ensures
            r.wf(),
            r.spec_home() == home,
            r.spec_store() == store@.push(
                NodeCellView { name: ".cache"@, parent: Option::Some(home.spec_cell()) },
            ).push(NodeCellView { name: ".temp"@, parent: Option::Some(home.spec_cell()) }),
            r.spec_cache().spec_cell() == store@.len(),
            r.spec_temp().spec_cell() == store@.len() + 1,
            r.home_segs() == home.segs(store@),
            r.cache_segs() == home.segs(store@) + seq![".cache"@],
            r.temp_segs() == home.segs(store@) + seq![".temp"@],
    {
        let mut s = store;
        let ghost s0 = s@;
        let cache = home.next(&mut s, String::from_str(".cache"));
        let ghost s1 = s@;
        let temp = home.next(&mut s, String::from_str(".temp"));
        proof {
            crate::file::lemma_segs_grow(s1, s@, cache.spec_cell());
            crate::file::lemma_segs_grow(s0, s@, home.spec_cell());
            crate::file::lemma_segs_grow(s0, s1, home.spec_cell());
        }
        RepoResourceManager { store: s, home, cache, temp }
    }

    /// The lineage store, for deriving paths of nodes built here.
    pub fn arena(&self) -> (r: &NodeStore)
        ensures
            r@ == self.spec_store(),
    {
        &self.store
    }

    /// The home directory's absolute path.
    pub fn home_path(&self) -> (r: String)
        requires
            self.wf(),
        ensures
            r@ == spec_join(self.home_segs()),
    {
        self.home.absolute_path(&self.store)
    }

    /// The cache directory's absolute path.
    pub fn cache_path(&self) -> (r: String)
        requires
            self.wf(),
        ensures
            r@ == spec_join(self.cache_segs()),
    {
        self.cache.absolute_path(&self.store)
    }

    /// The temp directory's absolute path.
    pub fn temp_path(&self) -> (r: String)
        requires
            self.wf(),
        ensures
            r@ == spec_join(self.temp_segs()),
    {
        self.temp.absolute_path(&self.store)
    }

    /// A fresh file node under the temp directory: a random
    /// 36-character name free of separators and dots, typed Unknown.
    /// The caller creates and fills the file.
    pub fn create_temp_node(&mut self) -> (r: FileNode)
        requires
            old(self).wf(),
        ensures
            final(self).wf(),
            final(self).home_segs() == old(self).home_segs(),
            final(self).cache_segs() == old(self).cache_segs(),
            final(self).temp_segs() == old(self).temp_segs(),
            r.valid(final(self).spec_store()),
            r.spec_ct() == spec_registry()[0],
            final(self).spec_store()[r.spec_cell()].name.len() == 36,
            forall|i: int|
                0 <= i < 36 ==> #[trigger] final(self).spec_store()[r.spec_cell()].name[i] != '/'
                    && final(self).spec_store()[r.spec_cell()].name[i] != '.',
            r.segs(final(self).spec_store()) == old(self).temp_segs() + seq![
                final(self).spec_store()[r.spec_cell()].name + spec_registry()[0].ext,
            ],
    {
        let file_name = ident::random_name();
        let temp = self.temp;
        let r = temp.to(&mut self.store, file_name, crate::content_type::unknown());
        proof {
            crate::file::lemma_segs_grow(old(self).spec_store(), self.spec_store(), self.spec_home().spec_cell());
            crate::file::lemma_segs_grow(old(self).spec_store(), self.spec_store(), self.spec_cache().spec_cell());
            crate::file::lemma_segs_grow(old(self).spec_store(), self.spec_store(), self.spec_temp().spec_cell());
        }
        r
    }

    /// The grafting step of persisting a file built in another lineage:
    /// rebuilds its chain under the repository home, cell by cell, so
    /// the new node shares the home chain. The caller then creates the
    /// file and writes the bytes.
    pub fn adopt_file(&mut self, src: &NodeStore, file: &FileNode) -> (r: FileNode)
        requires
            old(self).wf(),
            src.wf(),
            file.valid(src@),
        ensures
            final(self).wf(),
            final(self).home_segs() == old(self).home_segs(),
            final(self).cache_segs() == old(self).cache_segs(),
            final(self).temp_segs() == old(self).temp_segs(),
            r.valid(final(self).spec_store()),
            r.spec_ct() == file.spec_ct(),
            r.segs(final(self).spec_store()) == old(self).home_segs() + file.segs(src@),
    {
        let stem = file.stem(src);
        let ct = file.content_type();
        let mut d = self.home;
        match file.up(src) {
            None => {
                proof {
                    crate::file::lemma_chain_shape(src@, file.spec_cell());
                    assert(file.segs(src@) =~= seq![file.spec_name(src@)]);
                }
            },
            Some(pdir) => {
                proof {
                    crate::file::lemma_chain_shape(src@, file.spec_cell());
                    assert(file.segs(src@) =~= pdir.segs(src@) + seq![file.spec_name(src@)]);
                }
                let names = pdir.seg_names(src);
                let mut k: usize = 0;
                while k < names.len()
                    invariant
                        0 <= k <= names@.len(),
                        names@.map_values(|t: String| t@) == pdir.segs(src@),
                        self.wf(),
                        d.valid(self.spec_store()),
                        d.segs(self.spec_store()) == old(self).home_segs() + pdir.segs(
                            src@,
                        ).take(k as int),
                        self.home_segs() == old(self).home_segs(),
                        self.cache_segs() == old(self).cache_segs(),
                        self.temp_segs() == old(self).temp_segs(),
                    decreases names@.len() - k,
                {
                    let ghost mid = self.spec_store();
                    d = d.next(&mut self.store, names[k].clone());
                    proof {
                        crate::file::lemma_segs_grow(mid, self.spec_store(), self.spec_home().spec_cell());
                        crate::file::lemma_segs_grow(mid, self.spec_store(), self.spec_cache().spec_cell());
                        crate::file::lemma_segs_grow(mid, self.spec_store(), self.spec_temp().spec_cell());
                        assert(d.segs(self.spec_store()) =~= old(self).home_segs() + pdir.segs(
                            src@,
                        ).take(k + 1 as int));
                    }
                    k += 1;
                }
                proof {
                    assert(pdir.segs(src@).take(pdir.segs(src@).len() as int) =~= pdir.segs(src@));
                }
            },
        }
        let ghost mid = self.spec_store();
        let r = d.to(&mut self.store, stem, ct);
        proof {
            crate::file::lemma_segs_grow(mid, self.spec_store(), self.spec_home().spec_cell());
            crate::file::lemma_segs_grow(mid, self.spec_store(), self.spec_cache().spec_cell());
            crate::file::lemma_segs_grow(mid, self.spec_store(), self.spec_temp().spec_cell());
            assert(r.segs(self.spec_store()) =~= old(self).home_segs() + file.segs(src@));
        }
        r
    }

    /// Rebuilds a readable node for a previously stored relative path,
    /// grafted under home. The path carries its own extension, so the
    /// content type comes from the path and the `ext` argument plays no
    /// part; it is accepted for call-shape fidelity.
    #[allow(unused_variables)]
    pub fn build_file(&mut self, path: &str, ext: &ContentType) -> (r: FileNode)
        requires
            old(self).wf(),
            spec_split(path@).len() >= 2,
        ensures
            final(self).wf(),
            final(self).home_segs() == old(self).home_segs(),
            final(self).cache_segs() == old(self).cache_segs(),
            final(self).temp_segs() == old(self).temp_segs(),
            r.valid(final(self).spec_store()),
            ({
                let last = spec_split(path@).last();
                &&& final(self).spec_store()[r.spec_cell()].name == spec_stem(last)
                &&& r.spec_ct() == spec_ext_ct(last)
                &&& r.segs(final(self).spec_store()) == old(self).home_segs() + spec_split(
                    path@,
                ).drop_last() + seq![spec_stem(last) + spec_ext_ct(last).ext]
            }),
    {
        let home = self.home;
        let ghost s0 = self.spec_store();
        let file_node = FileNode::from(&mut self.store, path);
        let ghost s1 = self.spec_store();
        proof {
            crate::file::lemma_segs_grow(s0, s1, old(self).spec_home().spec_cell());
            crate::file::lemma_segs_grow(s0, s1, old(self).spec_cache().spec_cell());
            crate::file::lemma_segs_grow(s0, s1, old(self).spec_temp().spec_cell());
            assert(home.spec_cell() < root_of(s1, file_node.spec_cell()));
        }
        file_node.set_root_parent(&mut self.store, &home);
        proof {
            let r0 = root_of(s1, file_node.spec_cell());
            crate::file::lemma_segs_update_above(s1, r0, self.spec_store()[r0],
                old(self).spec_home().spec_cell());
            crate::file::lemma_segs_update_above(s1, r0, self.spec_store()[r0],
                old(self).spec_cache().spec_cell());
            crate::file::lemma_segs_update_above(s1, r0, self.spec_store()[r0],
                old(self).spec_temp().spec_cell());
            assert(self.spec_store() =~= s1.update(r0, self.spec_store()[r0]));
            assert(file_node.segs(self.spec_store()) =~= old(self).home_segs() + spec_split(
                path@,
            ).drop_last() + seq![
                spec_stem(spec_split(path@).last()) + spec_ext_ct(spec_split(path@).last()).ext,
            ]);
        }
        file_node
    }

    /// Rebuilds the cache-keyed thumbnail node for a stored relative
    /// path: same stem, content type forced to the thumbnail encoding,
    /// grafted under the cache directory. Equal paths always map to the
    /// identical cache location.
    pub fn build_thumbnail_file(&mut self, path: &str) -> (r: FileNode)
        requires
            old(self).wf(),
            spec_split(path@).len() >= 2,
        ensures
            final(self).wf(),
            final(self).home_segs() == old(self).home_segs(),
            final(self).cache_segs() == old(self).cache_segs(),
            final(self).temp_segs() == old(self).temp_segs(),
            r.valid(final(self).spec_store()),
            ({
                let last = spec_split(path@).last();
                &&& final(self).spec_store()[r.spec_cell()].name == spec_stem(last)
                &&& r.spec_ct() == spec_registry()[5]
                &&& r.segs(final(self).spec_store()) == old(self).cache_segs() + spec_split(
                    path@,
                ).drop_last() + seq![spec_stem(last) + spec_registry()[5].ext]
            }),
    {
        let cache = self.cache;
        let ghost s0 = self.spec_store();
        let mut file_node = FileNode::from(&mut self.store, path);
        let ghost s1 = self.spec_store();
        proof {
            crate::file::lemma_segs_grow(s0, s1, old(self).spec_home().spec_cell());
            crate::file::lemma_segs_grow(s0, s1, old(self).spec_cache().spec_cell());
            crate::file::lemma_segs_grow(s0, s1, old(self).spec_temp().spec_cell());
            assert(cache.spec_cell() < root_of(s1, file_node.spec_cell()));
            crate::file::lemma_chain_shape(s1, file_node.spec_cell());
            let base = crate::file::segs_at(s1, file_node.spec_cell());
            let target = spec_split(path@).drop_last() + seq![
                spec_stem(spec_split(path@).last()),
            ];
            assert(base.update(base.len() - 1, file_node.spec_name(s1)) == file_node.segs(s1));
            assert(base.len() >= 1);
            assert(base.update(base.len() - 1, file_node.spec_name(s1)).len() == base.len());
            assert(file_node.segs(s1).len() == spec_split(path@).drop_last().len() + 1);
            assert(base.len() == target.len());
            assert forall|i: int| 0 <= i < base.len() - 1 implies base[i] == target[i] by {
                assert(base.update(base.len() - 1, file_node.spec_name(s1))[i] == base[i]);
                assert(file_node.segs(s1)[i] == (spec_split(path@).drop_last() + seq![
                    spec_stem(spec_split(path@).last()) + spec_ext_ct(
                        spec_split(path@).last(),
                    ).ext,
                ])[i]);
            }
            assert(base.last() == s1[file_node.spec_cell()].name);
            assert(base =~= target);
        }
        file_node.set_content_type(crate::content_type::jpeg());
        proof {
            assert(file_node.segs(s1) =~= spec_split(path@).drop_last() + seq![
                spec_stem(spec_split(path@).last()) + spec_registry()[5].ext,
            ]);
        }
        file_node.set_root_parent(&mut self.store, &cache);
        proof {
            let r0 = root_of(s1, file_node.spec_cell());
            crate::file::lemma_segs_update_above(s1, r0, self.spec_store()[r0],
                old(self).spec_home().spec_cell());
            crate::file::lemma_segs_update_above(s1, r0, self.spec_store()[r0],
                old(self).spec_cache().spec_cell());
            crate::file::lemma_segs_update_above(s1, r0, self.spec_store()[r0],
                old(self).spec_temp().spec_cell());
            assert(self.spec_store() =~= s1.update(r0, self.spec_store()[r0]));
            assert(file_node.segs(self.spec_store()) =~= old(self).cache_segs() + spec_split(
                path@,
            ).drop_last() + seq![spec_stem(spec_split(path@).last()) + spec_registry()[5].ext]);
        }
        file_node
    }
}

impl Clone for RepoResourceManager {
    /// An independent copy of the whole lineage: the paths are equal,
    /// and later changes to either copy stay with that copy.
    fn clone(&self) -> (res: Self)
        ensures
            res.spec_store() == self.spec_store(),
            res.spec_home() == self.spec_home(),
            res.spec_cache() == self.spec_cache(),
            res.spec_temp() == self.spec_temp(),
    {
        RepoResourceManager {
            store: self.store.clone(),
            home: self.home,
            cache: self.cache,
            temp: self.temp,
        }
    }
}

/// The top-level registry of per-repository stores, keyed by repository
/// name. Lookups serve the cached store; the caller builds and inserts
/// a store on first access (after creating its directories), and a
/// repository rename evicts the old entry.
pub struct ResourceManager {
    store: NodeStore,
    root: DirNode,
    repo_cache: Vec<(String, RepoResourceManager)>,
}

/// Entries of `c` whose name is not `name`, in order.
pub open spec fn cache_without(
    c: Seq<(String, RepoResourceManager)>,
    name: Seq<char>,
) -> Seq<(String, RepoResourceManager)>
    decreases c.len(),
{
    if c.len() == 0 {
        Seq::empty()
    } else {
        cache_without(c.drop_last(), name) + (if c.last().0@ == name {
            Seq::empty()
        } else {
            seq![c.last()]
        })
    }
}

impl ResourceManager {
    /// The cells of the registry's own lineage, holding the root chain.
    pub closed spec fn spec_store(self) -> Seq<NodeCellView> {
        self.store@
    }

    /// The storage-root handle that repository homes hang under.
    pub closed spec fn spec_root(self) -> DirNode {
        self.root
    }

    /// The lineage is acyclic and the root handle points into it.
    pub open spec fn wf(self) -> bool {
        &&& store_wf(self.spec_store())
        &&& self.spec_root().valid(self.spec_store())
    }

    /// The storage root's segments.
    pub open spec fn spec_root_segs(self) -> Seq<Seq<char>> {
        self.spec_root().segs(self.spec_store())
    }

    /// The cached stores, in insertion order.
    pub closed spec fn spec_cache(self) -> Seq<(String, RepoResourceManager)> {
        self.repo_cache@
    }

    /// A name is cached when some entry carries it.
    pub open spec fn cache_has(self, name: Seq<char>) -> bool {
        exists|i: int|
            0 <= i < self.spec_cache().len() && (#[trigger] self.spec_cache()[i]).0@ == name
    }

    /// A fresh registry over the configured storage root path.
    pub fn new(setting: &Setting) -> (r: Self)
        ensures
            r.wf(),
            r.spec_root_segs() == spec_split(setting.root@),
            r.spec_cache() == Seq::<(String, RepoResourceManager)>::empty(),
    {
        let mut store = NodeStore::new();
        let root = DirNode::from(&mut store, setting.root.as_str());
        ResourceManager { store, root, repo_cache: Vec::new() }
    }

    /// The cached store of a repository, if one is cached: the first
    /// entry carrying the name, with nothing named the same before it.
    pub fn lookup(&self, name: &str) -> (r: Option<&RepoResourceManager>)
        ensures
            match r {
                Some(m) => exists|i: int|
                    {
                        &&& 0 <= i < self.spec_cache().len()
                        &&& (#[trigger] self.spec_cache()[i]).0@ == name@
                        &&& self.spec_cache()[i].1 == *m
                        &&& forall|j: int|
                            0 <= j < i ==> (#[trigger] self.spec_cache()[j]).0@ != name@
                    },
                None => !self.cache_has(name@),
            },
    {
        let mut i: usize = 0;
        while i < self.repo_cache.len()
            invariant
                0 <= i <= self.repo_cache@.len(),
                forall|j: int| 0 <= j < i ==> (#[trigger] self.repo_cache@[j]).0@ != name@,
            decreases self.repo_cache@.len() - i,
        {
            if crate::text::str_eq(self.repo_cache[i].0.as_str(), name) {
                proof {
                    let w = i as int;
                    assert((#[trigger] self.spec_cache()[w]).0@ == name@);
                    assert(forall|j: int|
                        0 <= j < w ==> (#[trigger] self.spec_cache()[j]).0@ != name@);
                }
                return Some(&self.repo_cache[i].1);
            }
            i += 1;
        }
        proof {
            vstd::assert_by_contradiction!(!self.cache_has(name@), {
                let w = choose|w: int|
                    0 <= w < self.spec_cache().len() && (#[trigger] self.spec_cache()[w]).0@
                        == name@;
                assert(self.repo_cache@[w].0@ != name@);
            });
        }
        None
    }

    /// Builds the store of a repository under the root, uncached, as a
    /// fresh lineage whose home chain repeats the root's segments. The
    /// caller creates the three directories, then caches the store.
    pub fn make_store(&self, name: &str) -> (r: RepoResourceManager)
        requires
            self.wf(),
        ensures
            r.wf(),
            r.home_segs() == self.spec_root_segs() + seq![name@],
            r.cache_segs() == self.spec_root_segs() + seq![name@] + seq![".cache"@],
            r.temp_segs() == self.spec_root_segs() + seq![name@] + seq![".temp"@],
    {
        let mut names = self.root.seg_names(&self.store);
        names.push(String::from_str(name));
        let mut s = NodeStore::new();
        let home = append_chain(&mut s, names);
        proof {
            assert(home.segs(s@) =~= self.spec_root_segs() + seq![name@]);
        }
        let r = RepoResourceManager::new(s, home);
        proof {
            assert(r.cache_segs() =~= self.spec_root_segs() + seq![name@] + seq![".cache"@]);
            assert(r.temp_segs() =~= self.spec_root_segs() + seq![name@] + seq![".temp"@]);
        }
        r
    }

    /// Caches a store under a repository name.
    pub fn cache_store(&mut self, name: String, store: RepoResourceManager)
        ensures
            final(self).spec_cache() == old(self).spec_cache().push((name, store)),
            final(self).spec_root() == old(self).spec_root(),
            final(self).spec_store() == old(self).spec_store(),
    {
        self.repo_cache.push((name, store));
    }

    /// Drops every cached store of a repository name, so the next
    /// access rebuilds a fresh one.
    pub fn evict(&mut self, name: &str)
        ensures
            final(self).spec_cache() == cache_without(old(self).spec_cache(), name@),
            final(self).spec_root() == old(self).spec_root(),
            final(self).spec_store() == old(self).spec_store(),
    {
        let ghost orig = self.repo_cache@;
        let mut i: usize = 0;
        let ghost mut k: int = 0;
        while i < self.repo_cache.len()
            invariant
                0 <= k <= orig.len(),
                self.repo_cache@ == cache_without(orig.take(k), name@) + orig.skip(k),
                i as int == cache_without(orig.take(k), name@).len(),
                self.spec_root() == old(self).spec_root(),
                self.spec_store() == old(self).spec_store(),
            decreases orig.len() - k,
        {
            proof {
                assert(k < orig.len());
                assert(self.repo_cache@[i as int] == orig.skip(k)[0]);
                assert(orig.skip(k)[0] == orig[k]);
                assert(orig.take(k + 1).drop_last() =~= orig.take(k));
                assert(orig.take(k + 1).last() == orig[k]);
            }
            if crate::text::str_eq(self.repo_cache[i].0.as_str(), name) {
                self.repo_cache.remove(i);
                proof {
                    assert(self.repo_cache@ =~= cache_without(orig.take(k + 1), name@) + orig.skip(
                        k + 1,
                    ));
                }
            } else {
                proof {
                    assert(self.repo_cache@ =~= cache_without(orig.take(k + 1), name@) + orig.skip(
                        k + 1,
                    ));
                }
                i += 1;
            }
            proof {
                k = k + 1;
            }
        }
        proof {
            assert(k == orig.len()) by {
                if k < orig.len() {
                    assert(self.repo_cache@.len() > i as int);
                }
            }
            assert(orig.take(orig.len() as int) =~= orig);
            assert(orig.skip(orig.len() as int) =~= Seq::<(String, RepoResourceManager)>::empty());
            assert(self.repo_cache@ =~= cache_without(orig, name@));
        }
    }

    /// Renames a repository's home directory. When the caller reports
    /// the old home as backed by the filesystem (`on_disk`), the
    /// registry is left unchanged and the old and new absolute paths
    /// come back: the caller applies the physical rename and evicts the
    /// old entry (via `evict`) only after it succeeds, so a failed
    /// rename changes nothing. Without a backing home there is nothing
    /// to move, and the old entry is evicted at once so the next access
    /// rebuilds a fresh store.
    pub fn rename_repo(&mut self, old_name: &str, new_name: String, on_disk: bool) -> (r: Option<
        (String, String),
    >)
        requires
            old(self).wf(),
        ensures
            final(self).wf(),
            !on_disk ==> final(self).spec_cache() == cache_without(
                old(self).spec_cache(),
                old_name@,
            ) && final(self).spec_root_segs() == old(self).spec_root_segs() && r is None,
            on_disk ==> (*final(self) == *old(self) && (r matches Some(plan) && plan.0@
                == spec_join(old(self).spec_root_segs() + seq![old_name@]) && plan.1@
                == spec_join(old(self).spec_root_segs() + seq![new_name@]))),
    {
        if on_disk {
            let base = self.root.absolute_path(&self.store);
            proof {
                crate::file::lemma_chain_shape(self.spec_store(), self.spec_root().spec_cell());
                crate::file::lemma_join_snoc(self.spec_root_segs(), old_name@);
                crate::file::lemma_join_snoc(self.spec_root_segs(), new_name@);
                reveal_strlit("/");
            }
            let old_path = base.clone().concat("/").concat(old_name);
            let new_path = base.concat("/").concat(new_name.as_str());
            proof {
                assert(old_path@ =~= spec_join(self.spec_root_segs() + seq![old_name@]));
                assert(new_path@ =~= spec_join(self.spec_root_segs() + seq![new_name@]));
            }
            Some((old_path, new_path))
        } else {
            self.evict(old_name);
            None
        }
    }
}

} // verus!
