//! The service layer's decision logic. Storage queries, filesystem work
//! and the session store run in the surrounding application; what is
//! here is everything the services decide: which payload a new item
//! gets, where its file goes, how a thumbnail request is served, how a
//! pulled page is filtered, and when the listing loop may stop.

use crate::content_type::{ContentType, FileType};
use crate::calendar::{civil_from_timestamp, civil_of};
use crate::file::{DirNode, FileNode, NodeStore};
use crate::filter::{spec_filter_check, ConditionContext, ItemFilter};
use crate::item::{ImageExtend, Item, ItemExtend, PhotoExtend, PictureExtend};
use crate::manager::{Config, ItemManager, RepoManager, TagManager, UserManager};
use crate::repo::{Repo, RepoConfig, RepoFileOrder};
use crate::result::{Error, Res};
use crate::text::{i64_to_string, spec_dec_int};
use crate::user::{User, UserContext};
use std::sync::Arc;
use vstd::prelude::*;

verus! {

/// Where a thumbnail request is served from.
#[derive(Clone, Copy, PartialEq, Eq, Structural, Debug)]
pub enum ThumbnailSource {
    /// The item is small enough: stream the original file.
    Original,
    /// A cached thumbnail exists: stream it, no codec work.
    CachedThumbnail,
    /// Build the thumbnail from the original, cache it, then stream it.
    BuildThumbnail,
}

/// An item passes every filter of the set.
pub open spec fn spec_passes_all(fs: Seq<ItemFilter>, item: Item) -> bool {
    forall|k: int| 0 <= k < fs.len() ==> spec_filter_check(#[trigger] fs[k], item)
}

/// The items of a page that pass every filter, in page order.
pub open spec fn spec_surviving(s: Seq<Item>, fs: Seq<ItemFilter>) -> Seq<Item>
    decreases s.len(),
{
    if s.len() == 0 {
        Seq::empty()
    } else {
        spec_surviving(s.drop_last(), fs) + (if spec_passes_all(fs, s.last()) {
            seq![s.last()]
        } else {
            Seq::empty()
        })
    }
}

/// What one step of the listing loop does with one pulled page.
pub enum PageStep {
    /// The listing is answered with these items.
    Done(Vec<Item>),
    /// Every item of a non-empty page was filtered out: pull again.
    Continue,
}

/// What the listing loop answers once fed these pages in order: the
/// survivors of the first page that has any, stopping early at the
/// first empty page (the end-of-stream signal).
pub open spec fn spec_listing_outcome(pages: Seq<Seq<Item>>, fs: Seq<ItemFilter>) -> Seq<Item>
    decreases pages.len(),
{
    if pages.len() == 0 {
        Seq::empty()
    } else if pages[0].len() == 0 {
        Seq::empty()
    } else if spec_surviving(pages[0], fs).len() > 0 {
        spec_surviving(pages[0], fs)
    } else {
        spec_listing_outcome(pages.drop_first(), fs)
    }
}

/// A page that merely filters down to nothing is not end-of-stream:
/// when every page before `k` is non-empty but fully filtered, and page
/// `k` is non-empty with survivors, the listing answers page `k`'s
/// survivors — never an empty result while pages remain.
pub proof fn lemma_retry_skips_filtered_pages(pages: Seq<Seq<Item>>, fs: Seq<ItemFilter>, k: int)
    requires
        0 <= k < pages.len(),
        forall|j: int|
            0 <= j < k ==> (#[trigger] pages[j]).len() > 0 && spec_surviving(pages[j], fs).len()
                == 0,
        pages[k].len() > 0,
        spec_surviving(pages[k], fs).len() > 0,
    ensures
        spec_listing_outcome(pages, fs) == spec_surviving(pages[k], fs),
        spec_listing_outcome(pages, fs).len() > 0,
    decreases k,
{
    if k == 0 {
    } else {
        lemma_retry_skips_filtered_pages(pages.drop_first(), fs, k - 1);
        assert(forall|j: int|
            0 <= j < k - 1 ==> pages.drop_first()[j] == #[trigger] pages[j + 1]);
        assert(pages.drop_first()[k - 1] == pages[k]);
    }
}

/// The group of services over one configuration.
pub struct Service {
    pub repo: Arc<RepoService>,
    pub user: Arc<UserService>,
    pub item: Arc<ItemService>,
    pub tag: Arc<TagService>,
}

impl Service {
    /// Builds every service over one configuration.
    pub fn new(config: Config) -> Self {
        Service {
            repo: Arc::new(RepoService::new(&config)),
            user: Arc::new(UserService::new(&config)),
            item: Arc::new(ItemService::new(&config)),
            tag: Arc::new(TagService::new(&config)),
        }
    }
}

impl Clone for Service {
    fn clone(&self) -> (res: Self) {
        Service {
            repo: self.repo.clone(),
            user: self.user.clone(),
            item: self.item.clone(),
            tag: self.tag.clone(),
        }
    }
}

/// Item operations: creation payloads, storage paths, listing, reads.
pub struct ItemService {
    max_thumbnail_size: usize,
    pub repo: Arc<RepoManager>,
    pub item: Arc<ItemManager>,
    pub tag: Arc<TagManager>,
}

impl ItemService {
    /// The size threshold above which thumbnails come from the cache.
    pub closed spec fn spec_max_thumbnail_size(self) -> usize {
        self.max_thumbnail_size
    }

    pub fn new(config: &Config) -> (r: Self)
        ensures
            r.spec_max_thumbnail_size() == config.setting.max_thumbnail_size,
    {
        ItemService {
            max_thumbnail_size: config.setting.max_thumbnail_size,
            repo: config.repo_manager.clone(),
            item: config.item_manager.clone(),
            tag: config.tag_manager.clone(),
        }
    }

    /// How a thumbnail request for an item of the given size and file
    /// class is served: a small item streams as itself; above the
    /// threshold the cached thumbnail is used when the caller found one
    /// on disk (no codec work); otherwise a thumbnail may be built only
    /// from an image, and anything else is rejected as unknown content.
    pub fn thumbnail_plan(&self, size: usize, cache_exists: bool, file: &FileType) -> (r: Res<
        ThumbnailSource,
    >)
        ensures
            size <= self.spec_max_thumbnail_size() ==> (r matches Ok(s) && s
                == ThumbnailSource::Original),
            size > self.spec_max_thumbnail_size() && cache_exists ==> (r matches Ok(s) && s
                == ThumbnailSource::CachedThumbnail),
            size > self.spec_max_thumbnail_size() && !cache_exists && *file is Image ==> (r
                matches Ok(s) && s == ThumbnailSource::BuildThumbnail),
            size > self.spec_max_thumbnail_size() && !cache_exists && !(*file is Image) ==> (r
                matches Err(e) && e is UnknownFileContentType),
    {
        if size <= self.max_thumbnail_size {
            Ok(ThumbnailSource::Original)
        } else if cache_exists {
            Ok(ThumbnailSource::CachedThumbnail)
        } else {
            match file {
                FileType::Image => Ok(ThumbnailSource::BuildThumbnail),
                _ => Err(Error::UnknownFileContentType),
            }
        }
    }

    /// The payload a new item gets from its repository and sniffed
    /// content type. `dims` is the decoded image's (width, height),
    /// which the caller obtains from the codec for image content; it
    /// plays no part otherwise. Unknown content is rejected; plain
    /// content carries nothing; an image carries a picture payload in
    /// an illustration repository and a photo payload elsewhere.
    pub fn build_extend(repo: &Repo, file_type: &ContentType, dims: (u32, u32)) -> (r: Res<
        ItemExtend,
    >)
        ensures
            file_type.file is Unknown ==> (r matches Err(e) && e is UnknownFileContentType),
            file_type.file is Plain ==> (r matches Ok(x) && x is Empty),
            file_type.file is Image && repo.config is Illustration ==> (r matches Ok(x) && (x
                matches ItemExtend::Picture(p) && p.image_extend.w == dims.0 && p.image_extend.h
                == dims.1 && p.author is None && p.url is None)),
            file_type.file is Image && !(repo.config is Illustration) ==> (r matches Ok(x) && (x
                matches ItemExtend::Photo(p) && p.image_extend.w == dims.0 && p.image_extend.h
                == dims.1)),
    {
        match file_type.file {
            FileType::Unknown => Err(Error::UnknownFileContentType),
            FileType::Plain => Ok(ItemExtend::Empty),
            FileType::Image => {
                let image_extend = ImageExtend { w: dims.0, h: dims.1 };
                match &repo.config {
                    RepoConfig::Illustration(_) => Ok(
                        ItemExtend::Picture(
                            PictureExtend { image_extend, author: None, url: None },
                        ),
                    ),
                    _ => Ok(ItemExtend::Photo(PhotoExtend { image_extend })),
                }
            },
        }
    }

    /// The storage path of a new item under its repository, built as a
    /// fresh chain of the given lineage store: directories named by the
    /// creation date's year (and month, and day, as the repository's
    /// file order asks), and the file named by the item's id with the
    /// item's own content type. Fails exactly when the stored creation
    /// time resolves to no calendar date.
    pub fn build_repo_path(repo: &Repo, item: &Item, store: &mut NodeStore) -> (r: Res<FileNode>)
        requires
            old(store).wf(),
            repo.config matches RepoConfig::Illustration(_),
        ensures
            final(store).wf(),
            final(store)@.subrange(0, old(store)@.len() as int) == old(store)@,
            match r {
                Err(e) => e matches Error::TimestampError(t) && t == item.created_at && civil_of(
                    item.created_at,
                ) is None && final(store)@ == old(store)@,
                Ok(f) => civil_of(item.created_at) matches Some(c) && {
                    &&& f.valid(final(store)@)
                    &&& final(store)@[f.spec_cell()].name == spec_dec_int(item.id as int)
                    &&& f.spec_ct() == item.ext@
                    &&& f.segs(final(store)@) == (match repo.config {
                        RepoConfig::Illustration(cfg) => match cfg.common_config.order {
                            RepoFileOrder::CreateYearTime => seq![spec_dec_int(c.0)],
                            RepoFileOrder::CreateMonthTime => seq![
                                spec_dec_int(c.0),
                                spec_dec_int(c.1),
                            ],
                            RepoFileOrder::CreateDateTime => seq![
                                spec_dec_int(c.0),
                                spec_dec_int(c.1),
                                spec_dec_int(c.2),
                            ],
                        },
                        RepoConfig::UnSupportConfig => Seq::empty(),
                    }) + seq![spec_dec_int(item.id as int) + item.ext@.ext]
                },
            },
    {
        let civil = civil_from_timestamp(item.created_at);
        match civil {
            None => Err(Error::TimestampError(item.created_at)),
            Some((y, m, d)) => {
                let order = match &repo.config {
                    RepoConfig::Illustration(cfg) => cfg.common_config.order,
                    RepoConfig::UnSupportConfig => RepoFileOrder::CreateYearTime,
                };
                let year_node = DirNode::new(store, i64_to_string(y as i64));
                let dir = match order {
                    RepoFileOrder::CreateYearTime => year_node,
                    RepoFileOrder::CreateMonthTime => year_node.next(
                        store,
                        i64_to_string(m as i64),
                    ),
                    RepoFileOrder::CreateDateTime => {
                        year_node.next(store, i64_to_string(m as i64)).next(
                            store,
                            i64_to_string(d as i64),
                        )
                    },
                };
                let f = dir.to(store, i64_to_string(item.id), item.ext.clone());
                proof {
                    assert(store@.subrange(0, old(store)@.len() as int) =~= old(store)@);
                }
                Ok(f)
            },
        }
    }

    /// The items of one pulled page that pass every filter, in order.
    pub fn filter_page(page: Vec<Item>, filters: &Vec<ItemFilter>, context: &ConditionContext)
        -> (r: Vec<Item>)
        ensures
            r@ == spec_surviving(page@, filters@),
    {
        let ghost orig = page@;
        let mut rest = page;
        let total: usize = rest.len();
        let mut out: Vec<Item> = Vec::new();
        let mut i: usize = 0;
        while rest.len() > 0
            invariant
                total == orig.len(),
                0 <= i <= orig.len(),
                i + rest@.len() == orig.len(),
                rest@ == orig.skip(i as int),
                out@ == spec_surviving(orig.take(i as int), filters@),
            decreases rest@.len(),
        {
            let it = rest.remove(0);
            proof {
                assert(it == orig[i as int]);
                assert(orig.skip(i as int).remove(0) =~= orig.skip(i + 1 as int));
            }
            let passes = passes_all(filters, &it, context);
            if passes {
                out.push(it);
            }
            proof {
                assert(orig.take(i + 1 as int).drop_last() =~= orig.take(i as int));
                assert(orig.take(i + 1 as int).last() == orig[i as int]);
                assert(out@ =~= spec_surviving(orig.take(i + 1 as int), filters@));
            }
            i += 1;
        }
        proof {
            assert(orig.take(orig.len() as int) =~= orig);
        }
        out
    }

    /// One step of the listing loop over one pulled page: an empty page
    /// answers the listing empty (end of stream); a page with survivors
    /// answers them; a non-empty page whose items all fail the filters
    /// asks for another pull. Without filters every non-empty page is
    /// answered whole.
    pub fn loop_step(
        page: Vec<Item>,
        filters: &Option<Vec<ItemFilter>>,
        context: &ConditionContext,
    ) -> (r: PageStep)
        ensures
            page@.len() == 0 ==> (r matches PageStep::Done(v) && v@.len() == 0),
            page@.len() > 0 && filters is None ==> (r matches PageStep::Done(v) && v@ == page@),
            page@.len() > 0 && (filters matches Some(fs) && spec_surviving(page@, fs@).len() > 0)
                ==> (r matches PageStep::Done(v) && (filters matches Some(fs) && v@
                == spec_surviving(page@, fs@))),
            page@.len() > 0 && (filters matches Some(fs) && spec_surviving(page@, fs@).len() == 0)
                ==> r is Continue,
    {
        if page.len() == 0 {
            return PageStep::Done(page);
        }
        match filters {
            None => PageStep::Done(page),
            Some(fs) => {
                let survivors = Self::filter_page(page, fs, context);
                if survivors.len() > 0 {
                    PageStep::Done(survivors)
                } else {
                    PageStep::Continue
                }
            },
        }
    }

    /// The hard cap a listing request's page size is clamped to.
    pub fn clamp_limit(limit: i64) -> (r: i64)
        ensures
            r == if limit < 100 {
                limit as int
            } else {
                100
            },
    {
        if limit < 100 {
            limit
        } else {
            100
        }
    }
}

/// An item passes every filter of the set.
fn passes_all(filters: &Vec<ItemFilter>, item: &Item, context: &ConditionContext) -> (r: bool)
    ensures
        r == spec_passes_all(filters@, *item),
{
    let mut k: usize = 0;
    while k < filters.len()
        invariant
            0 <= k <= filters@.len(),
            forall|j: int| 0 <= j < k ==> spec_filter_check(#[trigger] filters@[j], *item),
        decreases filters@.len() - k,
    {
        if !filters[k].check(item, context) {
            return false;
        }
        k += 1;
    }
    true
}

/// Repository operations: listing, creation, update.
pub struct RepoService {
    pub repo: Arc<RepoManager>,
    pub user: Arc<UserManager>,
}

impl RepoService {
    pub fn new(config: &Config) -> Self {
        RepoService { repo: config.repo_manager.clone(), user: config.user_manager.clone() }
    }
}

/// Tag operations: listing, application, reparenting.
pub struct TagService {
    pub item: Arc<ItemManager>,
    pub tag: Arc<TagManager>,
}

impl TagService {
    pub fn new(config: &Config) -> Self {
        TagService { item: config.item_manager.clone(), tag: config.tag_manager.clone() }
    }
}

/// Session-facing user operations over an explicit session slot; the
/// surrounding application keeps one slot per execution context.
pub struct UserService {
    pub user: Arc<UserManager>,
}

impl UserService {
    pub fn new(config: &Config) -> Self {
        UserService { user: config.user_manager.clone() }
    }

    /// The session's token, or empty when nobody is logged in.
    pub fn get_session_key(&self, ctx: &Option<UserContext>) -> (r: String)
        ensures
            r@ == match ctx {
                Option::None => Seq::<char>::empty(),
                Option::Some(c) => c.token@,
            },
    {
        match ctx {
            None => String::new(),
            Some(c) => c.token.clone(),
        }
    }

    /// The logged-in user, or the demand to log in.
    pub fn check(&self, ctx: &Option<UserContext>) -> (r: Res<User>)
        ensures
            match ctx {
                Option::None => r matches Err(e) && e is NeedLogin,
                Option::Some(c) => r matches Ok(u) && u.id == c.id && u.name == c.name && u.repo@
                    == c.repo@,
            },
    {
        match ctx {
            None => Err(Error::NeedLogin),
            Some(c) => Ok(c.as_user_vo()),
        }
    }

    /// Ends the session.
    pub fn clear(&self, ctx: &mut Option<UserContext>)
        ensures
            *final(ctx) is None,
    {
        *ctx = None;
    }
}

} // verus!
