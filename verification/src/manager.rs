//! The storage-facing managers and the configuration that wires them.
//! The managers are stateless fronts: their query and update calls run
//! in the surrounding application against the real storage, so the
//! types here carry only identity and configuration.

use std::sync::Arc;
use vstd::prelude::*;

verus! {

/// Process-wide settings: the storage root path and the size threshold
/// above which thumbnails are served from the cache.
pub struct Setting {
    pub root: String,
    pub max_thumbnail_size: usize,
}

/// Front for item storage.
pub struct ItemManager;

/// Front for repository storage.
pub struct RepoManager;

/// Front for tag storage.
pub struct TagManager;

/// Front for user storage.
pub struct UserManager;

impl ItemManager {
    pub fn new(_setting: &Setting) -> Self {
        Self {  }
    }
}

impl RepoManager {
    pub fn new(_setting: &Setting) -> Self {
        Self {  }
    }
}

impl TagManager {
    pub fn new(_setting: &Setting) -> Self {
        Self {  }
    }
}

impl UserManager {
    pub fn new(_setting: &Setting) -> Self {
        Self {  }
    }
}

/// The managers built over one setting, shared by the services.
pub struct Config {
    pub setting: Setting,
    pub repo_manager: Arc<RepoManager>,
    pub user_manager: Arc<UserManager>,
    pub item_manager: Arc<ItemManager>,
    pub tag_manager: Arc<TagManager>,
}

impl Config {
    /// Builds the managers over the given storage root and thumbnail
    /// threshold.
    pub fn new(root: String, max_thumbnail_size: usize) -> (r: Self)
        ensures
            r.setting.root == root,
            r.setting.max_thumbnail_size == max_thumbnail_size,
    {
        let setting = Setting { root, max_thumbnail_size };
        let repo = Arc::new(RepoManager::new(&setting));
        let user = Arc::new(UserManager::new(&setting));
        let item = Arc::new(ItemManager::new(&setting));
        let tag = Arc::new(TagManager::new(&setting));
        Config {
            setting,
            repo_manager: repo,
            user_manager: user,
            item_manager: item,
            tag_manager: tag,
        }
    }
}

} // verus!
