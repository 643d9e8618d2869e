//! Repositories: a named top-level item collection with its configured
//! file-layout ordering policy, and the update rule that keeps the
//! ordering policy immutable once set.

use crate::result::{Error, Res};
use vstd::prelude::*;

verus! {

/// How a repository lays stored files out under its home directory.
#[derive(Clone, Copy, PartialEq, Eq, Structural, Debug)]
pub enum RepoFileOrder {
    CreateYearTime,
    CreateMonthTime,
    CreateDateTime,
}

/// Configuration shared by every repository kind.
#[derive(Clone, Copy, PartialEq, Eq, Structural, Debug)]
pub struct CommonConfig {
    pub order: RepoFileOrder,
}

/// Configuration of an illustration repository.
#[derive(Clone, Copy, PartialEq, Eq, Structural, Debug)]
pub struct IllustrationConfig {
    pub common_config: CommonConfig,
}

/// A repository's configuration, by repository kind.
#[derive(Clone, Copy, PartialEq, Eq, Structural, Debug)]
pub enum RepoConfig {
    Illustration(IllustrationConfig),
    UnSupportConfig,
}

/// A repository: id, unique name, and configuration.
pub struct Repo {
    pub id: i64,
    pub name: String,
    pub config: RepoConfig,
}

/// The raw storage row of a repository, configuration as serialized text.
pub struct RepoStorage {
    pub id: i64,
    pub name: String,
    pub config: String,
    pub is_delete: bool,
}

/// A request to create a repository: its name and configuration.
pub struct CreateRepoRequest {
    pub name: String,
    pub config: RepoConfig,
}

impl CommonConfig {
    /// An update may not change the file-layout order.
    pub fn update_check(prev: &CommonConfig, cur: &CommonConfig) -> (r: Res<()>)
        ensures
            r is Ok <==> prev.order == cur.order,
            r matches Err(e) ==> e is SomeConfigCanNotChange,
    {
        if prev.order != cur.order {
            return Err(Error::SomeConfigCanNotChange);
        }
        Ok(())
    }
}

impl IllustrationConfig {
    /// An update may not change the file-layout order.
    pub fn update_check(prev: &IllustrationConfig, cur: &IllustrationConfig) -> (r: Res<()>)
        ensures
            r is Ok <==> prev.common_config.order == cur.common_config.order,
            r matches Err(e) ==> e is SomeConfigCanNotChange,
    {
        CommonConfig::update_check(&prev.common_config, &cur.common_config)
    }
}

impl RepoConfig {
    /// An update must keep the repository kind and its file-layout
    /// order; anything else is rejected.
    pub fn update_check(prev: &RepoConfig, cur: &RepoConfig) -> (r: Res<()>)
        ensures
            r is Ok <==> (prev matches RepoConfig::Illustration(p) && cur
                matches RepoConfig::Illustration(c)
                && p.common_config.order == c.common_config.order),
            r matches Err(e) ==> e is SomeConfigCanNotChange,
    {
        match (prev, cur) {
            (RepoConfig::Illustration(p), RepoConfig::Illustration(c)) => {
                IllustrationConfig::update_check(p, c)
            },
            _ => Err(Error::SomeConfigCanNotChange),
        }
    }
}

} // verus!
