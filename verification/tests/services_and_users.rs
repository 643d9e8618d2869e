use mediastore::content_type::{guess, unknown, FileType};
use mediastore::file::NodeStore;
use mediastore::item::{Item, ItemExtend};
use mediastore::manager::Config;
use mediastore::repo::{
    CommonConfig, IllustrationConfig, Repo, RepoConfig, RepoFileOrder,
};
use mediastore::service::{ItemService, Service, ThumbnailSource, UserService};
use mediastore::user::{User, UserContext, UserRepoRoleStorage, UserRole, UserStorage};
use mediastore::Error;

fn illustration_repo(order: RepoFileOrder) -> Repo {
    Repo {
        id: 1,
        name: String::from("gallery"),
        config: RepoConfig::Illustration(IllustrationConfig {
            common_config: CommonConfig { order },
        }),
    }
}

fn item_created_at(id: i64, created_at: i64) -> Item {
    Item {
        id,
        name: format!("item-{}", id),
        ext: guess(".png"),
        size: 10,
        created_at,
        is_deleted: false,
        repo_id: 1,
        path: String::new(),
        extend: ItemExtend::Empty,
    }
}

fn service() -> Service {
    let config = Config::new(String::from("data"), 4096);
    Service::new(config)
}

#[test]
fn thumbnail_plan_serves_small_items_directly() {
    let s = service();
    let plan = s.item.thumbnail_plan(4096, false, &FileType::Image).unwrap();
    assert_eq!(plan, ThumbnailSource::Original);
}

#[test]
fn thumbnail_plan_prefers_the_cache_without_codec_work() {
    let s = service();
    let plan = s.item.thumbnail_plan(5000, true, &FileType::Image).unwrap();
    assert_eq!(plan, ThumbnailSource::CachedThumbnail);
    // Even a non-image item serves from the cache once cached.
    let plan = s.item.thumbnail_plan(5000, true, &FileType::Plain).unwrap();
    assert_eq!(plan, ThumbnailSource::CachedThumbnail);
}

#[test]
fn thumbnail_plan_builds_once_for_large_images() {
    let s = service();
    let plan = s.item.thumbnail_plan(5000, false, &FileType::Image).unwrap();
    assert_eq!(plan, ThumbnailSource::BuildThumbnail);
}

#[test]
fn thumbnail_plan_rejects_large_non_images() {
    let s = service();
    assert!(s.item.thumbnail_plan(5000, false, &FileType::Plain).is_err());
    assert!(s.item.thumbnail_plan(5000, false, &FileType::Unknown).is_err());
}

#[test]
fn build_extend_by_file_class_and_repo_kind() {
    let repo = illustration_repo(RepoFileOrder::CreateYearTime);
    assert!(ItemService::build_extend(&repo, &unknown(), (0, 0)).is_err());
    assert!(matches!(
        ItemService::build_extend(&repo, &guess(".json"), (0, 0)),
        Ok(ItemExtend::Empty)
    ));
    match ItemService::build_extend(&repo, &guess(".png"), (640, 480)).unwrap() {
        ItemExtend::Picture(p) => {
            assert_eq!(p.image_extend.w, 640);
            assert_eq!(p.image_extend.h, 480);
            assert!(p.author.is_none());
            assert!(p.url.is_none());
        },
        _ => panic!("an image in an illustration repository is a picture"),
    }
    let other = Repo { id: 2, name: String::from("x"), config: RepoConfig::UnSupportConfig };
    match ItemService::build_extend(&other, &guess(".png"), (640, 480)).unwrap() {
        ItemExtend::Photo(p) => {
            assert_eq!(p.image_extend.w, 640);
            assert_eq!(p.image_extend.h, 480);
        },
        _ => panic!("an image elsewhere is a photo"),
    }
}

#[test]
fn build_repo_path_by_year() {
    let repo = illustration_repo(RepoFileOrder::CreateYearTime);
    let item = item_created_at(42, 0);
    let mut store = NodeStore::new();
    let node = ItemService::build_repo_path(&repo, &item, &mut store).unwrap();
    assert_eq!(node.absolute_path(&store), "1970/42.png");
}

#[test]
fn build_repo_path_by_month_and_day() {
    let repo = illustration_repo(RepoFileOrder::CreateMonthTime);
    // 1970-02-02, one month and a day past the epoch.
    let item = item_created_at(7, 86400 * 32);
    let mut store = NodeStore::new();
    let node = ItemService::build_repo_path(&repo, &item, &mut store).unwrap();
    assert_eq!(node.absolute_path(&store), "1970/2/7.png");

    let repo = illustration_repo(RepoFileOrder::CreateDateTime);
    let mut store = NodeStore::new();
    let node = ItemService::build_repo_path(&repo, &item, &mut store).unwrap();
    assert_eq!(node.absolute_path(&store), "1970/2/2/7.png");
}

#[test]
fn repo_config_update_keeps_the_order() {
    let a = RepoConfig::Illustration(IllustrationConfig {
        common_config: CommonConfig { order: RepoFileOrder::CreateYearTime },
    });
    let b = RepoConfig::Illustration(IllustrationConfig {
        common_config: CommonConfig { order: RepoFileOrder::CreateYearTime },
    });
    let c = RepoConfig::Illustration(IllustrationConfig {
        common_config: CommonConfig { order: RepoFileOrder::CreateDateTime },
    });
    assert!(RepoConfig::update_check(&a, &b).is_ok());
    assert!(RepoConfig::update_check(&a, &c).is_err());
    assert!(RepoConfig::update_check(&a, &RepoConfig::UnSupportConfig).is_err());
}

#[test]
fn user_roles_nest_by_bitmask() {
    assert_eq!(UserRole::Admin.to_int(), 0xffff);
    assert_eq!(UserRole::Viewer.to_int(), 0x000f);
    assert!(matches!(UserRole::from_int(0x0fff), UserRole::Manager));
    assert!(matches!(UserRole::from_int(12345), UserRole::Nothing));
    assert!(UserRole::Admin.geq(&UserRole::Viewer));
    assert!(UserRole::Manager.geq(&UserRole::User));
    assert!(!UserRole::Viewer.geq(&UserRole::Manager));
    assert!(UserRole::User.geq(&UserRole::User));
    assert!(UserRole::Viewer.geq(&UserRole::Nothing));
}

fn user_with_roles() -> User {
    let storage = UserStorage {
        id: 9,
        name: String::from("shiroha"),
        password: String::from("SECRET-REDACTED"),
        token: None,
    };
    let grants = vec![
        UserRepoRoleStorage { id: 1, user_id: 9, repo_id: 1, role: 0x000f },
        UserRepoRoleStorage { id: 2, user_id: 9, repo_id: 2, role: 0x0fff },
        // A later grant for the same repository wins.
        UserRepoRoleStorage { id: 3, user_id: 9, repo_id: 1, role: 0x00ff },
    ];
    User::new(storage, &grants)
}

#[test]
fn user_new_builds_the_role_map() {
    let user = user_with_roles();
    assert_eq!(user.id, 9);
    assert_eq!(user.name, "shiroha");
    assert!(matches!(user.repo.get(&1), Some(UserRole::User)));
    assert!(matches!(user.repo.get(&2), Some(UserRole::Manager)));
    assert!(user.repo.get(&3).is_none());
}

#[test]
fn permission_check_consults_the_role_map() {
    let user = user_with_roles();
    let ctx = UserContext::new(&user);
    assert!(ctx.permission_check(1, UserRole::Viewer).is_ok());
    assert!(ctx.permission_check(1, UserRole::Manager).is_err());
    assert!(ctx.permission_check(2, UserRole::Manager).is_ok());
    assert!(matches!(
        ctx.permission_check(99, UserRole::Viewer),
        Err(Error::PermissionCheckFailed)
    ));
}

#[test]
fn session_tokens_are_fresh_and_cleared() {
    let user = user_with_roles();
    let svc = UserService::new(&Config::new(String::from("data"), 4096));

    let none: Option<UserContext> = None;
    assert_eq!(svc.get_session_key(&none), "");
    assert!(matches!(svc.check(&none), Err(Error::NeedLogin)));

    let ctx = UserContext::new(&user);
    assert_eq!(ctx.token.len(), 36);
    let other = UserContext::new(&user);
    assert_ne!(ctx.token, other.token);

    let mut slot = Some(ctx);
    let key = svc.get_session_key(&slot);
    assert_eq!(key.len(), 36);
    let checked = svc.check(&slot).unwrap();
    assert_eq!(checked.id, 9);

    svc.clear(&mut slot);
    assert!(slot.is_none());
    assert_eq!(svc.get_session_key(&slot), "");
}

#[test]
fn session_update_keeps_the_token() {
    let user = user_with_roles();
    let mut ctx = UserContext::new(&user);
    let token = ctx.token.clone();
    let replacement = UserContext::new(&user).as_user_vo();
    ctx.update(&replacement);
    assert_eq!(ctx.token, token);
    assert_eq!(ctx.as_user_vo().name, "shiroha");
}
