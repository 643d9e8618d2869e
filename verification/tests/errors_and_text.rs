use mediastore::tag::{ItemTagRelation, MarkedTag, Tag};
use mediastore::text::{i64_to_string, str_contains, str_ends_with, str_eq, str_starts_with, u64_to_string};
use mediastore::Error;

#[test]
fn error_messages_match_their_kind() {
    assert_eq!(Error::ItemNotFound.msg(), "item not found");
    assert_eq!(Error::UnknownFileContentType.msg(), "unknown file content-type");
    assert_eq!(Error::NoSuchFile.msg(), "no such file");
    assert_eq!(Error::NeedLogin.msg(), "you are not login");
    assert_eq!(Error::PermissionCheckFailed.msg(), "no permission");
    assert_eq!(Error::UsedRepoName.msg(), "used repo name");
    assert_eq!(Error::DirectoryError(String::from("boom")).msg(), "boom");
    assert_eq!(Error::TimestampError(-77).msg(), "timestamp from -77 failed");
}

#[test]
fn error_codes_match_their_kind() {
    assert_eq!(Error::Success.code(), 200);
    assert_eq!(Error::ConnectError(String::new()).code(), 502);
    assert_eq!(Error::TimestampError(0).code(), 502);
    assert_eq!(Error::NeedLogin.code(), 401);
    assert_eq!(Error::PermissionCheckFailed.code(), 403);
    assert_eq!(Error::ItemNotFound.code(), 400);
    assert_eq!(Error::NoSuchRepo.code(), 400);
}

#[test]
fn decimal_rendering_is_exact() {
    assert_eq!(u64_to_string(0), "0");
    assert_eq!(u64_to_string(907), "907");
    assert_eq!(i64_to_string(-1), "-1");
    assert_eq!(i64_to_string(1970), "1970");
    assert_eq!(i64_to_string(i64::MIN), "-9223372036854775808");
    assert_eq!(i64_to_string(i64::MAX), "9223372036854775807");
}

#[test]
fn string_predicates_behave_like_std() {
    assert!(str_eq("abc", "abc"));
    assert!(!str_eq("abc", "abd"));
    assert!(str_starts_with("abcdef", "abc"));
    assert!(!str_starts_with("ab", "abc"));
    assert!(str_ends_with("abcdef", "def"));
    assert!(str_contains("abcdef", "cde"));
    assert!(str_contains("abcdef", ""));
    assert!(!str_contains("abcdef", "xyz"));
}

#[test]
fn marked_tag_carries_the_application_record() {
    let tag = Tag {
        id: 4,
        name: String::from("scenery"),
        repo_id: 1,
        parent: 0,
        creator: 9,
        is_delete: false,
    };
    let relation = ItemTagRelation {
        id: 11,
        tag_id: 4,
        item_id: 42,
        creator: 8,
        is_delete: true,
    };
    let marked = MarkedTag::new(relation, tag);
    assert_eq!(marked.marker, 8);
    assert!(marked.is_remove);
    assert_eq!(marked.tag.name, "scenery");
}
