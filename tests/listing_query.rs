use gitlab_projects::{BuildQuery, Listing, ListingOrderBy, ListingSort, ListingVisibility};

#[test]
fn unset_listing_is_bare_path() {
    assert_eq!(Listing::new().build_query(), "projects");
}

#[test]
fn default_listing_is_bare_path() {
    let l: Listing = Default::default();
    assert_eq!(l.build_query(), "projects");
}

#[test]
fn archived_only() {
    let mut l = Listing::new();
    l.archived(true);
    assert_eq!(l.build_query(), "projects?archived=true");
}

#[test]
fn archived_false_only() {
    let mut l = Listing::new();
    l.archived(false);
    assert_eq!(l.build_query(), "projects?archived=false");
}

#[test]
fn visibility_and_sort_in_fixed_order() {
    let mut l = Listing::new();
    l.sort(ListingSort::Asc).visibility(ListingVisibility::Private);
    assert_eq!(l.build_query(), "projects?visibility=private&sort=asc");

    let mut m = Listing::new();
    m.visibility(ListingVisibility::Private).sort(ListingSort::Asc);
    assert_eq!(m.build_query(), "projects?visibility=private&sort=asc");
}

#[test]
fn search_is_not_escaped() {
    let mut l = Listing::new();
    l.search("foo bar".to_string());
    assert_eq!(l.build_query(), "projects?search=foo bar");
}

#[test]
fn empty_search_is_not_sent() {
    let mut l = Listing::new();
    l.search(String::new());
    assert_eq!(l.build_query(), "projects");
    l.simple(true).search(String::new());
    assert_eq!(l.build_query(), "projects?simple=true");
}

#[test]
fn search_can_be_cleared() {
    let mut l = Listing::new();
    l.search("abc".to_string());
    assert_eq!(l.build_query(), "projects?search=abc");
    l.search(String::new());
    assert_eq!(l.build_query(), "projects");
}

#[test]
fn all_six_fields() {
    let mut l = Listing::new();
    l.simple(false)
        .search("needle".to_string())
        .sort(ListingSort::Desc)
        .order_by(ListingOrderBy::LastActivityAt)
        .visibility(ListingVisibility::Internal)
        .archived(false);
    assert_eq!(
        l.build_query(),
        "projects?archived=false&visibility=internal&order_by=last_activity_at&sort=desc&search=needle&simple=false"
    );
}

#[test]
fn building_twice_gives_same_string() {
    let mut l = Listing::new();
    l.order_by(ListingOrderBy::Name).search("x y".to_string()).simple(true);
    let first = l.build_query();
    let second = l.build_query();
    assert_eq!(first, second);
    assert_eq!(first, "projects?order_by=name&search=x y&simple=true");
}

#[test]
fn later_setting_replaces_earlier() {
    let mut l = Listing::new();
    l.archived(true).archived(false).sort(ListingSort::Asc).sort(ListingSort::Desc);
    assert_eq!(l.build_query(), "projects?archived=false&sort=desc");
}

#[test]
fn no_amp_after_question_nor_trailing_amp() {
    let mut l = Listing::new();
    l.simple(true);
    let q = l.build_query();
    assert_eq!(q, "projects?simple=true");
    assert!(!q.contains("?&"));
    assert!(!q.ends_with('&'));

    let mut m = Listing::new();
    m.archived(true).simple(false);
    let q = m.build_query();
    assert_eq!(q, "projects?archived=true&simple=false");
    assert!(!q.contains("?&"));
    assert!(!q.ends_with('&'));
}

#[test]
fn search_term_is_sent_as_given() {
    let mut l = Listing::new();
    l.search("a&b?".to_string()).simple(true);
    assert_eq!(l.build_query(), "projects?search=a&b?&simple=true");
}

#[test]
fn each_visibility_value() {
    let cases = [
        (ListingVisibility::Public, "projects?visibility=public"),
        (ListingVisibility::Internal, "projects?visibility=internal"),
        (ListingVisibility::Private, "projects?visibility=private"),
    ];
    for (v, expected) in cases {
        let mut l = Listing::new();
        l.visibility(v);
        assert_eq!(l.build_query(), expected);
    }
}

#[test]
fn each_order_by_value() {
    let cases = [
        (ListingOrderBy::Id, "projects?order_by=id"),
        (ListingOrderBy::Name, "projects?order_by=name"),
        (ListingOrderBy::Path, "projects?order_by=path"),
        (ListingOrderBy::CreatedAt, "projects?order_by=created_at"),
        (ListingOrderBy::UpdatedAt, "projects?order_by=updated_at"),
        (ListingOrderBy::LastActivityAt, "projects?order_by=last_activity_at"),
    ];
    for (o, expected) in cases {
        let mut l = Listing::new();
        l.order_by(o);
        assert_eq!(l.build_query(), expected);
    }
}

#[test]
fn each_sort_value() {
    let mut l = Listing::new();
    l.sort(ListingSort::Asc);
    assert_eq!(l.build_query(), "projects?sort=asc");
    l.sort(ListingSort::Desc);
    assert_eq!(l.build_query(), "projects?sort=desc");
}

#[test]
fn enum_values_as_str() {
    assert_eq!(ListingVisibility::Public.as_str(), "public");
    assert_eq!(ListingOrderBy::CreatedAt.as_str(), "created_at");
    assert_eq!(ListingSort::Desc.as_str(), "desc");
}

#[test]
fn clone_keeps_query() {
    let mut l = Listing::new();
    l.visibility(ListingVisibility::Public).order_by(ListingOrderBy::UpdatedAt);
    let c = l.clone();
    assert_eq!(c.build_query(), l.build_query());
}
