//! Configuration of a project listing and its query string.
use vstd::prelude::*;

use crate::BuildQuery;

verus! {

/// Limit the listing by visibility level.
#[derive(Debug, Copy, Clone, PartialEq, Eq, Structural)]
pub enum ListingVisibility {
    Public,
    Internal,
    Private,
}

/// Field by which the listing is ordered.
#[derive(Debug, Copy, Clone, PartialEq, Eq, Structural)]
pub enum ListingOrderBy {
    Id,
    Name,
    Path,
    CreatedAt,
    UpdatedAt,
    LastActivityAt,
}

/// Direction in which the listing is sorted.
#[derive(Debug, Copy, Clone, PartialEq, Eq, Structural)]
pub enum ListingSort {
    Asc,
    Desc,
}

/// Wire value of a visibility level.
pub open spec fn visibility_value(v: ListingVisibility) -> Seq<char> {
    match v {
        ListingVisibility::Public => "public"@,
        ListingVisibility::Internal => "internal"@,
        ListingVisibility::Private => "private"@,
    }
}

impl ListingVisibility {
    /// The value sent for this visibility level.
    pub fn as_str(&self) -> (r: &'static str)
        ensures
            r@ == visibility_value(*self),
    {
        match self {
            ListingVisibility::Public => "public",
            ListingVisibility::Internal => "internal",
            ListingVisibility::Private => "private",
        }
    }
}


/// Wire value of an ordering field.
pub open spec fn order_by_value(o: ListingOrderBy) -> Seq<char> {
    match o {
        ListingOrderBy::Id => "id"@,
        ListingOrderBy::Name => "name"@,
        ListingOrderBy::Path => "path"@,
        ListingOrderBy::CreatedAt => "created_at"@,
        ListingOrderBy::UpdatedAt => "updated_at"@,
        ListingOrderBy::LastActivityAt => "last_activity_at"@,
    }
}

impl ListingOrderBy {
    /// The value sent for this ordering field.
    pub fn as_str(&self) -> (r: &'static str)
        ensures
            r@ == order_by_value(*self),
    {
        match self {
            ListingOrderBy::Id => "id",
            ListingOrderBy::Name => "name",
            ListingOrderBy::Path => "path",
            ListingOrderBy::CreatedAt => "created_at",
            ListingOrderBy::UpdatedAt => "updated_at",
            ListingOrderBy::LastActivityAt => "last_activity_at",
        }
    }
}

/// Wire value of a sort direction.
pub open spec fn sort_value(s: ListingSort) -> Seq<char> {
    match s {
        ListingSort::Asc => "asc"@,
        ListingSort::Desc => "desc"@,
    }
}

impl ListingSort {
    /// The value sent for this sort direction.
    pub fn as_str(&self) -> (r: &'static str)
        ensures
            r@ == sort_value(*self),
    {
        match self {
            ListingSort::Asc => "asc",
            ListingSort::Desc => "desc",
        }
    }
}

/// Wire value of a boolean flag.
pub open spec fn bool_value(b: bool) -> Seq<char> {
    if b {
        "true"@
    } else {
        "false"@
    }
}

/// The value sent for a boolean flag.
fn bool_str(b: bool) -> (r: &'static str)
    ensures
        r@ == bool_value(b),
{
    if b {
        "true"
    } else {
        "false"
    }
}

/// The abstract content of a [`Listing`]: which filters are set, and to what.
pub struct ListingView {
    pub archived: Option<bool>,
    pub visibility: Option<ListingVisibility>,
    pub order_by: Option<ListingOrderBy>,
    pub sort: Option<ListingSort>,
    /// An empty search term means that no search is requested.
    pub search: Seq<char>,
    pub simple: Option<bool>,
}

/// The pairs `ps`, followed by `pair` when its field is present.
pub open spec fn push_if(ps: Seq<Seq<char>>, present: bool, pair: Seq<char>) -> Seq<Seq<char>> {
    if present {
        ps.push(pair)
    } else {
        ps
    }
}

/// Joins the pairs with `&` between neighbours.
pub open spec fn join_pairs(ps: Seq<Seq<char>>) -> Seq<char>
    decreases ps.len(),
{
    if ps.len() == 0 {
        Seq::empty()
    } else if ps.len() == 1 {
        ps[0]
    } else {
        join_pairs(ps.drop_last()) + "&"@ + ps.last()
    }
}

impl ListingView {
    /// The configuration with no field set.
    pub open spec fn unset() -> ListingView {
        ListingView {
            archived: None,
            visibility: None,
            order_by: None,
            sort: None,
            search: Seq::empty(),
            simple: None,
        }
    }

    /// The `key=value` pairs that are sent, in the fixed order of the fields.
    pub open spec fn pairs(self) -> Seq<Seq<char>> {
        let ps = Seq::empty();
        let ps = push_if(ps, self.archived is Some, "archived="@ + bool_value(self.archived->0));
        let ps = push_if(
            ps,
            self.visibility is Some,
            "visibility="@ + visibility_value(self.visibility->0),
        );
        let ps = push_if(
            ps,
            self.order_by is Some,
            "order_by="@ + order_by_value(self.order_by->0),
        );
        let ps = push_if(ps, self.sort is Some, "sort="@ + sort_value(self.sort->0));
        let ps = push_if(ps, self.search.len() > 0, "search="@ + self.search);
        let ps = push_if(ps, self.simple is Some, "simple="@ + bool_value(self.simple->0));
        ps
    }

    /// The resource path, followed by `?` and the joined pairs when any field is set.
    pub open spec fn query(self) -> Seq<char> {
        if self.pairs().len() == 0 {
            "projects"@
        } else {
            "projects"@ + "?"@ + join_pairs(self.pairs())
        }
    }
}

/// Filters for listing projects, set one by one and turned into a query string.
#[derive(Debug, Clone)]
pub struct Listing {
    /// Limit by archived status.
    archived: Option<bool>,
    /// Limit by visibility.
    visibility: Option<ListingVisibility>,
    /// Order of the results; the server orders by creation date when unset.
    order_by: Option<ListingOrderBy>,
    /// Direction of the order; the server sorts descending when unset.
    sort: Option<ListingSort>,
    /// Return the projects matching this term; empty means no search.
    search: String,
    /// Return only the ID, URL, name and path of each project.
    simple: Option<bool>,
}

impl View for Listing {
    type V = ListingView;

    closed spec fn view(&self) -> ListingView {
        ListingView {
            archived: self.archived,
            visibility: self.visibility,
            order_by: self.order_by,
            sort: self.sort,
            search: self.search@,
            simple: self.simple,
        }
    }
}

impl Listing {
    /// A listing with no filter set.
    pub fn new() -> (r: Listing)
        ensures
            r@ == ListingView::unset(),
    {
        Listing {
            archived: None,
            visibility: None,
            order_by: None,
            sort: None,
            search: String::new(),
            simple: None,
        }
    }

    /// Limits the listing by archived status.
    pub fn archived(&mut self, archived: bool) -> (r: &mut Listing)
        ensures
            (*r)@ == (ListingView { archived: Some(archived), ..old(self)@ }),
            *final(self) == *final(r),
    {
        self.archived = Some(archived);
        self
    }

    /// Limits the listing by visibility level.
    pub fn visibility(&mut self, visibility: ListingVisibility) -> (r: &mut Listing)
        ensures
            (*r)@ == (ListingView { visibility: Some(visibility), ..old(self)@ }),
            *final(self) == *final(r),
    {
        self.visibility = Some(visibility);
        self
    }

    /// Orders the listing by the given field.
    pub fn order_by(&mut self, order_by: ListingOrderBy) -> (r: &mut Listing)
        ensures
            (*r)@ == (ListingView { order_by: Some(order_by), ..old(self)@ }),
            *final(self) == *final(r),
    {
        self.order_by = Some(order_by);
        self
    }

    /// Sorts the listing in the given direction.
    pub fn sort(&mut self, sort: ListingSort) -> (r: &mut Listing)
        ensures
            (*r)@ == (ListingView { sort: Some(sort), ..old(self)@ }),
            *final(self) == *final(r),
    {
        self.sort = Some(sort);
        self
    }

    /// Searches for projects matching the term; an empty term clears the search.
    pub fn search(&mut self, search: String) -> (r: &mut Listing)
        ensures
            (*r)@ == (ListingView { search: search@, ..old(self)@ }),
            *final(self) == *final(r),
    {
        self.search = search;
        self
    }

    /// Asks for the short form of each project.
    pub fn simple(&mut self, simple: bool) -> (r: &mut Listing)
        ensures
            (*r)@ == (ListingView { simple: Some(simple), ..old(self)@ }),
            *final(self) == *final(r),
    {
        self.simple = Some(simple);
        self
    }
}

impl Default for Listing {
    /// The same as [`Listing::new`]: no filter set.
    fn default() -> (r: Listing)
        ensures
            r@ == ListingView::unset(),
    {
        Listing::new()
    }
}

/// Appends one `key=value` pair to the pairs joined so far.
fn append_pair(
    joined: &mut String,
    started: bool,
    key: &str,
    value: &str,
    Ghost(done): Ghost<Seq<Seq<char>>>,
)
    requires
        old(joined)@ == join_pairs(done),
        started == (done.len() > 0),
    ensures
        final(joined)@ == join_pairs(done.push(key@ + value@)),
{
    if started {
        joined.append("&");
    }
    joined.append(key);
    joined.append(value);
    proof {
        assert(done.push(key@ + value@).drop_last() =~= done);
    }
}

impl BuildQuery for Listing {
    /// `projects`, followed by `?` and the `&`-joined pairs of the set fields when there are any.
    fn build_query(&self) -> (r: String)
        ensures
            r@ == self@.query(),
    {
        let ghost v = self@;
        let mut joined = String::new();
        let mut started = false;
        let ghost mut done: Seq<Seq<char>> = Seq::empty();
        if let Some(archived) = self.archived {
            append_pair(&mut joined, started, "archived=", bool_str(archived), Ghost(done));
            started = true;
        }
        proof {
            done = push_if(done, v.archived is Some, "archived="@ + bool_value(v.archived->0));
        }
        if let Some(visibility) = self.visibility {
            append_pair(&mut joined, started, "visibility=", visibility.as_str(), Ghost(done));
            started = true;
        }
        proof {
            done =
            push_if(done, v.visibility is Some, "visibility="@ + visibility_value(v.visibility->0));
        }
        if let Some(order_by) = self.order_by {
            append_pair(&mut joined, started, "order_by=", order_by.as_str(), Ghost(done));
            started = true;
        }
        proof {
            done = push_if(done, v.order_by is Some, "order_by="@ + order_by_value(v.order_by->0));
        }
        if let Some(sort) = self.sort {
            append_pair(&mut joined, started, "sort=", sort.as_str(), Ghost(done));
            started = true;
        }
        proof {
            done = push_if(done, v.sort is Some, "sort="@ + sort_value(v.sort->0));
        }
        if !self.search.as_str().is_empty() {
            append_pair(&mut joined, started, "search=", self.search.as_str(), Ghost(done));
            started = true;
        }
        proof {
            done = push_if(done, v.search.len() > 0, "search="@ + v.search);
        }
        if let Some(simple) = self.simple {
            append_pair(&mut joined, started, "simple=", bool_str(simple), Ghost(done));
            started = true;
        }
        proof {
            done = push_if(done, v.simple is Some, "simple="@ + bool_value(v.simple->0));
        }
        let mut query = String::from_str("projects");
        if started {
            query.append("?");
            query.append(joined.as_str());
        }
        query
    }
}


/// `s` holds an `&` right after a `?`.
pub open spec fn amp_after_question(s: Seq<char>) -> bool {
    exists|i: int| 0 <= i && i + 1 < s.len() && #[trigger] s[i] == '?' && s[i + 1] == '&'
}

/// `s` ends with an `&`.
pub open spec fn ends_with_amp(s: Seq<char>) -> bool {
    s.len() > 0 && s.last() == '&'
}

/// No character of `s` is a `?` or an `&`.
spec fn free_of_separators(s: Seq<char>) -> bool {
    forall|i: int| 0 <= i < s.len() ==> s[i] != '?' && s[i] != '&'
}

/// A pair that can stand between separators: not empty, not starting with `&`, no `?&` inside.
spec fn joinable(p: Seq<char>) -> bool {
    p.len() > 0 && p[0] != '&' && !amp_after_question(p)
}

/// Every pair is joinable, and none but the last ends with `?`.
spec fn well_joinable(ps: Seq<Seq<char>>) -> bool {
    &&& forall|k: int| 0 <= k < ps.len() ==> joinable(#[trigger] ps[k])
    &&& forall|k: int| 0 <= k < ps.len() - 1 ==> (#[trigger] ps[k]).last() != '?'
}

proof fn lemma_concat_no_amp(a: Seq<char>, b: Seq<char>)
    requires
        !amp_after_question(a),
        !amp_after_question(b),
        a.len() > 0 && b.len() > 0 ==> a.last() != '?' || b[0] != '&',
    ensures
        !amp_after_question(a + b),
{
    let s = a + b;
    if amp_after_question(s) {
        let i = choose|i: int| 0 <= i && i + 1 < s.len() && #[trigger] s[i] == '?' && s[i + 1] == '&';
        if i + 1 < a.len() {
            assert(a[i] == '?' && a[i + 1] == '&');
        } else if i >= a.len() {
            let j = i - a.len();
            assert(b[j] == '?' && b[j + 1] == '&');
        } else {
            assert(a.last() == s[i]);
            assert(b[0] == s[i + 1]);
        }
    }
}

proof fn lemma_free_concat(a: Seq<char>, b: Seq<char>)
    requires
        free_of_separators(a),
        free_of_separators(b),
    ensures
        free_of_separators(a + b),
{
    assert forall|i: int| 0 <= i < (a + b).len() implies (a + b)[i] != '?' && (a + b)[i] != '&' by {
        if i >= a.len() {
            assert((a + b)[i] == b[i - a.len()]);
        }
    }
}

proof fn lemma_free_no_amp(s: Seq<char>)
    requires
        free_of_separators(s),
    ensures
        !amp_after_question(s),
{
    if amp_after_question(s) {
        let i = choose|i: int| 0 <= i && i + 1 < s.len() && #[trigger] s[i] == '?' && s[i + 1] == '&';
        assert(s[i] != '?');
    }
}

/// A pair of a fixed key and a fixed value is joinable, and ends with neither `?` nor `&`.
proof fn lemma_fixed_pair(key: Seq<char>, value: Seq<char>)
    requires
        free_of_separators(key),
        free_of_separators(value),
        key.len() > 0,
        value.len() > 0,
    ensures
        joinable(key + value),
        (key + value).last() != '?',
        (key + value).last() != '&',
{
    lemma_free_concat(key, value);
    lemma_free_no_amp(key + value);
    assert((key + value)[0] == key[0]);
    assert((key + value).last() == (key + value)[(key + value).len() - 1]);
}

/// The search pair is joinable, and ends as the search term does.
proof fn lemma_search_pair(search: Seq<char>)
    requires
        search.len() > 0,
        !amp_after_question(search),
    ensures
        joinable("search="@ + search),
        ("search="@ + search).last() == search.last(),
{
    reveal_strlit("search=");
    let key = "search="@;
    lemma_free_no_amp(key);
    lemma_concat_no_amp(key, search);
    assert((key + search)[0] == key[0]);
    assert((key + search).last() == search.last());
}

proof fn lemma_words_free()
    ensures
        free_of_separators("archived="@) && "archived="@.len() > 0,
        free_of_separators("visibility="@) && "visibility="@.len() > 0,
        free_of_separators("order_by="@) && "order_by="@.len() > 0,
        free_of_separators("sort="@) && "sort="@.len() > 0,
        free_of_separators("simple="@) && "simple="@.len() > 0,
        forall|b: bool| free_of_separators(#[trigger] bool_value(b)) && bool_value(b).len() > 0,
        forall|v: ListingVisibility|
            free_of_separators(#[trigger] visibility_value(v)) && visibility_value(v).len() > 0,
        forall|o: ListingOrderBy|
            free_of_separators(#[trigger] order_by_value(o)) && order_by_value(o).len() > 0,
        forall|s: ListingSort| free_of_separators(#[trigger] sort_value(s)) && sort_value(s).len() > 0,
{
    reveal_strlit("archived=");
    reveal_strlit("visibility=");
    reveal_strlit("order_by=");
    reveal_strlit("sort=");
    reveal_strlit("simple=");
    reveal_strlit("true");
    reveal_strlit("false");
    reveal_strlit("public");
    reveal_strlit("internal");
    reveal_strlit("private");
    reveal_strlit("id");
    reveal_strlit("name");
    reveal_strlit("path");
    reveal_strlit("created_at");
    reveal_strlit("updated_at");
    reveal_strlit("last_activity_at");
    reveal_strlit("asc");
    reveal_strlit("desc");
}

proof fn lemma_push_joinable(ps: Seq<Seq<char>>, p: Seq<char>)
    requires
        well_joinable(ps),
        joinable(p),
        ps.len() > 0 ==> ps.last().last() != '?',
    ensures
        well_joinable(ps.push(p)),
{
    let qs = ps.push(p);
    assert forall|k: int| 0 <= k < qs.len() implies joinable(#[trigger] qs[k]) by {
        if k < ps.len() {
            assert(qs[k] == ps[k]);
        }
    }
    assert forall|k: int| 0 <= k < qs.len() - 1 implies (#[trigger] qs[k]).last() != '?' by {
        assert(qs[k] == ps[k]);
    }
}

/// Joining well-joinable pairs introduces no `?&`, and keeps the first and last characters.
proof fn lemma_join_no_amp(ps: Seq<Seq<char>>)
    requires
        ps.len() > 0,
        well_joinable(ps),
    ensures
        !amp_after_question(join_pairs(ps)),
        join_pairs(ps).len() > 0,
        join_pairs(ps)[0] == ps[0][0],
        join_pairs(ps).last() == ps.last().last(),
    decreases ps.len(),
{
    assert(joinable(ps[0]));
    assert(joinable(ps.last()));
    if ps.len() > 1 {
        let init = ps.drop_last();
        assert(well_joinable(init)) by {
            assert forall|k: int| 0 <= k < init.len() implies joinable(#[trigger] init[k]) by {
                assert(init[k] == ps[k]);
            }
            assert forall|k: int| 0 <= k < init.len() - 1 implies (#[trigger] init[k]).last()
                != '?' by {
                assert(init[k] == ps[k]);
            }
        }
        lemma_join_no_amp(init);
        assert(init.last() == ps[ps.len() - 2]);
        let j = join_pairs(init);
        let amp = "&"@;
        reveal_strlit("&");
        assert(amp.len() == 1);
        lemma_concat_no_amp(j, amp);
        lemma_concat_no_amp(j + amp, ps.last());
        assert((j + amp).last() == '&');
        assert((j + amp + ps.last())[0] == j[0]);
        assert(init[0] == ps[0]);
        let s = j + amp + ps.last();
        assert(s.last() == s[s.len() - 1]);
        assert(s[s.len() - 1] == ps.last()[ps.last().len() - 1]);
    }
}

/// The query string never holds an `&` right after the `?`, nor ends with an `&`,
/// unless the search term itself brings one of those about: holding `?&`, ending with `?`
/// before the `simple` pair, or ending with `&` as the last pair.
pub proof fn lemma_query_separators(v: ListingView)
    requires
        !amp_after_question(v.search),
        v.simple is Some && v.search.len() > 0 ==> v.search.last() != '?',
        v.simple is None ==> !ends_with_amp(v.search),
    ensures
        !amp_after_question(v.query()),
        !ends_with_amp(v.query()),
{
    lemma_words_free();
    reveal_strlit("projects");
    reveal_strlit("?");
    let ps0 = Seq::<Seq<char>>::empty();
    let ps1 = push_if(ps0, v.archived is Some, "archived="@ + bool_value(v.archived->0));
    if v.archived is Some {
        lemma_fixed_pair("archived="@, bool_value(v.archived->0));
        lemma_push_joinable(ps0, "archived="@ + bool_value(v.archived->0));
    }
    let ps2 = push_if(ps1, v.visibility is Some, "visibility="@ + visibility_value(v.visibility->0));
    if v.visibility is Some {
        lemma_fixed_pair("visibility="@, visibility_value(v.visibility->0));
        lemma_push_joinable(ps1, "visibility="@ + visibility_value(v.visibility->0));
    }
    let ps3 = push_if(ps2, v.order_by is Some, "order_by="@ + order_by_value(v.order_by->0));
    if v.order_by is Some {
        lemma_fixed_pair("order_by="@, order_by_value(v.order_by->0));
        lemma_push_joinable(ps2, "order_by="@ + order_by_value(v.order_by->0));
    }
    let ps4 = push_if(ps3, v.sort is Some, "sort="@ + sort_value(v.sort->0));
    if v.sort is Some {
        lemma_fixed_pair("sort="@, sort_value(v.sort->0));
        lemma_push_joinable(ps3, "sort="@ + sort_value(v.sort->0));
    }
    let ps5 = push_if(ps4, v.search.len() > 0, "search="@ + v.search);
    if v.search.len() > 0 {
        lemma_search_pair(v.search);
        lemma_push_joinable(ps4, "search="@ + v.search);
    }
    let ps6 = push_if(ps5, v.simple is Some, "simple="@ + bool_value(v.simple->0));
    if v.simple is Some {
        lemma_fixed_pair("simple="@, bool_value(v.simple->0));
        lemma_push_joinable(ps5, "simple="@ + bool_value(v.simple->0));
    }
    assert(ps6 == v.pairs());
    if ps6.len() > 0 {
        lemma_join_no_amp(ps6);
        let head = "projects"@ + "?"@;
        lemma_free_no_amp("projects"@);
        assert("?"@.len() == 1);
        lemma_concat_no_amp("projects"@, "?"@);
        assert(head.last() == '?');
        lemma_concat_no_amp(head, join_pairs(ps6));
        let q = head + join_pairs(ps6);
        assert(q.last() == q[q.len() - 1]);
        assert(q[q.len() - 1] == join_pairs(ps6)[join_pairs(ps6).len() - 1]);
    } else {
        lemma_free_no_amp("projects"@);
    }
}

/// The query string is a function of the configuration alone: building it twice from the
/// same configuration gives the same string.
pub proof fn lemma_query_deterministic(a: ListingView, b: ListingView)
    requires
        a == b,
    ensures
        a.query() == b.query(),
{
}

/// With every field set, the query string is `projects?` followed by all six pairs, joined by
/// `&`, in the order archived, visibility, order_by, sort, search, simple.
pub proof fn lemma_all_fields_query(v: ListingView)
    requires
        v.archived is Some,
        v.visibility is Some,
        v.order_by is Some,
        v.sort is Some,
        v.search.len() > 0,
        v.simple is Some,
    ensures
        v.query() == "projects"@ + "?"@ + ("archived="@ + bool_value(v.archived->0)) + "&"@ + (
        "visibility="@ + visibility_value(v.visibility->0)) + "&"@ + ("order_by="@
            + order_by_value(v.order_by->0)) + "&"@ + ("sort="@ + sort_value(v.sort->0)) + "&"@
            + ("search="@ + v.search) + "&"@ + ("simple="@ + bool_value(v.simple->0)),
{
    let ps = v.pairs();
    reveal_with_fuel(join_pairs, 7);
    assert(ps =~= seq![
        "archived="@ + bool_value(v.archived->0),
        "visibility="@ + visibility_value(v.visibility->0),
        "order_by="@ + order_by_value(v.order_by->0),
        "sort="@ + sort_value(v.sort->0),
        "search="@ + v.search,
        "simple="@ + bool_value(v.simple->0),
    ]);
}

} // verus!
