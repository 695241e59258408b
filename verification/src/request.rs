//! The request builder: a mutable set of query intentions for the listing
//! endpoint, each setter validating its argument, and a serializer that
//! turns the accumulated options into the canonical query URL.

use vstd::prelude::*;
use vstd::string::StringExecFns;
use crate::encode::enc;
use crate::encode::encode_into;
use crate::text::spec_dec;
use crate::text::str_to_chars;
use crate::text::u64_to_string;
use crate::DEFAULT_LIMIT;

verus! {

/// A media quality filter tag.
#[derive(Clone, Copy, Debug, PartialEq, Eq, Structural)]
pub enum Quality {
    Quality720p,
    Quality1080p,
    Quality2160p,
    Quality3D,
}

/// A sortable criterion of the listing.
#[derive(Clone, Copy, Debug, PartialEq, Eq, Structural)]
pub enum Sort {
    Title,
    Year,
    Rating,
    Peers,
    Seeds,
    DownloadCount,
    LikeCount,
    DateAdded,
}

/// Direction of the requested sort.
#[derive(Clone, Copy, Debug, PartialEq, Eq, Structural)]
pub enum Order {
    Asc,
    Desc,
}

pub open spec fn quality_token(q: Quality) -> Seq<char> {
    match q {
        Quality::Quality720p => "720p"@,
        Quality::Quality1080p => "1080p"@,
        Quality::Quality2160p => "2160p"@,
        Quality::Quality3D => "3D"@,
    }
}

pub open spec fn sort_token(s: Sort) -> Seq<char> {
    match s {
        Sort::Title => "title"@,
        Sort::Year => "year"@,
        Sort::Rating => "rating"@,
        Sort::Peers => "peers"@,
        Sort::Seeds => "seeds"@,
        Sort::DownloadCount => "download_count"@,
        Sort::LikeCount => "like_count"@,
        Sort::DateAdded => "date_added"@,
    }
}

pub open spec fn order_token(o: Order) -> Seq<char> {
    match o {
        Order::Asc => "asc"@,
        Order::Desc => "desc"@,
    }
}

impl Quality {
    /// The canonical token this tag serializes to.
    pub fn token(&self) -> (r: &str)
        ensures
            r@ == quality_token(*self),
    {
        match self {
            Quality::Quality720p => "720p",
            Quality::Quality1080p => "1080p",
            Quality::Quality2160p => "2160p",
            Quality::Quality3D => "3D",
        }
    }

    /// The tag whose canonical token is `s`, if any.
    pub fn from_str(s: &str) -> (r: Option<Quality>)
        ensures
            r == spec_quality_from(s@),
    {
        if crate::text::str_eq(s, "720p") {
            Some(Quality::Quality720p)
        } else if crate::text::str_eq(s, "1080p") {
            Some(Quality::Quality1080p)
        } else if crate::text::str_eq(s, "2160p") {
            Some(Quality::Quality2160p)
        } else if crate::text::str_eq(s, "3D") {
            Some(Quality::Quality3D)
        } else {
            None
        }
    }
}

pub open spec fn spec_quality_from(s: Seq<char>) -> Option<Quality> {
    if s == quality_token(Quality::Quality720p) {
        Some(Quality::Quality720p)
    } else if s == quality_token(Quality::Quality1080p) {
        Some(Quality::Quality1080p)
    } else if s == quality_token(Quality::Quality2160p) {
        Some(Quality::Quality2160p)
    } else if s == quality_token(Quality::Quality3D) {
        Some(Quality::Quality3D)
    } else {
        None
    }
}

impl Sort {
    /// The canonical token this criterion serializes to.
    pub fn token(&self) -> (r: &str)
        ensures
            r@ == sort_token(*self),
    {
        match self {
            Sort::Title => "title",
            Sort::Year => "year",
            Sort::Rating => "rating",
            Sort::Peers => "peers",
            Sort::Seeds => "seeds",
            Sort::DownloadCount => "download_count",
            Sort::LikeCount => "like_count",
            Sort::DateAdded => "date_added",
        }
    }

    /// The criterion whose canonical token is `s`, if any.
    pub fn from_str(s: &str) -> (r: Option<Sort>)
        ensures
            r == spec_sort_from(s@),
    {
        if crate::text::str_eq(s, "title") {
            Some(Sort::Title)
        } else if crate::text::str_eq(s, "year") {
            Some(Sort::Year)
        } else if crate::text::str_eq(s, "rating") {
            Some(Sort::Rating)
        } else if crate::text::str_eq(s, "peers") {
            Some(Sort::Peers)
        } else if crate::text::str_eq(s, "seeds") {
            Some(Sort::Seeds)
        } else if crate::text::str_eq(s, "download_count") {
            Some(Sort::DownloadCount)
        } else if crate::text::str_eq(s, "like_count") {
            Some(Sort::LikeCount)
        } else if crate::text::str_eq(s, "date_added") {
            Some(Sort::DateAdded)
        } else {
            None
        }
    }
}

pub open spec fn spec_sort_from(s: Seq<char>) -> Option<Sort> {
    if s == sort_token(Sort::Title) {
        Some(Sort::Title)
    } else if s == sort_token(Sort::Year) {
        Some(Sort::Year)
    } else if s == sort_token(Sort::Rating) {
        Some(Sort::Rating)
    } else if s == sort_token(Sort::Peers) {
        Some(Sort::Peers)
    } else if s == sort_token(Sort::Seeds) {
        Some(Sort::Seeds)
    } else if s == sort_token(Sort::DownloadCount) {
        Some(Sort::DownloadCount)
    } else if s == sort_token(Sort::LikeCount) {
        Some(Sort::LikeCount)
    } else if s == sort_token(Sort::DateAdded) {
        Some(Sort::DateAdded)
    } else {
        None
    }
}

impl Order {
    /// The canonical token this direction serializes to.
    pub fn token(&self) -> (r: &str)
        ensures
            r@ == order_token(*self),
    {
        match self {
            Order::Asc => "asc",
            Order::Desc => "desc",
        }
    }

    /// The direction whose canonical token is `s`, if any.
    pub fn from_str(s: &str) -> (r: Option<Order>)
        ensures
            r == spec_order_from(s@),
    {
        if crate::text::str_eq(s, "asc") {
            Some(Order::Asc)
        } else if crate::text::str_eq(s, "desc") {
            Some(Order::Desc)
        } else {
            None
        }
    }
}

pub open spec fn spec_order_from(s: Seq<char>) -> Option<Order> {
    if s == order_token(Order::Asc) {
        Some(Order::Asc)
    } else if s == order_token(Order::Desc) {
        Some(Order::Desc)
    } else {
        None
    }
}

/// A rejected setter argument, naming the offending field.
#[derive(Clone, Copy, Debug, PartialEq, Eq, Structural)]
pub enum ValidationError {
    Limit,
    Page,
    MinimumRating,
    Mirror,
}

/// The abstract content of a request builder: which options are set,
/// and to what.
pub ghost struct ListRequestV {
    pub limit: Option<u8>,
    pub page: Option<u32>,
    pub minimum_rating: Option<u8>,
    pub quality: Option<Quality>,
    pub query_term: Option<Seq<char>>,
    pub genre: Option<Seq<char>>,
    pub sort_by: Option<Sort>,
    pub order_by: Option<Order>,
    pub rt: bool,
    pub mirror: Option<Seq<char>>,
}

/// The mutable set of query intentions before serialization. Every field
/// is independently optional; an empty builder serializes to the bare
/// listing endpoint with only the default page size.
#[derive(Debug)]
pub struct ListRequest {
    limit: Option<u8>,
    page: Option<u32>,
    minimum_rating: Option<u8>,
    quality: Option<Quality>,
    query_term: Option<String>,
    genre: Option<String>,
    sort_by: Option<Sort>,
    order_by: Option<Order>,
    wirth_rt_ratings: bool,
    mirror: Option<String>,
}

impl View for ListRequest {
    type V = ListRequestV;

    closed spec fn view(&self) -> ListRequestV {
        ListRequestV {
            limit: self.limit,
            page: self.page,
            minimum_rating: self.minimum_rating,
            quality: self.quality,
            query_term: self.query_term.deep_view(),
            genre: self.genre.deep_view(),
            sort_by: self.sort_by,
            order_by: self.order_by,
            rt: self.wirth_rt_ratings,
            mirror: self.mirror.deep_view(),
        }
    }
}

/// The builder that no setter has touched.
pub open spec fn empty_request() -> ListRequestV {
    ListRequestV {
        limit: None,
        page: None,
        minimum_rating: None,
        quality: None,
        query_term: None,
        genre: None,
        sort_by: None,
        order_by: None,
        rt: false,
        mirror: None,
    }
}

/// Host of the listing endpoint when no mirror is chosen.
pub open spec fn default_host() -> Seq<char> {
    "yts.mx"@
}

/// What the URL parser makes of a candidate host component: its normalized
/// form when the candidate is a syntactically valid host, nothing otherwise.
pub uninterp spec fn host_norm(s: Seq<char>) -> Option<Seq<char>>;

/// Relies on `url::Url::set_host` and `url::Url::host_str`: a candidate
/// host is parsed and normalized, or rejected; the outcome depends on the
/// candidate alone.
#[verifier::external_body]
fn normalize_host(s: &str) -> (r: Option<String>)
    ensures
        r.deep_view() == host_norm(s@),
{
    let mut u = match url::Url::parse("https://example.com") {
        Ok(u) => u,
        Err(_) => return None,
    };
    match u.set_host(Some(s)) {
        Ok(()) => u.host_str().map(|h| h.to_string()),
        Err(_) => None,
    }
}

pub open spec fn host_of(v: ListRequestV) -> Seq<char> {
    match v.mirror {
        Some(h) => h,
        None => default_host(),
    }
}

/// The effective page size: the chosen one, or the endpoint default.
pub open spec fn limit_of(v: ListRequestV) -> u8 {
    match v.limit {
        Some(l) => l,
        None => DEFAULT_LIMIT,
    }
}

pub open spec fn page_part(v: ListRequestV) -> Seq<char> {
    match v.page {
        Some(p) => "&page="@ + spec_dec(p as nat),
        None => Seq::empty(),
    }
}

pub open spec fn quality_part(v: ListRequestV) -> Seq<char> {
    match v.quality {
        Some(q) => "&quality="@ + quality_token(q),
        None => Seq::empty(),
    }
}

pub open spec fn rating_part(v: ListRequestV) -> Seq<char> {
    match v.minimum_rating {
        Some(r) => "&minimum_rating="@ + spec_dec(r as nat),
        None => Seq::empty(),
    }
}

pub open spec fn term_part(v: ListRequestV) -> Seq<char> {
    match v.query_term {
        Some(t) => "&query_term="@ + enc(t),
        None => Seq::empty(),
    }
}

pub open spec fn genre_part(v: ListRequestV) -> Seq<char> {
    match v.genre {
        Some(g) => "&genre="@ + enc(g),
        None => Seq::empty(),
    }
}

pub open spec fn sort_part(v: ListRequestV) -> Seq<char> {
    match v.sort_by {
        Some(s) => "&sort_by="@ + sort_token(s),
        None => Seq::empty(),
    }
}

pub open spec fn order_part(v: ListRequestV) -> Seq<char> {
    match v.order_by {
        Some(o) => "&order_by="@ + order_token(o),
        None => Seq::empty(),
    }
}

pub open spec fn rt_part(v: ListRequestV) -> Seq<char> {
    if v.rt {
        "&with_rt_ratings"@
    } else {
        Seq::empty()
    }
}

/// The query string after the `?`: the page-size parameter, then one piece
/// per set option, in serialization order.
pub open spec fn query_of(v: ListRequestV) -> Seq<char> {
    "limit="@ + spec_dec(limit_of(v) as nat) + page_part(v) + quality_part(v) + rating_part(v)
        + term_part(v) + genre_part(v) + sort_part(v) + order_part(v) + rt_part(v)
}

/// The canonical URL a builder serializes to: scheme, host, path, then the
/// query string.
pub open spec fn spec_url(v: ListRequestV) -> Seq<char> {
    "https://"@ + host_of(v) + "/api/v2/list_movies.json"@ + "?"@ + "limit="@ + spec_dec(
        limit_of(v) as nat,
    ) + page_part(v) + quality_part(v) + rating_part(v) + term_part(v) + genre_part(v) + sort_part(
        v,
    ) + order_part(v) + rt_part(v)
}

/// The URL is the endpoint address followed by `?` and the query string.
pub proof fn lemma_url_shape(v: ListRequestV)
    ensures
        spec_url(v) == "https://"@ + host_of(v) + "/api/v2/list_movies.json"@ + "?"@ + query_of(v),
{
    lemma_assoc_tail(
        "https://"@ + host_of(v) + "/api/v2/list_movies.json"@ + "?"@,
        "limit="@,
        spec_dec(limit_of(v) as nat),
        page_part(v),
        quality_part(v),
        rating_part(v),
        term_part(v),
        genre_part(v),
        sort_part(v),
        order_part(v),
        rt_part(v),
    );
}

impl ListRequest {
    /// A builder with nothing set.
    pub fn new() -> (r: ListRequest)
        ensures
            r@ == empty_request(),
    {
        ListRequest {
            limit: None,
            page: None,
            minimum_rating: None,
            quality: None,
            query_term: None,
            genre: None,
            sort_by: None,
            order_by: None,
            wirth_rt_ratings: false,
            mirror: None,
        }
    }

    /// Chooses the page size; anything outside 1 to 50 is rejected and
    /// leaves the builder untouched.
    pub fn limit(&mut self, limit: u8) -> (r: Result<(), ValidationError>)
        ensures
            1 <= limit <= 50 ==> r == Ok::<(), ValidationError>(()) && final(self)@ == (
            ListRequestV { limit: Some(limit), ..old(self)@ }),
            !(1 <= limit <= 50) ==> r == Err::<(), ValidationError>(ValidationError::Limit)
                && final(self)@ == old(self)@,
    {
        if 1 <= limit && limit <= 50 {
            self.limit = Some(limit);
            Ok(())
        } else {
            Err(ValidationError::Limit)
        }
    }

    /// Chooses the page; zero is rejected and leaves the builder untouched.
    pub fn page(&mut self, page: u32) -> (r: Result<(), ValidationError>)
        ensures
            page >= 1 ==> r == Ok::<(), ValidationError>(()) && final(self)@ == (ListRequestV {
                page: Some(page),
                ..old(self)@
            }),
            page == 0 ==> r == Err::<(), ValidationError>(ValidationError::Page) && final(self)@
                == old(self)@,
    {
        if page >= 1 {
            self.page = Some(page);
            Ok(())
        } else {
            Err(ValidationError::Page)
        }
    }

    /// Chooses the minimum rating filter; anything outside 1 to 9 is
    /// rejected and leaves the builder untouched.
    pub fn rating(&mut self, rating: u8) -> (r: Result<(), ValidationError>)
        ensures
            1 <= rating <= 9 ==> r == Ok::<(), ValidationError>(()) && final(self)@ == (
            ListRequestV { minimum_rating: Some(rating), ..old(self)@ }),
            !(1 <= rating <= 9) ==> r == Err::<(), ValidationError>(ValidationError::MinimumRating)
                && final(self)@ == old(self)@,
    {
        if 1 <= rating && rating <= 9 {
            self.minimum_rating = Some(rating);
            Ok(())
        } else {
            Err(ValidationError::MinimumRating)
        }
    }

    /// Chooses the quality filter.
    pub fn quality(&mut self, quality: Quality)
        ensures
            final(self)@ == (ListRequestV { quality: Some(quality), ..old(self)@ }),
    {
        self.quality = Some(quality);
    }

    /// Chooses the free-text search term.
    pub fn query_term(&mut self, query_term: String)
        ensures
            final(self)@ == (ListRequestV { query_term: Some(query_term@), ..old(self)@ }),
    {
        self.query_term = Some(query_term);
    }

    /// Chooses the genre filter.
    pub fn genre(&mut self, genre: String)
        ensures
            final(self)@ == (ListRequestV { genre: Some(genre@), ..old(self)@ }),
    {
        self.genre = Some(genre);
    }

    /// Chooses the sort criterion.
    pub fn sort_by(&mut self, sort_by: Sort)
        ensures
            final(self)@ == (ListRequestV { sort_by: Some(sort_by), ..old(self)@ }),
    {
        self.sort_by = Some(sort_by);
    }

    /// Chooses the sort direction.
    pub fn order_by(&mut self, order_by: Order)
        ensures
            final(self)@ == (ListRequestV { order_by: Some(order_by), ..old(self)@ }),
    {
        self.order_by = Some(order_by);
    }

    /// Switches the rotten-tomatoes presence flag on or off.
    pub fn wirth_rt_ratings(&mut self, wirth_rt_ratings: bool)
        ensures
            final(self)@ == (ListRequestV { rt: wirth_rt_ratings, ..old(self)@ }),
    {
        self.wirth_rt_ratings = wirth_rt_ratings;
    }

    /// Chooses a mirror host in place of the default one. A candidate that
    /// is not a syntactically valid host component is rejected, leaving the
    /// prior state untouched; an accepted one is stored in its normalized
    /// form.
    pub fn mirror(&mut self, mirror: &str) -> (r: Result<(), ValidationError>)
        ensures
            host_norm(mirror@) is Some ==> r == Ok::<(), ValidationError>(()) && final(self)@ == (
            ListRequestV { mirror: Some(host_norm(mirror@)->Some_0), ..old(self)@ }),
            host_norm(mirror@) is None ==> r == Err::<(), ValidationError>(ValidationError::Mirror)
                && final(self)@ == old(self)@,
    {
        match normalize_host(mirror) {
            Some(h) => {
                self.mirror = Some(h);
                Ok(())
            },
            None => Err(ValidationError::Mirror),
        }
    }

    /// Serializes the accumulated options into the canonical query URL.
    #[verifier::rlimit(100)]
    pub fn url(&self) -> (r: String)
        ensures
            r@ == spec_url(self@),
    {
        let ghost v = self@;
        let mut s = String::from_str("https://");
        match &self.mirror {
            Some(m) => {
                s.append(m.as_str());
            },
            None => {
                s.append("yts.mx");
            },
        }
        s.append("/api/v2/list_movies.json");
        s.append("?");
        s.append("limit=");
        let ghost pre_limit = s@;
        let limit: u8 = match self.limit {
            Some(l) => l,
            None => DEFAULT_LIMIT,
        };
        let d = u64_to_string(limit as u64);
        s.append(d.as_str());
        assert(s@ == pre_limit + spec_dec(limit_of(v) as nat));
        let ghost base = s@;
        if let Some(p) = self.page {
            s.append("&page=");
            let d = u64_to_string(p as u64);
            s.append(d.as_str());
            assert(s@ =~= base + page_part(v));
        }
        assert(s@ == base + page_part(v)) by {
            if v.page is None {
                assert(base + page_part(v) =~= base);
            }
        }
        let ghost base = s@;
        if let Some(q) = &self.quality {
            s.append("&quality=");
            s.append(q.token());
            assert(s@ =~= base + quality_part(v));
        }
        assert(s@ == base + quality_part(v)) by {
            if v.quality is None {
                assert(base + quality_part(v) =~= base);
            }
        }
        let ghost base = s@;
        if let Some(m) = self.minimum_rating {
            s.append("&minimum_rating=");
            let d = u64_to_string(m as u64);
            s.append(d.as_str());
            assert(s@ =~= base + rating_part(v));
        }
        assert(s@ == base + rating_part(v)) by {
            if v.minimum_rating is None {
                assert(base + rating_part(v) =~= base);
            }
        }
        let ghost base = s@;
        if let Some(t) = &self.query_term {
            s.append("&query_term=");
            let cs = str_to_chars(t.as_str());
            encode_into(&mut s, &cs);
            assert(s@ =~= base + term_part(v));
        }
        assert(s@ == base + term_part(v)) by {
            if v.query_term is None {
                assert(base + term_part(v) =~= base);
            }
        }
        let ghost base = s@;
        if let Some(g) = &self.genre {
            s.append("&genre=");
            let cs = str_to_chars(g.as_str());
            encode_into(&mut s, &cs);
            assert(s@ =~= base + genre_part(v));
        }
        assert(s@ == base + genre_part(v)) by {
            if v.genre is None {
                assert(base + genre_part(v) =~= base);
            }
        }
        let ghost base = s@;
        if let Some(sb) = &self.sort_by {
            s.append("&sort_by=");
            s.append(sb.token());
            assert(s@ =~= base + sort_part(v));
        }
        assert(s@ == base + sort_part(v)) by {
            if v.sort_by is None {
                assert(base + sort_part(v) =~= base);
            }
        }
        let ghost base = s@;
        if let Some(o) = &self.order_by {
            s.append("&order_by=");
            s.append(o.token());
            assert(s@ =~= base + order_part(v));
        }
        assert(s@ == base + order_part(v)) by {
            if v.order_by is None {
                assert(base + order_part(v) =~= base);
            }
        }
        let ghost base = s@;
        if self.wirth_rt_ratings {
            s.append("&with_rt_ratings");
        }
        assert(s@ == base + rt_part(v)) by {
            if !v.rt {
                assert(base + rt_part(v) =~= base);
            }
        }
        assert(s@ == spec_url(v));
        s
    }
}

/// Pieces separated by single ampersands.
pub open spec fn join_amp(ps: Seq<Seq<char>>) -> Seq<char>
    decreases ps.len(),
{
    if ps.len() == 0 {
        Seq::empty()
    } else if ps.len() == 1 {
        ps.first()
    } else {
        ps.first() + "&"@ + join_amp(ps.drop_first())
    }
}

/// Every piece prefixed by an ampersand.
pub open spec fn amp_all(ps: Seq<Seq<char>>) -> Seq<char>
    decreases ps.len(),
{
    if ps.len() == 0 {
        Seq::empty()
    } else {
        "&"@ + ps.first() + amp_all(ps.drop_first())
    }
}

/// One rendered `key=value` piece per set option, in serialization order;
/// an unset option contributes no piece. The presence flag renders as a
/// bare key.
pub open spec fn rest_pieces(v: ListRequestV) -> Seq<Seq<char>> {
    (match v.page {
        Some(p) => seq!["page="@ + spec_dec(p as nat)],
        None => seq![],
    }) + (match v.quality {
        Some(q) => seq!["quality="@ + quality_token(q)],
        None => seq![],
    }) + (match v.minimum_rating {
        Some(r) => seq!["minimum_rating="@ + spec_dec(r as nat)],
        None => seq![],
    }) + (match v.query_term {
        Some(t) => seq!["query_term="@ + enc(t)],
        None => seq![],
    }) + (match v.genre {
        Some(g) => seq!["genre="@ + enc(g)],
        None => seq![],
    }) + (match v.sort_by {
        Some(s) => seq!["sort_by="@ + sort_token(s)],
        None => seq![],
    }) + (match v.order_by {
        Some(o) => seq!["order_by="@ + order_token(o)],
        None => seq![],
    }) + (if v.rt {
        seq!["with_rt_ratings"@]
    } else {
        seq![]
    })
}

/// All rendered query pieces: the page-size piece, then one per set option.
pub open spec fn url_pieces(v: ListRequestV) -> Seq<Seq<char>> {
    seq!["limit="@ + spec_dec(limit_of(v) as nat)] + rest_pieces(v)
}

proof fn lemma_join_amp_unfold(ps: Seq<Seq<char>>)
    requires
        ps.len() > 0,
    ensures
        join_amp(ps) == ps.first() + amp_all(ps.drop_first()),
    decreases ps.len(),
{
    if ps.len() == 1 {
        assert(ps.first() + amp_all(ps.drop_first()) =~= ps.first());
    } else {
        lemma_join_amp_unfold(ps.drop_first());
        assert(ps.first() + amp_all(ps.drop_first()) =~= ps.first() + "&"@ + join_amp(
            ps.drop_first(),
        ));
    }
}

proof fn lemma_amp_all_concat(a: Seq<Seq<char>>, b: Seq<Seq<char>>)
    ensures
        amp_all(a + b) == amp_all(a) + amp_all(b),
    decreases a.len(),
{
    if a.len() == 0 {
        assert(a + b =~= b);
        assert(amp_all(a) + amp_all(b) =~= amp_all(b));
    } else {
        assert((a + b).drop_first() =~= a.drop_first() + b);
        lemma_amp_all_concat(a.drop_first(), b);
        assert(amp_all(a) + amp_all(b) =~= "&"@ + a.first() + amp_all(a.drop_first()) + amp_all(b));
        assert(amp_all(a + b) =~= "&"@ + a.first() + amp_all(a.drop_first()) + amp_all(b));
    }
}

proof fn lemma_amp_all_single(p: Seq<char>)
    ensures
        amp_all(seq![p]) == "&"@ + p,
{
    let ps = seq![p];
    assert(ps.len() == 1);
    assert(ps.first() == p);
    assert(ps.drop_first() =~= Seq::<Seq<char>>::empty());
    assert(amp_all(Seq::<Seq<char>>::empty()) == Seq::<char>::empty());
    assert(amp_all(ps) == "&"@ + p + Seq::<char>::empty());
    assert("&"@ + p + Seq::<char>::empty() =~= "&"@ + p);
}

proof fn lemma_amp_page(v: ListRequestV)
    ensures
        amp_all(
            match v.page {
                Some(p) => seq!["page="@ + spec_dec(p as nat)],
                None => seq![],
            },
        ) == page_part(v),
{
    match v.page {
        Some(p) => {
            lemma_amp_all_single("page="@ + spec_dec(p as nat));
            reveal_strlit("&page=");
            reveal_strlit("&");
            reveal_strlit("page=");
            assert("&page="@ + spec_dec(p as nat) =~= "&"@ + ("page="@ + spec_dec(p as nat)));
        },
        None => {
            assert(amp_all(Seq::<Seq<char>>::empty()) == Seq::<char>::empty());
        },
    }
}

proof fn lemma_amp_quality(v: ListRequestV)
    ensures
        amp_all(
            match v.quality {
                Some(q) => seq!["quality="@ + quality_token(q)],
                None => seq![],
            },
        ) == quality_part(v),
{
    match v.quality {
        Some(q) => {
            lemma_amp_all_single("quality="@ + quality_token(q));
            reveal_strlit("&quality=");
            reveal_strlit("&");
            reveal_strlit("quality=");
            assert("&quality="@ + quality_token(q) =~= "&"@ + ("quality="@ + quality_token(q)));
        },
        None => {
            assert(amp_all(Seq::<Seq<char>>::empty()) == Seq::<char>::empty());
        },
    }
}

proof fn lemma_amp_rating(v: ListRequestV)
    ensures
        amp_all(
            match v.minimum_rating {
                Some(r) => seq!["minimum_rating="@ + spec_dec(r as nat)],
                None => seq![],
            },
        ) == rating_part(v),
{
    match v.minimum_rating {
        Some(r) => {
            lemma_amp_all_single("minimum_rating="@ + spec_dec(r as nat));
            reveal_strlit("&minimum_rating=");
            reveal_strlit("&");
            reveal_strlit("minimum_rating=");
            assert("&minimum_rating="@ + spec_dec(r as nat) =~= "&"@ + ("minimum_rating="@
                + spec_dec(r as nat)));
        },
        None => {
            assert(amp_all(Seq::<Seq<char>>::empty()) == Seq::<char>::empty());
        },
    }
}

proof fn lemma_amp_term(v: ListRequestV)
    ensures
        amp_all(
            match v.query_term {
                Some(t) => seq!["query_term="@ + enc(t)],
                None => seq![],
            },
        ) == term_part(v),
{
    match v.query_term {
        Some(t) => {
            lemma_amp_all_single("query_term="@ + enc(t));
            reveal_strlit("&query_term=");
            reveal_strlit("&");
            reveal_strlit("query_term=");
            assert("&query_term="@ + enc(t) =~= "&"@ + ("query_term="@ + enc(t)));
        },
        None => {
            assert(amp_all(Seq::<Seq<char>>::empty()) == Seq::<char>::empty());
        },
    }
}

proof fn lemma_amp_genre(v: ListRequestV)
    ensures
        amp_all(
            match v.genre {
                Some(g) => seq!["genre="@ + enc(g)],
                None => seq![],
            },
        ) == genre_part(v),
{
    match v.genre {
        Some(g) => {
            lemma_amp_all_single("genre="@ + enc(g));
            reveal_strlit("&genre=");
            reveal_strlit("&");
            reveal_strlit("genre=");
            assert("&genre="@ + enc(g) =~= "&"@ + ("genre="@ + enc(g)));
        },
        None => {
            assert(amp_all(Seq::<Seq<char>>::empty()) == Seq::<char>::empty());
        },
    }
}

proof fn lemma_amp_sort(v: ListRequestV)
    ensures
        amp_all(
            match v.sort_by {
                Some(s) => seq!["sort_by="@ + sort_token(s)],
                None => seq![],
            },
        ) == sort_part(v),
{
    match v.sort_by {
        Some(s) => {
            lemma_amp_all_single("sort_by="@ + sort_token(s));
            reveal_strlit("&sort_by=");
            reveal_strlit("&");
            reveal_strlit("sort_by=");
            assert("&sort_by="@ + sort_token(s) =~= "&"@ + ("sort_by="@ + sort_token(s)));
        },
        None => {
            assert(amp_all(Seq::<Seq<char>>::empty()) == Seq::<char>::empty());
        },
    }
}

proof fn lemma_amp_order(v: ListRequestV)
    ensures
        amp_all(
            match v.order_by {
                Some(o) => seq!["order_by="@ + order_token(o)],
                None => seq![],
            },
        ) == order_part(v),
{
    match v.order_by {
        Some(o) => {
            lemma_amp_all_single("order_by="@ + order_token(o));
            reveal_strlit("&order_by=");
            reveal_strlit("&");
            reveal_strlit("order_by=");
            assert("&order_by="@ + order_token(o) =~= "&"@ + ("order_by="@ + order_token(o)));
        },
        None => {
            assert(amp_all(Seq::<Seq<char>>::empty()) == Seq::<char>::empty());
        },
    }
}

proof fn lemma_amp_rt(v: ListRequestV)
    ensures
        amp_all(
            if v.rt {
                seq!["with_rt_ratings"@]
            } else {
                seq![]
            },
        ) == rt_part(v),
{
    if v.rt {
        lemma_amp_all_single("with_rt_ratings"@);
        reveal_strlit("&with_rt_ratings");
        reveal_strlit("&");
        reveal_strlit("with_rt_ratings");
        assert("&with_rt_ratings"@ =~= "&"@ + "with_rt_ratings"@);
    } else {
        assert(amp_all(Seq::<Seq<char>>::empty()) == Seq::<char>::empty());
    }
}

proof fn lemma_assoc_query(
    l: Seq<char>,
    d: Seq<char>,
    x1: Seq<char>,
    x2: Seq<char>,
    x3: Seq<char>,
    x4: Seq<char>,
    x5: Seq<char>,
    x6: Seq<char>,
    x7: Seq<char>,
    x8: Seq<char>,
)
    ensures
        l + d + x1 + x2 + x3 + x4 + x5 + x6 + x7 + x8 == (l + d) + (x1 + x2 + x3 + x4 + x5 + x6
            + x7 + x8),
{
    assert(l + d + x1 + x2 + x3 + x4 + x5 + x6 + x7 + x8 =~= (l + d) + (x1 + x2 + x3 + x4 + x5 + x6
        + x7 + x8));
}

proof fn lemma_assoc_url(
    a: Seq<char>,
    h: Seq<char>,
    p: Seq<char>,
    q: Seq<char>,
    rest: Seq<char>,
)
    ensures
        a + h + p + q + rest == a + h + (p + q + rest),
{
    assert(a + h + p + q + rest =~= a + h + (p + q + rest));
}

proof fn lemma_assoc_tail(
    pre: Seq<char>,
    l: Seq<char>,
    d: Seq<char>,
    x1: Seq<char>,
    x2: Seq<char>,
    x3: Seq<char>,
    x4: Seq<char>,
    x5: Seq<char>,
    x6: Seq<char>,
    x7: Seq<char>,
    x8: Seq<char>,
)
    ensures
        pre + l + d + x1 + x2 + x3 + x4 + x5 + x6 + x7 + x8 == pre + (l + d + x1 + x2 + x3 + x4
            + x5 + x6 + x7 + x8),
{
    assert(pre + l + d + x1 + x2 + x3 + x4 + x5 + x6 + x7 + x8 =~= pre + (l + d + x1 + x2 + x3 + x4
        + x5 + x6 + x7 + x8));
}

/// Law: the query string is exactly the rendered pieces of the set options,
/// joined by single ampersands: the page-size piece first, then one piece
/// per set option in serialization order, each with its canonical encoding,
/// and nothing else.
#[verifier::rlimit(100)]
pub proof fn lemma_query_is_exactly_set_options(v: ListRequestV)
    ensures
        query_of(v) == join_amp(url_pieces(v)),
        url_pieces(v).len() == 1 + (if v.page is Some {
            1int
        } else {
            0
        }) + (if v.quality is Some {
            1int
        } else {
            0
        }) + (if v.minimum_rating is Some {
            1int
        } else {
            0
        }) + (if v.query_term is Some {
            1int
        } else {
            0
        }) + (if v.genre is Some {
            1int
        } else {
            0
        }) + (if v.sort_by is Some {
            1int
        } else {
            0
        }) + (if v.order_by is Some {
            1int
        } else {
            0
        }) + (if v.rt {
            1int
        } else {
            0
        }),
{
    let limit_piece = "limit="@ + spec_dec(limit_of(v) as nat);
    lemma_join_amp_unfold(url_pieces(v));
    assert(url_pieces(v).first() == limit_piece);
    assert(url_pieces(v).drop_first() =~= rest_pieces(v));
    let p1: Seq<Seq<char>> = match v.page {
        Some(p) => seq!["page="@ + spec_dec(p as nat)],
        None => seq![],
    };
    let p2: Seq<Seq<char>> = match v.quality {
        Some(q) => seq!["quality="@ + quality_token(q)],
        None => seq![],
    };
    let p3: Seq<Seq<char>> = match v.minimum_rating {
        Some(r) => seq!["minimum_rating="@ + spec_dec(r as nat)],
        None => seq![],
    };
    let p4: Seq<Seq<char>> = match v.query_term {
        Some(t) => seq!["query_term="@ + enc(t)],
        None => seq![],
    };
    let p5: Seq<Seq<char>> = match v.genre {
        Some(g) => seq!["genre="@ + enc(g)],
        None => seq![],
    };
    let p6: Seq<Seq<char>> = match v.sort_by {
        Some(s) => seq!["sort_by="@ + sort_token(s)],
        None => seq![],
    };
    let p7: Seq<Seq<char>> = match v.order_by {
        Some(o) => seq!["order_by="@ + order_token(o)],
        None => seq![],
    };
    let p8: Seq<Seq<char>> = if v.rt {
        seq!["with_rt_ratings"@]
    } else {
        seq![]
    };
    lemma_amp_all_concat(p1, p2);
    lemma_amp_all_concat(p1 + p2, p3);
    lemma_amp_all_concat(p1 + p2 + p3, p4);
    lemma_amp_all_concat(p1 + p2 + p3 + p4, p5);
    lemma_amp_all_concat(p1 + p2 + p3 + p4 + p5, p6);
    lemma_amp_all_concat(p1 + p2 + p3 + p4 + p5 + p6, p7);
    lemma_amp_all_concat(p1 + p2 + p3 + p4 + p5 + p6 + p7, p8);
    lemma_amp_page(v);
    lemma_amp_quality(v);
    lemma_amp_rating(v);
    lemma_amp_term(v);
    lemma_amp_genre(v);
    lemma_amp_sort(v);
    lemma_amp_order(v);
    lemma_amp_rt(v);
    assert(amp_all(rest_pieces(v)) == page_part(v) + quality_part(v) + rating_part(v) + term_part(
        v,
    ) + genre_part(v) + sort_part(v) + order_part(v) + rt_part(v));
    lemma_assoc_query(
        "limit="@,
        spec_dec(limit_of(v) as nat),
        page_part(v),
        quality_part(v),
        rating_part(v),
        term_part(v),
        genre_part(v),
        sort_part(v),
        order_part(v),
        rt_part(v),
    );
    assert(query_of(v) == join_amp(url_pieces(v)));
}

/// Law: a builder with no explicit limit serializes the default page
/// size, so its query string opens with the default limit parameter.
pub proof fn lemma_default_limit(v: ListRequestV)
    requires
        v.limit is None,
    ensures
        limit_of(v) == DEFAULT_LIMIT,
        query_of(v) == "limit="@ + spec_dec(DEFAULT_LIMIT as nat) + page_part(v) + quality_part(v)
            + rating_part(v) + term_part(v) + genre_part(v) + sort_part(v) + order_part(v)
            + rt_part(v),
{
}

/// Law: choosing a mirror changes the host component alone; the scheme,
/// the path and the whole query string stay exactly as they were.
#[verifier::rlimit(100)]
pub proof fn lemma_mirror_replaces_only_host(v: ListRequestV, w: ListRequestV)
    requires
        w == (ListRequestV { mirror: w.mirror, ..v }),
    ensures
        spec_url(v) == "https://"@ + host_of(v) + ("/api/v2/list_movies.json"@ + "?"@ + query_of(
            v,
        )),
        spec_url(w) == "https://"@ + host_of(w) + ("/api/v2/list_movies.json"@ + "?"@ + query_of(
            v,
        )),
{
    assert(query_of(w) == query_of(v));
    lemma_url_shape(v);
    lemma_url_shape(w);
    lemma_assoc_url("https://"@, host_of(v), "/api/v2/list_movies.json"@, "?"@, query_of(v));
    lemma_assoc_url("https://"@, host_of(w), "/api/v2/list_movies.json"@, "?"@, query_of(v));
}

impl Default for ListRequest {
    /// Same as `ListRequest::new`.
    fn default() -> (r: ListRequest)
        ensures
            r@ == empty_request(),
    {
        ListRequest::new()
    }
}

} // verus!
