//! The typed response model and the decoder from JSON text into it. Every
//! field the API may omit is optional; a field absent from the payload, or
//! set to `null`, decodes to its unset state, while a present field of the
//! wrong shape fails the decode. Timestamp fields are read from their
//! nanosecond numeric encoding; a zero or malformed timestamp counts as
//! absent.

use vstd::prelude::*;
use crate::json::s_lit4;
use crate::json::s_num;
use crate::json::s_skip;
use crate::json::s_str_body;
use crate::json::s_ws;
use crate::json::parse_num;
use crate::json::parse_str_body;
use crate::json::skip_value;
use crate::json::ws;
use vstd::string::StringExecFns;
use crate::text::chars_to_string;
use crate::text::spec_dec;
use crate::text::u64_to_string;
use crate::text::is_digit_char;

verus! {

/// What the URL parser makes of a candidate address: its normalized
/// serialization when the text parses as an absolute URL, nothing
/// otherwise.
pub uninterp spec fn url_norm(s: Seq<char>) -> Option<Seq<char>>;

/// Relies on `url::Url::parse` and `url::Url::as_str`: the text either
/// parses as an absolute URL, whose normalized serialization comes back,
/// or is rejected; the outcome depends on the text alone.
#[verifier::external_body]
fn normalize_url(s: String) -> (r: Option<String>)
    ensures
        r.deep_view() == url_norm(s@),
{
    match url::Url::parse(s.as_str()) {
        Ok(u) => Some(u.as_str().to_string()),
        Err(_) => None,
    }
}

/// A download variant of a movie.
#[derive(Clone, Debug, PartialEq)]
pub struct Torrent {
    pub url: Option<String>,
    pub hash: Option<String>,
    pub quality: Option<String>,
    pub ty_pe: Option<String>,
    pub seeders: Option<u32>,
    pub peers: Option<u32>,
    pub size: Option<String>,
    pub size_bytes: Option<u64>,
    pub date_uploaded: Option<String>,
    /// Upload time in nanoseconds since the epoch.
    pub date_uploaded_unix: Option<i64>,
}

/// The abstract content of a `Torrent`.
pub ghost struct TorrentV {
    pub url: Option<Seq<char>>,
    pub hash: Option<Seq<char>>,
    pub quality: Option<Seq<char>>,
    pub ty_pe: Option<Seq<char>>,
    pub seeders: Option<u32>,
    pub peers: Option<u32>,
    pub size: Option<Seq<char>>,
    pub size_bytes: Option<u64>,
    pub date_uploaded: Option<Seq<char>>,
    pub date_uploaded_unix: Option<i64>,
}

impl DeepView for Torrent {
    type V = TorrentV;

    open spec fn deep_view(&self) -> TorrentV {
        TorrentV {
            url: self.url.deep_view(),
            hash: self.hash.deep_view(),
            quality: self.quality.deep_view(),
            ty_pe: self.ty_pe.deep_view(),
            seeders: self.seeders,
            peers: self.peers,
            size: self.size.deep_view(),
            size_bytes: self.size_bytes,
            date_uploaded: self.date_uploaded.deep_view(),
            date_uploaded_unix: self.date_uploaded_unix,
        }
    }
}

/// A `TorrentV` with every field absent.
pub open spec fn empty_torrent() -> TorrentV {
    TorrentV {
        url: None,
        hash: None,
        quality: None,
        ty_pe: None,
        seeders: None,
        peers: None,
        size: None,
        size_bytes: None,
        date_uploaded: None,
        date_uploaded_unix: None,
    }
}

fn torrent_new() -> (t: Torrent)
    ensures
        t.deep_view() == empty_torrent(),
{
    Torrent {
        url: None,
        hash: None,
        quality: None,
        ty_pe: None,
        seeders: None,
        peers: None,
        size: None,
        size_bytes: None,
        date_uploaded: None,
        date_uploaded_unix: None,
    }
}

/// A catalog entry.
#[derive(Clone, Debug, PartialEq)]
pub struct Movie {
    pub id: Option<u32>,
    pub url: Option<String>,
    pub imdb_code: Option<String>,
    pub title: Option<String>,
    pub title_long: Option<String>,
    pub year: Option<u16>,
    /// Rating on the 0 to 10 scale, held in tenths: a rating of six point
    /// eight is 68. One fractional digit is kept; further digits are
    /// dropped.
    pub rating: Option<u32>,
    pub runtime: Option<u16>,
    pub genres: Option<Vec<String>>,
    pub summary: Option<String>,
    pub description_full: Option<String>,
    pub synopsis: Option<String>,
    pub yt_trailer_code: Option<String>,
    pub language: Option<String>,
    pub mpa_rating: Option<String>,
    pub background_image: Option<String>,
    pub background_image_original: Option<String>,
    pub small_cover_image: Option<String>,
    pub medium_cover_image: Option<String>,
    pub large_cover_image: Option<String>,
    pub state: Option<String>,
    pub torrents: Option<Vec<Torrent>>,
    pub date_uploaded: Option<String>,
    /// Upload time in nanoseconds since the epoch.
    pub date_uploaded_unix: Option<i64>,
}

/// The abstract content of a `Movie`.
pub ghost struct MovieV {
    pub id: Option<u32>,
    pub url: Option<Seq<char>>,
    pub imdb_code: Option<Seq<char>>,
    pub title: Option<Seq<char>>,
    pub title_long: Option<Seq<char>>,
    pub year: Option<u16>,
    pub rating: Option<u32>,
    pub runtime: Option<u16>,
    pub genres: Option<Seq<Seq<char>>>,
    pub summary: Option<Seq<char>>,
    pub description_full: Option<Seq<char>>,
    pub synopsis: Option<Seq<char>>,
    pub yt_trailer_code: Option<Seq<char>>,
    pub language: Option<Seq<char>>,
    pub mpa_rating: Option<Seq<char>>,
    pub background_image: Option<Seq<char>>,
    pub background_image_original: Option<Seq<char>>,
    pub small_cover_image: Option<Seq<char>>,
    pub medium_cover_image: Option<Seq<char>>,
    pub large_cover_image: Option<Seq<char>>,
    pub state: Option<Seq<char>>,
    pub torrents: Option<Seq<TorrentV>>,
    pub date_uploaded: Option<Seq<char>>,
    pub date_uploaded_unix: Option<i64>,
}

impl DeepView for Movie {
    type V = MovieV;

    open spec fn deep_view(&self) -> MovieV {
        MovieV {
            id: self.id,
            url: self.url.deep_view(),
            imdb_code: self.imdb_code.deep_view(),
            title: self.title.deep_view(),
            title_long: self.title_long.deep_view(),
            year: self.year,
            rating: self.rating,
            runtime: self.runtime,
            genres: self.genres.deep_view(),
            summary: self.summary.deep_view(),
            description_full: self.description_full.deep_view(),
            synopsis: self.synopsis.deep_view(),
            yt_trailer_code: self.yt_trailer_code.deep_view(),
            language: self.language.deep_view(),
            mpa_rating: self.mpa_rating.deep_view(),
            background_image: self.background_image.deep_view(),
            background_image_original: self.background_image_original.deep_view(),
            small_cover_image: self.small_cover_image.deep_view(),
            medium_cover_image: self.medium_cover_image.deep_view(),
            large_cover_image: self.large_cover_image.deep_view(),
            state: self.state.deep_view(),
            torrents: self.torrents.deep_view(),
            date_uploaded: self.date_uploaded.deep_view(),
            date_uploaded_unix: self.date_uploaded_unix,
        }
    }
}

/// A `MovieV` with every field absent.
pub open spec fn empty_movie() -> MovieV {
    MovieV {
        id: None,
        url: None,
        imdb_code: None,
        title: None,
        title_long: None,
        year: None,
        rating: None,
        runtime: None,
        genres: None,
        summary: None,
        description_full: None,
        synopsis: None,
        yt_trailer_code: None,
        language: None,
        mpa_rating: None,
        background_image: None,
        background_image_original: None,
        small_cover_image: None,
        medium_cover_image: None,
        large_cover_image: None,
        state: None,
        torrents: None,
        date_uploaded: None,
        date_uploaded_unix: None,
    }
}

fn movie_new() -> (m: Movie)
    ensures
        m.deep_view() == empty_movie(),
{
    Movie {
        id: None,
        url: None,
        imdb_code: None,
        title: None,
        title_long: None,
        year: None,
        rating: None,
        runtime: None,
        genres: None,
        summary: None,
        description_full: None,
        synopsis: None,
        yt_trailer_code: None,
        language: None,
        mpa_rating: None,
        background_image: None,
        background_image_original: None,
        small_cover_image: None,
        medium_cover_image: None,
        large_cover_image: None,
        state: None,
        torrents: None,
        date_uploaded: None,
        date_uploaded_unix: None,
    }
}

/// The pagination envelope around the movies of one page.
#[derive(Clone, Debug, PartialEq)]
pub struct Data {
    pub movie_count: Option<u64>,
    pub limit: Option<u32>,
    pub page_number: Option<u32>,
    pub movies: Option<Vec<Movie>>,
}

/// The abstract content of a `Data`.
pub ghost struct DataV {
    pub movie_count: Option<u64>,
    pub limit: Option<u32>,
    pub page_number: Option<u32>,
    pub movies: Option<Seq<MovieV>>,
}

impl DeepView for Data {
    type V = DataV;

    open spec fn deep_view(&self) -> DataV {
        DataV {
            movie_count: self.movie_count,
            limit: self.limit,
            page_number: self.page_number,
            movies: self.movies.deep_view(),
        }
    }
}

/// A `DataV` with every field absent.
pub open spec fn empty_data() -> DataV {
    DataV { movie_count: None, limit: None, page_number: None, movies: None }
}

fn data_new() -> (d: Data)
    ensures
        d.deep_view() == empty_data(),
{
    Data { movie_count: None, limit: None, page_number: None, movies: None }
}

/// Server-side execution metadata of a response.
#[derive(Clone, Debug, PartialEq)]
pub struct Meta {
    /// Server time in nanoseconds since the epoch.
    pub server_time: Option<i64>,
    pub server_timezone: Option<String>,
    pub api_version: Option<u8>,
    pub execution_time: Option<String>,
}

/// The abstract content of a `Meta`.
pub ghost struct MetaV {
    pub server_time: Option<i64>,
    pub server_timezone: Option<Seq<char>>,
    pub api_version: Option<u8>,
    pub execution_time: Option<Seq<char>>,
}

impl DeepView for Meta {
    type V = MetaV;

    open spec fn deep_view(&self) -> MetaV {
        MetaV {
            server_time: self.server_time,
            server_timezone: self.server_timezone.deep_view(),
            api_version: self.api_version,
            execution_time: self.execution_time.deep_view(),
        }
    }
}

/// A `MetaV` with every field absent.
pub open spec fn empty_meta() -> MetaV {
    MetaV { server_time: None, server_timezone: None, api_version: None, execution_time: None }
}

fn meta_new() -> (m: Meta)
    ensures
        m.deep_view() == empty_meta(),
{
    Meta { server_time: None, server_timezone: None, api_version: None, execution_time: None }
}

/// The top-level decoded payload.
#[derive(Clone, Debug, PartialEq)]
pub struct ListResponse {
    pub status: Option<String>,
    pub status_message: Option<String>,
    pub data: Option<Data>,
    pub meta: Option<Meta>,
}

/// The abstract content of a `ListResponse`.
pub ghost struct ListResponseV {
    pub status: Option<Seq<char>>,
    pub status_message: Option<Seq<char>>,
    pub data: Option<DataV>,
    pub meta: Option<MetaV>,
}

impl DeepView for ListResponse {
    type V = ListResponseV;

    open spec fn deep_view(&self) -> ListResponseV {
        ListResponseV {
            status: self.status.deep_view(),
            status_message: self.status_message.deep_view(),
            data: match self.data {
                Some(ref d) => Some(d.deep_view()),
                None => None,
            },
            meta: match self.meta {
                Some(ref m) => Some(m.deep_view()),
                None => None,
            },
        }
    }
}

/// A `ListResponseV` with every field absent.
pub open spec fn empty_response() -> ListResponseV {
    ListResponseV { status: None, status_message: None, data: None, meta: None }
}

fn response_new() -> (r: ListResponse)
    ensures
        r.deep_view() == empty_response(),
{
    ListResponse { status: None, status_message: None, data: None, meta: None }
}

/// A string-or-null field value: `null` reads as absent, a string as
/// present; anything else is the wrong shape.
#[verifier::opaque]
pub open spec fn s_val_string(s: Seq<char>, i: int) -> Option<(Option<Seq<char>>, int)> {
    if !(0 <= i && i < s.len()) {
        None
    } else if s[i] == 'n' {
        if s_lit4(s, i, 'n', 'u', 'l', 'l') {
            Some((None, i + 4))
        } else {
            None
        }
    } else if s[i] == '"' {
        match s_str_body(s, i + 1) {
            Some(p) => Some((Some(p.0), p.1)),
            None => None,
        }
    } else {
        None
    }
}

fn val_string(v: &Vec<char>, i: usize) -> (r: Option<(Option<String>, usize)>)
    requires
        i <= v@.len(),
    ensures
        match r {
            Some(p) => s_val_string(v@, i as int) == Some((p.0.deep_view(), p.1 as int)) && i < p.1
                <= v@.len(),
            None => s_val_string(v@, i as int) is None,
        },
{
    proof {
        reveal(s_val_string);
    }
    if i >= v.len() {
        return None;
    }
    let c = v[i];
    if c == 'n' {
        if v.len() - i >= 4 && v[i + 1] == 'u' && v[i + 2] == 'l' && v[i + 3] == 'l' {
            Some((None, i + 4))
        } else {
            None
        }
    } else if c == '"' {
        match parse_str_body(v, i + 1) {
            Some((cs, j)) => {
                let st = chars_to_string(&cs, 0, cs.len());
                proof {
                    assert(cs@.subrange(0, cs@.len() as int) =~= cs@);
                }
                Some((Some(st), j))
            },
            None => None,
        }
    } else {
        None
    }
}

/// An unsigned-integer-or-null field value, bounded by `max`: `null` reads
/// as absent; a number that is not a plain unsigned integer within the
/// bound, or any other shape, fails.
#[verifier::opaque]
pub open spec fn s_val_uint(s: Seq<char>, i: int, max: u64) -> Option<(Option<u64>, int)> {
    if !(0 <= i && i < s.len()) {
        None
    } else if s[i] == 'n' {
        if s_lit4(s, i, 'n', 'u', 'l', 'l') {
            Some((None, i + 4))
        } else {
            None
        }
    } else if s[i] == '-' || is_digit_char(s[i]) {
        match s_num(s, i) {
            Some(p) => match p.0.s_as_u64() {
                Some(x) => if x <= max {
                    Some((Some(x), p.1))
                } else {
                    None
                },
                None => None,
            },
            None => None,
        }
    } else {
        None
    }
}

fn val_uint(v: &Vec<char>, i: usize, max: u64) -> (r: Option<(Option<u64>, usize)>)
    requires
        i <= v@.len(),
    ensures
        match r {
            Some(p) => s_val_uint(v@, i as int, max) == Some((p.0, p.1 as int)) && i < p.1
                <= v@.len() && (p.0 matches Some(x) ==> x <= max),
            None => s_val_uint(v@, i as int, max) is None,
        },
{
    proof {
        reveal(s_val_uint);
    }
    if i >= v.len() {
        return None;
    }
    let c = v[i];
    if c == 'n' {
        if v.len() - i >= 4 && v[i + 1] == 'u' && v[i + 2] == 'l' && v[i + 3] == 'l' {
            Some((None, i + 4))
        } else {
            None
        }
    } else if c == '-' || (48 <= c as u32 && c as u32 <= 57) {
        match parse_num(v, i) {
            Some((n, j)) => match n.as_u64() {
                Some(x) => if x <= max {
                    Some((Some(x), j))
                } else {
                    None
                },
                None => None,
            },
            None => None,
        }
    } else {
        None
    }
}

/// A nanosecond-timestamp field value: `null`, a zero or out-of-range
/// number, or a value of any other shape all read as absent; only text
/// that is not well-formed JSON fails.
#[verifier::opaque]
pub open spec fn s_val_nanos(s: Seq<char>, i: int) -> Option<(Option<i64>, int)> {
    if !(0 <= i && i < s.len()) {
        None
    } else if s[i] == '-' || is_digit_char(s[i]) {
        match s_num(s, i) {
            Some(p) => {
                let o = p.0.s_as_i64();
                Some(
                    (
                        if o == Some(0i64) {
                            None
                        } else {
                            o
                        },
                        p.1,
                    ),
                )
            },
            None => None,
        }
    } else {
        match s_skip(s, i) {
            Some(e) => Some((None, e)),
            None => None,
        }
    }
}

fn val_nanos(v: &Vec<char>, i: usize) -> (r: Option<(Option<i64>, usize)>)
    requires
        i <= v@.len(),
    ensures
        match r {
            Some(p) => s_val_nanos(v@, i as int) == Some((p.0, p.1 as int)) && i < p.1 <= v@.len(),
            None => s_val_nanos(v@, i as int) is None,
        },
{
    proof {
        reveal(s_val_nanos);
    }
    if i >= v.len() {
        return None;
    }
    let c = v[i];
    if c == '-' || (48 <= c as u32 && c as u32 <= 57) {
        match parse_num(v, i) {
            Some((n, j)) => {
                let o = n.as_i64();
                match o {
                    Some(x) => if x == 0 {
                        Some((None, j))
                    } else {
                        Some((Some(x), j))
                    },
                    None => Some((None, j)),
                }
            },
            None => None,
        }
    } else {
        match skip_value(v, i) {
            Some(e) => Some((None, e)),
            None => None,
        }
    }
}

/// A fractional-rating-or-null field value, in tenths: `null` reads as
/// absent; a negative, exponent-bearing or oversized number, or any other
/// shape, fails.
#[verifier::opaque]
pub open spec fn s_val_tenths(s: Seq<char>, i: int) -> Option<(Option<u32>, int)> {
    if !(0 <= i && i < s.len()) {
        None
    } else if s[i] == 'n' {
        if s_lit4(s, i, 'n', 'u', 'l', 'l') {
            Some((None, i + 4))
        } else {
            None
        }
    } else if s[i] == '-' || is_digit_char(s[i]) {
        match s_num(s, i) {
            Some(p) => match p.0.s_as_tenths() {
                Some(x) => Some((Some(x), p.1)),
                None => None,
            },
            None => None,
        }
    } else {
        None
    }
}

fn val_tenths(v: &Vec<char>, i: usize) -> (r: Option<(Option<u32>, usize)>)
    requires
        i <= v@.len(),
    ensures
        match r {
            Some(p) => s_val_tenths(v@, i as int) == Some((p.0, p.1 as int)) && i < p.1 <= v@.len(),
            None => s_val_tenths(v@, i as int) is None,
        },
{
    proof {
        reveal(s_val_tenths);
    }
    if i >= v.len() {
        return None;
    }
    let c = v[i];
    if c == 'n' {
        if v.len() - i >= 4 && v[i + 1] == 'u' && v[i + 2] == 'l' && v[i + 3] == 'l' {
            Some((None, i + 4))
        } else {
            None
        }
    } else if c == '-' || (48 <= c as u32 && c as u32 <= 57) {
        match parse_num(v, i) {
            Some((n, j)) => match n.as_tenths() {
                Some(x) => Some((Some(x), j)),
                None => None,
            },
            None => None,
        }
    } else {
        None
    }
}

/// A URL-or-null field value: the string must parse as a URL and is stored
/// in its normalized serialization.
#[verifier::opaque]
pub open spec fn s_val_url(s: Seq<char>, i: int) -> Option<(Option<Seq<char>>, int)> {
    if !(0 <= i && i < s.len()) {
        None
    } else if s[i] == 'n' {
        if s_lit4(s, i, 'n', 'u', 'l', 'l') {
            Some((None, i + 4))
        } else {
            None
        }
    } else if s[i] == '"' {
        match s_str_body(s, i + 1) {
            Some(p) => match url_norm(p.0) {
                Some(u) => Some((Some(u), p.1)),
                None => None,
            },
            None => None,
        }
    } else {
        None
    }
}

fn val_url(v: &Vec<char>, i: usize) -> (r: Option<(Option<String>, usize)>)
    requires
        i <= v@.len(),
    ensures
        match r {
            Some(p) => s_val_url(v@, i as int) == Some((p.0.deep_view(), p.1 as int)) && i < p.1
                <= v@.len(),
            None => s_val_url(v@, i as int) is None,
        },
{
    proof {
        reveal(s_val_url);
    }
    if i >= v.len() {
        return None;
    }
    let c = v[i];
    if c == 'n' {
        if v.len() - i >= 4 && v[i + 1] == 'u' && v[i + 2] == 'l' && v[i + 3] == 'l' {
            Some((None, i + 4))
        } else {
            None
        }
    } else if c == '"' {
        match parse_str_body(v, i + 1) {
            Some((cs, j)) => {
                let st = chars_to_string(&cs, 0, cs.len());
                proof {
                    assert(cs@.subrange(0, cs@.len() as int) =~= cs@);
                }
                match normalize_url(st) {
                    Some(u) => Some((Some(u), j)),
                    None => None,
                }
            },
            None => None,
        }
    } else {
        None
    }
}

/// The remaining elements of a string array, the ones already read in
/// `acc`; the closing bracket ends it.
pub open spec fn s_str_elems(s: Seq<char>, i: int, acc: Seq<Seq<char>>) -> Option<
    (Seq<Seq<char>>, int),
>
    decreases s.len() - i,
{
    if !(0 <= i && i <= s.len()) {
        None
    } else {
        let j = s_ws(s, i);
        if !(i <= j && j < s.len()) {
            None
        } else if s[j] != '"' {
            None
        } else {
            match s_str_body(s, j + 1) {
                Some(p) => {
                    if !(j + 1 < p.1 && p.1 <= s.len()) {
                        None
                    } else {
                        let k = s_ws(s, p.1);
                        if !(p.1 <= k && k <= s.len()) {
                            None
                        } else if k < s.len() && s[k] == ']' {
                            Some((acc.push(p.0), k + 1))
                        } else if k < s.len() && s[k] == ',' {
                            s_str_elems(s, k + 1, acc.push(p.0))
                        } else {
                            None
                        }
                    }
                },
                None => None,
            }
        }
    }
}

fn str_elems(v: &Vec<char>, i: usize, acc: Vec<String>) -> (r: Option<(Vec<String>, usize)>)
    requires
        i <= v@.len(),
    ensures
        match r {
            Some(p) => s_str_elems(v@, i as int, acc.deep_view()) == Some(
                (p.0.deep_view(), p.1 as int),
            ) && i < p.1 <= v@.len(),
            None => s_str_elems(v@, i as int, acc.deep_view()) is None,
        },
{
    let ghost s = v@;
    let ghost acc0 = acc.deep_view();
    let mut a = acc;
    let mut cur = i;
    loop
        invariant
            i <= cur <= s.len(),
            s == v@,
            s_str_elems(s, i as int, acc0) == s_str_elems(s, cur as int, a.deep_view()),
            acc0 == acc.deep_view(),
        decreases s.len() - cur,
    {
        let j = ws(v, cur);
        if !(j < v.len() && v[j] == '"') {
            return None;
        }
        match parse_str_body(v, j + 1) {
            Some((cs, e)) => {
                let st = chars_to_string(&cs, 0, cs.len());
                proof {
                    assert(cs@.subrange(0, cs@.len() as int) =~= cs@);
                }
                let k = ws(v, e);
                let ghost before = a.deep_view();
                a.push(st);
                proof {
                    assert(a.deep_view() =~= before.push(st@));
                }
                if k < v.len() && v[k] == ']' {
                    return Some((a, k + 1));
                } else if k < v.len() && v[k] == ',' {
                    cur = k + 1;
                } else {
                    return None;
                }
            },
            None => {
                return None;
            },
        }
    }
}

/// A string-array-or-null field value.
#[verifier::opaque]
pub open spec fn s_val_str_arr(s: Seq<char>, i: int) -> Option<(Option<Seq<Seq<char>>>, int)> {
    if !(0 <= i && i < s.len()) {
        None
    } else if s[i] == 'n' {
        if s_lit4(s, i, 'n', 'u', 'l', 'l') {
            Some((None, i + 4))
        } else {
            None
        }
    } else if s[i] == '[' {
        let j = s_ws(s, i + 1);
        if !(i + 1 <= j && j <= s.len()) {
            None
        } else if j < s.len() && s[j] == ']' {
            Some((Some(Seq::empty()), j + 1))
        } else {
            match s_str_elems(s, i + 1, Seq::empty()) {
                Some(p) => Some((Some(p.0), p.1)),
                None => None,
            }
        }
    } else {
        None
    }
}

fn val_str_arr(v: &Vec<char>, i: usize) -> (r: Option<(Option<Vec<String>>, usize)>)
    requires
        i <= v@.len(),
    ensures
        match r {
            Some(p) => s_val_str_arr(v@, i as int) == Some((p.0.deep_view(), p.1 as int)) && i
                < p.1 <= v@.len(),
            None => s_val_str_arr(v@, i as int) is None,
        },
{
    proof {
        reveal(s_val_str_arr);
    }
    if i >= v.len() {
        return None;
    }
    let c = v[i];
    if c == 'n' {
        if v.len() - i >= 4 && v[i + 1] == 'u' && v[i + 2] == 'l' && v[i + 3] == 'l' {
            Some((None, i + 4))
        } else {
            None
        }
    } else if c == '[' {
        let j = ws(v, i + 1);
        if j < v.len() && v[j] == ']' {
            let out: Vec<String> = Vec::new();
            assert(out.deep_view() =~= Seq::<Seq<char>>::empty());
            Some((Some(out), j + 1))
        } else {
            let seed: Vec<String> = Vec::new();
            assert(seed.deep_view() =~= Seq::<Seq<char>>::empty());
            match str_elems(v, i + 1, seed) {
                Some((out, e)) => Some((Some(out), e)),
                None => None,
            }
        }
    } else {
        None
    }
}

/// One recognized key-value pair of a torrent object applied to the model
/// built so far; an unrecognized key has its value skipped.
#[verifier::opaque]
pub open spec fn s_torrent_field(s: Seq<char>, vp: int, key: Seq<char>, acc: TorrentV) -> Option<
    (TorrentV, int),
> {
    if key == "url"@ {
        match s_val_url(s, vp) {
            Some(p) => Some((TorrentV { url: p.0, ..acc }, p.1)),
            None => None,
        }
    } else if key == "hash"@ {
        match s_val_string(s, vp) {
            Some(p) => Some((TorrentV { hash: p.0, ..acc }, p.1)),
            None => None,
        }
    } else if key == "quality"@ {
        match s_val_string(s, vp) {
            Some(p) => Some((TorrentV { quality: p.0, ..acc }, p.1)),
            None => None,
        }
    } else if key == "type"@ {
        match s_val_string(s, vp) {
            Some(p) => Some((TorrentV { ty_pe: p.0, ..acc }, p.1)),
            None => None,
        }
    } else if key == "seeders"@ {
        match s_val_uint(s, vp, 0xFFFF_FFFF) {
            Some(p) => Some(
                (
                    TorrentV {
                        seeders: match p.0 {
                            Some(x) => Some(x as u32),
                            None => None,
                        },
                        ..acc
                    },
                    p.1,
                ),
            ),
            None => None,
        }
    } else if key == "peers"@ {
        match s_val_uint(s, vp, 0xFFFF_FFFF) {
            Some(p) => Some(
                (
                    TorrentV {
                        peers: match p.0 {
                            Some(x) => Some(x as u32),
                            None => None,
                        },
                        ..acc
                    },
                    p.1,
                ),
            ),
            None => None,
        }
    } else if key == "size"@ {
        match s_val_string(s, vp) {
            Some(p) => Some((TorrentV { size: p.0, ..acc }, p.1)),
            None => None,
        }
    } else if key == "size_bytes"@ {
        match s_val_uint(s, vp, 0xFFFF_FFFF_FFFF_FFFF) {
            Some(p) => Some((TorrentV { size_bytes: p.0, ..acc }, p.1)),
            None => None,
        }
    } else if key == "date_uploaded"@ {
        match s_val_string(s, vp) {
            Some(p) => Some((TorrentV { date_uploaded: p.0, ..acc }, p.1)),
            None => None,
        }
    } else if key == "date_uploaded_unix"@ {
        match s_val_nanos(s, vp) {
            Some(p) => Some((TorrentV { date_uploaded_unix: p.0, ..acc }, p.1)),
            None => None,
        }
    } else {
        match s_skip(s, vp) {
            Some(e) => Some((acc, e)),
            None => None,
        }
    }
}

fn torrent_field(v: &Vec<char>, vp: usize, key: &String, acc: Torrent) -> (r: Option<
    (Torrent, usize),
>)
    requires
        vp <= v@.len(),
    ensures
        match r {
            Some(p) => s_torrent_field(v@, vp as int, key@, acc.deep_view()) == Some(
                (p.0.deep_view(), p.1 as int),
            ) && vp < p.1 <= v@.len(),
            None => s_torrent_field(v@, vp as int, key@, acc.deep_view()) is None,
        },
{
    proof {
        reveal(s_torrent_field);
    }
    let mut t = acc;
    if crate::text::str_eq(key.as_str(), "url") {
        match val_url(v, vp) {
            Some((o, e)) => {
                t.url = o;
                Some((t, e))
            },
            None => None,
        }
    } else if crate::text::str_eq(key.as_str(), "hash") {
        match val_string(v, vp) {
            Some((o, e)) => {
                t.hash = o;
                Some((t, e))
            },
            None => None,
        }
    } else if crate::text::str_eq(key.as_str(), "quality") {
        match val_string(v, vp) {
            Some((o, e)) => {
                t.quality = o;
                Some((t, e))
            },
            None => None,
        }
    } else if crate::text::str_eq(key.as_str(), "type") {
        match val_string(v, vp) {
            Some((o, e)) => {
                t.ty_pe = o;
                Some((t, e))
            },
            None => None,
        }
    } else if crate::text::str_eq(key.as_str(), "seeders") {
        match val_uint(v, vp, 0xFFFF_FFFF) {
            Some((o, e)) => {
                t.seeders = match o {
                    Some(x) => Some(x as u32),
                    None => None,
                };
                Some((t, e))
            },
            None => None,
        }
    } else if crate::text::str_eq(key.as_str(), "peers") {
        match val_uint(v, vp, 0xFFFF_FFFF) {
            Some((o, e)) => {
                t.peers = match o {
                    Some(x) => Some(x as u32),
                    None => None,
                };
                Some((t, e))
            },
            None => None,
        }
    } else if crate::text::str_eq(key.as_str(), "size") {
        match val_string(v, vp) {
            Some((o, e)) => {
                t.size = o;
                Some((t, e))
            },
            None => None,
        }
    } else if crate::text::str_eq(key.as_str(), "size_bytes") {
        match val_uint(v, vp, 0xFFFF_FFFF_FFFF_FFFF) {
            Some((o, e)) => {
                t.size_bytes = o;
                Some((t, e))
            },
            None => None,
        }
    } else if crate::text::str_eq(key.as_str(), "date_uploaded") {
        match val_string(v, vp) {
            Some((o, e)) => {
                t.date_uploaded = o;
                Some((t, e))
            },
            None => None,
        }
    } else if crate::text::str_eq(key.as_str(), "date_uploaded_unix") {
        match val_nanos(v, vp) {
            Some((o, e)) => {
                t.date_uploaded_unix = o;
                Some((t, e))
            },
            None => None,
        }
    } else {
        match skip_value(v, vp) {
            Some(e) => Some((t, e)),
            None => None,
        }
    }
}

/// The remaining members of a torrent object applied to the model built
/// so far; the closing brace ends it.
pub open spec fn s_torrent_members(s: Seq<char>, i: int, acc: TorrentV) -> Option<(TorrentV, int)>
    decreases s.len() - i,
{
    if !(0 <= i && i <= s.len()) {
        None
    } else {
        let j = s_ws(s, i);
        if !(i <= j && j < s.len()) {
            None
        } else if s[j] != '"' {
            None
        } else {
            match s_str_body(s, j + 1) {
                Some(kp) => {
                    if !(j + 1 < kp.1 && kp.1 <= s.len()) {
                        None
                    } else {
                        let colon = s_ws(s, kp.1);
                        if !(kp.1 <= colon && colon < s.len() && s[colon] == ':') {
                            None
                        } else {
                            let vp = s_ws(s, colon + 1);
                            if !(colon + 1 <= vp && vp <= s.len()) {
                                None
                            } else {
                                match s_torrent_field(s, vp, kp.0, acc) {
                                    Some(st) => {
                                        if !(vp < st.1 && st.1 <= s.len()) {
                                            None
                                        } else {
                                            let k = s_ws(s, st.1);
                                            if !(st.1 <= k && k <= s.len()) {
                                                None
                                            } else if k < s.len() && s[k] == '}' {
                                                Some((st.0, k + 1))
                                            } else if k < s.len() && s[k] == ',' {
                                                s_torrent_members(s, k + 1, st.0)
                                            } else {
                                                None
                                            }
                                        }
                                    },
                                    None => None,
                                }
                            }
                        }
                    }
                },
                None => None,
            }
        }
    }
}

#[verifier::rlimit(100)]
fn torrent_members(v: &Vec<char>, i: usize, acc: Torrent) -> (r: Option<(Torrent, usize)>)
    requires
        i <= v@.len(),
    ensures
        match r {
            Some(p) => s_torrent_members(v@, i as int, acc.deep_view()) == Some(
                (p.0.deep_view(), p.1 as int),
            ) && i < p.1 <= v@.len(),
            None => s_torrent_members(v@, i as int, acc.deep_view()) is None,
        },
{
    let ghost s = v@;
    let ghost acc0 = acc.deep_view();
    let mut t = acc;
    let mut cur = i;
    loop
        invariant
            i <= cur <= s.len(),
            s == v@,
            acc0 == acc.deep_view(),
            s_torrent_members(s, i as int, acc0) == s_torrent_members(s, cur as int, t.deep_view()),
        decreases s.len() - cur,
    {
        let j = ws(v, cur);
        if !(j < v.len() && v[j] == '"') {
            return None;
        }
        match parse_str_body(v, j + 1) {
            Some((kcs, ke)) => {
                let key = chars_to_string(&kcs, 0, kcs.len());
                proof {
                    assert(kcs@.subrange(0, kcs@.len() as int) =~= kcs@);
                }
                let colon = ws(v, ke);
                if !(colon < v.len() && v[colon] == ':') {
                    return None;
                }
                let vp = ws(v, colon + 1);
                match torrent_field(v, vp, &key, t) {
                    Some((t2, e)) => {
                        let k = ws(v, e);
                        if k < v.len() && v[k] == '}' {
                            return Some((t2, k + 1));
                        } else if k < v.len() && v[k] == ',' {
                            t = t2;
                            cur = k + 1;
                        } else {
                            return None;
                        }
                    },
                    None => {
                        return None;
                    },
                }
            },
            None => {
                return None;
            },
        }
    }
}

/// A whole torrent object starting at its opening brace.
pub open spec fn s_torrent(s: Seq<char>, i: int) -> Option<(TorrentV, int)> {
    if !(0 <= i && i < s.len() && s[i] == '{') {
        None
    } else {
        let j = s_ws(s, i + 1);
        if !(i + 1 <= j && j <= s.len()) {
            None
        } else if j < s.len() && s[j] == '}' {
            Some((empty_torrent(), j + 1))
        } else {
            s_torrent_members(s, i + 1, empty_torrent())
        }
    }
}

fn parse_torrent(v: &Vec<char>, i: usize) -> (r: Option<(Torrent, usize)>)
    requires
        i <= v@.len(),
    ensures
        match r {
            Some(p) => s_torrent(v@, i as int) == Some((p.0.deep_view(), p.1 as int)) && i < p.1
                <= v@.len(),
            None => s_torrent(v@, i as int) is None,
        },
{
    if !(i < v.len() && v[i] == '{') {
        return None;
    }
    let j = ws(v, i + 1);
    if j < v.len() && v[j] == '}' {
        Some((torrent_new(), j + 1))
    } else {
        torrent_members(v, i + 1, torrent_new())
    }
}


/// The remaining elements of a torrent array, the ones already read in
/// `acc`; the closing bracket ends it.
pub open spec fn s_torrent_elems(s: Seq<char>, i: int, acc: Seq<TorrentV>) -> Option<
    (Seq<TorrentV>, int),
>
    decreases s.len() - i,
{
    if !(0 <= i && i <= s.len()) {
        None
    } else {
        let j = s_ws(s, i);
        if !(i <= j && j <= s.len()) {
            None
        } else {
            match s_torrent(s, j) {
                Some(p) => {
                    if !(j < p.1 && p.1 <= s.len()) {
                        None
                    } else {
                        let k = s_ws(s, p.1);
                        if !(p.1 <= k && k <= s.len()) {
                            None
                        } else if k < s.len() && s[k] == ']' {
                            Some((acc.push(p.0), k + 1))
                        } else if k < s.len() && s[k] == ',' {
                            s_torrent_elems(s, k + 1, acc.push(p.0))
                        } else {
                            None
                        }
                    }
                },
                None => None,
            }
        }
    }
}

fn torrent_elems(v: &Vec<char>, i: usize, acc: Vec<Torrent>) -> (r: Option<(Vec<Torrent>, usize)>)
    requires
        i <= v@.len(),
    ensures
        match r {
            Some(p) => s_torrent_elems(v@, i as int, acc.deep_view()) == Some(
                (p.0.deep_view(), p.1 as int),
            ) && i < p.1 <= v@.len(),
            None => s_torrent_elems(v@, i as int, acc.deep_view()) is None,
        },
{
    let ghost s = v@;
    let ghost acc0 = acc.deep_view();
    let mut a = acc;
    let mut cur = i;
    loop
        invariant
            i <= cur <= s.len(),
            s == v@,
            acc0 == acc.deep_view(),
            s_torrent_elems(s, i as int, acc0) == s_torrent_elems(s, cur as int, a.deep_view()),
        decreases s.len() - cur,
    {
        let j = ws(v, cur);
        match parse_torrent(v, j) {
            Some((t, e)) => {
                let k = ws(v, e);
                let ghost before = a.deep_view();
                a.push(t);
                proof {
                    assert(a.deep_view() =~= before.push(t.deep_view()));
                }
                if k < v.len() && v[k] == ']' {
                    return Some((a, k + 1));
                } else if k < v.len() && v[k] == ',' {
                    cur = k + 1;
                } else {
                    return None;
                }
            },
            None => {
                return None;
            },
        }
    }
}

/// A torrent-array-or-null field value.
#[verifier::opaque]
pub open spec fn s_val_torrents(s: Seq<char>, i: int) -> Option<(Option<Seq<TorrentV>>, int)> {
    if !(0 <= i && i < s.len()) {
        None
    } else if s[i] == 'n' {
        if s_lit4(s, i, 'n', 'u', 'l', 'l') {
            Some((None, i + 4))
        } else {
            None
        }
    } else if s[i] == '[' {
        let j = s_ws(s, i + 1);
        if !(i + 1 <= j && j <= s.len()) {
            None
        } else if j < s.len() && s[j] == ']' {
            Some((Some(Seq::empty()), j + 1))
        } else {
            match s_torrent_elems(s, i + 1, Seq::empty()) {
                Some(p) => Some((Some(p.0), p.1)),
                None => None,
            }
        }
    } else {
        None
    }
}

fn val_torrents(v: &Vec<char>, i: usize) -> (r: Option<(Option<Vec<Torrent>>, usize)>)
    requires
        i <= v@.len(),
    ensures
        match r {
            Some(p) => s_val_torrents(v@, i as int) == Some((p.0.deep_view(), p.1 as int)) && i
                < p.1 <= v@.len(),
            None => s_val_torrents(v@, i as int) is None,
        },
{
    proof {
        reveal(s_val_torrents);
    }
    if i >= v.len() {
        return None;
    }
    let c = v[i];
    if c == 'n' {
        if v.len() - i >= 4 && v[i + 1] == 'u' && v[i + 2] == 'l' && v[i + 3] == 'l' {
            Some((None, i + 4))
        } else {
            None
        }
    } else if c == '[' {
        let j = ws(v, i + 1);
        if j < v.len() && v[j] == ']' {
            let out: Vec<Torrent> = Vec::new();
            assert(out.deep_view() =~= Seq::<TorrentV>::empty());
            Some((Some(out), j + 1))
        } else {
            let seed: Vec<Torrent> = Vec::new();
            assert(seed.deep_view() =~= Seq::<TorrentV>::empty());
            match torrent_elems(v, i + 1, seed) {
                Some((out, e)) => Some((Some(out), e)),
                None => None,
            }
        }
    } else {
        None
    }
}

/// One recognized key-value pair of a movie object applied to the model
/// built so far; an unrecognized key has its value skipped.
#[verifier::opaque]
pub open spec fn s_movie_field(s: Seq<char>, vp: int, key: Seq<char>, acc: MovieV) -> Option<
    (MovieV, int),
> {
    if key == "id"@ {
        match s_val_uint(s, vp, 0xFFFF_FFFF) {
            Some(p) => Some(
                (
                    MovieV {
                        id: match p.0 {
                            Some(x) => Some(x as u32),
                            None => None,
                        },
                        ..acc
                    },
                    p.1,
                ),
            ),
            None => None,
        }
    } else if key == "url"@ {
        match s_val_url(s, vp) {
            Some(p) => Some((MovieV { url: p.0, ..acc }, p.1)),
            None => None,
        }
    } else if key == "imdb_code"@ {
        match s_val_string(s, vp) {
            Some(p) => Some((MovieV { imdb_code: p.0, ..acc }, p.1)),
            None => None,
        }
    } else if key == "title"@ {
        match s_val_string(s, vp) {
            Some(p) => Some((MovieV { title: p.0, ..acc }, p.1)),
            None => None,
        }
    } else if key == "title_long"@ {
        match s_val_string(s, vp) {
            Some(p) => Some((MovieV { title_long: p.0, ..acc }, p.1)),
            None => None,
        }
    } else if key == "year"@ {
        match s_val_uint(s, vp, 0xFFFF) {
            Some(p) => Some(
                (
                    MovieV {
                        year: match p.0 {
                            Some(x) => Some(x as u16),
                            None => None,
                        },
                        ..acc
                    },
                    p.1,
                ),
            ),
            None => None,
        }
    } else if key == "rating"@ {
        match s_val_tenths(s, vp) {
            Some(p) => Some((MovieV { rating: p.0, ..acc }, p.1)),
            None => None,
        }
    } else if key == "runtime"@ {
        match s_val_uint(s, vp, 0xFFFF) {
            Some(p) => Some(
                (
                    MovieV {
                        runtime: match p.0 {
                            Some(x) => Some(x as u16),
                            None => None,
                        },
                        ..acc
                    },
                    p.1,
                ),
            ),
            None => None,
        }
    } else if key == "genres"@ {
        match s_val_str_arr(s, vp) {
            Some(p) => Some((MovieV { genres: p.0, ..acc }, p.1)),
            None => None,
        }
    } else if key == "summary"@ {
        match s_val_string(s, vp) {
            Some(p) => Some((MovieV { summary: p.0, ..acc }, p.1)),
            None => None,
        }
    } else if key == "description_full"@ {
        match s_val_string(s, vp) {
            Some(p) => Some((MovieV { description_full: p.0, ..acc }, p.1)),
            None => None,
        }
    } else if key == "synopsis"@ {
        match s_val_string(s, vp) {
            Some(p) => Some((MovieV { synopsis: p.0, ..acc }, p.1)),
            None => None,
        }
    } else if key == "yt_trailer_code"@ {
        match s_val_string(s, vp) {
            Some(p) => Some((MovieV { yt_trailer_code: p.0, ..acc }, p.1)),
            None => None,
        }
    } else if key == "language"@ {
        match s_val_string(s, vp) {
            Some(p) => Some((MovieV { language: p.0, ..acc }, p.1)),
            None => None,
        }
    } else if key == "mpa_rating"@ {
        match s_val_string(s, vp) {
            Some(p) => Some((MovieV { mpa_rating: p.0, ..acc }, p.1)),
            None => None,
        }
    } else if key == "background_image"@ {
        match s_val_string(s, vp) {
            Some(p) => Some((MovieV { background_image: p.0, ..acc }, p.1)),
            None => None,
        }
    } else if key == "background_image_original"@ {
        match s_val_string(s, vp) {
            Some(p) => Some((MovieV { background_image_original: p.0, ..acc }, p.1)),
            None => None,
        }
    } else if key == "small_cover_image"@ {
        match s_val_string(s, vp) {
            Some(p) => Some((MovieV { small_cover_image: p.0, ..acc }, p.1)),
            None => None,
        }
    } else if key == "medium_cover_image"@ {
        match s_val_string(s, vp) {
            Some(p) => Some((MovieV { medium_cover_image: p.0, ..acc }, p.1)),
            None => None,
        }
    } else if key == "large_cover_image"@ {
        match s_val_string(s, vp) {
            Some(p) => Some((MovieV { large_cover_image: p.0, ..acc }, p.1)),
            None => None,
        }
    } else if key == "state"@ {
        match s_val_string(s, vp) {
            Some(p) => Some((MovieV { state: p.0, ..acc }, p.1)),
            None => None,
        }
    } else if key == "torrents"@ {
        match s_val_torrents(s, vp) {
            Some(p) => Some((MovieV { torrents: p.0, ..acc }, p.1)),
            None => None,
        }
    } else if key == "date_uploaded"@ {
        match s_val_string(s, vp) {
            Some(p) => Some((MovieV { date_uploaded: p.0, ..acc }, p.1)),
            None => None,
        }
    } else if key == "date_uploaded_unix"@ {
        match s_val_nanos(s, vp) {
            Some(p) => Some((MovieV { date_uploaded_unix: p.0, ..acc }, p.1)),
            None => None,
        }
    } else {
        match s_skip(s, vp) {
            Some(e) => Some((acc, e)),
            None => None,
        }
    }
}

#[verifier::rlimit(100)]
fn movie_field(v: &Vec<char>, vp: usize, key: &String, acc: Movie) -> (r: Option<(Movie, usize)>)
    requires
        vp <= v@.len(),
    ensures
        match r {
            Some(p) => s_movie_field(v@, vp as int, key@, acc.deep_view()) == Some(
                (p.0.deep_view(), p.1 as int),
            ) && vp < p.1 <= v@.len(),
            None => s_movie_field(v@, vp as int, key@, acc.deep_view()) is None,
        },
{
    proof {
        reveal(s_movie_field);
    }
    let mut m = acc;
    if crate::text::str_eq(key.as_str(), "id") {
        match val_uint(v, vp, 0xFFFF_FFFF) {
            Some((o, e)) => {
                m.id = match o {
                    Some(x) => Some(x as u32),
                    None => None,
                };
                Some((m, e))
            },
            None => None,
        }
    } else if crate::text::str_eq(key.as_str(), "url") {
        match val_url(v, vp) {
            Some((o, e)) => {
                m.url = o;
                Some((m, e))
            },
            None => None,
        }
    } else if crate::text::str_eq(key.as_str(), "imdb_code") {
        match val_string(v, vp) {
            Some((o, e)) => {
                m.imdb_code = o;
                Some((m, e))
            },
            None => None,
        }
    } else if crate::text::str_eq(key.as_str(), "title") {
        match val_string(v, vp) {
            Some((o, e)) => {
                m.title = o;
                Some((m, e))
            },
            None => None,
        }
    } else if crate::text::str_eq(key.as_str(), "title_long") {
        match val_string(v, vp) {
            Some((o, e)) => {
                m.title_long = o;
                Some((m, e))
            },
            None => None,
        }
    } else if crate::text::str_eq(key.as_str(), "year") {
        match val_uint(v, vp, 0xFFFF) {
            Some((o, e)) => {
                m.year = match o {
                    Some(x) => Some(x as u16),
                    None => None,
                };
                Some((m, e))
            },
            None => None,
        }
    } else if crate::text::str_eq(key.as_str(), "rating") {
        match val_tenths(v, vp) {
            Some((o, e)) => {
                m.rating = o;
                Some((m, e))
            },
            None => None,
        }
    } else if crate::text::str_eq(key.as_str(), "runtime") {
        match val_uint(v, vp, 0xFFFF) {
            Some((o, e)) => {
                m.runtime = match o {
                    Some(x) => Some(x as u16),
                    None => None,
                };
                Some((m, e))
            },
            None => None,
        }
    } else if crate::text::str_eq(key.as_str(), "genres") {
        match val_str_arr(v, vp) {
            Some((o, e)) => {
                m.genres = o;
                Some((m, e))
            },
            None => None,
        }
    } else if crate::text::str_eq(key.as_str(), "summary") {
        match val_string(v, vp) {
            Some((o, e)) => {
                m.summary = o;
                Some((m, e))
            },
            None => None,
        }
    } else if crate::text::str_eq(key.as_str(), "description_full") {
        match val_string(v, vp) {
            Some((o, e)) => {
                m.description_full = o;
                Some((m, e))
            },
            None => None,
        }
    } else if crate::text::str_eq(key.as_str(), "synopsis") {
        match val_string(v, vp) {
            Some((o, e)) => {
                m.synopsis = o;
                Some((m, e))
            },
            None => None,
        }
    } else if crate::text::str_eq(key.as_str(), "yt_trailer_code") {
        match val_string(v, vp) {
            Some((o, e)) => {
                m.yt_trailer_code = o;
                Some((m, e))
            },
            None => None,
        }
    } else if crate::text::str_eq(key.as_str(), "language") {
        match val_string(v, vp) {
            Some((o, e)) => {
                m.language = o;
                Some((m, e))
            },
            None => None,
        }
    } else if crate::text::str_eq(key.as_str(), "mpa_rating") {
        match val_string(v, vp) {
            Some((o, e)) => {
                m.mpa_rating = o;
                Some((m, e))
            },
            None => None,
        }
    } else if crate::text::str_eq(key.as_str(), "background_image") {
        match val_string(v, vp) {
            Some((o, e)) => {
                m.background_image = o;
                Some((m, e))
            },
            None => None,
        }
    } else if crate::text::str_eq(key.as_str(), "background_image_original") {
        match val_string(v, vp) {
            Some((o, e)) => {
                m.background_image_original = o;
                Some((m, e))
            },
            None => None,
        }
    } else if crate::text::str_eq(key.as_str(), "small_cover_image") {
        match val_string(v, vp) {
            Some((o, e)) => {
                m.small_cover_image = o;
                Some((m, e))
            },
            None => None,
        }
    } else if crate::text::str_eq(key.as_str(), "medium_cover_image") {
        match val_string(v, vp) {
            Some((o, e)) => {
                m.medium_cover_image = o;
                Some((m, e))
            },
            None => None,
        }
    } else if crate::text::str_eq(key.as_str(), "large_cover_image") {
        match val_string(v, vp) {
            Some((o, e)) => {
                m.large_cover_image = o;
                Some((m, e))
            },
            None => None,
        }
    } else if crate::text::str_eq(key.as_str(), "state") {
        match val_string(v, vp) {
            Some((o, e)) => {
                m.state = o;
                Some((m, e))
            },
            None => None,
        }
    } else if crate::text::str_eq(key.as_str(), "torrents") {
        match val_torrents(v, vp) {
            Some((o, e)) => {
                m.torrents = o;
                Some((m, e))
            },
            None => None,
        }
    } else if crate::text::str_eq(key.as_str(), "date_uploaded") {
        match val_string(v, vp) {
            Some((o, e)) => {
                m.date_uploaded = o;
                Some((m, e))
            },
            None => None,
        }
    } else if crate::text::str_eq(key.as_str(), "date_uploaded_unix") {
        match val_nanos(v, vp) {
            Some((o, e)) => {
                m.date_uploaded_unix = o;
                Some((m, e))
            },
            None => None,
        }
    } else {
        match skip_value(v, vp) {
            Some(e) => Some((m, e)),
            None => None,
        }
    }
}

/// The remaining members of a movie object applied to the model built so
/// far; the closing brace ends it.
pub open spec fn s_movie_members(s: Seq<char>, i: int, acc: MovieV) -> Option<(MovieV, int)>
    decreases s.len() - i,
{
    if !(0 <= i && i <= s.len()) {
        None
    } else {
        let j = s_ws(s, i);
        if !(i <= j && j < s.len()) {
            None
        } else if s[j] != '"' {
            None
        } else {
            match s_str_body(s, j + 1) {
                Some(kp) => {
                    if !(j + 1 < kp.1 && kp.1 <= s.len()) {
                        None
                    } else {
                        let colon = s_ws(s, kp.1);
                        if !(kp.1 <= colon && colon < s.len() && s[colon] == ':') {
                            None
                        } else {
                            let vp = s_ws(s, colon + 1);
                            if !(colon + 1 <= vp && vp <= s.len()) {
                                None
                            } else {
                                match s_movie_field(s, vp, kp.0, acc) {
                                    Some(st) => {
                                        if !(vp < st.1 && st.1 <= s.len()) {
                                            None
                                        } else {
                                            let k = s_ws(s, st.1);
                                            if !(st.1 <= k && k <= s.len()) {
                                                None
                                            } else if k < s.len() && s[k] == '}' {
                                                Some((st.0, k + 1))
                                            } else if k < s.len() && s[k] == ',' {
                                                s_movie_members(s, k + 1, st.0)
                                            } else {
                                                None
                                            }
                                        }
                                    },
                                    None => None,
                                }
                            }
                        }
                    }
                },
                None => None,
            }
        }
    }
}

#[verifier::rlimit(100)]
fn movie_members(v: &Vec<char>, i: usize, acc: Movie) -> (r: Option<(Movie, usize)>)
    requires
        i <= v@.len(),
    ensures
        match r {
            Some(p) => s_movie_members(v@, i as int, acc.deep_view()) == Some(
                (p.0.deep_view(), p.1 as int),
            ) && i < p.1 <= v@.len(),
            None => s_movie_members(v@, i as int, acc.deep_view()) is None,
        },
{
    let ghost s = v@;
    let ghost acc0 = acc.deep_view();
    let mut m = acc;
    let mut cur = i;
    loop
        invariant
            i <= cur <= s.len(),
            s == v@,
            acc0 == acc.deep_view(),
            s_movie_members(s, i as int, acc0) == s_movie_members(s, cur as int, m.deep_view()),
        decreases s.len() - cur,
    {
        let j = ws(v, cur);
        if !(j < v.len() && v[j] == '"') {
            return None;
        }
        match parse_str_body(v, j + 1) {
            Some((kcs, ke)) => {
                let key = chars_to_string(&kcs, 0, kcs.len());
                proof {
                    assert(kcs@.subrange(0, kcs@.len() as int) =~= kcs@);
                }
                let colon = ws(v, ke);
                if !(colon < v.len() && v[colon] == ':') {
                    return None;
                }
                let vp = ws(v, colon + 1);
                match movie_field(v, vp, &key, m) {
                    Some((m2, e)) => {
                        let k = ws(v, e);
                        if k < v.len() && v[k] == '}' {
                            return Some((m2, k + 1));
                        } else if k < v.len() && v[k] == ',' {
                            m = m2;
                            cur = k + 1;
                        } else {
                            return None;
                        }
                    },
                    None => {
                        return None;
                    },
                }
            },
            None => {
                return None;
            },
        }
    }
}

/// A whole movie object starting at its opening brace.
pub open spec fn s_movie(s: Seq<char>, i: int) -> Option<(MovieV, int)> {
    if !(0 <= i && i < s.len() && s[i] == '{') {
        None
    } else {
        let j = s_ws(s, i + 1);
        if !(i + 1 <= j && j <= s.len()) {
            None
        } else if j < s.len() && s[j] == '}' {
            Some((empty_movie(), j + 1))
        } else {
            s_movie_members(s, i + 1, empty_movie())
        }
    }
}

fn parse_movie(v: &Vec<char>, i: usize) -> (r: Option<(Movie, usize)>)
    requires
        i <= v@.len(),
    ensures
        match r {
            Some(p) => s_movie(v@, i as int) == Some((p.0.deep_view(), p.1 as int)) && i < p.1
                <= v@.len(),
            None => s_movie(v@, i as int) is None,
        },
{
    if !(i < v.len() && v[i] == '{') {
        return None;
    }
    let j = ws(v, i + 1);
    if j < v.len() && v[j] == '}' {
        Some((movie_new(), j + 1))
    } else {
        movie_members(v, i + 1, movie_new())
    }
}


/// The remaining elements of a movie array, the ones already read in
/// `acc`; the closing bracket ends it.
pub open spec fn s_movie_elems(s: Seq<char>, i: int, acc: Seq<MovieV>) -> Option<
    (Seq<MovieV>, int),
>
    decreases s.len() - i,
{
    if !(0 <= i && i <= s.len()) {
        None
    } else {
        let j = s_ws(s, i);
        if !(i <= j && j <= s.len()) {
            None
        } else {
            match s_movie(s, j) {
                Some(p) => {
                    if !(j < p.1 && p.1 <= s.len()) {
                        None
                    } else {
                        let k = s_ws(s, p.1);
                        if !(p.1 <= k && k <= s.len()) {
                            None
                        } else if k < s.len() && s[k] == ']' {
                            Some((acc.push(p.0), k + 1))
                        } else if k < s.len() && s[k] == ',' {
                            s_movie_elems(s, k + 1, acc.push(p.0))
                        } else {
                            None
                        }
                    }
                },
                None => None,
            }
        }
    }
}

fn movie_elems(v: &Vec<char>, i: usize, acc: Vec<Movie>) -> (r: Option<(Vec<Movie>, usize)>)
    requires
        i <= v@.len(),
    ensures
        match r {
            Some(p) => s_movie_elems(v@, i as int, acc.deep_view()) == Some(
                (p.0.deep_view(), p.1 as int),
            ) && i < p.1 <= v@.len(),
            None => s_movie_elems(v@, i as int, acc.deep_view()) is None,
        },
{
    let ghost s = v@;
    let ghost acc0 = acc.deep_view();
    let mut a = acc;
    let mut cur = i;
    loop
        invariant
            i <= cur <= s.len(),
            s == v@,
            acc0 == acc.deep_view(),
            s_movie_elems(s, i as int, acc0) == s_movie_elems(s, cur as int, a.deep_view()),
        decreases s.len() - cur,
    {
        let j = ws(v, cur);
        match parse_movie(v, j) {
            Some((m, e)) => {
                let k = ws(v, e);
                let ghost before = a.deep_view();
                a.push(m);
                proof {
                    assert(a.deep_view() =~= before.push(m.deep_view()));
                }
                if k < v.len() && v[k] == ']' {
                    return Some((a, k + 1));
                } else if k < v.len() && v[k] == ',' {
                    cur = k + 1;
                } else {
                    return None;
                }
            },
            None => {
                return None;
            },
        }
    }
}

/// A movie-array-or-null field value.
#[verifier::opaque]
pub open spec fn s_val_movies(s: Seq<char>, i: int) -> Option<(Option<Seq<MovieV>>, int)> {
    if !(0 <= i && i < s.len()) {
        None
    } else if s[i] == 'n' {
        if s_lit4(s, i, 'n', 'u', 'l', 'l') {
            Some((None, i + 4))
        } else {
            None
        }
    } else if s[i] == '[' {
        let j = s_ws(s, i + 1);
        if !(i + 1 <= j && j <= s.len()) {
            None
        } else if j < s.len() && s[j] == ']' {
            Some((Some(Seq::empty()), j + 1))
        } else {
            match s_movie_elems(s, i + 1, Seq::empty()) {
                Some(p) => Some((Some(p.0), p.1)),
                None => None,
            }
        }
    } else {
        None
    }
}

fn val_movies(v: &Vec<char>, i: usize) -> (r: Option<(Option<Vec<Movie>>, usize)>)
    requires
        i <= v@.len(),
    ensures
        match r {
            Some(p) => s_val_movies(v@, i as int) == Some((p.0.deep_view(), p.1 as int)) && i < p.1
                <= v@.len(),
            None => s_val_movies(v@, i as int) is None,
        },
{
    proof {
        reveal(s_val_movies);
    }
    if i >= v.len() {
        return None;
    }
    let c = v[i];
    if c == 'n' {
        if v.len() - i >= 4 && v[i + 1] == 'u' && v[i + 2] == 'l' && v[i + 3] == 'l' {
            Some((None, i + 4))
        } else {
            None
        }
    } else if c == '[' {
        let j = ws(v, i + 1);
        if j < v.len() && v[j] == ']' {
            let out: Vec<Movie> = Vec::new();
            assert(out.deep_view() =~= Seq::<MovieV>::empty());
            Some((Some(out), j + 1))
        } else {
            let seed: Vec<Movie> = Vec::new();
            assert(seed.deep_view() =~= Seq::<MovieV>::empty());
            match movie_elems(v, i + 1, seed) {
                Some((out, e)) => Some((Some(out), e)),
                None => None,
            }
        }
    } else {
        None
    }
}

/// One recognized key-value pair of the pagination envelope applied to the
/// model built so far; an unrecognized key has its value skipped.
#[verifier::opaque]
pub open spec fn s_data_field(s: Seq<char>, vp: int, key: Seq<char>, acc: DataV) -> Option<
    (DataV, int),
> {
    if key == "movie_count"@ {
        match s_val_uint(s, vp, 0xFFFF_FFFF_FFFF_FFFF) {
            Some(p) => Some((DataV { movie_count: p.0, ..acc }, p.1)),
            None => None,
        }
    } else if key == "limit"@ {
        match s_val_uint(s, vp, 0xFFFF_FFFF) {
            Some(p) => Some(
                (
                    DataV {
                        limit: match p.0 {
                            Some(x) => Some(x as u32),
                            None => None,
                        },
                        ..acc
                    },
                    p.1,
                ),
            ),
            None => None,
        }
    } else if key == "page_number"@ {
        match s_val_uint(s, vp, 0xFFFF_FFFF) {
            Some(p) => Some(
                (
                    DataV {
                        page_number: match p.0 {
                            Some(x) => Some(x as u32),
                            None => None,
                        },
                        ..acc
                    },
                    p.1,
                ),
            ),
            None => None,
        }
    } else if key == "movies"@ {
        match s_val_movies(s, vp) {
            Some(p) => Some((DataV { movies: p.0, ..acc }, p.1)),
            None => None,
        }
    } else {
        match s_skip(s, vp) {
            Some(e) => Some((acc, e)),
            None => None,
        }
    }
}

fn data_field(v: &Vec<char>, vp: usize, key: &String, acc: Data) -> (r: Option<(Data, usize)>)
    requires
        vp <= v@.len(),
    ensures
        match r {
            Some(p) => s_data_field(v@, vp as int, key@, acc.deep_view()) == Some(
                (p.0.deep_view(), p.1 as int),
            ) && vp < p.1 <= v@.len(),
            None => s_data_field(v@, vp as int, key@, acc.deep_view()) is None,
        },
{
    proof {
        reveal(s_data_field);
    }
    let mut d = acc;
    if crate::text::str_eq(key.as_str(), "movie_count") {
        match val_uint(v, vp, 0xFFFF_FFFF_FFFF_FFFF) {
            Some((o, e)) => {
                d.movie_count = o;
                Some((d, e))
            },
            None => None,
        }
    } else if crate::text::str_eq(key.as_str(), "limit") {
        match val_uint(v, vp, 0xFFFF_FFFF) {
            Some((o, e)) => {
                d.limit = match o {
                    Some(x) => Some(x as u32),
                    None => None,
                };
                Some((d, e))
            },
            None => None,
        }
    } else if crate::text::str_eq(key.as_str(), "page_number") {
        match val_uint(v, vp, 0xFFFF_FFFF) {
            Some((o, e)) => {
                d.page_number = match o {
                    Some(x) => Some(x as u32),
                    None => None,
                };
                Some((d, e))
            },
            None => None,
        }
    } else if crate::text::str_eq(key.as_str(), "movies") {
        match val_movies(v, vp) {
            Some((o, e)) => {
                d.movies = o;
                Some((d, e))
            },
            None => None,
        }
    } else {
        match skip_value(v, vp) {
            Some(e) => Some((d, e)),
            None => None,
        }
    }
}

/// The remaining members of the pagination envelope applied to the model
/// built so far; the closing brace ends it.
pub open spec fn s_data_members(s: Seq<char>, i: int, acc: DataV) -> Option<(DataV, int)>
    decreases s.len() - i,
{
    if !(0 <= i && i <= s.len()) {
        None
    } else {
        let j = s_ws(s, i);
        if !(i <= j && j < s.len()) {
            None
        } else if s[j] != '"' {
            None
        } else {
            match s_str_body(s, j + 1) {
                Some(kp) => {
                    if !(j + 1 < kp.1 && kp.1 <= s.len()) {
                        None
                    } else {
                        let colon = s_ws(s, kp.1);
                        if !(kp.1 <= colon && colon < s.len() && s[colon] == ':') {
                            None
                        } else {
                            let vp = s_ws(s, colon + 1);
                            if !(colon + 1 <= vp && vp <= s.len()) {
                                None
                            } else {
                                match s_data_field(s, vp, kp.0, acc) {
                                    Some(st) => {
                                        if !(vp < st.1 && st.1 <= s.len()) {
                                            None
                                        } else {
                                            let k = s_ws(s, st.1);
                                            if !(st.1 <= k && k <= s.len()) {
                                                None
                                            } else if k < s.len() && s[k] == '}' {
                                                Some((st.0, k + 1))
                                            } else if k < s.len() && s[k] == ',' {
                                                s_data_members(s, k + 1, st.0)
                                            } else {
                                                None
                                            }
                                        }
                                    },
                                    None => None,
                                }
                            }
                        }
                    }
                },
                None => None,
            }
        }
    }
}

#[verifier::rlimit(100)]
fn data_members(v: &Vec<char>, i: usize, acc: Data) -> (r: Option<(Data, usize)>)
    requires
        i <= v@.len(),
    ensures
        match r {
            Some(p) => s_data_members(v@, i as int, acc.deep_view()) == Some(
                (p.0.deep_view(), p.1 as int),
            ) && i < p.1 <= v@.len(),
            None => s_data_members(v@, i as int, acc.deep_view()) is None,
        },
{
    let ghost s = v@;
    let ghost acc0 = acc.deep_view();
    let mut d = acc;
    let mut cur = i;
    loop
        invariant
            i <= cur <= s.len(),
            s == v@,
            acc0 == acc.deep_view(),
            s_data_members(s, i as int, acc0) == s_data_members(s, cur as int, d.deep_view()),
        decreases s.len() - cur,
    {
        let j = ws(v, cur);
        if !(j < v.len() && v[j] == '"') {
            return None;
        }
        match parse_str_body(v, j + 1) {
            Some((kcs, ke)) => {
                let key = chars_to_string(&kcs, 0, kcs.len());
                proof {
                    assert(kcs@.subrange(0, kcs@.len() as int) =~= kcs@);
                }
                let colon = ws(v, ke);
                if !(colon < v.len() && v[colon] == ':') {
                    return None;
                }
                let vp = ws(v, colon + 1);
                match data_field(v, vp, &key, d) {
                    Some((d2, e)) => {
                        let k = ws(v, e);
                        if k < v.len() && v[k] == '}' {
                            return Some((d2, k + 1));
                        } else if k < v.len() && v[k] == ',' {
                            d = d2;
                            cur = k + 1;
                        } else {
                            return None;
                        }
                    },
                    None => {
                        return None;
                    },
                }
            },
            None => {
                return None;
            },
        }
    }
}

/// A whole pagination envelope starting at its opening brace.
pub open spec fn s_data(s: Seq<char>, i: int) -> Option<(DataV, int)> {
    if !(0 <= i && i < s.len() && s[i] == '{') {
        None
    } else {
        let j = s_ws(s, i + 1);
        if !(i + 1 <= j && j <= s.len()) {
            None
        } else if j < s.len() && s[j] == '}' {
            Some((empty_data(), j + 1))
        } else {
            s_data_members(s, i + 1, empty_data())
        }
    }
}

fn parse_data(v: &Vec<char>, i: usize) -> (r: Option<(Data, usize)>)
    requires
        i <= v@.len(),
    ensures
        match r {
            Some(p) => s_data(v@, i as int) == Some((p.0.deep_view(), p.1 as int)) && i < p.1
                <= v@.len(),
            None => s_data(v@, i as int) is None,
        },
{
    if !(i < v.len() && v[i] == '{') {
        return None;
    }
    let j = ws(v, i + 1);
    if j < v.len() && v[j] == '}' {
        Some((data_new(), j + 1))
    } else {
        data_members(v, i + 1, data_new())
    }
}

/// One recognized key-value pair of the metadata block applied to the
/// model built so far; an unrecognized key has its value skipped.
#[verifier::opaque]
pub open spec fn s_meta_field(s: Seq<char>, vp: int, key: Seq<char>, acc: MetaV) -> Option<
    (MetaV, int),
> {
    if key == "server_time"@ {
        match s_val_nanos(s, vp) {
            Some(p) => Some((MetaV { server_time: p.0, ..acc }, p.1)),
            None => None,
        }
    } else if key == "server_timezone"@ {
        match s_val_string(s, vp) {
            Some(p) => Some((MetaV { server_timezone: p.0, ..acc }, p.1)),
            None => None,
        }
    } else if key == "api_version"@ {
        match s_val_uint(s, vp, 0xFF) {
            Some(p) => Some(
                (
                    MetaV {
                        api_version: match p.0 {
                            Some(x) => Some(x as u8),
                            None => None,
                        },
                        ..acc
                    },
                    p.1,
                ),
            ),
            None => None,
        }
    } else if key == "execution_time"@ {
        match s_val_string(s, vp) {
            Some(p) => Some((MetaV { execution_time: p.0, ..acc }, p.1)),
            None => None,
        }
    } else {
        match s_skip(s, vp) {
            Some(e) => Some((acc, e)),
            None => None,
        }
    }
}

fn meta_field(v: &Vec<char>, vp: usize, key: &String, acc: Meta) -> (r: Option<(Meta, usize)>)
    requires
        vp <= v@.len(),
    ensures
        match r {
            Some(p) => s_meta_field(v@, vp as int, key@, acc.deep_view()) == Some(
                (p.0.deep_view(), p.1 as int),
            ) && vp < p.1 <= v@.len(),
            None => s_meta_field(v@, vp as int, key@, acc.deep_view()) is None,
        },
{
    proof {
        reveal(s_meta_field);
    }
    let mut m = acc;
    if crate::text::str_eq(key.as_str(), "server_time") {
        match val_nanos(v, vp) {
            Some((o, e)) => {
                m.server_time = o;
                Some((m, e))
            },
            None => None,
        }
    } else if crate::text::str_eq(key.as_str(), "server_timezone") {
        match val_string(v, vp) {
            Some((o, e)) => {
                m.server_timezone = o;
                Some((m, e))
            },
            None => None,
        }
    } else if crate::text::str_eq(key.as_str(), "api_version") {
        match val_uint(v, vp, 0xFF) {
            Some((o, e)) => {
                m.api_version = match o {
                    Some(x) => Some(x as u8),
                    None => None,
                };
                Some((m, e))
            },
            None => None,
        }
    } else if crate::text::str_eq(key.as_str(), "execution_time") {
        match val_string(v, vp) {
            Some((o, e)) => {
                m.execution_time = o;
                Some((m, e))
            },
            None => None,
        }
    } else {
        match skip_value(v, vp) {
            Some(e) => Some((m, e)),
            None => None,
        }
    }
}

/// The remaining members of the metadata block applied to the model built
/// so far; the closing brace ends it.
pub open spec fn s_meta_members(s: Seq<char>, i: int, acc: MetaV) -> Option<(MetaV, int)>
    decreases s.len() - i,
{
    if !(0 <= i && i <= s.len()) {
        None
    } else {
        let j = s_ws(s, i);
        if !(i <= j && j < s.len()) {
            None
        } else if s[j] != '"' {
            None
        } else {
            match s_str_body(s, j + 1) {
                Some(kp) => {
                    if !(j + 1 < kp.1 && kp.1 <= s.len()) {
                        None
                    } else {
                        let colon = s_ws(s, kp.1);
                        if !(kp.1 <= colon && colon < s.len() && s[colon] == ':') {
                            None
                        } else {
                            let vp = s_ws(s, colon + 1);
                            if !(colon + 1 <= vp && vp <= s.len()) {
                                None
                            } else {
                                match s_meta_field(s, vp, kp.0, acc) {
                                    Some(st) => {
                                        if !(vp < st.1 && st.1 <= s.len()) {
                                            None
                                        } else {
                                            let k = s_ws(s, st.1);
                                            if !(st.1 <= k && k <= s.len()) {
                                                None
                                            } else if k < s.len() && s[k] == '}' {
                                                Some((st.0, k + 1))
                                            } else if k < s.len() && s[k] == ',' {
                                                s_meta_members(s, k + 1, st.0)
                                            } else {
                                                None
                                            }
                                        }
                                    },
                                    None => None,
                                }
                            }
                        }
                    }
                },
                None => None,
            }
        }
    }
}

#[verifier::rlimit(100)]
fn meta_members(v: &Vec<char>, i: usize, acc: Meta) -> (r: Option<(Meta, usize)>)
    requires
        i <= v@.len(),
    ensures
        match r {
            Some(p) => s_meta_members(v@, i as int, acc.deep_view()) == Some(
                (p.0.deep_view(), p.1 as int),
            ) && i < p.1 <= v@.len(),
            None => s_meta_members(v@, i as int, acc.deep_view()) is None,
        },
{
    let ghost s = v@;
    let ghost acc0 = acc.deep_view();
    let mut m = acc;
    let mut cur = i;
    loop
        invariant
            i <= cur <= s.len(),
            s == v@,
            acc0 == acc.deep_view(),
            s_meta_members(s, i as int, acc0) == s_meta_members(s, cur as int, m.deep_view()),
        decreases s.len() - cur,
    {
        let j = ws(v, cur);
        if !(j < v.len() && v[j] == '"') {
            return None;
        }
        match parse_str_body(v, j + 1) {
            Some((kcs, ke)) => {
                let key = chars_to_string(&kcs, 0, kcs.len());
                proof {
                    assert(kcs@.subrange(0, kcs@.len() as int) =~= kcs@);
                }
                let colon = ws(v, ke);
                if !(colon < v.len() && v[colon] == ':') {
                    return None;
                }
                let vp = ws(v, colon + 1);
                match meta_field(v, vp, &key, m) {
                    Some((m2, e)) => {
                        let k = ws(v, e);
                        if k < v.len() && v[k] == '}' {
                            return Some((m2, k + 1));
                        } else if k < v.len() && v[k] == ',' {
                            m = m2;
                            cur = k + 1;
                        } else {
                            return None;
                        }
                    },
                    None => {
                        return None;
                    },
                }
            },
            None => {
                return None;
            },
        }
    }
}

/// A whole metadata block starting at its opening brace.
pub open spec fn s_meta(s: Seq<char>, i: int) -> Option<(MetaV, int)> {
    if !(0 <= i && i < s.len() && s[i] == '{') {
        None
    } else {
        let j = s_ws(s, i + 1);
        if !(i + 1 <= j && j <= s.len()) {
            None
        } else if j < s.len() && s[j] == '}' {
            Some((empty_meta(), j + 1))
        } else {
            s_meta_members(s, i + 1, empty_meta())
        }
    }
}

fn parse_meta(v: &Vec<char>, i: usize) -> (r: Option<(Meta, usize)>)
    requires
        i <= v@.len(),
    ensures
        match r {
            Some(p) => s_meta(v@, i as int) == Some((p.0.deep_view(), p.1 as int)) && i < p.1
                <= v@.len(),
            None => s_meta(v@, i as int) is None,
        },
{
    if !(i < v.len() && v[i] == '{') {
        return None;
    }
    let j = ws(v, i + 1);
    if j < v.len() && v[j] == '}' {
        Some((meta_new(), j + 1))
    } else {
        meta_members(v, i + 1, meta_new())
    }
}

/// One recognized key-value pair of the top-level response applied to the
/// model built so far; an unrecognized key has its value skipped.
#[verifier::opaque]
pub open spec fn s_resp_field(s: Seq<char>, vp: int, key: Seq<char>, acc: ListResponseV) -> Option<
    (ListResponseV, int),
> {
    if key == "status"@ {
        match s_val_string(s, vp) {
            Some(p) => Some((ListResponseV { status: p.0, ..acc }, p.1)),
            None => None,
        }
    } else if key == "status_message"@ {
        match s_val_string(s, vp) {
            Some(p) => Some((ListResponseV { status_message: p.0, ..acc }, p.1)),
            None => None,
        }
    } else if key == "data"@ {
        if !(0 <= vp && vp < s.len()) {
            None
        } else if s[vp] == 'n' {
            if s_lit4(s, vp, 'n', 'u', 'l', 'l') {
                Some((ListResponseV { data: None, ..acc }, vp + 4))
            } else {
                None
            }
        } else {
            match s_data(s, vp) {
                Some(p) => Some((ListResponseV { data: Some(p.0), ..acc }, p.1)),
                None => None,
            }
        }
    } else if key == "@meta"@ {
        if !(0 <= vp && vp < s.len()) {
            None
        } else if s[vp] == 'n' {
            if s_lit4(s, vp, 'n', 'u', 'l', 'l') {
                Some((ListResponseV { meta: None, ..acc }, vp + 4))
            } else {
                None
            }
        } else {
            match s_meta(s, vp) {
                Some(p) => Some((ListResponseV { meta: Some(p.0), ..acc }, p.1)),
                None => None,
            }
        }
    } else {
        match s_skip(s, vp) {
            Some(e) => Some((acc, e)),
            None => None,
        }
    }
}

fn resp_field(v: &Vec<char>, vp: usize, key: &String, acc: ListResponse) -> (r: Option<
    (ListResponse, usize),
>)
    requires
        vp <= v@.len(),
    ensures
        match r {
            Some(p) => s_resp_field(v@, vp as int, key@, acc.deep_view()) == Some(
                (p.0.deep_view(), p.1 as int),
            ) && vp < p.1 <= v@.len(),
            None => s_resp_field(v@, vp as int, key@, acc.deep_view()) is None,
        },
{
    proof {
        reveal(s_resp_field);
    }
    let mut resp = acc;
    if crate::text::str_eq(key.as_str(), "status") {
        match val_string(v, vp) {
            Some((o, e)) => {
                resp.status = o;
                Some((resp, e))
            },
            None => None,
        }
    } else if crate::text::str_eq(key.as_str(), "status_message") {
        match val_string(v, vp) {
            Some((o, e)) => {
                resp.status_message = o;
                Some((resp, e))
            },
            None => None,
        }
    } else if crate::text::str_eq(key.as_str(), "data") {
        if vp >= v.len() {
            return None;
        }
        if v[vp] == 'n' {
            if v.len() - vp >= 4 && v[vp + 1] == 'u' && v[vp + 2] == 'l' && v[vp + 3] == 'l' {
                resp.data = None;
                Some((resp, vp + 4))
            } else {
                None
            }
        } else {
            match parse_data(v, vp) {
                Some((d, e)) => {
                    resp.data = Some(d);
                    Some((resp, e))
                },
                None => None,
            }
        }
    } else if crate::text::str_eq(key.as_str(), "@meta") {
        if vp >= v.len() {
            return None;
        }
        if v[vp] == 'n' {
            if v.len() - vp >= 4 && v[vp + 1] == 'u' && v[vp + 2] == 'l' && v[vp + 3] == 'l' {
                resp.meta = None;
                Some((resp, vp + 4))
            } else {
                None
            }
        } else {
            match parse_meta(v, vp) {
                Some((m, e)) => {
                    resp.meta = Some(m);
                    Some((resp, e))
                },
                None => None,
            }
        }
    } else {
        match skip_value(v, vp) {
            Some(e) => Some((resp, e)),
            None => None,
        }
    }
}

/// The remaining members of the top-level response applied to the model
/// built so far; the closing brace ends it.
pub open spec fn s_resp_members(s: Seq<char>, i: int, acc: ListResponseV) -> Option<
    (ListResponseV, int),
>
    decreases s.len() - i,
{
    if !(0 <= i && i <= s.len()) {
        None
    } else {
        let j = s_ws(s, i);
        if !(i <= j && j < s.len()) {
            None
        } else if s[j] != '"' {
            None
        } else {
            match s_str_body(s, j + 1) {
                Some(kp) => {
                    if !(j + 1 < kp.1 && kp.1 <= s.len()) {
                        None
                    } else {
                        let colon = s_ws(s, kp.1);
                        if !(kp.1 <= colon && colon < s.len() && s[colon] == ':') {
                            None
                        } else {
                            let vp = s_ws(s, colon + 1);
                            if !(colon + 1 <= vp && vp <= s.len()) {
                                None
                            } else {
                                match s_resp_field(s, vp, kp.0, acc) {
                                    Some(st) => {
                                        if !(vp < st.1 && st.1 <= s.len()) {
                                            None
                                        } else {
                                            let k = s_ws(s, st.1);
                                            if !(st.1 <= k && k <= s.len()) {
                                                None
                                            } else if k < s.len() && s[k] == '}' {
                                                Some((st.0, k + 1))
                                            } else if k < s.len() && s[k] == ',' {
                                                s_resp_members(s, k + 1, st.0)
                                            } else {
                                                None
                                            }
                                        }
                                    },
                                    None => None,
                                }
                            }
                        }
                    }
                },
                None => None,
            }
        }
    }
}

#[verifier::rlimit(100)]
fn resp_members(v: &Vec<char>, i: usize, acc: ListResponse) -> (r: Option<(ListResponse, usize)>)
    requires
        i <= v@.len(),
    ensures
        match r {
            Some(p) => s_resp_members(v@, i as int, acc.deep_view()) == Some(
                (p.0.deep_view(), p.1 as int),
            ) && i < p.1 <= v@.len(),
            None => s_resp_members(v@, i as int, acc.deep_view()) is None,
        },
{
    let ghost s = v@;
    let ghost acc0 = acc.deep_view();
    let mut resp = acc;
    let mut cur = i;
    loop
        invariant
            i <= cur <= s.len(),
            s == v@,
            acc0 == acc.deep_view(),
            s_resp_members(s, i as int, acc0) == s_resp_members(s, cur as int, resp.deep_view()),
        decreases s.len() - cur,
    {
        let j = ws(v, cur);
        if !(j < v.len() && v[j] == '"') {
            return None;
        }
        match parse_str_body(v, j + 1) {
            Some((kcs, ke)) => {
                let key = chars_to_string(&kcs, 0, kcs.len());
                proof {
                    assert(kcs@.subrange(0, kcs@.len() as int) =~= kcs@);
                }
                let colon = ws(v, ke);
                if !(colon < v.len() && v[colon] == ':') {
                    return None;
                }
                let vp = ws(v, colon + 1);
                match resp_field(v, vp, &key, resp) {
                    Some((r2, e)) => {
                        let k = ws(v, e);
                        if k < v.len() && v[k] == '}' {
                            return Some((r2, k + 1));
                        } else if k < v.len() && v[k] == ',' {
                            resp = r2;
                            cur = k + 1;
                        } else {
                            return None;
                        }
                    },
                    None => {
                        return None;
                    },
                }
            },
            None => {
                return None;
            },
        }
    }
}

/// A whole response object starting at its opening brace.
pub open spec fn s_response(s: Seq<char>, i: int) -> Option<(ListResponseV, int)> {
    if !(0 <= i && i < s.len() && s[i] == '{') {
        None
    } else {
        let j = s_ws(s, i + 1);
        if !(i + 1 <= j && j <= s.len()) {
            None
        } else if j < s.len() && s[j] == '}' {
            Some((empty_response(), j + 1))
        } else {
            s_resp_members(s, i + 1, empty_response())
        }
    }
}

fn parse_response(v: &Vec<char>, i: usize) -> (r: Option<(ListResponse, usize)>)
    requires
        i <= v@.len(),
    ensures
        match r {
            Some(p) => s_response(v@, i as int) == Some((p.0.deep_view(), p.1 as int)) && i < p.1
                <= v@.len(),
            None => s_response(v@, i as int) is None,
        },
{
    if !(i < v.len() && v[i] == '{') {
        return None;
    }
    let j = ws(v, i + 1);
    if j < v.len() && v[j] == '}' {
        Some((response_new(), j + 1))
    } else {
        resp_members(v, i + 1, response_new())
    }
}

/// A payload the decoder rejects: not a single well-formed JSON object.
#[derive(Clone, Copy, Debug, PartialEq, Eq, Structural)]
pub enum DecodeError {
    Malformed,
}

/// What the whole text decodes to: one response object, with nothing but
/// white space around it.
pub open spec fn s_decode(s: Seq<char>) -> Option<ListResponseV> {
    let i = s_ws(s, 0);
    if !(0 <= i && i <= s.len()) {
        None
    } else {
        match s_response(s, i) {
            Some(p) => {
                if s_ws(s, p.1) == s.len() {
                    Some(p.0)
                } else {
                    None
                }
            },
            None => None,
        }
    }
}

/// Decodes a listing payload. Succeeds exactly on text that is one
/// well-formed JSON object with only white space around it, whatever
/// fields it carries; a recognized field of the wrong shape fails, an
/// unrecognized one is ignored, and an absent or `null` field stays
/// unset in the model.
pub fn decode_list(text: &str) -> (r: Result<ListResponse, DecodeError>)
    ensures
        match r {
            Ok(resp) => s_decode(text@) == Some(resp.deep_view()),
            Err(_) => s_decode(text@) is None,
        },
{
    let v = crate::text::str_to_chars(text);
    let i = ws(&v, 0);
    match parse_response(&v, i) {
        Some((resp, e)) => {
            let k = ws(&v, e);
            if k == v.len() {
                Ok(resp)
            } else {
                Err(DecodeError::Malformed)
            }
        },
        None => Err(DecodeError::Malformed),
    }
}

/// Decodes a listing payload from text: the same outcome as
/// `decode_list`, under the name callers of the original entry point use.
pub fn from_str(data: &str) -> (r: Result<ListResponse, DecodeError>)
    ensures
        match r {
            Ok(resp) => s_decode(data@) == Some(resp.deep_view()),
            Err(_) => s_decode(data@) is None,
        },
{
    decode_list(data)
}

/// Law: decoding is pure and deterministic: whatever two decodes of the
/// same text return, they agree, so decoding the same bytes twice yields
/// structurally equal models.
pub proof fn lemma_decode_deterministic(
    s: Seq<char>,
    r1: Option<ListResponseV>,
    r2: Option<ListResponseV>,
)
    requires
        r1 == s_decode(s),
        r2 == s_decode(s),
    ensures
        r1 == r2,
{
}


/// Which descriptive text of a movie to read.
#[derive(Clone, Copy, Debug, PartialEq, Eq, Structural)]
pub enum MovieDescription {
    Summary,
    Description,
    Synopsis,
}

/// What `str::to_lowercase` returns for the given characters.
pub uninterp spec fn lower_of(s: Seq<char>) -> Seq<char>;

/// Relies on `str::to_lowercase`: the lower-case form of the text, a
/// function of the characters alone.
#[verifier::external_body]
fn lowercase(s: &str) -> (r: String)
    ensures
        r@ == lower_of(s@),
{
    s.to_lowercase()
}

pub open spec fn spec_get_id(m: MovieV) -> Seq<char> {
    match m.id {
        Some(id) => if id > 0 {
            spec_dec(id as nat)
        } else {
            Seq::empty()
        },
        None => Seq::empty(),
    }
}

pub open spec fn spec_get_rating(m: MovieV) -> Seq<char> {
    match m.rating {
        Some(t) => if t > 0 {
            spec_dec((t / 10) as nat) + "."@ + spec_dec((t % 10) as nat)
        } else {
            Seq::empty()
        },
        None => Seq::empty(),
    }
}

/// Pads with trailing spaces up to a width of four.
pub open spec fn spec_pad4(d: Seq<char>) -> Seq<char>
    decreases (if d.len() < 4 {
        4 - d.len()
    } else {
        0
    }),
{
    if d.len() >= 4 {
        d
    } else {
        spec_pad4(d.push(' '))
    }
}

pub open spec fn spec_get_year(m: MovieV) -> Seq<char> {
    match m.year {
        Some(y) => if y > 0 {
            spec_pad4(spec_dec(y as nat))
        } else {
            Seq::empty()
        },
        None => Seq::empty(),
    }
}

pub open spec fn spec_get_title(m: MovieV) -> Seq<char> {
    match m.title {
        Some(t) => t,
        None => "???"@,
    }
}

pub open spec fn spec_get_title_long(m: MovieV) -> Seq<char> {
    match m.title_long {
        Some(t) => t,
        None => Seq::empty(),
    }
}

pub open spec fn spec_get_url(m: MovieV) -> Seq<char> {
    match m.url {
        Some(u) => u,
        None => Seq::empty(),
    }
}

pub open spec fn spec_get_youtube(m: MovieV) -> Seq<char> {
    match m.yt_trailer_code {
        Some(c) => if c.len() > 0 {
            "https://www.youtube.com/watch?v="@ + c
        } else {
            Seq::empty()
        },
        None => Seq::empty(),
    }
}

pub open spec fn spec_get_imdb(m: MovieV) -> Seq<char> {
    match m.imdb_code {
        Some(c) => if c.len() > 0 {
            "https://www.imdb.com/title/"@ + c + "/"@
        } else {
            Seq::empty()
        },
        None => Seq::empty(),
    }
}

/// The genres in lower case, joined by a comma and a space.
pub open spec fn spec_genres_join(gs: Seq<Seq<char>>) -> Seq<char>
    decreases gs.len(),
{
    if gs.len() == 0 {
        Seq::empty()
    } else if gs.len() == 1 {
        lower_of(gs.first())
    } else {
        lower_of(gs.first()) + ", "@ + spec_genres_join(gs.drop_first())
    }
}

proof fn lemma_genres_join_push(gs: Seq<Seq<char>>, g: Seq<char>)
    ensures
        spec_genres_join(gs.push(g)) == (if gs.len() == 0 {
            lower_of(g)
        } else {
            spec_genres_join(gs) + ", "@ + lower_of(g)
        }),
    decreases gs.len(),
{
    let t = gs.push(g);
    if gs.len() == 0 {
        assert(t.len() == 1);
        assert(t.first() == g);
    } else {
        assert(t.first() == gs.first());
        assert(t.drop_first() =~= gs.drop_first().push(g));
        lemma_genres_join_push(gs.drop_first(), g);
        if gs.len() == 1 {
            assert(spec_genres_join(t) == lower_of(gs.first()) + ", "@ + lower_of(g));
        } else {
            assert(spec_genres_join(t) == lower_of(gs.first()) + ", "@ + (spec_genres_join(
                gs.drop_first(),
            ) + ", "@ + lower_of(g)));
            assert(spec_genres_join(t) =~= spec_genres_join(gs) + ", "@ + lower_of(g));
        }
    }
}

pub open spec fn spec_get_genres(m: MovieV) -> Seq<char> {
    match m.genres {
        Some(gs) => spec_genres_join(gs),
        None => Seq::empty(),
    }
}

pub open spec fn spec_get_text(m: MovieV, which: MovieDescription) -> Seq<char> {
    match which {
        MovieDescription::Summary => match m.summary {
            Some(t) => t,
            None => Seq::empty(),
        },
        MovieDescription::Description => match m.description_full {
            Some(t) => t,
            None => Seq::empty(),
        },
        MovieDescription::Synopsis => match m.synopsis {
            Some(t) => t,
            None => Seq::empty(),
        },
    }
}

impl Movie {
    /// The text form of the id; empty when absent or zero.
    pub fn get_id(&self) -> (r: String)
        ensures
            r@ == spec_get_id(self.deep_view()),
    {
        match self.id {
            Some(id) => if id > 0 {
                u64_to_string(id as u64)
            } else {
                String::new()
            },
            None => String::new(),
        }
    }

    /// The text form of the rating, with one fractional digit; empty when
    /// absent or zero.
    pub fn get_rating(&self) -> (r: String)
        ensures
            r@ == spec_get_rating(self.deep_view()),
    {
        match self.rating {
            Some(t) => {
                if t > 0 {
                    let mut out = u64_to_string((t / 10) as u64);
                    out.append(".");
                    let frac = u64_to_string((t % 10) as u64);
                    out.append(frac.as_str());
                    out
                } else {
                    String::new()
                }
            },
            None => String::new(),
        }
    }

    /// The text form of the year, padded to four places with trailing
    /// spaces; empty when absent or zero.
    pub fn get_year(&self) -> (r: String)
        ensures
            r@ == spec_get_year(self.deep_view()),
    {
        match self.year {
            Some(y) => {
                if y > 0 {
                    let mut out = u64_to_string(y as u64);
                    loop
                        invariant
                            self.deep_view().year == Some(y),
                            y > 0,
                            spec_pad4(out@) == spec_pad4(spec_dec(y as nat)),
                        decreases (if out@.len() < 4 {
                            4 - out@.len()
                        } else {
                            0int
                        }),
                    {
                        let n = out.as_str().unicode_len();
                        if n >= 4 {
                            return out;
                        }
                        crate::text::push_char(&mut out, ' ');
                    }
                } else {
                    String::new()
                }
            },
            None => String::new(),
        }
    }

    /// The title, or a placeholder when absent.
    pub fn get_title(&self) -> (r: String)
        ensures
            r@ == spec_get_title(self.deep_view()),
    {
        match &self.title {
            Some(t) => t.clone(),
            None => String::from_str("???"),
        }
    }

    /// The long title; empty when absent.
    pub fn get_title_long(&self) -> (r: String)
        ensures
            r@ == spec_get_title_long(self.deep_view()),
    {
        match &self.title_long {
            Some(t) => t.clone(),
            None => String::new(),
        }
    }

    /// The catalog page address; empty when absent.
    pub fn get_url(&self) -> (r: String)
        ensures
            r@ == spec_get_url(self.deep_view()),
    {
        match &self.url {
            Some(u) => u.clone(),
            None => String::new(),
        }
    }

    /// The trailer address built from the trailer code; empty when the
    /// code is absent or empty.
    pub fn get_youtube(&self) -> (r: String)
        ensures
            r@ == spec_get_youtube(self.deep_view()),
    {
        match &self.yt_trailer_code {
            Some(c) => {
                if c.as_str().is_empty() {
                    String::new()
                } else {
                    let mut out = String::from_str("https://www.youtube.com/watch?v=");
                    out.append(c.as_str());
                    out
                }
            },
            None => String::new(),
        }
    }

    /// The review-site address built from the movie code; empty when the
    /// code is absent or empty.
    pub fn get_imdb(&self) -> (r: String)
        ensures
            r@ == spec_get_imdb(self.deep_view()),
    {
        match &self.imdb_code {
            Some(c) => {
                if c.as_str().is_empty() {
                    String::new()
                } else {
                    let mut out = String::from_str("https://www.imdb.com/title/");
                    out.append(c.as_str());
                    out.append("/");
                    out
                }
            },
            None => String::new(),
        }
    }

    /// The genres in lower case, joined by a comma and a space; empty when
    /// absent.
    pub fn get_genres(&self) -> (r: String)
        ensures
            r@ == spec_get_genres(self.deep_view()),
    {
        match &self.genres {
            Some(gs) => {
                let ghost gv = gs.deep_view();
                let mut out = String::new();
                let mut i: usize = 0;
                while i < gs.len()
                    invariant
                        0 <= i <= gv.len(),
                        gv == gs.deep_view(),
                        gv.len() == gs@.len(),
                        out@ == spec_genres_join(gv.take(i as int)),
                    decreases gv.len() - i,
                {
                    proof {
                        lemma_genres_join_push(gv.take(i as int), gv[i as int]);
                        assert(gv.take(i as int).push(gv[i as int]) =~= gv.take(i as int + 1));
                    }
                    if i > 0 {
                        out.append(", ");
                    }
                    let lw = lowercase(gs[i].as_str());
                    out.append(lw.as_str());
                    proof {
                        if i > 0 {
                            assert(out@ =~= spec_genres_join(gv.take(i as int)) + ", "@ + lower_of(
                                gv[i as int],
                            ));
                        }
                    }
                    i = i + 1;
                }
                proof {
                    assert(gv.take(gv.len() as int) =~= gv);
                }
                out
            },
            None => String::new(),
        }
    }

    /// One of the three descriptive texts; empty when absent.
    pub fn get_text(&self, description_type: MovieDescription) -> (r: String)
        ensures
            r@ == spec_get_text(self.deep_view(), description_type),
    {
        match description_type {
            MovieDescription::Summary => match &self.summary {
                Some(t) => t.clone(),
                None => String::new(),
            },
            MovieDescription::Description => match &self.description_full {
                Some(t) => t.clone(),
                None => String::new(),
            },
            MovieDescription::Synopsis => match &self.synopsis {
                Some(t) => t.clone(),
                None => String::new(),
            },
        }
    }
}


/// Whether the member list starting at `i`, as the movie parser walks it,
/// names the given key. Only meaningful where the parse succeeds.
pub open spec fn movie_members_name(s: Seq<char>, i: int, key: Seq<char>) -> bool
    decreases s.len() - i,
{
    if !(0 <= i && i <= s.len()) {
        false
    } else {
        let j = s_ws(s, i);
        if !(i <= j && j < s.len()) {
            false
        } else if s[j] != '"' {
            false
        } else {
            match s_str_body(s, j + 1) {
                Some(kp) => {
                    if !(j + 1 < kp.1 && kp.1 <= s.len()) {
                        false
                    } else {
                        let colon = s_ws(s, kp.1);
                        if !(kp.1 <= colon && colon < s.len() && s[colon] == ':') {
                            false
                        } else {
                            let vp = s_ws(s, colon + 1);
                            if !(colon + 1 <= vp && vp <= s.len()) {
                                false
                            } else if kp.0 == key {
                                true
                            } else {
                                match s_movie_field(s, vp, kp.0, empty_movie()) {
                                    Some(st) => {
                                        if !(vp < st.1 && st.1 <= s.len()) {
                                            false
                                        } else {
                                            let k = s_ws(s, st.1);
                                            if !(st.1 <= k && k <= s.len()) {
                                                false
                                            } else if k < s.len() && s[k] == ',' {
                                                movie_members_name(s, k + 1, key)
                                            } else {
                                                false
                                            }
                                        }
                                    },
                                    None => false,
                                }
                            }
                        }
                    }
                },
                None => false,
            }
        }
    }
}

/// A key other than the torrents one never changes the torrent field.
proof fn lemma_movie_field_keeps_torrents(s: Seq<char>, vp: int, key: Seq<char>, acc: MovieV)
    requires
        key != "torrents"@,
        s_movie_field(s, vp, key, acc) is Some,
    ensures
        s_movie_field(s, vp, key, acc)->Some_0.0.torrents == acc.torrents,
{
    reveal(s_movie_field);
}

/// Whether a pair parses, and where it ends, does not depend on the model
/// built so far.
#[verifier::rlimit(100)]
proof fn lemma_movie_field_acc_independent(
    s: Seq<char>,
    vp: int,
    key: Seq<char>,
    a1: MovieV,
    a2: MovieV,
)
    ensures
        s_movie_field(s, vp, key, a1) is Some <==> s_movie_field(s, vp, key, a2) is Some,
        s_movie_field(s, vp, key, a1) is Some ==> s_movie_field(s, vp, key, a1)->Some_0.1
            == s_movie_field(s, vp, key, a2)->Some_0.1,
{
    reveal(s_movie_field);
}

proof fn lemma_movie_members_keep_torrents(s: Seq<char>, i: int, acc: MovieV, p: (MovieV, int))
    requires
        s_movie_members(s, i, acc) == Some(p),
        !movie_members_name(s, i, "torrents"@),
    ensures
        p.0.torrents == acc.torrents,
    decreases s.len() - i,
{
    reveal(s_movie_field);
    let j = s_ws(s, i);
    let kp = s_str_body(s, j + 1)->Some_0;
    let colon = s_ws(s, kp.1);
    let vp = s_ws(s, colon + 1);
    let st = s_movie_field(s, vp, kp.0, acc)->Some_0;
    assert(kp.0 != "torrents"@);
    lemma_movie_field_keeps_torrents(s, vp, kp.0, acc);
    lemma_movie_field_acc_independent(s, vp, kp.0, acc, empty_movie());
    let k = s_ws(s, st.1);
    if k < s.len() && s[k] == '}' {
    } else {
        lemma_movie_members_keep_torrents(s, k + 1, st.0, p);
    }
}

/// Whether the movie object starting at `i` names the torrents key at all.
pub open spec fn movie_names_torrents(s: Seq<char>, i: int) -> bool {
    if !(0 <= i && i < s.len() && s[i] == '{') {
        false
    } else {
        let j = s_ws(s, i + 1);
        if j < s.len() && s[j] == '}' {
            false
        } else {
            movie_members_name(s, i + 1, "torrents"@)
        }
    }
}

/// Law: a movie object that never names the torrents key decodes — it is
/// no failure — to a movie whose torrent sequence is absent.
pub proof fn lemma_absent_torrents_stay_absent(s: Seq<char>, i: int, p: (MovieV, int))
    requires
        s_movie(s, i) == Some(p),
        !movie_names_torrents(s, i),
    ensures
        p.0.torrents is None,
{
    let j = s_ws(s, i + 1);
    if j < s.len() && s[j] == '}' {
    } else {
        lemma_movie_members_keep_torrents(s, i + 1, empty_movie(), p);
    }
}

} // verus!
