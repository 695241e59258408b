use yts::request::ListRequest;
use yts::request::Order;
use yts::request::Quality;
use yts::request::Sort;
use yts::request::ValidationError;

#[test]
fn limit() {
    let mut r = ListRequest::new();
    r.limit(14).unwrap();
    r.page(13).unwrap();
    assert_eq!(r.url(), "https://yts.mx/api/v2/list_movies.json?limit=14&page=13");
}

#[test]
fn search() {
    let mut r = ListRequest::new();
    r.query_term("mama are mere".to_string());
    assert_eq!(
        r.url(),
        "https://yts.mx/api/v2/list_movies.json?limit=50&query_term=mama+are+mere"
    );
}

#[test]
fn rotten() {
    let mut r = ListRequest::new();
    r.wirth_rt_ratings(true);
    assert_eq!(r.url(), "https://yts.mx/api/v2/list_movies.json?limit=50&with_rt_ratings");
}

#[test]
fn sort() {
    let mut r = ListRequest::new();
    r.sort_by(Sort::Title);
    assert_eq!(r.url(), "https://yts.mx/api/v2/list_movies.json?limit=50&sort_by=title");
}

#[test]
fn mirror() {
    let mut r = ListRequest::new();
    r.mirror("yts.ag").unwrap();
    assert_eq!(r.url(), "https://yts.ag/api/v2/list_movies.json?limit=50");
}

#[test]
fn quality() {
    let mut r = ListRequest::new();
    r.quality(Quality::Quality720p);
    assert_eq!(r.url(), "https://yts.mx/api/v2/list_movies.json?limit=50&quality=720p");
}

#[test]
fn input_limit() {
    let mut r = ListRequest::new();
    r.limit(14).unwrap();
    r.page(13).unwrap();
    assert_eq!(r.url(), "https://yts.mx/api/v2/list_movies.json?limit=14&page=13");
}

#[test]
fn input_search() {
    let mut r = ListRequest::new();
    let tokens = vec!["mama", "are", "mere"];
    r.query_term(tokens.join(" "));
    assert_eq!(
        r.url(),
        "https://yts.mx/api/v2/list_movies.json?limit=50&query_term=mama+are+mere"
    );
}

#[test]
fn input_rotten() {
    let mut r = ListRequest::new();
    r.wirth_rt_ratings(true);
    assert_eq!(r.url(), "https://yts.mx/api/v2/list_movies.json?limit=50&with_rt_ratings");
}

#[test]
fn input_sort() {
    let mut r = ListRequest::new();
    r.sort_by(Sort::from_str("title").unwrap());
    assert_eq!(r.url(), "https://yts.mx/api/v2/list_movies.json?limit=50&sort_by=title");
}

#[test]
fn input_mirror() {
    let mut r = ListRequest::new();
    r.mirror("yts.ag").unwrap();
    assert_eq!(r.url(), "https://yts.ag/api/v2/list_movies.json?limit=50");
}

#[test]
fn input_quality() {
    let mut r = ListRequest::new();
    r.quality(Quality::from_str("720p").unwrap());
    assert_eq!(r.url(), "https://yts.mx/api/v2/list_movies.json?limit=50&quality=720p");
}

#[test]
fn mirror_host_is_normalized() {
    let mut r = ListRequest::new();
    r.mirror("YTS.AG").unwrap();
    assert_eq!(r.url(), "https://yts.ag/api/v2/list_movies.json?limit=50");
}

#[test]
fn invalid_mirror_rejected_and_state_kept() {
    let mut r = ListRequest::new();
    r.limit(3).unwrap();
    assert_eq!(r.mirror("not a host"), Err(ValidationError::Mirror));
    assert_eq!(r.url(), "https://yts.mx/api/v2/list_movies.json?limit=3");
}

#[test]
fn default_builder_bare_endpoint() {
    let r = ListRequest::new();
    assert_eq!(r.url(), "https://yts.mx/api/v2/list_movies.json?limit=50");
}

#[test]
fn all_options_each_param_once() {
    let mut r = ListRequest::new();
    r.limit(25).unwrap();
    r.page(3).unwrap();
    r.quality(Quality::Quality3D);
    r.rating(7).unwrap();
    r.query_term("dog day".to_string());
    r.genre("comedy".to_string());
    r.sort_by(Sort::DownloadCount);
    r.order_by(Order::Desc);
    r.wirth_rt_ratings(true);
    assert_eq!(
        r.url(),
        "https://yts.mx/api/v2/list_movies.json?limit=25&page=3&quality=3D&minimum_rating=7\
         &query_term=dog+day&genre=comedy&sort_by=download_count&order_by=desc&with_rt_ratings"
    );
}

#[test]
fn last_write_wins() {
    let mut r = ListRequest::new();
    r.limit(10).unwrap();
    r.limit(20).unwrap();
    r.page(5).unwrap();
    r.page(2).unwrap();
    assert_eq!(r.url(), "https://yts.mx/api/v2/list_movies.json?limit=20&page=2");
}

#[test]
fn url_is_stable_between_calls() {
    let mut r = ListRequest::new();
    r.limit(7).unwrap();
    r.query_term("abc".to_string());
    assert_eq!(r.url(), r.url());
}

#[test]
fn query_term_is_percent_encoded() {
    let mut r = ListRequest::new();
    r.query_term("a&b=c?".to_string());
    assert_eq!(
        r.url(),
        "https://yts.mx/api/v2/list_movies.json?limit=50&query_term=a%26b%3Dc%3F"
    );
}

#[test]
fn query_term_encodes_non_ascii() {
    let mut r = ListRequest::new();
    r.query_term("caf\u{00E9}".to_string());
    assert_eq!(r.url(), "https://yts.mx/api/v2/list_movies.json?limit=50&query_term=caf%C3%A9");
}

#[test]
fn limit_out_of_range_rejected() {
    let mut r = ListRequest::new();
    assert_eq!(r.limit(0), Err(ValidationError::Limit));
    assert_eq!(r.limit(51), Err(ValidationError::Limit));
    assert_eq!(r.url(), "https://yts.mx/api/v2/list_movies.json?limit=50");
}

#[test]
fn page_zero_rejected() {
    let mut r = ListRequest::new();
    assert_eq!(r.page(0), Err(ValidationError::Page));
    assert_eq!(r.url(), "https://yts.mx/api/v2/list_movies.json?limit=50");
}

#[test]
fn rating_out_of_range_rejected() {
    let mut r = ListRequest::new();
    assert_eq!(r.rating(0), Err(ValidationError::MinimumRating));
    assert_eq!(r.rating(10), Err(ValidationError::MinimumRating));
    r.rating(9).unwrap();
    assert_eq!(r.url(), "https://yts.mx/api/v2/list_movies.json?limit=50&minimum_rating=9");
}

#[test]
fn enum_tokens_round_trip() {
    assert_eq!(Quality::from_str("1080p"), Some(Quality::Quality1080p));
    assert_eq!(Quality::from_str("4K"), None);
    assert_eq!(Sort::from_str("date_added"), Some(Sort::DateAdded));
    assert_eq!(Sort::from_str("title "), None);
    assert_eq!(Order::from_str("asc"), Some(Order::Asc));
    assert_eq!(Order::from_str("desc"), Some(Order::Desc));
    assert_eq!(Order::from_str("up"), None);
    assert_eq!(Quality::Quality2160p.token(), "2160p");
    assert_eq!(Sort::LikeCount.token(), "like_count");
    assert_eq!(Order::Desc.token(), "desc");
}
