use yts::api::decode_list;
use yts::api::DecodeError;
use yts::api::MovieDescription;

fn list_json() -> String {
    let json = r#"{
        "status": "ok",
        "status_message": "Query was successful",
        "data": {
            "movie_count": 31474,
            "limit": 2,
            "page_number": 1,
            "movies": [
                {
                    "id": 37143,
                    "url": "https://yts.mx/movies/la-via-dei-babbuini-1974",
                    "imdb_code": "tt0144665",
                    "title": "La via dei babbuini",
                    "title_long": "La via dei babbuini (1974)",
                    "year": 1974,
                    "rating": 6.8,
                    "runtime": 105,
                    "genres": ["Comedy", "Drama"],
                    "summary": "This is a probably underrated brave attempt at a road movie.",
                    "language": "it",
                    "state": "ok",
                    "torrents": [
                        {
                            "url": "https://yts.mx/torrent/download/673B3BA1335C6D1F5035C086A98676BF6C738276",
                            "hash": "673B3BA1335C6D1F5035C086A98676BF6C738276",
                            "quality": "720p",
                            "type": "web",
                            "seeders": 21,
                            "peers": 6,
                            "size": "881.79 MB",
                            "size_bytes": 924620431,
                            "date_uploaded": "2021-05-26 15:59:53",
                            "date_uploaded_unix": 1622037593
                        }
                    ],
                    "date_uploaded": "2021-05-26 16:39:53",
                    "date_uploaded_unix": 1622039993
                },
                {
                    "id": 37144,
                    "title": "Uno sconosciuto"
                }
            ]
        },
        "@meta": {
            "server_time": 1622039993,
            "server_timezone": "CET",
            "api_version": 2,
            "execution_time": "0.01 ms"
        }
    }"#;
    json.to_string()
}

#[test]
fn parses_api_list() {
    let json = list_json();
    let response = decode_list(json.as_str()).expect("expected a parsed response");

    assert_eq!(response.status, Some("ok".to_string()), "response_status = '{}'", "ok");
    assert_eq!(response.status_message, Some("Query was successful".to_string()));

    let data = response.data.expect("there should be some data here");
    assert_eq!(data.movie_count, Some(31474));
    assert_eq!(data.limit, Some(2));
    assert_eq!(data.page_number, Some(1));
    let movies = data.movies.expect("there should be movies here");
    assert_eq!(movies.len(), 2, "2 movies?");
    let movie = movies.first().unwrap();
    assert_eq!(
        movie.url,
        Some("https://yts.mx/movies/la-via-dei-babbuini-1974".to_string())
    );
    assert_eq!(movie.imdb_code, Some("tt0144665".to_string()));
    assert_eq!(movie.title, Some("La via dei babbuini".to_string()));
    assert_eq!(movie.year, Some(1974));
    assert_eq!(movie.rating, Some(68));
    assert_eq!(
        movie.genres.clone().expect("there should be genres here").first().expect(
            "there should be a genre here"
        ),
        "Comedy"
    );
    assert!(movie
        .summary
        .clone()
        .unwrap_or_else(|| "".to_string())
        .starts_with("This is a probably underrated brave attempt"));
    let torrent = movie
        .torrents
        .as_ref()
        .expect("missing torrents")
        .first()
        .expect("missing first torrent");
    assert_eq!(torrent.ty_pe, Some("web".to_string()));
    assert_eq!(
        torrent.url,
        Some(
            "https://yts.mx/torrent/download/673B3BA1335C6D1F5035C086A98676BF6C738276".to_string()
        )
    );
    let meta = response.meta.expect("there's a @meta section in the json");
    assert_eq!(meta.server_time.unwrap(), 1622039993)
}

#[test]
fn movie_without_torrents_decodes() {
    let json = r#"{"data": {"movies": [{"title": "Alone", "year": 2020}]}}"#;
    let response = decode_list(json).expect("a movie without torrents still decodes");
    let movies = response.data.unwrap().movies.unwrap();
    assert_eq!(movies.len(), 1);
    assert_eq!(movies[0].title, Some("Alone".to_string()));
    assert_eq!(movies[0].torrents, None);
}

#[test]
fn decode_twice_yields_equal_models() {
    let json = list_json();
    let first = decode_list(json.as_str()).unwrap();
    let second = decode_list(json.as_str()).unwrap();
    assert_eq!(first, second);
}

#[test]
fn empty_object_decodes_to_all_absent() {
    let response = decode_list("{}").unwrap();
    assert_eq!(response.status, None);
    assert_eq!(response.status_message, None);
    assert_eq!(response.data, None);
    assert_eq!(response.meta, None);
}

#[test]
fn null_fields_decode_to_absent() {
    let json = r#"{"status": null, "data": null, "@meta": null}"#;
    let response = decode_list(json).unwrap();
    assert_eq!(response.status, None);
    assert_eq!(response.data, None);
    assert_eq!(response.meta, None);
}

#[test]
fn unknown_fields_are_ignored() {
    let json = r#"{"status": "ok", "whatever": [1, {"deep": [true, null, -2.5e3]}], "x": "y"}"#;
    let response = decode_list(json).unwrap();
    assert_eq!(response.status, Some("ok".to_string()));
}

#[test]
fn malformed_payloads_fail() {
    assert_eq!(decode_list(""), Err(DecodeError::Malformed));
    assert_eq!(decode_list("   "), Err(DecodeError::Malformed));
    assert_eq!(decode_list("[1, 2]"), Err(DecodeError::Malformed));
    assert_eq!(decode_list("\"just a string\""), Err(DecodeError::Malformed));
    assert_eq!(decode_list("{\"status\": \"ok\""), Err(DecodeError::Malformed));
    assert_eq!(decode_list("{} trailing"), Err(DecodeError::Malformed));
    assert_eq!(decode_list("{\"status\": }"), Err(DecodeError::Malformed));
    assert_eq!(decode_list("{\"data\": {\"movies\": [}]}}"), Err(DecodeError::Malformed));
}

#[test]
fn wrong_type_for_present_field_fails() {
    assert_eq!(decode_list(r#"{"status": 5}"#), Err(DecodeError::Malformed));
    assert_eq!(decode_list(r#"{"data": "nope"}"#), Err(DecodeError::Malformed));
    assert_eq!(
        decode_list(r#"{"data": {"movie_count": "many"}}"#),
        Err(DecodeError::Malformed)
    );
    assert_eq!(
        decode_list(r#"{"data": {"movies": [{"year": 1.5}]}}"#),
        Err(DecodeError::Malformed)
    );
    assert_eq!(
        decode_list(r#"{"data": {"movies": [{"year": 100000}]}}"#),
        Err(DecodeError::Malformed)
    );
}

#[test]
fn movie_url_is_normalized() {
    let json = r#"{"data": {"movies": [{"url": "HTTPS://YTS.MX/movies/x"}]}}"#;
    let response = decode_list(json).unwrap();
    let movies = response.data.unwrap().movies.unwrap();
    assert_eq!(movies[0].url, Some("https://yts.mx/movies/x".to_string()));
}

#[test]
fn unparsable_movie_url_fails() {
    let json = r#"{"data": {"movies": [{"url": "not a url"}]}}"#;
    assert_eq!(decode_list(json), Err(DecodeError::Malformed));
}

#[test]
fn zero_or_malformed_timestamp_reads_as_absent() {
    let json = r#"{"@meta": {"server_time": 0}}"#;
    assert_eq!(decode_list(json).unwrap().meta.unwrap().server_time, None);
    let json = r#"{"@meta": {"server_time": "yesterday"}}"#;
    assert_eq!(decode_list(json).unwrap().meta.unwrap().server_time, None);
    let json = r#"{"@meta": {"server_time": 1.5}}"#;
    assert_eq!(decode_list(json).unwrap().meta.unwrap().server_time, None);
    let json = r#"{"@meta": {"server_time": -1622039993}}"#;
    assert_eq!(decode_list(json).unwrap().meta.unwrap().server_time, Some(-1622039993));
}

#[test]
fn string_escapes_decode() {
    let json = "{\"status\": \"a\\u0041\\n\\\"\\\\ b\\u00e9\\ud83d\\ude00\"}";
    let response = decode_list(json).unwrap();
    assert_eq!(response.status, Some("aA\n\"\\ b\u{00e9}\u{1F600}".to_string()));
}

#[test]
fn lone_surrogate_fails() {
    let json = "{\"status\": \"\\ud83d oops\"}";
    assert_eq!(decode_list(json), Err(DecodeError::Malformed));
}

#[test]
fn getters_render_fields() {
    let json = list_json();
    let response = decode_list(json.as_str()).unwrap();
    let data = response.data.unwrap();
    let movies = data.movies.unwrap();
    let movie = &movies[0];
    assert_eq!(movie.get_id(), "37143");
    assert_eq!(movie.get_rating(), "6.8");
    assert_eq!(movie.get_year(), "1974");
    assert_eq!(movie.get_title(), "La via dei babbuini");
    assert_eq!(movie.get_title_long(), "La via dei babbuini (1974)");
    assert_eq!(movie.get_url(), "https://yts.mx/movies/la-via-dei-babbuini-1974");
    assert_eq!(movie.get_imdb(), "https://www.imdb.com/title/tt0144665/");
    assert_eq!(movie.get_genres(), "comedy, drama");
    assert_eq!(
        movie.get_text(MovieDescription::Summary),
        "This is a probably underrated brave attempt at a road movie."
    );
    assert_eq!(movie.get_text(MovieDescription::Synopsis), "");
    let second = &movies[1];
    assert_eq!(second.get_rating(), "");
    assert_eq!(second.get_url(), "");
    assert_eq!(second.get_youtube(), "");
    assert_eq!(second.get_imdb(), "");
    assert_eq!(second.get_genres(), "");
}

#[test]
fn getters_on_sparse_movie() {
    let json = r#"{"data": {"movies": [{"id": 9, "year": 999, "rating": 10.0,
        "yt_trailer_code": "dQw4w9WgXcQ"}]}}"#;
    let response = decode_list(json).unwrap();
    let data = response.data.unwrap();
    let movies = data.movies.unwrap();
    let movie = &movies[0];
    assert_eq!(movie.get_id(), "9");
    assert_eq!(movie.get_year(), "999 ");
    assert_eq!(movie.get_rating(), "10.0");
    assert_eq!(movie.get_title(), "???");
    assert_eq!(movie.get_youtube(), "https://www.youtube.com/watch?v=dQw4w9WgXcQ");
}
