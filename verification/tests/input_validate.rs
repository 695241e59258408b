use yts::input::validate_min_rating;
use yts::input::validate_natural_one_plus;
use yts::input::Qualities;

#[test]
fn natural_one_plus_accepts_positive_counts() {
    let m = "should be 1 or more".to_string();
    assert_eq!(validate_natural_one_plus(m.clone(), "1".to_string()), Ok(()));
    assert_eq!(validate_natural_one_plus(m.clone(), " 14 ".to_string()), Ok(()));
    assert_eq!(validate_natural_one_plus(m.clone(), "+9".to_string()), Ok(()));
    assert_eq!(validate_natural_one_plus(m.clone(), "65535".to_string()), Ok(()));
}

#[test]
fn natural_one_plus_rejects_everything_else() {
    let m = "should be 1 or more".to_string();
    assert_eq!(validate_natural_one_plus(m.clone(), "0".to_string()), Err(m.clone()));
    assert_eq!(validate_natural_one_plus(m.clone(), "".to_string()), Err(m.clone()));
    assert_eq!(validate_natural_one_plus(m.clone(), "abc".to_string()), Err(m.clone()));
    assert_eq!(validate_natural_one_plus(m.clone(), "-3".to_string()), Err(m.clone()));
    assert_eq!(validate_natural_one_plus(m.clone(), "65536".to_string()), Err(m.clone()));
    assert_eq!(validate_natural_one_plus(m.clone(), "1 2".to_string()), Err(m.clone()));
}

#[test]
fn min_rating_accepts_one_through_nine() {
    let m = "this should be an integer between 1 and 9".to_string();
    assert_eq!(validate_min_rating(m.clone(), "1".to_string()), Ok(()));
    assert_eq!(validate_min_rating(m.clone(), " 9 ".to_string()), Ok(()));
    assert_eq!(validate_min_rating(m.clone(), "5".to_string()), Ok(()));
}

#[test]
fn min_rating_rejects_everything_else() {
    let m = "this should be an integer between 1 and 9".to_string();
    assert_eq!(validate_min_rating(m.clone(), "0".to_string()), Err(m.clone()));
    assert_eq!(validate_min_rating(m.clone(), "10".to_string()), Err(m.clone()));
    assert_eq!(validate_min_rating(m.clone(), "300".to_string()), Err(m.clone()));
    assert_eq!(validate_min_rating(m.clone(), "x".to_string()), Err(m.clone()));
}

#[test]
fn qualities_tokens_round_trip() {
    assert_eq!(Qualities::from_str("720p"), Some(Qualities::Q720p));
    assert_eq!(Qualities::from_str("1080p"), Some(Qualities::Q1080p));
    assert_eq!(Qualities::from_str("2160p"), Some(Qualities::Q2160p));
    assert_eq!(Qualities::from_str("3D"), Some(Qualities::Q3D));
    assert_eq!(Qualities::from_str("3d"), None);
    assert_eq!(Qualities::Q3D.token(), "3D");
}
