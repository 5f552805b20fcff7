use mpv_danmaku::matching::{media_hash, pick_episode, MatchError};
use mpv_danmaku::parse::{
    font_size_option, parse_comment_params, parse_decimal_milli, parse_option_line,
    DEFAULT_FONT_SIZE,
};

#[test]
fn decimals_in_thousandths() {
    assert_eq!(parse_decimal_milli("0"), Some(0));
    assert_eq!(parse_decimal_milli("12"), Some(12000));
    assert_eq!(parse_decimal_milli("1.5"), Some(1500));
    assert_eq!(parse_decimal_milli("1.25"), Some(1250));
    assert_eq!(parse_decimal_milli("3.14159"), Some(3141));
    assert_eq!(parse_decimal_milli(""), None);
    assert_eq!(parse_decimal_milli("1."), Some(1000));
    assert_eq!(parse_decimal_milli(".5"), Some(500));
    assert_eq!(parse_decimal_milli("-1"), Some(-1000));
    assert_eq!(parse_decimal_milli("+2.25"), Some(2250));
    assert_eq!(parse_decimal_milli("-.0019"), Some(-1));
    assert_eq!(parse_decimal_milli("."), None);
    assert_eq!(parse_decimal_milli("-"), None);
    assert_eq!(parse_decimal_milli("--1"), None);
    assert_eq!(parse_decimal_milli("1e3"), None);
    assert_eq!(parse_decimal_milli("1.2.3"), None);
    assert_eq!(parse_decimal_milli("1234567890123456"), None);
}

#[test]
fn comment_params_fields() {
    assert_eq!(parse_comment_params("12.5,1,16711680,u1"), Some((12500, 16711680)));
    assert_eq!(parse_comment_params("0,4,255"), Some((0, 255)));
    assert_eq!(parse_comment_params("0,4"), None);
    assert_eq!(parse_comment_params("0,4,,x"), None);
}

#[test]
fn option_lines() {
    assert_eq!(
        parse_option_line("font_size=32"),
        Some(("font_size".to_string(), "32".to_string()))
    );
    assert_eq!(parse_option_line("a=b=c"), Some(("a".to_string(), "b=c".to_string())));
    assert_eq!(parse_option_line("#font_size=32"), None);
    assert_eq!(parse_option_line("no equals"), None);
}

#[test]
fn font_size_from_lines() {
    let lines = |v: &[&str]| v.iter().map(|s| s.to_string()).collect::<Vec<_>>();
    assert_eq!(font_size_option(&lines(&[])), DEFAULT_FONT_SIZE);
    assert_eq!(font_size_option(&lines(&["font_size=30"])), 30_000);
    assert_eq!(font_size_option(&lines(&["font_size=30", "font_size=50.7"])), 50_700);
    assert_eq!(font_size_option(&lines(&["font_size=0.5"])), 500);
    assert_eq!(font_size_option(&lines(&["font_size=0"])), DEFAULT_FONT_SIZE);
    assert_eq!(font_size_option(&lines(&["font_size=-3"])), DEFAULT_FONT_SIZE);
    assert_eq!(font_size_option(&lines(&["font_size=big"])), DEFAULT_FONT_SIZE);
    assert_eq!(font_size_option(&lines(&["#font_size=20", "other=1"])), DEFAULT_FONT_SIZE);
}

#[test]
fn media_hash_is_md5_hex() {
    assert_eq!(media_hash(b""), "d41d8cd98f00b204e9800998ecf8427e");
    assert_eq!(media_hash(b"abc"), "900150983cd24fb0d6963f7d28e17f72");
}

#[test]
fn media_hash_reads_only_the_prefix() {
    let mut a = vec![7u8; 16 * 1024 * 1024];
    let h = media_hash(&a);
    a.extend_from_slice(b"tail");
    assert_eq!(media_hash(&a), h);
}

#[test]
fn episode_choice() {
    assert_eq!(pick_episode(true, &vec![42]), Ok(42));
    assert_eq!(pick_episode(true, &vec![1, 2]), Err(MatchError::Ambiguous));
    assert_eq!(pick_episode(false, &vec![1, 2]), Err(MatchError::Ambiguous));
    assert_eq!(pick_episode(false, &vec![42]), Err(MatchError::NotFound));
    assert_eq!(pick_episode(true, &vec![]), Err(MatchError::NotFound));
    assert_eq!(MatchError::Ambiguous.message(), "multiple matching episodes");
    assert_eq!(MatchError::NotFound.message(), "no matching episode");
}
