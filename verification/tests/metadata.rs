use leven::error::Error;
use leven::metadata::{parse_metadata, Timestamp};
use leven::util::load_config;

#[test]
fn front_matter_is_read_and_body_kept() {
    let src = "+++\ntitle = \"Hi\"\ndate = \"2017-05-03T10:00:00+02:00\"\n+++\nBody\n";
    let (md, body) = parse_metadata(src);
    assert_eq!(body, "\nBody\n");
    assert_eq!(md.get_string("title"), Some("Hi".to_string()));
    assert_eq!(md.get_date("date"), Some(Timestamp { seconds: 1493798400, nanos: 0 }));
    assert_eq!(md.get_string("missing"), None);
    assert_eq!(md.get_date("title"), None);
}

#[test]
fn text_without_front_matter_is_all_body() {
    let (md, body) = parse_metadata("Hello +++ there");
    assert_eq!(body, "Hello +++ there");
    assert_eq!(md.get_string("title"), None);
    let (md, body) = parse_metadata("+++\ntitle = \"x\"\n");
    assert_eq!(body, "+++\ntitle = \"x\"\n");
    assert_eq!(md.get_string("title"), None);
    let (_, body) = parse_metadata("");
    assert_eq!(body, "");
}

#[test]
fn front_matter_ends_at_the_first_closing_mark() {
    let (md, body) = parse_metadata("+++a = \"+\"\n+++rest+++more");
    assert_eq!(md.get_string("a"), Some("+".to_string()));
    assert_eq!(body, "rest+++more");
}

#[test]
fn front_matter_that_is_no_toml_gives_no_metadata() {
    let (md, body) = parse_metadata("+++\n= =\n+++x");
    assert_eq!(body, "x");
    assert_eq!(md.get_string(""), None);
}

#[test]
fn values_that_are_not_strings_are_not_strings() {
    let (md, _) = parse_metadata("+++\nn = 3\ns = \"3\"\n+++");
    assert_eq!(md.get_string("n"), None);
    assert_eq!(md.get_string("s"), Some("3".to_string()));
}

#[test]
fn configuration_is_read() {
    let config = load_config("title = \"Blog\"\nrecents = 5\n").unwrap();
    assert_eq!(config.get_string("title"), Some("Blog".to_string()));
    assert_eq!(config.get_string("recents"), None);
    assert!(matches!(load_config("title = "), Err(Error::Toml(_))));
    assert_eq!(load_config("").unwrap().get_string("title"), None);
}
