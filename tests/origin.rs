use topal::origin::{open_error, select_origin, source_name, Origin, StreamError};
use topal::stream::{Stream, TextSource};

#[test]
fn open_stdin() {
    assert_eq!(select_origin("-"), Origin::Console);
    let name = source_name("-");
    assert_eq!(name, "<stdin>");
    let stream = Stream::new(TextSource::new("a\nbc"), &name);
    assert_eq!("<stdin>:1:1", stream.location());
}

#[test]
fn url_selects_network() {
    assert_eq!(select_origin("https://example.com"), Origin::Network);
    assert_eq!(source_name("https://example.com"), "https://example.com");
    let stream = Stream::new(TextSource::new(""), &source_name("https://example.com"));
    assert_eq!("https://example.com:1:1", stream.location());
}

#[test]
fn path_selects_file() {
    assert_eq!(select_origin("./README.rst"), Origin::File);
    assert_eq!(select_origin("testfiles/1.5"), Origin::File);
    assert_eq!(select_origin(""), Origin::File);
    assert_eq!(select_origin("--"), Origin::File);
}

#[test]
fn invalid_address_falls_back_to_file_and_names_it() {
    let path = "http://[::::1]";
    assert_eq!(select_origin(path), Origin::File);
    let err = open_error(path, "No such file or directory (os error 2)");
    assert_eq!(
        err,
        StreamError::Open("http://[::::1]: No such file or directory (os error 2)".to_string())
    );
    assert!(err.detail().contains(path));
    assert_eq!(
        err.message(),
        "Failed to open file 'http://[::::1]: No such file or directory (os error 2)':\n"
    );
}
