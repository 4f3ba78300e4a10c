use grarr::paths::{self, Mime};

#[test]
fn static_file_types_by_extension() {
    assert_eq!(paths::mime("css/style.css"), Mime::TextCss);
    assert_eq!(paths::mime("index.html"), Mime::TextHtml);
    assert_eq!(paths::mime("js/app.js"), Mime::TextJavascript);
    assert_eq!(paths::mime("images/logo.png"), Mime::ApplicationOctetStream);
    assert_eq!(paths::mime("README"), Mime::ApplicationOctetStream);
}

#[test]
fn dot_files_and_odd_names_have_no_extension() {
    assert_eq!(paths::mime(".css"), Mime::ApplicationOctetStream);
    assert_eq!(paths::mime("dir.css/file"), Mime::ApplicationOctetStream);
    assert_eq!(paths::mime("a/.."), Mime::ApplicationOctetStream);
    assert_eq!(paths::mime("style.css/"), Mime::TextCss);
    assert_eq!(paths::mime("a.CSS"), Mime::ApplicationOctetStream);
}

#[test]
fn blob_types_fall_back_on_contents() {
    assert_eq!(paths::blob_mime(false, "src/main.rs"), Mime::TextPlain);
    assert_eq!(paths::blob_mime(true, "logo.png"), Mime::ApplicationOctetStream);
    assert_eq!(paths::blob_mime(true, "site.css"), Mime::TextCss);
    assert_eq!(paths::blob_mime(false, "page.html"), Mime::TextHtml);
}

#[test]
fn file_names_and_extensions() {
    assert_eq!(paths::extension_of("a/b.tar.gz"), Some("gz".to_string()));
    assert_eq!(paths::extension_of("trailing."), Some(String::new()));
    assert_eq!(paths::extension_of("noext"), None);
    assert_eq!(paths::extension_of(".hidden"), None);
    assert_eq!(paths::extension_of(""), None);
    let name: Option<String> = paths::file_name_of("a/b/c.txt").map(|v| v.into_iter().collect());
    assert_eq!(name, Some("c.txt".to_string()));
    assert_eq!(paths::file_name_of(".."), None);
    assert_eq!(paths::file_name_of("/"), None);
    let name: Option<String> = paths::file_name_of("a/./").map(|v| v.into_iter().collect());
    assert_eq!(name, Some("a".to_string()));
}

#[test]
fn mime_essences() {
    assert_eq!(Mime::TextCss.essence(), "text/css");
    assert_eq!(Mime::TextHtml.essence(), "text/html");
    assert_eq!(Mime::TextJavascript.essence(), "text/javascript");
    assert_eq!(Mime::TextPlain.essence(), "text/plain");
    assert_eq!(Mime::ApplicationOctetStream.essence(), "application/octet-stream");
}
