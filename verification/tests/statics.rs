use grarr::paths::Mime;
use grarr::statics::{self, EntityTag, FileData, Static};

#[test]
fn sha1_of_known_inputs() {
    assert_eq!(statics::sha1(b"abc"), "a9993e364706816aba3e25717850c26c9cd0d89d");
    assert_eq!(statics::sha1(b""), "da39a3ee5e6b4b0d3255bfef95601890afd80709");
}

#[test]
fn file_data_is_tagged_with_its_hash() {
    let f = FileData::from(Mime::TextCss, b"abc".to_vec());
    assert_eq!(f.0, Mime::TextCss);
    assert!(!f.1.weak);
    assert_eq!(f.1.tag, "a9993e364706816aba3e25717850c26c9cd0d89d");
    assert_eq!(f.2, b"abc".to_vec());
    let d = f.duplicate();
    assert_eq!((d.0, d.1.weak, d.1.tag, d.2), (f.0, f.1.weak, f.1.tag.clone(), f.2.clone()));
}

#[test]
fn entity_tags() {
    let s = EntityTag::strong("x".to_string());
    let w = EntityTag::weak("y".to_string());
    assert!(!s.weak && s.tag == "x");
    assert!(w.weak && w.tag == "y");
}

fn files() -> Static {
    Static::new(vec![
        ("css/site.css".to_string(), FileData::from(Mime::TextCss, b"body{}".to_vec())),
        ("js/app.js".to_string(), FileData::from(Mime::TextJavascript, b"1".to_vec())),
        ("css//site.css".to_string(), FileData::from(Mime::TextCss, b"newer".to_vec())),
    ])
}

#[test]
fn find_file_by_path() {
    let s = files();
    let f = s.find_file("js/app.js").unwrap();
    assert_eq!(f.0, Mime::TextJavascript);
    assert_eq!(f.2, b"1".to_vec());
    assert!(s.find_file("js/missing.js").is_none());
    assert!(s.find_file("/js/app.js").is_none());
}

#[test]
fn paths_compare_by_components_and_last_file_wins() {
    let s = files();
    assert_eq!(s.find_file("css/site.css").unwrap().2, b"newer".to_vec());
    assert_eq!(s.find_file("css/./site.css/").unwrap().2, b"newer".to_vec());
    assert!(s.find_file("./css/site.css").is_none());
}

#[test]
fn same_path_as_std_compares() {
    assert!(statics::same_path_exec("a/b", "a//b"));
    assert!(statics::same_path_exec("a/./b", "a/b/"));
    assert!(!statics::same_path_exec("./a", "a"));
    assert!(!statics::same_path_exec("/a", "a"));
    assert!(!statics::same_path_exec("a/../b", "b"));
    assert!(!statics::same_path_exec("", "."));
    assert!(statics::same_path_exec(".", "./"));
}
