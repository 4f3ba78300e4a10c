//! The request handlers' routes and the decisions they make apart from
//! rendering pages.
use vstd::prelude::*;
use vstd::string::StringExecFns;
use vstd::utf8::{valid_utf8, decode_utf8};
use crate::bytes::string_from_utf8;
use crate::oid::{Oid, oid_hex, oid_from_hex, parse_oid};
use crate::refs::{query_param, url_query_pairs, first_value};
use crate::statics::{EntityTag, sha1, sha1_hex};
use crate::text::{chars_of, string_of_chars};
use crate::paths::{Mime, blob_mime, mime_for, extension};

pub mod dumb;
pub mod smart;

verus! {

/// The HTTP methods that handlers answer.
#[derive(Debug, Clone, Copy, PartialEq, Eq, Structural)]
pub enum Method {
    Get,
    Post,
}

/// Where a handler is mounted: its method and route patterns.
pub trait Route {
    fn method() -> Method;

    fn route() -> &'static str;

    fn routes() -> Vec<&'static str>;
}

/// The about page.
#[derive(Debug, Clone, Copy)]
pub struct About;

/// A file of a repository.
#[derive(Debug, Clone, Copy)]
pub struct Blob;

/// One commit.
#[derive(Debug, Clone, Copy)]
pub struct Commit;

/// The history from a commit.
#[derive(Debug, Clone, Copy)]
pub struct Commits;

/// The commits between HEAD and a reference.
#[derive(Debug, Clone, Copy)]
pub struct Compare;

/// Pages served from the `gh-pages` branch.
#[derive(Debug, Clone, Copy)]
pub struct Pages;

/// The list of repositories under a root directory.
#[derive(Debug)]
pub struct Repositories {
    pub root: std::path::PathBuf,
}

/// A repository's front page.
#[derive(Debug, Clone, Copy)]
pub struct Repository;

/// One code review.
#[derive(Debug, Clone, Copy)]
pub struct Review;

/// The code reviews of a repository.
#[derive(Debug, Clone, Copy)]
pub struct Reviews;

/// The settings page.
#[derive(Debug, Clone, Copy)]
pub struct Settings;

/// Saving settings.
#[derive(Debug, Clone, Copy)]
pub struct SettingsPost;

/// A directory of a repository.
#[derive(Debug, Clone, Copy)]
pub struct Tree;

/// The error page for `400 Bad Request`.
#[derive(Debug, Clone, Copy)]
pub struct BadRequest;

/// The error page for `404 Not Found`.
#[derive(Debug, Clone, Copy)]
pub struct NotFound;

/// The error page for every other failed request.
#[derive(Debug, Clone, Copy)]
pub struct Error;

impl Route for About {
    fn method() -> (r: Method)
        ensures
            r == Method::Get,
    {
        Method::Get
    }

    fn route() -> (r: &'static str)
        ensures
            r@ == "/-/about"@,
    {
        "/-/about"
    }

    fn routes() -> (r: Vec<&'static str>)
        ensures
            r@.len() == 1 && r@[0]@ == "/-/about"@,
    {
        vec!["/-/about"]
    }
}

impl Route for Blob {
    fn method() -> (r: Method)
        ensures
            r == Method::Get,
    {
        Method::Get
    }

    fn route() -> (r: &'static str)
        ensures
            r@ == ""@,
    {
        ""
    }

    fn routes() -> (r: Vec<&'static str>)
        ensures
            r@.len() == 2 && r@[0]@ == "/blob/:ref"@ && r@[1]@ == "/blob/:ref/*path"@,
    {
        vec!["/blob/:ref", "/blob/:ref/*path"]
    }
}

impl Route for Commit {
    fn method() -> (r: Method)
        ensures
            r == Method::Get,
    {
        Method::Get
    }

    fn route() -> (r: &'static str)
        ensures
            r@ == "/commit/:ref"@,
    {
        "/commit/:ref"
    }

    fn routes() -> (r: Vec<&'static str>)
        ensures
            r@.len() == 1 && r@[0]@ == "/commit/:ref"@,
    {
        vec!["/commit/:ref"]
    }
}

impl Route for Commits {
    fn method() -> (r: Method)
        ensures
            r == Method::Get,
    {
        Method::Get
    }

    fn route() -> (r: &'static str)
        ensures
            r@ == "/commits/:ref"@,
    {
        "/commits/:ref"
    }

    fn routes() -> (r: Vec<&'static str>)
        ensures
            r@.len() == 1 && r@[0]@ == "/commits/:ref"@,
    {
        vec!["/commits/:ref"]
    }
}

impl Route for Compare {
    fn method() -> (r: Method)
        ensures
            r == Method::Get,
    {
        Method::Get
    }

    fn route() -> (r: &'static str)
        ensures
            r@ == ""@,
    {
        ""
    }

    fn routes() -> (r: Vec<&'static str>)
        ensures
            r@.len() == 1 && r@[0]@ == "/compare/:ref"@,
    {
        vec!["/compare/:ref"]
    }
}

impl Route for Pages {
    fn method() -> (r: Method)
        ensures
            r == Method::Get,
    {
        Method::Get
    }

    fn route() -> (r: &'static str)
        ensures
            r@ == ""@,
    {
        ""
    }

    fn routes() -> (r: Vec<&'static str>)
        ensures
            r@.len() == 2 && r@[0]@ == "/pages/"@ && r@[1]@ == "/pages/*path"@,
    {
        vec!["/pages/", "/pages/*path"]
    }
}

impl Route for Repositories {
    fn method() -> (r: Method)
        ensures
            r == Method::Get,
    {
        Method::Get
    }

    fn route() -> (r: &'static str)
        ensures
            r@ == "/"@,
    {
        "/"
    }

    fn routes() -> (r: Vec<&'static str>)
        ensures
            r@.len() == 1 && r@[0]@ == "/"@,
    {
        vec!["/"]
    }
}

impl Route for Repository {
    fn method() -> (r: Method)
        ensures
            r == Method::Get,
    {
        Method::Get
    }

    fn route() -> (r: &'static str)
        ensures
            r@ == ""@,
    {
        ""
    }

    fn routes() -> (r: Vec<&'static str>)
        ensures
            r@.len() == 1 && r@[0]@ == ""@,
    {
        vec![""]
    }
}

impl Route for Review {
    fn method() -> (r: Method)
        ensures
            r == Method::Get,
    {
        Method::Get
    }

    fn route() -> (r: &'static str)
        ensures
            r@ == "/review/:ref"@,
    {
        "/review/:ref"
    }

    fn routes() -> (r: Vec<&'static str>)
        ensures
            r@.len() == 1 && r@[0]@ == "/review/:ref"@,
    {
        vec!["/review/:ref"]
    }
}

impl Route for Reviews {
    fn method() -> (r: Method)
        ensures
            r == Method::Get,
    {
        Method::Get
    }

    fn route() -> (r: &'static str)
        ensures
            r@ == "/reviews"@,
    {
        "/reviews"
    }

    fn routes() -> (r: Vec<&'static str>)
        ensures
            r@.len() == 1 && r@[0]@ == "/reviews"@,
    {
        vec!["/reviews"]
    }
}

impl Route for Settings {
    fn method() -> (r: Method)
        ensures
            r == Method::Get,
    {
        Method::Get
    }

    fn route() -> (r: &'static str)
        ensures
            r@ == "/-/settings"@,
    {
        "/-/settings"
    }

    fn routes() -> (r: Vec<&'static str>)
        ensures
            r@.len() == 1 && r@[0]@ == "/-/settings"@,
    {
        vec!["/-/settings"]
    }
}

impl Route for SettingsPost {
    fn method() -> (r: Method)
        ensures
            r == Method::Post,
    {
        Method::Post
    }

    fn route() -> (r: &'static str)
        ensures
            r@ == "/-/settings"@,
    {
        "/-/settings"
    }

    fn routes() -> (r: Vec<&'static str>)
        ensures
            r@.len() == 1 && r@[0]@ == "/-/settings"@,
    {
        vec!["/-/settings"]
    }
}

impl Route for Tree {
    fn method() -> (r: Method)
        ensures
            r == Method::Get,
    {
        Method::Get
    }

    fn route() -> (r: &'static str)
        ensures
            r@ == ""@,
    {
        ""
    }

    fn routes() -> (r: Vec<&'static str>)
        ensures
            r@.len() == 2 && r@[0]@ == "/tree/:ref"@ && r@[1]@ == "/tree/:ref/*path"@,
    {
        vec!["/tree/:ref", "/tree/:ref/*path"]
    }
}

impl Route for crate::statics::Static {
    fn method() -> (r: Method)
        ensures
            r == Method::Get,
    {
        Method::Get
    }

    fn route() -> (r: &'static str)
        ensures
            r@ == "/-/static/*path"@,
    {
        "/-/static/*path"
    }

    fn routes() -> (r: Vec<&'static str>)
        ensures
            r@.len() == 1 && r@[0]@ == "/-/static/*path"@,
    {
        vec!["/-/static/*path"]
    }
}

/// `s` with every occurrence of `pat` replaced by `to`, leftmost first and
/// without overlaps, as `str::replace` does for a non-empty pattern.
pub open spec fn replaced(s: Seq<char>, pat: Seq<char>, to: Seq<char>) -> Seq<char>
    decreases s.len(),
{
    if pat.len() == 0 || s.len() < pat.len() {
        s
    } else if s.take(pat.len() as int) == pat {
        to + replaced(s.skip(pat.len() as int), pat, to)
    } else {
        seq![s[0]] + replaced(s.drop_first(), pat, to)
    }
}

fn starts_with_at(s: &Vec<char>, i: usize, pat: &Vec<char>) -> (r: bool)
    requires
        i + pat@.len() <= s@.len(),
    ensures
        r == (s@.skip(i as int).take(pat@.len() as int) == pat@),
{
    let n = s.len();
    let mut k: usize = 0;
    while k < pat.len()
        invariant
            k <= pat@.len(),
            n == s@.len(),
            i + pat@.len() <= s@.len(),
            forall|q: int| 0 <= q < k ==> s@[i + q] == pat@[q],
        decreases pat@.len() - k,
    {
        if s[i + k] != pat[k] {
            assert(s@.skip(i as int).take(pat@.len() as int)[k as int] != pat@[k as int]);
            return false;
        }
        k = k + 1;
    }
    assert(s@.skip(i as int).take(pat@.len() as int) =~= pat@);
    true
}

/// `s` with every occurrence of the non-empty `pat` replaced by `to`.
pub fn replace(s: &str, pat: &str, to: &str) -> (r: String)
    requires
        pat@.len() > 0,
    ensures
        r@ == replaced(s@, pat@, to@),
{
    let cs = chars_of(s);
    let ps = chars_of(pat);
    let ts = chars_of(to);
    let mut out: Vec<char> = Vec::new();
    let mut i: usize = 0;
    assert(s@.skip(0) =~= s@);
    assert(out@ + replaced(s@, pat@, to@) =~= replaced(s@, pat@, to@));
    while i < cs.len()
        invariant
            i <= cs@.len(),
            cs@ == s@,
            ps@ == pat@,
            ts@ == to@,
            pat@.len() > 0,
            out@ + replaced(s@.skip(i as int), pat@, to@) == replaced(s@, pat@, to@),
        decreases cs@.len() - i,
    {
        let ghost rest = s@.skip(i as int);
        if cs.len() - i < ps.len() {
            proof {
                assert(replaced(rest, pat@, to@) == rest);
            }
            let mut k: usize = i;
            while k < cs.len()
                invariant
                    i <= k <= cs@.len(),
                    cs@ == s@,
                    out@ + s@.subrange(k as int, s@.len() as int) == replaced(s@, pat@, to@),
                decreases cs@.len() - k,
            {
                let ghost before = out@;
                out.push(cs[k]);
                assert(s@.subrange(k as int, s@.len() as int) =~= seq![s@[k as int]] + s@.subrange(k + 1, s@.len() as int));
                assert(before + s@.subrange(k as int, s@.len() as int) =~= out@ + s@.subrange(k + 1, s@.len() as int));
                k = k + 1;
            }
            assert(rest =~= s@.subrange(i as int, s@.len() as int));
            assert(s@.subrange(k as int, s@.len() as int) =~= Seq::<char>::empty());
            assert(out@ + Seq::<char>::empty() =~= out@);
            return string_of_chars(&out);
        }
        if starts_with_at(&cs, i, &ps) {
            let ghost before = out@;
            let mut k: usize = 0;
            while k < ts.len()
                invariant
                    k <= ts@.len(),
                    out@ == before + ts@.take(k as int),
                decreases ts@.len() - k,
            {
                out.push(ts[k]);
                k = k + 1;
                assert(out@ =~= before + ts@.take(k as int));
            }
            assert(ts@.take(k as int) =~= to@);
            assert(rest.skip(pat@.len() as int) =~= s@.skip(i + ps@.len()));
            assert(before + (to@ + replaced(s@.skip(i + ps@.len()), pat@, to@)) =~= out@ + replaced(s@.skip(i + ps@.len()), pat@, to@));
            i = i + ps.len();
        } else {
            let ghost before = out@;
            out.push(cs[i]);
            assert(rest.drop_first() =~= s@.skip(i + 1));
            assert(before + (seq![rest[0]] + replaced(rest.drop_first(), pat@, to@)) =~= out@ + replaced(s@.skip(i + 1), pat@, to@));
            i = i + 1;
        }
    }
    assert(s@.skip(i as int) =~= Seq::<char>::empty());
    assert(out@ + Seq::<char>::empty() =~= out@);
    string_of_chars(&out)
}

impl Blob {
    /// Where a request for a file that is a directory is sent instead.
    pub fn tree_url(url: &str) -> (r: String)
        ensures
            r@ == replaced(url@, "blob"@, "tree"@),
    {
        proof {
            reveal_strlit("blob");
        }
        replace(url, "blob", "tree")
    }
}

impl Tree {
    /// Where a request for a directory that is a file is sent instead.
    pub fn blob_url(url: &str) -> (r: String)
        ensures
            r@ == replaced(url@, "tree"@, "blob"@),
    {
        proof {
            reveal_strlit("tree");
        }
        replace(url, "tree", "blob")
    }
}

/// What kind of object a path of a commit's tree names.
#[derive(Debug, Clone, Copy, PartialEq, Eq, Structural)]
pub enum ObjectKind {
    Blob,
    Tree,
    Commit,
    Tag,
    Any,
}

/// How a file or directory page answers.
#[derive(Debug)]
pub enum EntryAnswer {
    /// Show the object.
    Show,
    /// Send the client to this address instead.
    Redirect(String),
    /// The object is neither a file nor a directory.
    Unsupported,
}

/// The answer of a page that shows objects of kind `shown`, and sends the
/// client from `from` to `to` in its address for objects of kind `other`.
pub open spec fn entry_answer(
    kind: Option<ObjectKind>,
    shown: ObjectKind,
    other: ObjectKind,
    url: Seq<char>,
    from: Seq<char>,
    to: Seq<char>,
    r: EntryAnswer,
) -> bool {
    if kind == Some(shown) {
        r is Show
    } else if kind == Some(other) {
        r matches EntryAnswer::Redirect(u) && u@ == replaced(url, from, to)
    } else {
        r is Unsupported
    }
}

impl Blob {
    /// The answer for a path of kind `kind`, requested at `url`: a file is
    /// shown, a directory is found at the `tree` address.
    pub fn answer(kind: Option<ObjectKind>, url: &str) -> (r: EntryAnswer)
        ensures
            entry_answer(kind, ObjectKind::Blob, ObjectKind::Tree, url@, "blob"@, "tree"@, r),
    {
        match kind {
            Some(ObjectKind::Blob) => EntryAnswer::Show,
            Some(ObjectKind::Tree) => EntryAnswer::Redirect(Blob::tree_url(url)),
            _ => EntryAnswer::Unsupported,
        }
    }
}

impl Tree {
    /// The answer for a path of kind `kind`, requested at `url`: a directory
    /// is shown, a file is found at the `blob` address.
    pub fn answer(kind: Option<ObjectKind>, url: &str) -> (r: EntryAnswer)
        ensures
            entry_answer(kind, ObjectKind::Tree, ObjectKind::Blob, url@, "tree"@, "blob"@, r),
    {
        match kind {
            Some(ObjectKind::Tree) => EntryAnswer::Show,
            Some(ObjectKind::Blob) => EntryAnswer::Redirect(Tree::blob_url(url)),
            _ => EntryAnswer::Unsupported,
        }
    }
}

impl Commits {
    /// The commit that a history page starts at: the first `start` query
    /// parameter of `url`, when it is an object id.
    pub fn start_id(url: &str) -> (r: Option<Oid>)
        ensures
            match url_query_pairs(url@) {
                Some(ps) => match first_value(ps, "start"@) {
                    Some(v) => match (r, oid_from_hex(vstd::utf8::encode_utf8(v))) {
                        (Some(o), Some(b)) => o.bytes@ == b,
                        (None, None) => true,
                        _ => false,
                    },
                    None => r is None,
                },
                None => r is None,
            },
    {
        match query_param(url, "start") {
            Some(v) => parse_oid(v.as_str()),
            None => None,
        }
    }
}

/// The HTML that CommonMark text renders to, as pulldown-cmark writes it.
pub uninterp spec fn commonmark_html(text: Seq<char>) -> Seq<char>;

/// `pulldown_cmark::Parser::new` and `pulldown_cmark::html::push_html`: the
/// HTML of the Markdown `text`. Trusted: names pulldown-cmark's rendering,
/// a function of the text alone.
#[verifier::external_body]
fn markdown_to_html(text: &str) -> (r: String)
    ensures
        r@ == commonmark_html(text@),
{
    let mut buffer = String::new();
    pulldown_cmark::html::push_html(&mut buffer, pulldown_cmark::Parser::new(text));
    buffer
}

impl Pages {
    /// The page a path asks for: a directory asks for its `index.html`.
    pub fn page_path(path: &str) -> (r: String)
        ensures
            r@ == (if path@.len() == 0 || path@.last() == '/' {
                path@ + "index.html"@
            } else {
                path@
            }),
    {
        let cs = chars_of(path);
        let mut page = path.to_owned();
        if cs.len() == 0 || cs[cs.len() - 1] == '/' {
            page.append("index.html");
        }
        page
    }

    /// The Markdown source of an HTML page: `x.html` comes from `x.md`.
    pub fn markdown_path(path: &str) -> (r: Option<String>)
        ensures
            match r {
                Some(m) => path@.len() >= 5 && path@.skip(path@.len() - 5) == ".html"@
                    && m@ == path@.take(path@.len() - 5) + ".md"@,
                None => !(path@.len() >= 5 && path@.skip(path@.len() - 5) == ".html"@),
            },
    {
        proof {
            reveal_strlit(".html");
        }
        let cs = chars_of(path);
        let n = cs.len();
        if n < 5 {
            return None;
        }
        let ends = cs[n - 5] == '.' && cs[n - 4] == 'h' && cs[n - 3] == 't' && cs[n - 2] == 'm'
            && cs[n - 1] == 'l';
        if !ends {
            proof {
                if path@.skip(n - 5) == ".html"@ {
                    assert(path@.skip(n - 5)[0] == '.');
                    assert(path@.skip(n - 5)[1] == 'h');
                    assert(path@.skip(n - 5)[2] == 't');
                    assert(path@.skip(n - 5)[3] == 'm');
                    assert(path@.skip(n - 5)[4] == 'l');
                }
            }
            return None;
        }
        assert(path@.skip(n - 5) =~= ".html"@);
        let mut stem: Vec<char> = Vec::new();
        let mut k: usize = 0;
        while k < n - 5
            invariant
                k <= n - 5,
                n == cs@.len(),
                cs@ == path@,
                stem@ == path@.take(k as int),
            decreases n - 5 - k,
        {
            stem.push(cs[k]);
            k = k + 1;
            assert(stem@ =~= path@.take(k as int));
        }
        let mut m = string_of_chars(&stem);
        m.append(".md");
        Some(m)
    }

    /// The HTML of a Markdown file's contents, when they are UTF-8.
    pub fn render_markdown(content: &[u8]) -> (r: Option<String>)
        ensures
            match r {
                Some(h) => valid_utf8(content@) && h@ == commonmark_html(decode_utf8(content@)),
                None => !valid_utf8(content@),
            },
    {
        match string_from_utf8(vstd::slice::slice_to_vec(content)) {
            Some(text) => Some(markdown_to_html(text.as_str())),
            None => None,
        }
    }
}

/// How a page of the `gh-pages` branch answers.
#[derive(Debug)]
pub enum PageAnswer {
    /// The file at the path, with its content type.
    File(Mime, Vec<u8>),
    /// The HTML rendered from the Markdown source of the page.
    Html(String),
    /// Neither exists.
    NotFound,
}

/// The content type of a file in a repository, by its path and whether its
/// contents are binary.
pub open spec fn blob_type(path: Seq<char>, is_binary: bool) -> Mime {
    mime_for(
        extension(path),
        if is_binary {
            Mime::ApplicationOctetStream
        } else {
            Mime::TextPlain
        },
    )
}

/// The page path that `path` asks for.
pub open spec fn page_of(path: Seq<char>) -> Seq<char> {
    if path.len() == 0 || path.last() == '/' {
        path + "index.html"@
    } else {
        path
    }
}

/// The Markdown source of an HTML page path, if it is one.
pub open spec fn markdown_of(page: Seq<char>) -> Option<Seq<char>> {
    if page.len() >= 5 && page.skip(page.len() - 5) == ".html"@ {
        Some(page.take(page.len() - 5) + ".md"@)
    } else {
        None
    }
}

/// The answer from the Markdown source, when `source` is what the lookup of
/// it found.
pub open spec fn markdown_answer(source: Option<Vec<u8>>, r: PageAnswer) -> bool {
    match source {
        Some(c) => if valid_utf8(c@) {
            r matches PageAnswer::Html(h) && h@ == commonmark_html(decode_utf8(c@))
        } else {
            r is NotFound
        },
        None => r is NotFound,
    }
}

impl Pages {
    /// Answers a request for `path` of the pages: the file at its page path
    /// (`find` gives a file's binary flag and contents, when there is a file);
    /// otherwise, for an HTML page, its Markdown source rendered
    /// (`find_markdown` gives a file's contents); otherwise not found.
    /// `find_markdown` is called only when the page is not a file and is an
    /// HTML page.
    pub fn answer<F, G>(path: &str, find: F, find_markdown: G) -> (r: PageAnswer) where
        F: FnOnce(String) -> Option<(bool, Vec<u8>)>,
        G: FnOnce(String) -> Option<Vec<u8>>,

        requires
            forall|p: String| #[trigger] find.requires((p,)),
            forall|p: String| #[trigger] find_markdown.requires((p,)),
        ensures
            exists|p: String, o: Option<(bool, Vec<u8>)>|
                #![trigger find.ensures((p,), o)]
                p@ == page_of(path@) && find.ensures((p,), o) && match o {
                    Some(f) => r matches PageAnswer::File(m, c) && m == blob_type(page_of(path@), f.0)
                        && c@ == f.1@,
                    None => match markdown_of(page_of(path@)) {
                        None => r is NotFound,
                        Some(md) => exists|q: String, s: Option<Vec<u8>>|
                            #![trigger find_markdown.ensures((q,), s)]
                            q@ == md && find_markdown.ensures((q,), s) && markdown_answer(s, r),
                    },
                },
    {
        let page = Pages::page_path(path);
        let ghost pv = page@;
        let found = find(page.clone());
        proof {
            assert(find.ensures((page,), found));
        }
        match found {
            Some((is_binary, content)) => {
                let m = blob_mime(is_binary, page.as_str());
                PageAnswer::File(m, content)
            },
            None => match Pages::markdown_path(page.as_str()) {
                None => PageAnswer::NotFound,
                Some(md) => {
                    let ghost mdv = md@;
                    let source = find_markdown(md.clone());
                    let r = match &source {
                        Some(c) => match Pages::render_markdown(c.as_slice()) {
                            Some(h) => PageAnswer::Html(h),
                            None => PageAnswer::NotFound,
                        },
                        None => PageAnswer::NotFound,
                    };
                    proof {
                        assert(find_markdown.ensures((md,), source));
                        assert(markdown_answer(source, r));
                    }
                    r
                },
            },
        }
    }
}

/// The path under which a repository's pages live: `/` and its path.
pub fn root_path(path: &str) -> (r: String)
    ensures
        r@ == "/"@ + path@,
{
    let mut root = "/".to_owned();
    root.append(path);
    root
}

impl Repository {
    /// The entity tag of a repository's front page: weak, from the hash of
    /// the commit that HEAD points at.
    pub fn etag(head: &Oid) -> (r: EntityTag)
        ensures
            r.weak && r.tag@ == sha1_hex(head.bytes@),
    {
        EntityTag::weak(sha1(&head.bytes))
    }
}

/// Whether a status is a client or server error.
pub open spec fn is_error_status(status: u16) -> bool {
    400 <= status < 600
}

impl Error {
    /// The status of the error page for a failed request, or `None` when the
    /// failure is passed on: a client or server error gets its page, a
    /// failure without a status becomes `500`, and any other is passed on.
    pub fn page_status(status: Option<u16>) -> (r: Option<u16>)
        ensures
            r == match status {
                Some(s) => if is_error_status(s) {
                    Some(s)
                } else {
                    None
                },
                None => Some(500u16),
            },
    {
        match status {
            Some(s) => {
                if 400 <= s && s < 600 {
                    Some(s)
                } else {
                    None
                }
            },
            None => Some(500),
        }
    }
}

impl BadRequest {
    /// Whether this page answers a failure with `status`.
    pub fn catches(status: Option<u16>) -> (r: bool)
        ensures
            r == (status == Some(400u16)),
    {
        match status {
            Some(s) => s == 400,
            None => false,
        }
    }
}

impl NotFound {
    /// Whether this page answers a failure with `status`.
    pub fn catches(status: Option<u16>) -> (r: bool)
        ensures
            r == (status == Some(404u16)),
    {
        match status {
            Some(s) => s == 404,
            None => false,
        }
    }
}

} // verus!
