//! File names, extensions and the content types chosen by extension, as
//! std's `Path` reads a `/`-separated path.
use vstd::prelude::*;
use crate::text::{chars_of, string_of_chars};

verus! {

/// The last segment of `s` that is neither empty nor `.`, scanning from the
/// front with `cur` the segment being read and `best` the last one found.
pub open spec fn last_segment_from(s: Seq<char>, cur: Seq<char>, best: Option<Seq<char>>) -> Option<Seq<char>>
    decreases s.len(),
{
    if s.len() == 0 {
        close_segment(cur, best)
    } else if s[0] == '/' {
        last_segment_from(s.drop_first(), seq![], close_segment(cur, best))
    } else {
        last_segment_from(s.drop_first(), cur.push(s[0]), best)
    }
}

pub open spec fn close_segment(cur: Seq<char>, best: Option<Seq<char>>) -> Option<Seq<char>> {
    if cur.len() > 0 && cur != seq!['.'] {
        Some(cur)
    } else {
        best
    }
}

/// The file name of a path, as `Path::file_name` gives it: its last
/// component, when that is a name (not the root, `.` or `..`).
pub open spec fn file_name(path: Seq<char>) -> Option<Seq<char>> {
    match last_segment_from(path, seq![], None) {
        Some(n) => if n == seq!['.', '.'] {
            None
        } else {
            Some(n)
        },
        None => None,
    }
}

/// The position of the last `.` in `s`.
pub open spec fn last_dot(s: Seq<char>) -> Option<int>
    decreases s.len(),
{
    if s.len() == 0 {
        None
    } else if s.last() == '.' {
        Some(s.len() - 1)
    } else {
        last_dot(s.drop_last())
    }
}

/// The extension of a path, as `Path::extension` gives it: what follows the
/// last `.` of the file name, unless that `.` is its first character.
pub open spec fn extension(path: Seq<char>) -> Option<Seq<char>> {
    match file_name(path) {
        Some(n) => match last_dot(n) {
            Some(k) => if k == 0 {
                None
            } else {
                Some(n.skip(k + 1))
            },
            None => None,
        },
        None => None,
    }
}

proof fn lemma_last_dot_bound(s: Seq<char>)
    ensures
        last_dot(s) matches Some(k) ==> 0 <= k < s.len() && s[k] == '.',
    decreases s.len(),
{
    if s.len() > 0 && s.last() != '.' {
        lemma_last_dot_bound(s.drop_last());
    }
}

fn is_dot_segment(cur: &Vec<char>) -> (r: bool)
    ensures
        r == (cur@ == seq!['.']),
{
    if cur.len() == 1 && cur[0] == '.' {
        assert(cur@ =~= seq!['.']);
        true
    } else {
        false
    }
}

/// The file name of `path`.
pub fn file_name_of(path: &str) -> (r: Option<Vec<char>>)
    ensures
        match (r, file_name(path@)) {
            (Some(a), Some(b)) => a@ == b,
            (None, None) => true,
            _ => false,
        },
{
    let cs = chars_of(path);
    let mut cur: Vec<char> = Vec::new();
    let mut best: Option<Vec<char>> = None;
    let mut i: usize = 0;
    assert(path@.skip(0) =~= path@);
    while i < cs.len()
        invariant
            i <= cs@.len(),
            cs@ == path@,
            last_segment_from(path@, seq![], None) == last_segment_from(
                path@.skip(i as int),
                cur@,
                match best {
                    Some(b) => Some(b@),
                    None => None::<Seq<char>>,
                },
            ),
        decreases cs@.len() - i,
    {
        assert(path@.skip(i as int)[0] == cs@[i as int]);
        assert(path@.skip(i as int).drop_first() =~= path@.skip(i + 1));
        if cs[i] == '/' {
            if cur.len() > 0 && !is_dot_segment(&cur) {
                best = Some(cur);
            }
            cur = Vec::new();
            assert(cur@ =~= Seq::<char>::empty());
        } else {
            cur.push(cs[i]);
        }
        i = i + 1;
    }
    assert(path@.skip(i as int) =~= Seq::<char>::empty());
    if cur.len() > 0 && !is_dot_segment(&cur) {
        best = Some(cur);
    }
    match best {
        Some(n) => {
            if n.len() == 2 && n[0] == '.' && n[1] == '.' {
                assert(n@ =~= seq!['.', '.']);
                None
            } else {
                assert(n@ != seq!['.', '.']);
                Some(n)
            }
        },
        None => None,
    }
}

/// The extension of `path`.
pub fn extension_of(path: &str) -> (r: Option<String>)
    ensures
        match (r, extension(path@)) {
            (Some(a), Some(b)) => a@ == b,
            (None, None) => true,
            _ => false,
        },
{
    let name = match file_name_of(path) {
        Some(n) => n,
        None => return None,
    };
    let mut k: usize = name.len();
    assert(name@.take(k as int) =~= name@);
    while k > 0 && name[k - 1] != '.'
        invariant
            k <= name@.len(),
            last_dot(name@) == last_dot(name@.take(k as int)),
        decreases k,
    {
        assert(name@.take(k as int).drop_last() =~= name@.take(k - 1));
        k = k - 1;
    }
    if k == 0 {
        assert(name@.take(0) =~= Seq::<char>::empty());
        return None;
    }
    assert(name@.take(k as int).last() == '.');
    if k == 1 {
        return None;
    }
    let mut ext: Vec<char> = Vec::new();
    let mut q: usize = k;
    while q < name.len()
        invariant
            k <= q <= name@.len(),
            ext@ == name@.subrange(k as int, q as int),
        decreases name@.len() - q,
    {
        ext.push(name[q]);
        q = q + 1;
        assert(ext@ =~= name@.subrange(k as int, q as int));
    }
    assert(ext@ =~= name@.skip(k as int));
    Some(string_of_chars(&ext))
}

/// A content type that the server sends.
#[derive(Debug, Clone, Copy, PartialEq, Eq, Structural)]
pub enum Mime {
    TextCss,
    TextHtml,
    TextJavascript,
    TextPlain,
    ApplicationOctetStream,
}

impl Mime {
    /// The type as it is written in a header.
    pub fn essence(&self) -> (r: &'static str)
        ensures
            r@ == mime_text(*self),
    {
        match self {
            Mime::TextCss => "text/css",
            Mime::TextHtml => "text/html",
            Mime::TextJavascript => "text/javascript",
            Mime::TextPlain => "text/plain",
            Mime::ApplicationOctetStream => "application/octet-stream",
        }
    }
}

pub open spec fn mime_text(m: Mime) -> Seq<char> {
    match m {
        Mime::TextCss => "text/css"@,
        Mime::TextHtml => "text/html"@,
        Mime::TextJavascript => "text/javascript"@,
        Mime::TextPlain => "text/plain"@,
        Mime::ApplicationOctetStream => "application/octet-stream"@,
    }
}

/// The content type for an extension: style sheets, HTML and scripts by
/// name, `other` for anything else.
pub open spec fn mime_for(ext: Option<Seq<char>>, other: Mime) -> Mime {
    match ext {
        Some(e) => if e == "css"@ {
            Mime::TextCss
        } else if e == "html"@ {
            Mime::TextHtml
        } else if e == "js"@ {
            Mime::TextJavascript
        } else {
            other
        },
        None => other,
    }
}

fn mime_of_extension(ext: Option<String>, other: Mime) -> (r: Mime)
    ensures
        r == mime_for(
            match ext {
                Some(e) => Some(e@),
                None => None::<Seq<char>>,
            },
            other,
        ),
{
    match ext {
        Some(e) => {
            if crate::text::str_eq(e.as_str(), "css") {
                Mime::TextCss
            } else if crate::text::str_eq(e.as_str(), "html") {
                Mime::TextHtml
            } else if crate::text::str_eq(e.as_str(), "js") {
                Mime::TextJavascript
            } else {
                other
            }
        },
        None => other,
    }
}

/// The content type of a static file, by its extension.
pub fn mime(path: &str) -> (r: Mime)
    ensures
        r == mime_for(extension(path@), Mime::ApplicationOctetStream),
{
    mime_of_extension(extension_of(path), Mime::ApplicationOctetStream)
}

/// The content type of a file in a repository, by its extension; otherwise
/// binary contents are `application/octet-stream` and text `text/plain`.
pub fn blob_mime(is_binary: bool, path: &str) -> (r: Mime)
    ensures
        r == mime_for(
            extension(path@),
            if is_binary {
                Mime::ApplicationOctetStream
            } else {
                Mime::TextPlain
            },
        ),
{
    let other = if is_binary { Mime::ApplicationOctetStream } else { Mime::TextPlain };
    mime_of_extension(extension_of(path), other)
}

/// Whether an extension is one of those typed by name: `css`, `html`, `js`.
pub open spec fn known_extension(ext: Option<Seq<char>>) -> bool {
    ext == Some("css"@) || ext == Some("html"@) || ext == Some("js"@)
}

/// A file's content type by extension: style sheets, HTML and scripts get
/// their own types, whatever the fallback is; any other extension, and no
/// extension at all, gets the fallback.
pub proof fn law_type_by_extension(ext: Option<Seq<char>>, other: Mime)
    ensures
        ext == Some("css"@) ==> mime_for(ext, other) == Mime::TextCss,
        ext == Some("html"@) ==> mime_for(ext, other) == Mime::TextHtml,
        ext == Some("js"@) ==> mime_for(ext, other) == Mime::TextJavascript,
        !known_extension(ext) ==> mime_for(ext, other) == other,
{
    reveal_strlit("css");
    reveal_strlit("html");
    reveal_strlit("js");
    assert("css"@.len() != "html"@.len());
    assert("css"@[0] != "js"@[0]);
    assert("html"@.len() != "js"@.len());
}

/// A repository file whose extension is not one typed by name (or that has
/// none) is `text/plain` when its contents are text and
/// `application/octet-stream` when they are binary; one whose extension is
/// typed by name has that type either way, the same as a static file.
pub proof fn law_blob_type_by_contents(path: Seq<char>)
    ensures
        !known_extension(extension(path)) ==> mime_for(extension(path), Mime::TextPlain) == Mime::TextPlain
            && mime_for(extension(path), Mime::ApplicationOctetStream) == Mime::ApplicationOctetStream,
        known_extension(extension(path)) ==> mime_for(extension(path), Mime::TextPlain) == mime_for(
            extension(path),
            Mime::ApplicationOctetStream,
        ) && mime_for(extension(path), Mime::TextPlain) == mime_for(extension(path), Mime::ApplicationOctetStream)
            && mime_for(extension(path), Mime::TextPlain) != Mime::TextPlain
            && mime_for(extension(path), Mime::TextPlain) != Mime::ApplicationOctetStream,
{
    law_type_by_extension(extension(path), Mime::TextPlain);
    law_type_by_extension(extension(path), Mime::ApplicationOctetStream);
}

} // verus!
