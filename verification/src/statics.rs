//! Static files served from memory, with a strong entity tag from the hash of
//! their contents, found by path as std compares paths.
use vstd::prelude::*;
use vstd::slice::slice_to_vec;
use crate::paths::Mime;
use crate::text::{chars_of, str_eq};

verus! {

/// The hexadecimal SHA-1 digest of `data`, as rust-crypto's `Sha1` gives it.
pub uninterp spec fn sha1_hex(data: Seq<u8>) -> Seq<char>;

/// The SHA-1 digest of `file`, in lower-case hexadecimal.
pub fn sha1(file: &[u8]) -> (r: String)
    ensures
        r@ == sha1_hex(file@),
{
    sha1_digest(file)
}

/// `crypto::sha1::Sha1`, fed `file`, then `result_str`. Trusted: names
/// rust-crypto's SHA-1 digest in lower-case hexadecimal, a function of the
/// bytes alone.
#[verifier::external_body]
fn sha1_digest(file: &[u8]) -> (r: String)
    ensures
        r@ == sha1_hex(file@),
{
    let mut hasher = crypto::sha1::Sha1::new();
    crypto::digest::Digest::input(&mut hasher, file);
    crypto::digest::Digest::result_str(&mut hasher)
}

/// An HTTP entity tag.
#[derive(Debug, Clone)]
pub struct EntityTag {
    pub weak: bool,
    pub tag: String,
}

impl EntityTag {
    pub fn strong(tag: String) -> (r: EntityTag)
        ensures
            !r.weak && r.tag@ == tag@,
    {
        EntityTag { weak: false, tag }
    }

    pub fn weak(tag: String) -> (r: EntityTag)
        ensures
            r.weak && r.tag@ == tag@,
    {
        EntityTag { weak: true, tag }
    }
}

/// A file to serve: its content type, entity tag and contents.
#[derive(Debug)]
pub struct FileData(pub Mime, pub EntityTag, pub Vec<u8>);

impl FileData {
    /// The file with these contents, tagged strongly with their SHA-1 digest.
    pub fn from(mime: Mime, content: Vec<u8>) -> (r: FileData)
        ensures
            r.0 == mime,
            !r.1.weak,
            r.1.tag@ == sha1_hex(content@),
            r.2@ == content@,
    {
        let etag = EntityTag::strong(sha1(content.as_slice()));
        FileData(mime, etag, content)
    }

    /// A copy of the file.
    pub fn duplicate(&self) -> (r: FileData)
        ensures
            r.0 == self.0,
            r.1.weak == self.1.weak,
            r.1.tag@ == self.1.tag@,
            r.2@ == self.2@,
    {
        FileData(self.0, EntityTag { weak: self.1.weak, tag: self.1.tag.clone() }, slice_to_vec(self.2.as_slice()))
    }
}

/// Whether `s` starts at the root.
pub open spec fn has_root(s: Seq<char>) -> bool {
    s.len() > 0 && s[0] == '/'
}

/// Whether `s` starts with a `.` component, which std keeps.
pub open spec fn leading_cur_dir(s: Seq<char>) -> bool {
    !has_root(s) && s.len() > 0 && s[0] == '.' && (s.len() == 1 || s[1] == '/')
}

pub open spec fn keep_segment(cur: Seq<char>, acc: Seq<Seq<char>>) -> Seq<Seq<char>> {
    if cur.len() > 0 && cur != seq!['.'] {
        acc.push(cur)
    } else {
        acc
    }
}

/// The segments of `s` that are neither empty nor `.`, after `acc`, with
/// `cur` the segment being read.
pub open spec fn segments_from(s: Seq<char>, cur: Seq<char>, acc: Seq<Seq<char>>) -> Seq<Seq<char>>
    decreases s.len(),
{
    if s.len() == 0 {
        keep_segment(cur, acc)
    } else if s[0] == '/' {
        segments_from(s.drop_first(), seq![], keep_segment(cur, acc))
    } else {
        segments_from(s.drop_first(), cur.push(s[0]), acc)
    }
}

/// Whether two paths are equal as std's `Path` compares them: by their
/// components, so that repeated separators and `.` components do not count.
pub open spec fn same_path(a: Seq<char>, b: Seq<char>) -> bool {
    &&& has_root(a) == has_root(b)
    &&& leading_cur_dir(a) == leading_cur_dir(b)
    &&& segments_from(a, seq![], seq![]) == segments_from(b, seq![], seq![])
}

/// The segments of a path.
fn segments(s: &Vec<char>) -> (r: Vec<Vec<char>>)
    ensures
        r@.map_values(|v: Vec<char>| v@) == segments_from(s@, seq![], seq![]),
{
    let mut acc: Vec<Vec<char>> = Vec::new();
    let mut cur: Vec<char> = Vec::new();
    let mut i: usize = 0;
    assert(s@.skip(0) =~= s@);
    assert(acc@.map_values(|v: Vec<char>| v@) =~= Seq::<Seq<char>>::empty());
    while i < s.len()
        invariant
            i <= s@.len(),
            segments_from(s@, seq![], seq![]) == segments_from(s@.skip(i as int), cur@, acc@.map_values(|v: Vec<char>| v@)),
        decreases s@.len() - i,
    {
        assert(s@.skip(i as int)[0] == s@[i as int]);
        assert(s@.skip(i as int).drop_first() =~= s@.skip(i + 1));
        if s[i] == '/' {
            let ghost before = acc@.map_values(|v: Vec<char>| v@);
            let ghost c = cur@;
            if cur.len() > 0 && !(cur.len() == 1 && cur[0] == '.') {
                assert(c != seq!['.']);
                acc.push(cur);
                assert(acc@.map_values(|v: Vec<char>| v@) =~= before.push(c));
            } else {
                assert(cur.len() == 1 ==> c =~= seq!['.']);
            }
            cur = Vec::new();
            assert(cur@ =~= Seq::<char>::empty());
        } else {
            cur.push(s[i]);
        }
        i = i + 1;
    }
    assert(s@.skip(i as int) =~= Seq::<char>::empty());
    let ghost before = acc@.map_values(|v: Vec<char>| v@);
    let ghost c = cur@;
    if cur.len() > 0 && !(cur.len() == 1 && cur[0] == '.') {
        assert(c != seq!['.']);
        acc.push(cur);
        assert(acc@.map_values(|v: Vec<char>| v@) =~= before.push(c));
    } else {
        assert(cur.len() == 1 ==> c =~= seq!['.']);
    }
    acc
}

fn chars_eq(a: &Vec<char>, b: &Vec<char>) -> (r: bool)
    ensures
        r == (a@ == b@),
{
    if a.len() != b.len() {
        return false;
    }
    let mut i: usize = 0;
    while i < a.len()
        invariant
            i <= a@.len(),
            a@.len() == b@.len(),
            forall|k: int| 0 <= k < i ==> a@[k] == b@[k],
        decreases a@.len() - i,
    {
        if a[i] != b[i] {
            return false;
        }
        i = i + 1;
    }
    assert(a@ =~= b@);
    true
}

fn segments_eq(a: &Vec<Vec<char>>, b: &Vec<Vec<char>>) -> (r: bool)
    ensures
        r == (a@.map_values(|v: Vec<char>| v@) == b@.map_values(|v: Vec<char>| v@)),
{
    let ghost av = a@.map_values(|v: Vec<char>| v@);
    let ghost bv = b@.map_values(|v: Vec<char>| v@);
    if a.len() != b.len() {
        assert(av.len() != bv.len());
        return false;
    }
    let mut i: usize = 0;
    while i < a.len()
        invariant
            i <= a@.len(),
            a@.len() == b@.len(),
            av == a@.map_values(|v: Vec<char>| v@),
            bv == b@.map_values(|v: Vec<char>| v@),
            forall|k: int| 0 <= k < i ==> av[k] == bv[k],
        decreases a@.len() - i,
    {
        if !chars_eq(&a[i], &b[i]) {
            assert(av[i as int] != bv[i as int]);
            return false;
        }
        i = i + 1;
    }
    assert(av =~= bv);
    true
}

fn root_and_cur_dir(s: &Vec<char>) -> (r: (bool, bool))
    ensures
        r.0 == has_root(s@),
        r.1 == leading_cur_dir(s@),
{
    let root = s.len() > 0 && s[0] == '/';
    let cur = !root && s.len() > 0 && s[0] == '.' && (s.len() == 1 || s[1] == '/');
    (root, cur)
}

/// Whether `a` and `b` name the same path.
pub fn same_path_exec(a: &str, b: &str) -> (r: bool)
    ensures
        r == same_path(a@, b@),
{
    let ac = chars_of(a);
    let bc = chars_of(b);
    let (ar, acd) = root_and_cur_dir(&ac);
    let (br, bcd) = root_and_cur_dir(&bc);
    if ar != br || acd != bcd {
        return false;
    }
    segments_eq(&segments(&ac), &segments(&bc))
}

/// The static files, each under its path.
pub struct Static {
    files: Vec<(String, FileData)>,
}

/// The position of the last file whose path is the same as `path`.
pub open spec fn last_match(keys: Seq<Seq<char>>, path: Seq<char>) -> Option<int>
    decreases keys.len(),
{
    if keys.len() == 0 {
        None
    } else if same_path(keys.last(), path) {
        Some(keys.len() - 1)
    } else {
        last_match(keys.drop_last(), path)
    }
}

impl Static {
    /// The paths of the files.
    pub closed spec fn paths(&self) -> Seq<Seq<char>> {
        self.files@.map_values(|f: (String, FileData)| f.0@)
    }

    /// The file at position `k`.
    pub closed spec fn file_at(&self, k: int) -> FileData {
        self.files@[k].1
    }

    /// The files to serve, under their paths; of files under the same path,
    /// the last one is served.
    pub fn new(files: Vec<(String, FileData)>) -> (r: Static)
        ensures
            r.paths() == files@.map_values(|f: (String, FileData)| f.0@),
            forall|k: int| 0 <= k < files@.len() ==> r.file_at(k) == files@[k].1,
    {
        Static { files }
    }

    /// The file under `path`, if any.
    pub fn find_file(&self, path: &str) -> (r: Option<FileData>)
        ensures
            match (r, last_match(self.paths(), path@)) {
                (Some(f), Some(k)) => f.0 == self.file_at(k).0 && f.1.weak == self.file_at(k).1.weak
                    && f.1.tag@ == self.file_at(k).1.tag@ && f.2@ == self.file_at(k).2@,
                (None, None) => true,
                _ => false,
            },
    {
        let ghost keys = self.paths();
        let mut k: usize = self.files.len();
        assert(keys.take(k as int) =~= keys);
        while k > 0
            invariant
                k <= self.files@.len(),
                keys == self.paths(),
                last_match(keys, path@) == last_match(keys.take(k as int), path@),
            decreases k,
        {
            assert(keys.take(k as int).last() == self.files@[k - 1].0@);
            assert(keys.take(k as int).drop_last() =~= keys.take(k - 1));
            if same_path_exec(self.files[k - 1].0.as_str(), path) {
                return Some(self.files[k - 1].1.duplicate());
            }
            k = k - 1;
        }
        None
    }
}

} // verus!
