//! Avatar images: looked up in a time- and size-limited cache, else fetched
//! from Gravatar when that is enabled, else the default image; what is found
//! is cached under the user.
use vstd::prelude::*;
use vstd::string::StringExecFns;
use lru_time_cache::LruCache;
use crate::paths::mime_text;
use crate::statics::{EntityTag, FileData, sha1, sha1_hex};

verus! {

#[verifier::external_type_specification]
#[verifier::external_body]
#[verifier::reject_recursive_types(Key)]
#[verifier::reject_recursive_types(Value)]
pub struct ExLruCache<Key, Value>(LruCache<Key, Value>);

/// The longest time to live, in seconds, that the cache is given: adding it
/// to the time an entry was stored cannot overflow.
pub const MAX_TIME_TO_LIVE: u64 = 0x4000_0000_0000_0000;

/// The largest number of images a cache is made for: the cache reserves room
/// for that many keys up front, and a larger reservation overflows
/// `isize::MAX` bytes on 32-bit targets.
pub const MAX_CACHE_CAPACITY: usize = 89_478_485;

/// How avatars are found.
#[derive(Debug)]
pub struct Options {
    pub enable_gravatar: bool,
    pub enable_cache: bool,
    pub cache_capacity: usize,
    /// How long a cached image is kept, in seconds.
    pub cache_time_to_live: u64,
}

impl Options {
    /// A copy of the options.
    pub fn duplicate(&self) -> (r: Options)
        ensures
            r == *self,
    {
        Options {
            enable_gravatar: self.enable_gravatar,
            enable_cache: self.enable_cache,
            cache_capacity: self.cache_capacity,
            cache_time_to_live: self.cache_time_to_live,
        }
    }

    /// Options that a cache can be made with: one that is enabled holds at
    /// least one and at most `MAX_CACHE_CAPACITY` images, and keeps them at
    /// most `MAX_TIME_TO_LIVE` seconds.
    pub open spec fn usable(&self) -> bool {
        self.enable_cache ==> (0 < self.cache_capacity <= MAX_CACHE_CAPACITY
            && self.cache_time_to_live <= MAX_TIME_TO_LIVE)
    }
}

/// An avatar image: its content type, entity tag and bytes.
#[derive(Debug, Clone)]
pub struct Image {
    pub mime: String,
    pub etag: EntityTag,
    pub data: Vec<u8>,
}

/// What an image is: content type, whether the tag is weak, the tag, and
/// the bytes.
pub open spec fn image_view(i: Image) -> (Seq<char>, bool, Seq<char>, Seq<u8>) {
    (i.mime@, i.etag.weak, i.etag.tag@, i.data@)
}

impl Image {
    /// The image with content type `mime` and bytes `data`, tagged strongly
    /// with the SHA-1 digest of the bytes.
    pub fn from(mime: String, data: Vec<u8>) -> (r: Image)
        ensures
            image_view(r) == (mime@, false, sha1_hex(data@), data@),
    {
        let etag = EntityTag::strong(sha1(data.as_slice()));
        Image { mime, etag, data }
    }

    /// A copy of the image.
    pub fn duplicate(&self) -> (r: Image)
        ensures
            image_view(r) == image_view(*self),
    {
        Image {
            mime: self.mime.clone(),
            etag: EntityTag { weak: self.etag.weak, tag: self.etag.tag.clone() },
            data: self.data.clone(),
        }
    }

    /// A static file as an image.
    pub fn from_file(file: FileData) -> (r: Image)
        ensures
            image_view(r) == (mime_text(file.0), file.1.weak, file.1.tag@, file.2@),
    {
        let FileData(mime, etag, data) = file;
        Image { mime: mime.essence().to_owned(), etag, data }
    }
}

/// What the cache `c` holds: each user's image.
pub uninterp spec fn cached_images(c: LruCache<String, Image>) -> Map<
    Seq<char>,
    (Seq<char>, bool, Seq<char>, Seq<u8>),
>;

/// How many images the cache `c` was made to hold.
pub uninterp spec fn cache_capacity(c: LruCache<String, Image>) -> nat;

/// How long, in seconds, the cache `c` was made to keep an image.
pub uninterp spec fn cache_time_to_live(c: LruCache<String, Image>) -> nat;

/// `LruCache::with_expiry_duration_and_capacity`: an empty cache of
/// `capacity` images kept `ttl_secs` seconds. Trusted: the constructor
/// stores both limits and an empty map; it reserves a `VecDeque` of
/// `capacity` keys, which panics when that overflows, so the capacity is
/// bounded.
#[verifier::external_body]
fn new_image_cache(ttl_secs: u64, capacity: usize) -> (c: LruCache<String, Image>)
    requires
        capacity <= MAX_CACHE_CAPACITY,
    ensures
        cached_images(c).dom() == Set::<Seq<char>>::empty(),
        cache_capacity(c) == capacity,
        cache_time_to_live(c) == ttl_secs,
{
    LruCache::with_expiry_duration_and_capacity(std::time::Duration::from_secs(ttl_secs), capacity)
}

/// `LruCache::get`, with the image cloned. Trusted: `get` first drops
/// expired entries (only ever removing entries), then looks `user` up in
/// what is left; the limits are kept. Which entries have expired depends on
/// the clock, so that is left open. The time to live is bounded because the
/// expiry check adds it to an entry's `Instant`, which panics on overflow.
#[verifier::external_body]
fn cache_lookup(c: &mut LruCache<String, Image>, user: &str) -> (r: Option<Image>)
    requires
        cache_time_to_live(*old(c)) <= MAX_TIME_TO_LIVE,
    ensures
        cache_capacity(*final(c)) == cache_capacity(*old(c)),
        cache_time_to_live(*final(c)) == cache_time_to_live(*old(c)),
        cached_images(*final(c)).submap_of(cached_images(*old(c))),
        match r {
            Some(i) => cached_images(*final(c)).contains_key(user@) && cached_images(*final(c))[user@]
                == image_view(i),
            None => !cached_images(*final(c)).contains_key(user@),
        },
{
    c.get(&user.to_owned()).cloned()
}

/// `LruCache::insert`. Trusted: `insert` drops expired entries and, for a
/// new user in a full cache, the least recently used ones, then stores the
/// image under `user`; the limits are kept. It panics with a capacity of 0
/// (it drains one entry more than the empty list holds) and, like a lookup,
/// on a time to live that overflows an `Instant`.
#[verifier::external_body]
fn cache_store(c: &mut LruCache<String, Image>, user: String, image: Image)
    requires
        cache_capacity(*old(c)) > 0,
        cache_time_to_live(*old(c)) <= MAX_TIME_TO_LIVE,
    ensures
        cache_capacity(*final(c)) == cache_capacity(*old(c)),
        cache_time_to_live(*final(c)) == cache_time_to_live(*old(c)),
        cached_images(*final(c)).contains_key(user@),
        cached_images(*final(c))[user@] == image_view(image),
        forall|k: Seq<char>|
            #![trigger cached_images(*final(c)).contains_key(k)]
            k != user@ && cached_images(*final(c)).contains_key(k) ==> cached_images(
                *old(c),
            ).contains_key(k) && cached_images(*final(c))[k] == cached_images(*old(c))[k],
{
    let _ = c.insert(user, image);
}

/// The hexadecimal MD5 digest that Gravatar files an address under: that of
/// the address trimmed and in ASCII lower case.
pub uninterp spec fn gravatar_hash(email: Seq<char>) -> Seq<char>;

/// `gravatar::Gravatar::image_url` for `email`, 30 pixels, with identicons
/// for addresses without a Gravatar. Trusted: the crate builds
/// `https://secure.gravatar.com/avatar/` and the digest, then appends the
/// query pairs `s` and `d` in that order.
#[verifier::external_body]
fn gravatar_image_url(email: &str) -> (r: String)
    ensures
        r@ == "https://secure.gravatar.com/avatar/"@ + gravatar_hash(email@) + "?s=30&d=identicon"@,
{
    gravatar::Gravatar::new(email)
        .set_size(Some(30))
        .set_default(Some(gravatar::Default::Identicon))
        .image_url()
        .to_string()
}

/// Finds avatar images for users.
pub struct Avatars {
    enable_gravatar: bool,
    cache: Option<LruCache<String, Image>>,
    options: Options,
}

/// How an image came to be: from Gravatar, when that is enabled and it had
/// one, or else the default image.
pub open spec fn made_image<F, D>(fetch: F, default: D, gravatar: bool, r: Image) -> bool where
    F: FnOnce() -> Option<Image>,
    D: FnOnce() -> Image,
 {
    ||| gravatar && exists|o: Option<Image>| #[trigger] fetch.ensures((), o) && o == Some(r)
    ||| (!gravatar || exists|o: Option<Image>| #[trigger] fetch.ensures((), o) && o is None)
        && default.ensures((), r)
}

impl Avatars {
    /// The flags agree with the options, and a cache exists exactly when it
    /// is enabled, with the options' limits.
    pub closed spec fn well_formed(&self) -> bool {
        &&& self.enable_gravatar == self.options.enable_gravatar
        &&& self.cache is Some == self.options.enable_cache
        &&& self.options.usable()
        &&& (self.cache matches Some(c) ==> cache_capacity(c) == self.options.cache_capacity
            && cache_time_to_live(c) == self.options.cache_time_to_live)
    }

    /// The options the avatars were set up with.
    pub closed spec fn options(&self) -> Options {
        self.options
    }

    /// What the cache holds, or `None` without a cache.
    pub closed spec fn cached(&self) -> Option<Map<Seq<char>, (Seq<char>, bool, Seq<char>, Seq<u8>)>> {
        match self.cache {
            Some(c) => Some(cached_images(c)),
            None => None,
        }
    }

    /// The image for `user`: the cached one, or else the one from Gravatar
    /// (when enabled and it has one) or the default, which is then cached.
    /// `fetch` is called only when nothing is cached and Gravatar is
    /// enabled, `default` only when no image came from Gravatar.
    pub fn find_image<F, D>(&mut self, user: &str, fetch: F, default: D) -> (r: Image) where
        F: FnOnce() -> Option<Image>,
        D: FnOnce() -> Image,

        requires
            old(self).well_formed(),
            fetch.requires(()),
            default.requires(()),
        ensures
            final(self).well_formed(),
            final(self).options() == old(self).options(),
            match (old(self).cached(), final(self).cached()) {
                (None, None) => made_image(fetch, default, old(self).options().enable_gravatar, r),
                (Some(c0), Some(c1)) => {
                    &&& c1.contains_key(user@)
                    &&& c1[user@] == image_view(r)
                    &&& ({
                        ||| c1.submap_of(c0)
                        ||| made_image(fetch, default, old(self).options().enable_gravatar, r)
                            && forall|k: Seq<char>|
                            #![trigger c1.contains_key(k)]
                            k != user@ && c1.contains_key(k) ==> c0.contains_key(k) && c1[k]
                                == c0[k]
                    })
                },
                _ => false,
            },
    {
        match self.find_cached(user) {
            Some(image) => image,
            None => {
                let fetched = if self.enable_gravatar {
                    fetch()
                } else {
                    None
                };
                let image = match fetched {
                    Some(i) => i,
                    None => default(),
                };
                self.cache(user, image)
            },
        }
    }

    /// Avatars found as `options` say, with an empty cache when it is
    /// enabled.
    pub fn new(options: Options) -> (r: Avatars)
        requires
            options.usable(),
        ensures
            r.well_formed(),
            r.options() == options,
            r.cached() == if options.enable_cache {
                Some(Map::<Seq<char>, (Seq<char>, bool, Seq<char>, Seq<u8>)>::empty())
            } else {
                None
            },
    {
        let cache = if options.enable_cache {
            Some(new_image_cache(options.cache_time_to_live, options.cache_capacity))
        } else {
            None
        };
        Avatars { enable_gravatar: options.enable_gravatar, cache, options }
    }

    /// New avatars with the same options, and so an empty cache.
    pub fn duplicate(&self) -> (r: Avatars)
        requires
            self.well_formed(),
        ensures
            r.well_formed(),
            r.options() == self.options(),
            r.cached() == if self.options().enable_cache {
                Some(Map::<Seq<char>, (Seq<char>, bool, Seq<char>, Seq<u8>)>::empty())
            } else {
                None
            },
    {
        Avatars::new(self.options.duplicate())
    }

    /// Whether images are fetched from Gravatar.
    pub fn gravatar_enabled(&self) -> (r: bool)
        requires
            self.well_formed(),
        ensures
            r == self.options().enable_gravatar,
    {
        self.enable_gravatar
    }

    /// The address of `user`'s Gravatar image.
    pub fn gravatar_url(user: &str) -> (r: String)
        ensures
            r@ == "https://secure.gravatar.com/avatar/"@ + gravatar_hash(user@) + "?s=30&d=identicon"@,
    {
        gravatar_image_url(user)
    }

    /// The image cached for `user`, if any.
    pub fn find_cached(&mut self, user: &str) -> (r: Option<Image>)
        requires
            old(self).well_formed(),
        ensures
            final(self).well_formed(),
            final(self).options() == old(self).options(),
            match (old(self).cached(), final(self).cached()) {
                (None, None) => r is None,
                (Some(c0), Some(c1)) => c1.submap_of(c0) && match r {
                    Some(i) => c1.contains_key(user@) && c1[user@] == image_view(i),
                    None => !c1.contains_key(user@),
                },
                _ => false,
            },
    {
        match &mut self.cache {
            Some(c) => cache_lookup(c, user),
            None => None,
        }
    }

    /// Caches `image` for `user`, when there is a cache, and hands it back.
    pub fn cache(&mut self, user: &str, image: Image) -> (r: Image)
        requires
            old(self).well_formed(),
        ensures
            final(self).well_formed(),
            r == image,
            final(self).options() == old(self).options(),
            match (old(self).cached(), final(self).cached()) {
                (None, None) => true,
                (Some(c0), Some(c1)) => {
                    &&& c1.contains_key(user@)
                    &&& c1[user@] == image_view(image)
                    &&& forall|k: Seq<char>|
                        #![trigger c1.contains_key(k)]
                        k != user@ && c1.contains_key(k) ==> c0.contains_key(k) && c1[k] == c0[k]
                },
                _ => false,
            },
    {
        match &mut self.cache {
            Some(c) => cache_store(c, user.to_owned(), image.duplicate()),
            None => {},
        }
        image
    }
}

} // verus!
