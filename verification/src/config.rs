//! The server's configuration: where the repositories are, and how avatars
//! are found and cached.
use vstd::prelude::*;
use std::path::PathBuf;

verus! {

#[verifier::external_type_specification]
#[verifier::external_body]
pub struct ExPathBuf(PathBuf);

/// The whole configuration.
#[derive(Debug)]
pub struct Config {
    pub repos: Repos,
    pub avatars: Avatars,
}

/// Where the repositories are.
#[derive(Debug)]
pub struct Repos {
    pub root: PathBuf,
}

/// How avatars are found.
#[derive(Debug)]
pub struct Avatars {
    pub cache: Cache,
    pub gravatar: Gravatar,
}

/// The cache of avatar images.
#[derive(Debug)]
pub struct Cache {
    pub enable: bool,
    pub capacity: usize,
    pub ttl_seconds: u64,
}

/// Whether avatars are fetched from Gravatar.
#[derive(Debug)]
pub struct Gravatar {
    pub enable: bool,
}

impl Config {
    /// The configuration used when the server is started on a directory:
    /// repositories under it, Gravatar on, and a cache of 100 avatars kept
    /// for 60 seconds.
    pub fn for_directory(root: PathBuf) -> (r: Config)
        ensures
            r.repos.root == root,
            r.avatars.cache.enable,
            r.avatars.cache.capacity == 100,
            r.avatars.cache.ttl_seconds == 60,
            r.avatars.gravatar.enable,
    {
        Config {
            repos: Repos { root },
            avatars: Avatars {
                cache: Cache { enable: true, capacity: 100, ttl_seconds: 60 },
                gravatar: Gravatar { enable: true },
            },
        }
    }
}

} // verus!
