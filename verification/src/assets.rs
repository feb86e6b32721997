//! The static asset subsystem: configuration, and resolution of a
//! request path to a candidate file under the configured root via the
//! mount prefix, the index file, and the manifest.

use vstd::prelude::*;
use vstd::string::*;

use crate::manifest::{spec_lookup, ManifestState};
use crate::paths::{
    contains_illegal_component, has_illegal_component, join_under_root, joined_path,
    normalise_prefix, normalised_prefix,
};
use crate::strutil::{is_prefix_of, is_suffix_of, str_ends_with, str_starts_with};

verus! {

/// Configuration for serving static assets.  Paths are carried as
/// plain strings; the surrounding binary owns the real filesystem
/// handles.
pub struct StaticAssetConfig {
    pub mount_path: String,
    pub root: String,
    pub index_file: String,
    pub manifest_path: Option<String>,
    pub immutable_cache_seconds: u64,
    pub default_cache_seconds: u64,
    pub keepalive_seconds: u64,
}

/// A resolved candidate: the full filesystem path to open, the logical
/// path the request denoted, and whether the physical path came from a
/// manifest substitution (which drives cache policy).
pub struct ResolvedFile {
    pub full_path: String,
    pub logical_path: String,
    pub from_manifest: bool,
}

/// Handles resolving and serving static assets from disk.
pub struct StaticAssets {
    mount_path: String,
    root: String,
    index_file: String,
    immutable_cache_seconds: u64,
    default_cache_seconds: u64,
    keepalive_seconds: u64,
}

/// The remainder of the request path once the mount prefix and at most
/// one further leading `/` are stripped.
pub open spec fn stripped_of(mount: Seq<char>, path: Seq<char>) -> Seq<char> {
    let t = path.skip(mount.len() as int);
    if t.len() > 0 && t[0] == '/' {
        t.skip(1)
    } else {
        t
    }
}

/// The logical path of a request: the stripped remainder, with the
/// index file appended when the remainder is empty or directory-like
/// (ends in `/`).
pub open spec fn logical_of(mount: Seq<char>, index: Seq<char>, path: Seq<char>) -> Seq<char> {
    let t = stripped_of(mount, path);
    if t.len() == 0 || t.last() == '/' {
        t + index
    } else {
        t
    }
}

/// HTML entry points are never looked up in the manifest: they must
/// resolve to their literal names so they are revalidated on every
/// load, while hashed assets go through the manifest for cache
/// busting.
pub open spec fn consults_manifest(logical: Seq<char>) -> bool {
    !is_suffix_of(".html"@, logical)
}

pub open spec fn manifest_sub(m: Option<&ManifestState>, logical: Seq<char>) -> Option<Seq<char>> {
    match m {
        Some(st) => spec_lookup(st.entries_view(), logical),
        None => None,
    }
}

/// What resolution yields: `None` for a request outside the mount or
/// one whose logical or physical path is unsafe, else the joined
/// filesystem path, the logical path, and the manifest-derived flag.
pub open spec fn resolution_of(
    mount: Seq<char>,
    index: Seq<char>,
    root: Seq<char>,
    m: Option<&ManifestState>,
    path: Seq<char>,
) -> Option<(Seq<char>, Seq<char>, bool)> {
    if !is_prefix_of(mount, path) {
        None
    } else {
        let logical = logical_of(mount, index, path);
        if has_illegal_component(logical) {
            None
        } else {
            let sub = if consults_manifest(logical) {
                manifest_sub(m, logical)
            } else {
                None
            };
            let phys = match sub {
                Some(p) => p,
                None => logical,
            };
            let from_manifest = sub is Some;
            if has_illegal_component(phys) {
                None
            } else {
                Some((joined_path(root, phys), logical, from_manifest))
            }
        }
    }
}

/// Law: a request for a path outside the mount prefix resolves to
/// nothing — it never reaches the filesystem join.
pub proof fn lemma_outside_mount_never_resolves(
    mount: Seq<char>,
    index: Seq<char>,
    root: Seq<char>,
    m: Option<&ManifestState>,
    path: Seq<char>,
)
    requires
        !is_prefix_of(mount, path),
    ensures
        resolution_of(mount, index, root, m, path) is None,
{
}

/// Law: a logical path that carries a parent-directory or
/// root-anchoring component after prefix-stripping resolves to
/// nothing, whatever the manifest holds.
pub proof fn lemma_traversal_rejected(
    mount: Seq<char>,
    index: Seq<char>,
    root: Seq<char>,
    m: Option<&ManifestState>,
    path: Seq<char>,
)
    requires
        has_illegal_component(logical_of(mount, index, path)),
    ensures
        resolution_of(mount, index, root, m, path) is None,
{
}

/// Law: a manifest-substituted physical path is re-validated by the
/// same rule: when it is unsafe, resolution yields nothing.
pub proof fn lemma_unsafe_substitution_rejected(
    mount: Seq<char>,
    index: Seq<char>,
    root: Seq<char>,
    m: Option<&ManifestState>,
    path: Seq<char>,
)
    requires
        is_prefix_of(mount, path),
        consults_manifest(logical_of(mount, index, path)),
        manifest_sub(m, logical_of(mount, index, path)) matches Some(phys)
            && has_illegal_component(phys),
    ensures
        resolution_of(mount, index, root, m, path) is None,
{
}

impl StaticAssets {
    /// The normalized mount prefix.
    pub closed spec fn mount_view(&self) -> Seq<char> {
        self.mount_path@
    }

    /// The configured filesystem root.
    pub closed spec fn root_view(&self) -> Seq<char> {
        self.root@
    }

    /// The configured index file name.
    pub closed spec fn index_view(&self) -> Seq<char> {
        self.index_file@
    }

    pub closed spec fn immutable_ttl(&self) -> u64 {
        self.immutable_cache_seconds
    }

    pub closed spec fn default_ttl(&self) -> u64 {
        self.default_cache_seconds
    }

    pub closed spec fn keepalive(&self) -> u64 {
        self.keepalive_seconds
    }

    /// Builds the subsystem from its configuration, normalizing the
    /// mount prefix.  Loading the manifest file itself is I/O and
    /// happens outside; its snapshot is handed to `resolve` per
    /// request.
    pub fn new(config: StaticAssetConfig) -> (r: StaticAssets)
        ensures
            r.mount_view() == normalised_prefix(config.mount_path@),
            r.root_view() == config.root@,
            r.index_view() == config.index_file@,
            r.immutable_ttl() == config.immutable_cache_seconds,
            r.default_ttl() == config.default_cache_seconds,
            r.keepalive() == config.keepalive_seconds,
    {
        StaticAssets {
            mount_path: normalise_prefix(config.mount_path.as_str()),
            root: config.root,
            index_file: config.index_file,
            immutable_cache_seconds: config.immutable_cache_seconds,
            default_cache_seconds: config.default_cache_seconds,
            keepalive_seconds: config.keepalive_seconds,
        }
    }

    pub fn mount_path(&self) -> (r: &str)
        ensures
            r@ == self.mount_view(),
    {
        self.mount_path.as_str()
    }

    pub fn root_path(&self) -> (r: &str)
        ensures
            r@ == self.root_view(),
    {
        self.root.as_str()
    }

    /// Resolves a request path against the mount prefix, the index
    /// file, and the manifest snapshot, enforcing the path-safety
    /// rules on both the logical and the physical path.
    pub fn resolve(&self, request_path: &str, manifest: Option<&ManifestState>) -> (r: Option<
        ResolvedFile,
    >)
        ensures
            match r {
                Some(rf) => resolution_of(
                    self.mount_view(),
                    self.index_view(),
                    self.root_view(),
                    manifest,
                    request_path@,
                ) == Some((rf.full_path@, rf.logical_path@, rf.from_manifest)),
                None => resolution_of(
                    self.mount_view(),
                    self.index_view(),
                    self.root_view(),
                    manifest,
                    request_path@,
                ) is None,
            },
    {
        if !str_starts_with(request_path, self.mount_path.as_str()) {
            return None;
        }
        let plen = self.mount_path.as_str().unicode_len();
        let full_len = request_path.unicode_len();
        let t0 = request_path.substring_char(plen, full_len);
        proof {
            assert(t0@ =~= request_path@.skip(plen as int));
        }
        let t0len = t0.unicode_len();
        let trimmed = if t0len > 0 && t0.get_char(0) == '/' {
            let t1 = t0.substring_char(1, t0len);
            proof {
                assert(t1@ =~= t0@.skip(1));
            }
            t1
        } else {
            t0
        };
        let tlen = trimmed.unicode_len();
        let logical: String = if tlen == 0 || trimmed.get_char(tlen - 1) == '/' {
            trimmed.to_owned().concat(self.index_file.as_str())
        } else {
            trimmed.to_owned()
        };
        proof {
            assert(logical@ == logical_of(self.mount_view(), self.index_view(), request_path@));
        }
        if contains_illegal_component(logical.as_str()) {
            return None;
        }
        let mut from_manifest = false;
        let mut file_path: String = logical.clone();
        if !str_ends_with(logical.as_str(), ".html") {
            if let Some(st) = manifest {
                if let Some(mapped) = st.lookup(logical.as_str()) {
                    file_path = mapped;
                    from_manifest = true;
                }
            }
        }
        if contains_illegal_component(file_path.as_str()) {
            return None;
        }
        let full_path = join_under_root(self.root.as_str(), file_path.as_str());
        Some(ResolvedFile { full_path, logical_path: logical, from_manifest })
    }

    /// Decides the response for a resolved candidate under this
    /// configuration's cache TTLs and keepalive.
    pub fn respond(
        &self,
        method: &str,
        resolved: &ResolvedFile,
        stat: &crate::responder::StatOutcome,
        if_none_match: Option<&str>,
        if_modified_since: Option<&str>,
        origin: Option<&str>,
    ) -> (r: crate::responder::ServeAction)
        requires
            match *stat {
                crate::responder::StatOutcome::Found(info) => info.mtime_secs matches Some(s)
                    ==> s < crate::responder::HTTP_DATE_MAX_SECS,
                _ => true,
            },
        ensures
            crate::responder::respond_plan_ok(
                r,
                method@,
                resolved.logical_path@,
                resolved.from_manifest,
                *stat,
                crate::conditional::opt_view(if_none_match),
                crate::conditional::opt_view(if_modified_since),
                crate::conditional::opt_view(origin),
                self.immutable_ttl(),
                self.default_ttl(),
                self.keepalive(),
            ),
    {
        crate::responder::respond_plan(
            method,
            resolved,
            stat,
            if_none_match,
            if_modified_since,
            origin,
            self.immutable_cache_seconds,
            self.default_cache_seconds,
            self.keepalive_seconds,
        )
    }
}

/// The configured poll interval for the background manifest refresh,
/// clamped to at least one second.
pub fn manifest_poll_seconds(configured: Option<u64>) -> (r: u64)
    ensures
        r == match configured {
            Some(p) => if p < 1 {
                1u64
            } else {
                p
            },
            None => 5u64,
        },
{
    match configured {
        Some(p) => if p < 1 {
            1
        } else {
            p
        },
        None => 5,
    }
}

/// Fills the configuration from optional settings, with the defaults
/// the gateway ships with: mount at the root, `index.html` directory
/// index, a year of immutable caching for hashed assets, a minute
/// otherwise, and a minute of keepalive.
pub fn config_with_defaults(
    root: String,
    mount: Option<String>,
    index: Option<String>,
    manifest: Option<String>,
    immutable_cache: Option<u64>,
    default_cache: Option<u64>,
    keepalive: Option<u64>,
) -> (r: StaticAssetConfig)
    ensures
        r.root == root,
        r.mount_path@ == match mount {
            Some(m) => m@,
            None => "/"@,
        },
        r.index_file@ == match index {
            Some(i) => i@,
            None => "index.html"@,
        },
        r.manifest_path == manifest,
        r.immutable_cache_seconds == match immutable_cache {
            Some(v) => v,
            None => 31536000u64,
        },
        r.default_cache_seconds == match default_cache {
            Some(v) => v,
            None => 60u64,
        },
        r.keepalive_seconds == match keepalive {
            Some(v) => v,
            None => 60u64,
        },
{
    StaticAssetConfig {
        mount_path: match mount {
            Some(m) => m,
            None => "/".to_owned(),
        },
        root,
        index_file: match index {
            Some(i) => i,
            None => "index.html".to_owned(),
        },
        manifest_path: manifest,
        immutable_cache_seconds: match immutable_cache {
            Some(v) => v,
            None => 31536000,
        },
        default_cache_seconds: match default_cache {
            Some(v) => v,
            None => 60,
        },
        keepalive_seconds: match keepalive {
            Some(v) => v,
            None => 60,
        },
    }
}

} // verus!
