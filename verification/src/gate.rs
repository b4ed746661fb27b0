//! The update gate: whether a client is told of the cached release, and the
//! steps of one update request around the cache.

use crate::builder::{built_manifest, create_tauri_response};
use crate::cache::ReleaseCache;
use crate::manifest::{release_view, text_views, Manifest, ManifestView, ReleaseRecord};
use crate::text::{normalized_version, same_text, strip_version_prefix};
use vstd::prelude::*;
use vstd::string::*;

verus! {

/// The answer to an update check.
#[derive(Clone, Debug, PartialEq, Eq)]
pub enum UpdateReply {
    /// Nothing to tell: the client is up to date, or no manifest could be had.
    NoUpdate,
    /// The manifest of the release that the client should move to.
    Update(Manifest),
}

/// What is to be done next for an update request.
#[derive(Clone, Debug, PartialEq, Eq)]
pub enum RequestStep {
    /// The request is answered.
    Reply(UpdateReply),
    /// The cache has no fresh release: it has to be fetched, built and stored.
    FetchRelease,
}

/// The manifest that a reply discloses, if any.
pub open spec fn reply_view(r: UpdateReply) -> Option<ManifestView> {
    match r {
        UpdateReply::NoUpdate => None,
        UpdateReply::Update(m) => Some(m@),
    }
}

/// What the update check discloses of `release` to a client at version `current`:
/// the manifest, unless there is none or its version equals the client's
/// once one leading `v` is taken off each.
pub open spec fn disclosed(release: Option<ManifestView>, current: Seq<char>) -> Option<
    ManifestView,
> {
    match release {
        None => None,
        Some(m) => if normalized_version(m.version) == normalized_version(current) {
            None
        } else {
            release
        },
    }
}

/// The address of the latest release of repository `repo`.
pub open spec fn release_address(repo: Seq<char>) -> Seq<char> {
    "https://api.github.com/repos/"@ + repo + "/releases/latest"@
}

/// The path of the update check for the default platform and version.
pub open spec fn default_update_path() -> Seq<char> {
    "/tauri-releases"@ + "/google-keep-desktop/"@ + "windows-x86_64"@ + "/"@ + "v1.0.14"@
}

/// A client whose version equals the release's, up to one leading `v` on
/// either, is told nothing.
pub proof fn lemma_same_version_is_silent(m: ManifestView, current: Seq<char>)
    requires
        normalized_version(m.version) == normalized_version(current),
    ensures
        disclosed(Some(m), current).is_none(),
{
}

/// A client whose version differs from the release's is told of the release,
/// whole, whichever of the two versions is the later one.
pub proof fn lemma_other_version_is_told(m: ManifestView, current: Seq<char>)
    requires
        normalized_version(m.version) != normalized_version(current),
    ensures
        disclosed(Some(m), current) == Some(m),
{
}

/// Where the root path redirects to: the update check with the default
/// platform and version.
pub fn index() -> (r: String)
    ensures
        r@ == default_update_path(),
{
    String::from_str("/tauri-releases").concat("/google-keep-desktop/").concat(
        "windows-x86_64",
    ).concat("/").concat("v1.0.14")
}

/// Decides what a client at `current_version` is told of `release`, the
/// latest release as the cache or a build gave it (`None` where the build
/// failed). The versions are compared as strings, after one leading `v` is
/// taken off each; no order of versions is looked at.
pub fn check_for_update(release: Option<Manifest>, current_version: &str) -> (r: UpdateReply)
    ensures
        reply_view(r) == disclosed(release_view(release), current_version@),
        r matches UpdateReply::Update(m) ==> release == Some(m),
{
    match release {
        None => UpdateReply::NoUpdate,
        Some(m) => {
            let latest = strip_version_prefix(m.version.as_str());
            let current = strip_version_prefix(current_version);
            if same_text(latest, current) {
                UpdateReply::NoUpdate
            } else {
                UpdateReply::Update(m)
            }
        },
    }
}

/// The step that follows a cache lookup: on a miss the release is to be
/// fetched, on a hit the update check answers from what was found.
pub fn after_lookup(lookup: Option<Option<Manifest>>, current_version: &str) -> (r: RequestStep)
    ensures
        lookup.is_none() ==> r == RequestStep::FetchRelease,
        lookup.is_some() ==> (r matches RequestStep::Reply(reply) && reply_view(reply) == disclosed(
            release_view(lookup.unwrap()),
            current_version@,
        ) && (reply matches UpdateReply::Update(m) ==> lookup.unwrap() == Some(m))),
{
    match lookup {
        None => RequestStep::FetchRelease,
        Some(release) => RequestStep::Reply(check_for_update(release, current_version)),
    }
}

/// The answer to a request that carries a message, which is a diagnostic
/// from the client: always no update. `None` for a request without one,
/// which goes on to the cache.
pub fn diagnostic_reply(msg: Option<&str>) -> (r: Option<UpdateReply>)
    ensures
        msg.is_some() ==> r == Some(UpdateReply::NoUpdate),
        msg.is_none() ==> r.is_none(),
{
    match msg {
        Some(_) => Some(UpdateReply::NoUpdate),
        None => None,
    }
}

/// Begins an update request. A request that carries a message is answered
/// with no update, whatever the cache holds, and the cache is not asked.
/// Otherwise the cache is asked for the release of `repo`: a fresh entry is
/// answered through the update check, and without one the release has to be fetched.
/// The platform does not narrow the answer.
pub fn google_keep_desktop_api(
    cache: &ReleaseCache,
    repo: &str,
    platform: &str,
    current_version: &str,
    msg: Option<&str>,
) -> (r: RequestStep)
    requires
        cache.wf(),
    ensures
        msg.is_some() ==> r == RequestStep::Reply(UpdateReply::NoUpdate),
        msg.is_none() ==> (r matches RequestStep::Reply(reply) ==> cache.entries().contains_key(
            repo@,
        ) && reply_view(reply) == disclosed(cache.entries()[repo@], current_version@)),
{
    match diagnostic_reply(msg) {
        Some(reply) => RequestStep::Reply(reply),
        None => {
            let lookup = cache.get(repo);
            after_lookup(lookup, current_version)
        },
    }
}

/// The release to store after the upstream was asked: the manifest built
/// from the record, or `None` where the upstream gave no record or the
/// record lacks a field.
pub fn get_lastest_release(record: Option<&ReleaseRecord>, fetched: &Vec<Option<String>>) -> (r:
    Option<Manifest>)
    ensures
        record.is_none() ==> r.is_none(),
        record.is_some() ==> release_view(r) == built_manifest(
            record.unwrap()@,
            text_views(fetched@),
        ),
        r.is_some() ==> r.unwrap().wf(),
{
    match record {
        None => None,
        Some(rec) => create_tauri_response(rec, fetched),
    }
}

/// Stores the release that was just built under `repo`, a failed build too,
/// and hands it back for the update check. What was stored under `repo` before is
/// overwritten.
pub fn get_lastest_release_ttl(cache: &mut ReleaseCache, repo: &str, built: Option<Manifest>) -> (r:
    Option<Manifest>)
    requires
        old(cache).wf(),
    ensures
        r == built,
        final(cache).wf(),
        final(cache).ttl() == old(cache).ttl(),
        final(cache).entries().contains_key(repo@),
        final(cache).entries()[repo@] == release_view(built),
        forall|k: Seq<char>|
            k != repo@ && #[trigger] final(cache).entries().contains_key(k) ==> old(
                cache,
            ).entries().contains_key(k) && final(cache).entries()[k] == old(cache).entries()[k],
{
    let copy = match &built {
        Some(m) => Some(m.duplicate()),
        None => None,
    };
    cache.put(repo, copy);
    built
}

/// Ends a request that had to fetch: stores the release that was built under
/// `repo`, a failed build too, and then answers from that release as
/// [`check_for_update`] does.
pub fn after_fetch(
    cache: &mut ReleaseCache,
    repo: &str,
    built: Option<Manifest>,
    current_version: &str,
) -> (r: UpdateReply)
    requires
        old(cache).wf(),
    ensures
        reply_view(r) == disclosed(release_view(built), current_version@),
        r matches UpdateReply::Update(m) ==> built == Some(m),
        final(cache).wf(),
        final(cache).ttl() == old(cache).ttl(),
        final(cache).entries().contains_key(repo@),
        final(cache).entries()[repo@] == release_view(built),
        forall|k: Seq<char>|
            k != repo@ && #[trigger] final(cache).entries().contains_key(k) ==> old(
                cache,
            ).entries().contains_key(k) && final(cache).entries()[k] == old(cache).entries()[k],
{
    let release = get_lastest_release_ttl(cache, repo, built);
    check_for_update(release, current_version)
}

/// The address to ask for the latest release of `repo`.
pub fn release_url(repo: &str) -> (r: String)
    ensures
        r@ == release_address(repo@),
{
    String::from_str("https://api.github.com/repos/").concat(repo).concat("/releases/latest")
}

} // verus!
