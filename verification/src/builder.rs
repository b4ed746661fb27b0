//! Building a manifest from a release record and the signature texts that
//! were fetched for it.

use crate::manifest::{
    asset_views, distinct_ids, has_slot, is_platform_table, platform_rules, platform_suffix,
    release_view, slot_entry, slot_of, string_views, text_view, text_views, AssetDescriptor, AssetView,
    EntryView, Manifest, ManifestView, PlatformEntry, PlatformRule, PlatformSlot, RecordView,
    ReleaseRecord, UpstreamAsset,
};
use crate::text::{
    ends_with, has_suffix, is_trailing_blank, lemma_trim_end_shape, lemma_trimmed_len_bound,
    remove_suffix, trim_end, trim_line_end, trimmed_len, without_suffix,
};
use vstd::prelude::*;
use vstd::string::*;

verus! {

/// The sentence that upstream release notes may end with and that a manifest
/// does not carry.
pub open spec fn boilerplate() -> Seq<char> {
    "See the assets to download this version and install."@
}

/// The notes of a manifest: the release body without the boilerplate sentence
/// at its end, then without trailing white space.
pub open spec fn clean_notes(body: Seq<char>) -> Seq<char> {
    trim_end(without_suffix(body, boilerplate()))
}

/// The file named `name` is the artifact of platform `pid`.
pub open spec fn is_binary_for(name: Seq<char>, pid: Seq<char>) -> bool {
    match platform_suffix(pid) {
        Some(s) => ends_with(name, s),
        None => false,
    }
}

/// The file named `name` is the detached signature of platform `pid`'s
/// artifact: its name ends with the artifact's suffix followed by `.sig`.
pub open spec fn is_signature_for(name: Seq<char>, pid: Seq<char>) -> bool {
    match platform_suffix(pid) {
        Some(s) => !ends_with(name, s) && ends_with(name, s + ".sig"@),
        None => false,
    }
}

/// The file named `name` is the signature of some platform's artifact, so its
/// text has to be fetched.
pub open spec fn wants_signature(name: Seq<char>) -> bool {
    exists|pid: Seq<char>| is_signature_for(name, pid)
}

/// The download addresses of the signature files among the first `n` assets,
/// in the order of the assets.
pub open spec fn wanted_urls(assets: Seq<AssetView>, n: int) -> Seq<Seq<char>>
    decreases n,
{
    if n <= 0 {
        Seq::empty()
    } else if wants_signature(assets[n - 1].name) {
        wanted_urls(assets, n - 1).push(assets[n - 1].url)
    } else {
        wanted_urls(assets, n - 1)
    }
}

/// The text is there and holds at least one character.
pub open spec fn is_filled(text: Option<Seq<char>>) -> bool {
    text.is_some() && text.unwrap().len() > 0
}

/// No field of the record is missing: tag, notes and publication time are
/// there and not empty, and the list of assets is there and holds an asset.
pub open spec fn is_complete(record: RecordView) -> bool {
    &&& is_filled(record.tag)
    &&& is_filled(record.notes)
    &&& is_filled(record.published_at)
    &&& record.assets.is_some()
    &&& record.assets.unwrap().len() > 0
}

/// The addresses whose text a build of `record` needs, in order: none for a
/// record that lacks a field or holds an empty one.
pub open spec fn requested_urls(record: RecordView) -> Seq<Seq<char>> {
    if is_complete(record) {
        wanted_urls(record.assets.unwrap(), record.assets.unwrap().len() as int)
    } else {
        Seq::empty()
    }
}

/// The text that stands for the `k`-th requested signature: what was fetched,
/// or the empty text where the fetch failed or nothing was handed in.
pub open spec fn fetched_text(fetched: Seq<Option<Seq<char>>>, k: int) -> Seq<char> {
    if 0 <= k < fetched.len() && fetched[k].is_some() {
        fetched[k].unwrap()
    } else {
        Seq::empty()
    }
}

/// The address of platform `pid` after the first `n` assets: that of the last
/// asset among them that is its artifact.
pub open spec fn url_upto(assets: Seq<AssetView>, n: int, pid: Seq<char>) -> Option<Seq<char>>
    decreases n,
{
    if n <= 0 {
        None
    } else if is_binary_for(assets[n - 1].name, pid) {
        Some(assets[n - 1].url)
    } else {
        url_upto(assets, n - 1, pid)
    }
}

/// The signature of platform `pid` after the first `n` assets: the text
/// fetched for the last asset among them that is its signature file.
pub open spec fn signature_upto(
    assets: Seq<AssetView>,
    fetched: Seq<Option<Seq<char>>>,
    n: int,
    pid: Seq<char>,
) -> Option<Seq<char>>
    decreases n,
{
    if n <= 0 {
        None
    } else if is_signature_for(assets[n - 1].name, pid) {
        Some(fetched_text(fetched, wanted_urls(assets, n - 1).len() as int))
    } else {
        signature_upto(assets, fetched, n - 1, pid)
    }
}

/// An entry made of an address and a signature, absent where both are.
pub open spec fn entry_from(url: Option<Seq<char>>, signature: Option<Seq<char>>) -> Option<
    EntryView,
> {
    if url.is_none() && signature.is_none() {
        None
    } else {
        Some(EntryView { url, signature })
    }
}

/// The entry of platform `pid` in the manifest built from `assets`.
pub open spec fn entry_of(
    assets: Seq<AssetView>,
    fetched: Seq<Option<Seq<char>>>,
    pid: Seq<char>,
) -> Option<EntryView> {
    entry_from(
        url_upto(assets, assets.len() as int, pid),
        signature_upto(assets, fetched, assets.len() as int, pid),
    )
}

/// The platform map of the manifest built from `assets`.
pub open spec fn platforms_of(assets: Seq<AssetView>, fetched: Seq<Option<Seq<char>>>) -> Map<
    Seq<char>,
    EntryView,
> {
    Map::new(
        |pid: Seq<char>| entry_of(assets, fetched, pid).is_some(),
        |pid: Seq<char>| entry_of(assets, fetched, pid).unwrap(),
    )
}

/// The manifest built from `record` and the fetched signature texts; `None`
/// where the record lacks a field or holds an empty one.
pub open spec fn built_manifest(record: RecordView, fetched: Seq<Option<Seq<char>>>) -> Option<
    ManifestView,
> {
    if is_complete(record) {
        Some(
            ManifestView {
                version: record.tag.unwrap(),
                notes: clean_notes(record.notes.unwrap()),
                pub_date: record.published_at.unwrap(),
                platforms: platforms_of(record.assets.unwrap(), fetched),
            },
        )
    } else {
        None
    }
}

/// A record that lacks a required field, or holds an empty one, yields no
/// manifest.
pub proof fn lemma_missing_field_fails(record: RecordView, fetched: Seq<Option<Seq<char>>>)
    requires
        !is_filled(record.tag) || !is_filled(record.notes) || !is_filled(record.published_at)
            || record.assets.is_none() || record.assets.unwrap().len() == 0,
    ensures
        built_manifest(record, fetched).is_none(),
{
}

/// Every character of `w` is white space.
pub open spec fn all_blank(w: Seq<char>) -> bool {
    forall|i: int| 0 <= i < w.len() ==> is_trailing_blank(#[trigger] w[i])
}

/// `body` is the text `y`, the boilerplate sentence and the blanks `w`,
/// followed either by a second copy of the sentence or, where `w` is not
/// empty, by nothing.
pub open spec fn repeats_boilerplate(body: Seq<char>, y: Seq<char>, w: Seq<char>) -> bool {
    all_blank(w) && (body == y + boilerplate() + w + boilerplate() || (w.len() > 0 && body == y
        + boilerplate() + w))
}

/// The body holds the boilerplate sentence in a place from which cleaning
/// does not take it: before a second copy at the end, or before blanks at
/// the end.
pub open spec fn boilerplate_stays(body: Seq<char>) -> bool {
    exists|y: Seq<char>, w: Seq<char>| #[trigger] repeats_boilerplate(body, y, w)
}

/// The notes of a manifest never end in white space.
pub proof fn lemma_notes_have_no_trailing_blank(
    record: RecordView,
    fetched: Seq<Option<Seq<char>>>,
)
    requires
        is_complete(record),
    ensures
        built_manifest(record, fetched).is_some(),
        ({
            let notes = built_manifest(record, fetched).unwrap().notes;
            notes.len() == 0 || !is_trailing_blank(notes.last())
        }),
{
    lemma_trim_end_shape(without_suffix(record.notes.unwrap(), boilerplate()));
}

/// The notes of a manifest do not end with the boilerplate sentence, unless
/// the body holds the sentence before a second copy at its end or before
/// blanks at its end.
pub proof fn lemma_notes_drop_boilerplate(record: RecordView, fetched: Seq<Option<Seq<char>>>)
    requires
        is_complete(record),
        !boilerplate_stays(record.notes.unwrap()),
    ensures
        built_manifest(record, fetched).is_some(),
        !ends_with(built_manifest(record, fetched).unwrap().notes, boilerplate()),
{
    let body = record.notes.unwrap();
    let b = boilerplate();
    let t = without_suffix(body, b);
    let notes = clean_notes(body);
    lemma_trim_end_shape(t);
    if ends_with(notes, b) {
        let n = trimmed_len(t) as int;
        let y = notes.take(notes.len() - b.len());
        let w = t.subrange(n, t.len() as int);
        assert(notes =~= y + b);
        assert(t =~= notes + w);
        assert(all_blank(w)) by {
            assert forall|i: int| 0 <= i < w.len() implies is_trailing_blank(#[trigger] w[i]) by {
                assert(w[i] == t[n + i]);
            }
        }
        if ends_with(body, b) {
            assert(body =~= t + b);
            assert(body =~= y + b + w + b);
        } else {
            assert(body =~= y + b + w);
            if w.len() == 0 {
                assert(body =~= y + b);
                assert(body.subrange(body.len() - b.len(), body.len() as int) =~= b);
            }
        }
        assert(repeats_boilerplate(body, y, w));
    }
}

/// A body that holds the boilerplate sentence before a second copy at its
/// end, or before blanks at its end, gives notes that still end with the
/// sentence.
pub proof fn lemma_boilerplate_can_stay(body: Seq<char>)
    requires
        boilerplate_stays(body),
    ensures
        ends_with(clean_notes(body), boilerplate()),
{
    let b = boilerplate();
    let (y, w) = choose|y: Seq<char>, w: Seq<char>| #[trigger] repeats_boilerplate(body, y, w);
    reveal_strlit("See the assets to download this version and install.");
    assert(b.len() == 52);
    assert(b.last() == '.');
    let kept = y + b;
    assert(kept.last() == b.last());
    let t = without_suffix(body, b);
    if body == y + b + w + b {
        assert(body.subrange(body.len() - b.len(), body.len() as int) =~= b);
        assert(t =~= kept + w);
    } else {
        assert(body == kept + w);
        assert(body.last() == w.last());
        if ends_with(body, b) {
            assert(body.subrange(body.len() - b.len(), body.len() as int).last() == body.last());
        }
        assert(t == kept + w);
    }
    lemma_trim_keeps(kept, w);
    assert(kept.subrange(kept.len() - b.len(), kept.len() as int) =~= b);
}

/// Blanks after a text that does not end in a blank are all that trimming
/// removes.
pub proof fn lemma_trim_keeps(kept: Seq<char>, w: Seq<char>)
    requires
        all_blank(w),
        kept.len() == 0 || !is_trailing_blank(kept.last()),
    ensures
        trim_end(kept + w) == kept,
    decreases w.len(),
{
    let s = kept + w;
    if w.len() == 0 {
        assert(s =~= kept);
        assert(kept.take(kept.len() as int) =~= kept);
    } else {
        assert(s.last() == w.last());
        assert(s.drop_last() =~= kept + w.drop_last());
        assert(all_blank(w.drop_last())) by {
            assert forall|i: int| 0 <= i < w.drop_last().len() implies is_trailing_blank(
                #[trigger] w.drop_last()[i],
            ) by {
                assert(w.drop_last()[i] == w[i]);
            }
        }
        lemma_trim_keeps(kept, w.drop_last());
        lemma_trimmed_len_bound(s.drop_last());
        assert(trim_end(s) =~= trim_end(s.drop_last()));
    }
}

/// A body made of a text and the boilerplate sentence gives that text,
/// trimmed, as notes.
pub proof fn lemma_notes_of_plain_body(text: Seq<char>)
    ensures
        clean_notes(text + boilerplate()) == trim_end(text),
{
    let b = boilerplate();
    let body = text + b;
    assert(body.subrange(body.len() - b.len(), body.len() as int) =~= b);
    assert(body.take(body.len() - b.len()) =~= text);
}

/// A platform that is not served has neither address nor signature.
pub proof fn lemma_unserved_platform(
    assets: Seq<AssetView>,
    fetched: Seq<Option<Seq<char>>>,
    n: int,
    pid: Seq<char>,
)
    requires
        platform_suffix(pid).is_none(),
    ensures
        url_upto(assets, n, pid).is_none(),
        signature_upto(assets, fetched, n, pid).is_none(),
    decreases n,
{
    if n > 0 {
        lemma_unserved_platform(assets, fetched, n - 1, pid);
    }
}

/// Among the first `n` assets, a platform has an address exactly if one of
/// them is its artifact, and a signature exactly if one of them is its
/// signature file.
pub proof fn lemma_presence_upto(
    assets: Seq<AssetView>,
    fetched: Seq<Option<Seq<char>>>,
    n: int,
    pid: Seq<char>,
)
    requires
        0 <= n <= assets.len(),
    ensures
        url_upto(assets, n, pid).is_some() <==> exists|i: int|
            0 <= i < n && is_binary_for(#[trigger] assets[i].name, pid),
        signature_upto(assets, fetched, n, pid).is_some() <==> exists|i: int|
            0 <= i < n && is_signature_for(#[trigger] assets[i].name, pid),
    decreases n,
{
    if n > 0 {
        lemma_presence_upto(assets, fetched, n - 1, pid);
        if is_binary_for(assets[n - 1].name, pid) {
            assert(0 <= n - 1 < n && is_binary_for(assets[n - 1].name, pid));
        }
        if is_signature_for(assets[n - 1].name, pid) {
            assert(0 <= n - 1 < n && is_signature_for(assets[n - 1].name, pid));
        }
    }
}

/// The platforms of a built manifest are exactly those of which some asset is
/// the artifact or the signature file.
pub proof fn lemma_platform_keys(
    assets: Seq<AssetView>,
    fetched: Seq<Option<Seq<char>>>,
    pid: Seq<char>,
)
    ensures
        platforms_of(assets, fetched).contains_key(pid) <==> exists|i: int|
            0 <= i < assets.len() && (is_binary_for(#[trigger] assets[i].name, pid)
                || is_signature_for(assets[i].name, pid)),
{
    lemma_presence_upto(assets, fetched, assets.len() as int, pid);
}

/// Asset `i` is the last of the first `n` assets that is the artifact of
/// platform `pid`.
pub open spec fn is_last_artifact(assets: Seq<AssetView>, n: int, pid: Seq<char>, i: int) -> bool {
    &&& 0 <= i < n
    &&& is_binary_for(assets[i].name, pid)
    &&& forall|j: int| i < j < n ==> !is_binary_for(#[trigger] assets[j].name, pid)
}

/// Asset `i` is the last of the first `n` assets that is the signature file
/// of platform `pid`.
pub open spec fn is_last_signature(assets: Seq<AssetView>, n: int, pid: Seq<char>, i: int) -> bool {
    &&& 0 <= i < n
    &&& is_signature_for(assets[i].name, pid)
    &&& forall|j: int| i < j < n ==> !is_signature_for(#[trigger] assets[j].name, pid)
}

/// The address of a platform is that of the last asset that is its artifact:
/// a later artifact overwrites an earlier one.
pub proof fn lemma_url_is_last_artifact(assets: Seq<AssetView>, n: int, pid: Seq<char>)
    requires
        0 <= n <= assets.len(),
        url_upto(assets, n, pid).is_some(),
    ensures
        exists|i: int| #[trigger]
            is_last_artifact(assets, n, pid, i) && url_upto(assets, n, pid) == Some(assets[i].url),
    decreases n,
{
    if is_binary_for(assets[n - 1].name, pid) {
        assert(is_last_artifact(assets, n, pid, n - 1));
    } else {
        lemma_url_is_last_artifact(assets, n - 1, pid);
        let i = choose|i: int| #[trigger]
            is_last_artifact(assets, n - 1, pid, i) && url_upto(assets, n - 1, pid) == Some(
                assets[i].url,
            );
        assert(is_last_artifact(assets, n, pid, i));
    }
}

/// The signature of a platform is the text fetched for the last asset that
/// is its signature file; that text is the one handed in at the place that
/// the asset's address has among the requested addresses.
pub proof fn lemma_signature_is_last_fetched(
    assets: Seq<AssetView>,
    fetched: Seq<Option<Seq<char>>>,
    n: int,
    pid: Seq<char>,
)
    requires
        0 <= n <= assets.len(),
        signature_upto(assets, fetched, n, pid).is_some(),
    ensures
        exists|i: int| #[trigger]
            is_last_signature(assets, n, pid, i) && wanted_urls(assets, i + 1) == wanted_urls(
                assets,
                i,
            ).push(assets[i].url) && signature_upto(assets, fetched, n, pid) == Some(
                fetched_text(fetched, wanted_urls(assets, i).len() as int),
            ),
    decreases n,
{
    if is_signature_for(assets[n - 1].name, pid) {
        assert(is_last_signature(assets, n, pid, n - 1));
        assert(wants_signature(assets[n - 1].name));
    } else {
        lemma_signature_is_last_fetched(assets, fetched, n - 1, pid);
        let i = choose|i: int| #[trigger]
            is_last_signature(assets, n - 1, pid, i) && wanted_urls(assets, i + 1) == wanted_urls(
                assets,
                i,
            ).push(assets[i].url) && signature_upto(assets, fetched, n - 1, pid) == Some(
                fetched_text(fetched, wanted_urls(assets, i).len() as int),
            );
        assert(is_last_signature(assets, n, pid, i));
    }
}

/// Two platforms that are served by the same suffix get the same address.
pub proof fn lemma_shared_artifact(
    assets: Seq<AssetView>,
    n: int,
    p: Seq<char>,
    q: Seq<char>,
)
    requires
        platform_suffix(p) == platform_suffix(q),
    ensures
        url_upto(assets, n, p) == url_upto(assets, n, q),
    decreases n,
{
    if n > 0 {
        lemma_shared_artifact(assets, n - 1, p, q);
    }
}

/// A copy of an optional text.
fn copy_text(o: &Option<String>) -> (r: Option<String>)
    ensures
        text_view(r) == text_view(*o),
{
    match o {
        Some(s) => Some(s.clone()),
        None => None,
    }
}

/// Row `j` of the table serves a platform of which `name` is the signature file.
pub open spec fn signs_row(name: Seq<char>, rules: Seq<PlatformRule>, j: int) -> bool {
    is_signature_for(name, rules[j].id@)
}

/// Whether the file named `name` against row `rule` is the artifact (first
/// component) or the signature file (second component) of the row's platform.
fn match_rule(name: &str, rule: &PlatformRule) -> (r: (bool, bool))
    requires
        platform_suffix(rule.id@) == Some(rule.suffix@),
    ensures
        r.0 == is_binary_for(name@, rule.id@),
        r.1 == is_signature_for(name@, rule.id@),
{
    if has_suffix(name, rule.suffix.as_str()) {
        (true, false)
    } else {
        let signed: String = rule.suffix.clone().concat(".sig");
        (false, has_suffix(name, signed.as_str()))
    }
}

/// Whether the text of the file named `name` has to be fetched.
fn needs_signature(name: &str, rules: &Vec<PlatformRule>) -> (r: bool)
    requires
        is_platform_table(rules@),
    ensures
        r == wants_signature(name@),
{
    let mut wanted: bool = false;
    let mut j: usize = 0;
    while j < rules.len()
        invariant
            is_platform_table(rules@),
            j <= rules.len(),
            wanted <==> exists|k: int| 0 <= k < j && #[trigger] signs_row(name@, rules@, k),
        decreases rules.len() - j,
    {
        let m = match_rule(name, &rules[j]);
        if m.1 {
            wanted = true;
            assert(signs_row(name@, rules@, j as int));
        }
        j += 1;
    }
    proof {
        if wants_signature(name@) {
            let pid = choose|pid: Seq<char>| is_signature_for(name@, pid);
            let k: int = if pid == rules@[0].id@ {
                0
            } else if pid == rules@[1].id@ {
                1
            } else if pid == rules@[2].id@ {
                2
            } else {
                3
            };
            assert(signs_row(name@, rules@, k));
        }
    }
    wanted
}

/// The listed file has both its name and its address.
pub open spec fn is_whole(a: UpstreamAsset) -> bool {
    a.name.is_some() && a.url.is_some()
}

/// Every listed file has both its name and its address.
pub open spec fn all_whole(raw: Seq<UpstreamAsset>) -> bool {
    forall|i: int| 0 <= i < raw.len() ==> is_whole(#[trigger] raw[i])
}

/// The assets that a list of whole files stands for, in order.
pub open spec fn whole_views(raw: Seq<UpstreamAsset>) -> Seq<AssetView> {
    Seq::new(
        raw.len(),
        |i: int| AssetView { name: raw[i].name.unwrap()@, url: raw[i].url.unwrap()@ },
    )
}

/// The asset list of a release record, from the files that the upstream
/// answer lists. One file without a name or without an address makes the
/// whole list missing, and with it the record incomplete; otherwise the
/// assets are the files, in order.
pub fn read_assets(raw: &Vec<UpstreamAsset>) -> (r: Option<Vec<AssetDescriptor>>)
    ensures
        r.is_some() <==> all_whole(raw@),
        r.is_some() ==> asset_views(r.unwrap()@) == whole_views(raw@),
{
    let mut out: Vec<AssetDescriptor> = Vec::new();
    let mut i: usize = 0;
    while i < raw.len()
        invariant
            i <= raw.len(),
            out.len() == i,
            forall|k: int| 0 <= k < i ==> is_whole(#[trigger] raw[k]),
            forall|k: int|
                0 <= k < i ==> (#[trigger] out[k])@ == (AssetView {
                    name: raw[k].name.unwrap()@,
                    url: raw[k].url.unwrap()@,
                }),
        decreases raw.len() - i,
    {
        let name = match &raw[i].name {
            Some(n) => n.clone(),
            None => {
                assert(!is_whole(raw@[i as int]));
                return None;
            },
        };
        let url = match &raw[i].url {
            Some(u) => u.clone(),
            None => {
                assert(!is_whole(raw@[i as int]));
                return None;
            },
        };
        out.push(AssetDescriptor { name, url });
        i += 1;
    }
    assert(asset_views(out@) =~= whole_views(raw@));
    Some(out)
}

/// Whether the text is there and holds at least one character.
fn filled(text: &Option<String>) -> (r: bool)
    ensures
        r == is_filled(text_view(*text)),
{
    match text {
        Some(t) => !t.as_str().is_empty(),
        None => false,
    }
}

/// The addresses of the signature files whose text a build of `record`
/// needs, in the order of the assets. The caller fetches each and hands the
/// texts, in this order, to [`create_tauri_response`].
pub fn signature_requests(record: &ReleaseRecord) -> (r: Vec<String>)
    ensures
        string_views(r@) == requested_urls(record@),
{
    let mut out: Vec<String> = Vec::new();
    if !filled(&record.tag) || !filled(&record.notes) || !filled(&record.published_at) {
        assert(string_views(out@) =~= Seq::<Seq<char>>::empty());
        return out;
    }
    match &record.assets {
        None => {
            assert(string_views(out@) =~= Seq::<Seq<char>>::empty());
        },
        Some(assets) => {
            let rules = platform_rules();
            let ghost av = asset_views(assets@);
            assert(string_views(out@) =~= wanted_urls(av, 0));
            let mut i: usize = 0;
            while i < assets.len()
                invariant
                    is_platform_table(rules@),
                    av == asset_views(assets@),
                    i <= assets.len(),
                    string_views(out@) == wanted_urls(av, i as int),
                decreases assets.len() - i,
            {
                let ghost before = out@;
                if needs_signature(assets[i].name.as_str(), &rules) {
                    out.push(assets[i].url.clone());
                    assert(string_views(out@) =~= string_views(before).push(av[i as int].url));
                }
                i += 1;
            }
        },
    }
    out
}

/// Applies one asset to the addresses and signatures collected so far, row by
/// row of the table. Returns whether the asset is a signature file.
fn record_asset(
    rules: &Vec<PlatformRule>,
    urls: &mut Vec<Option<String>>,
    found: &mut Vec<Option<String>>,
    asset: &AssetDescriptor,
    text: &str,
) -> (wanted: bool)
    requires
        is_platform_table(rules@),
        old(urls).len() == rules.len(),
        old(found).len() == rules.len(),
    ensures
        final(urls).len() == rules.len(),
        final(found).len() == rules.len(),
        forall|j: int|
            0 <= j < rules.len() ==> text_view(#[trigger] final(urls)[j]) == (if is_binary_for(
                asset.name@,
                rules[j].id@,
            ) {
                Some(asset.url@)
            } else {
                text_view(old(urls)[j])
            }),
        forall|j: int|
            0 <= j < rules.len() ==> text_view(#[trigger] final(found)[j]) == (
            if is_signature_for(asset.name@, rules[j].id@) {
                Some(text@)
            } else {
                text_view(old(found)[j])
            }),
        wanted == wants_signature(asset.name@),
{
    let ghost urls0 = urls@;
    let ghost found0 = found@;
    let mut j: usize = 0;
    while j < rules.len()
        invariant
            is_platform_table(rules@),
            j <= rules.len(),
            urls.len() == rules.len(),
            found.len() == rules.len(),
            urls0.len() == rules.len(),
            found0.len() == rules.len(),
            forall|k: int|
                0 <= k < j ==> text_view(#[trigger] urls[k]) == (if is_binary_for(
                    asset.name@,
                    rules[k].id@,
                ) {
                    Some(asset.url@)
                } else {
                    text_view(urls0[k])
                }),
            forall|k: int|
                0 <= k < j ==> text_view(#[trigger] found[k]) == (if is_signature_for(
                    asset.name@,
                    rules[k].id@,
                ) {
                    Some(text@)
                } else {
                    text_view(found0[k])
                }),
            forall|k: int| j <= k < rules.len() ==> #[trigger] urls[k] == urls0[k],
            forall|k: int| j <= k < rules.len() ==> #[trigger] found[k] == found0[k],
        decreases rules.len() - j,
    {
        let m = match_rule(asset.name.as_str(), &rules[j]);
        if m.0 {
            urls.set(j, Some(asset.url.clone()));
        } else if m.1 {
            found.set(j, Some(String::from_str(text)));
        }
        j += 1;
    }
    needs_signature(asset.name.as_str(), rules)
}

/// The entry that row `j` contributes: its address and signature as collected.
pub open spec fn row_entry(
    urls: Seq<Option<String>>,
    found: Seq<Option<String>>,
    j: int,
) -> Option<EntryView> {
    entry_from(text_view(urls[j]), text_view(found[j]))
}

/// Makes the slots of a manifest: one for each row of the table that has an
/// address or a signature.
fn assemble(
    rules: &Vec<PlatformRule>,
    urls: &Vec<Option<String>>,
    found: &Vec<Option<String>>,
) -> (slots: Vec<PlatformSlot>)
    requires
        is_platform_table(rules@),
        urls.len() == rules.len(),
        found.len() == rules.len(),
    ensures
        distinct_ids(slots@),
        forall|j: int|
            0 <= j < rules.len() ==> slot_entry(slots@, (#[trigger] rules[j]).id@) == row_entry(
                urls@,
                found@,
                j,
            ),
        forall|pid: Seq<char>|
            platform_suffix(pid).is_none() ==> !(#[trigger] has_slot(slots@, pid)),
{
    let mut slots: Vec<PlatformSlot> = Vec::new();
    let ghost mut origin: Seq<int> = Seq::empty();
    let mut j: usize = 0;
    while j < rules.len()
        invariant
            is_platform_table(rules@),
            urls.len() == rules.len(),
            found.len() == rules.len(),
            j <= rules.len(),
            origin.len() == slots.len(),
            forall|s: int|
                0 <= s < slots.len() ==> {
                    &&& 0 <= #[trigger] origin[s] < j
                    &&& slots[s].id@ == rules[origin[s]].id@
                    &&& Some(slots[s].entry@) == row_entry(urls@, found@, origin[s])
                },
            forall|s: int, t: int|
                0 <= s < t < slots.len() ==> #[trigger] origin[s] < #[trigger] origin[t],
            forall|k: int|
                0 <= k < j && row_entry(urls@, found@, k).is_some() ==> exists|s: int|
                    0 <= s < slots.len() && #[trigger] origin[s] == k,
        decreases rules.len() - j,
    {
        if urls[j].is_some() || found[j].is_some() {
            let ghost old_origin = origin;
            let slot = PlatformSlot {
                id: rules[j].id.clone(),
                entry: PlatformEntry { url: copy_text(&urls[j]), signature: copy_text(&found[j]) },
            };
            slots.push(slot);
            proof {
                origin = origin.push(j as int);
                assert forall|k: int|
                    0 <= k < j + 1 && row_entry(urls@, found@, k).is_some() implies exists|s: int|
                    0 <= s < slots.len() && #[trigger] origin[s] == k by {
                    if k < j {
                        let s = choose|s: int| 0 <= s < old_origin.len() && old_origin[s] == k;
                        assert(origin[s] == k);
                    } else {
                        assert(origin[slots.len() - 1] == k);
                    }
                }
            }
        }
        j += 1;
    }
    proof {
        assert forall|s: int, t: int| 0 <= s < t < slots.len() implies (#[trigger] slots@[s]).id@
            != (#[trigger] slots@[t]).id@ by {
            assert(origin[s] < origin[t]);
            assert(rules@[origin[s]].id@ != rules@[origin[t]].id@);
        }
        assert forall|k: int| 0 <= k < rules.len() implies slot_entry(
            slots@,
            (#[trigger] rules[k]).id@,
        ) == row_entry(urls@, found@, k) by {
            let pid = rules[k].id@;
            if row_entry(urls@, found@, k).is_some() {
                let s = choose|s: int| 0 <= s < slots.len() && origin[s] == k;
                assert(slots@[s].id@ == pid);
                assert(has_slot(slots@, pid));
                let w = slot_of(slots@, pid);
                assert(slots@[w].id@ == pid);
                if w != s {
                    if w < s {
                        assert(slots@[w].id@ != slots@[s].id@);
                    } else {
                        assert(slots@[s].id@ != slots@[w].id@);
                    }
                }
            } else {
                if has_slot(slots@, pid) {
                    let w = slot_of(slots@, pid);
                    assert(slots@[w].id@ == pid);
                    let o = origin[w];
                    assert(rules@[o].id@ == rules@[k].id@);
                    if o < k {
                        assert(rules@[o].id@ != rules@[k].id@);
                    } else if k < o {
                        assert(rules@[k].id@ != rules@[o].id@);
                    }
                    assert(false);
                }
            }
        }
        assert forall|pid: Seq<char>| platform_suffix(pid).is_none() implies !(#[trigger] has_slot(
            slots@,
            pid,
        )) by {
            if has_slot(slots@, pid) {
                let w = slot_of(slots@, pid);
                assert(slots@[w].id@ == rules@[origin[w]].id@);
                assert(platform_suffix(rules@[origin[w]].id@).is_some());
            }
        }
    }
    slots
}

/// Builds the manifest of a release. `fetched` holds, for each address that
/// [`signature_requests`] gives and in that order, the text that was fetched
/// from it, or `None` where the fetch failed; a failed or missing text stands
/// as an empty signature.
///
/// The result is `None` exactly where the record lacks a field or holds an
/// empty one: tag, notes, publication time or list of assets. Otherwise the
/// manifest has the record's tag as version, its cleaned body as notes, its
/// publication time, and for each platform the address of the last asset that
/// is its artifact and the text of the last asset that is its signature file.
pub fn create_tauri_response(record: &ReleaseRecord, fetched: &Vec<Option<String>>) -> (r: Option<
    Manifest,
>)
    ensures
        release_view(r) == built_manifest(record@, text_views(fetched@)),
        r.is_none() <==> !is_complete(record@),
        r.is_some() ==> r.unwrap().wf(),
{
    if !filled(&record.tag) || !filled(&record.notes) || !filled(&record.published_at) {
        return None;
    }
    let tag = match &record.tag {
        Some(t) => t,
        None => { return None; },
    };
    let body = match &record.notes {
        Some(t) => t,
        None => { return None; },
    };
    let published = match &record.published_at {
        Some(t) => t,
        None => { return None; },
    };
    let assets = match &record.assets {
        Some(a) => a,
        None => { return None; },
    };
    if assets.len() == 0 {
        return None;
    }
    let notes = trim_line_end(
        remove_suffix(body.as_str(), "See the assets to download this version and install."),
    );
    let rules = platform_rules();
    let mut urls: Vec<Option<String>> = Vec::new();
    let mut found: Vec<Option<String>> = Vec::new();
    let mut j: usize = 0;
    while j < rules.len()
        invariant
            j <= rules.len(),
            urls.len() == j,
            found.len() == j,
            forall|k: int| 0 <= k < j ==> (#[trigger] urls[k]).is_none(),
            forall|k: int| 0 <= k < j ==> (#[trigger] found[k]).is_none(),
        decreases rules.len() - j,
    {
        urls.push(None);
        found.push(None);
        j += 1;
    }
    let ghost av = asset_views(assets@);
    let ghost fv = text_views(fetched@);
    let nothing = String::new();
    let mut next: usize = 0;
    let mut i: usize = 0;
    while i < assets.len()
        invariant
            is_platform_table(rules@),
            av == asset_views(assets@),
            fv == text_views(fetched@),
            nothing@ == Seq::<char>::empty(),
            i <= assets.len(),
            urls.len() == rules.len(),
            found.len() == rules.len(),
            next == wanted_urls(av, i as int).len(),
            next <= i,
            forall|k: int|
                0 <= k < rules.len() ==> text_view(#[trigger] urls[k]) == url_upto(
                    av,
                    i as int,
                    rules[k].id@,
                ),
            forall|k: int|
                0 <= k < rules.len() ==> text_view(#[trigger] found[k]) == signature_upto(
                    av,
                    fv,
                    i as int,
                    rules[k].id@,
                ),
        decreases assets.len() - i,
    {
        let text: &str = if next < fetched.len() {
            match &fetched[next] {
                Some(t) => t.as_str(),
                None => nothing.as_str(),
            }
        } else {
            nothing.as_str()
        };
        assert(text@ == fetched_text(fv, next as int));
        let wanted = record_asset(&rules, &mut urls, &mut found, &assets[i], text);
        if wanted {
            next += 1;
        }
        i += 1;
    }
    let slots = assemble(&rules, &urls, &found);
    let manifest = Manifest {
        version: tag.clone(),
        notes: String::from_str(notes),
        pub_date: published.clone(),
        platforms: slots,
    };
    proof {
        let n = av.len() as int;
        assert forall|pid: Seq<char>| slot_entry(slots@, pid) == entry_of(av, fv, pid) by {
            if platform_suffix(pid).is_none() {
                lemma_unserved_platform(av, fv, n, pid);
                assert(!has_slot(slots@, pid));
            } else {
                let k: int = if pid == rules@[0].id@ {
                    0
                } else if pid == rules@[1].id@ {
                    1
                } else if pid == rules@[2].id@ {
                    2
                } else {
                    3
                };
                assert(rules@[k].id@ == pid);
                assert(slot_entry(slots@, rules@[k].id@) == row_entry(urls@, found@, k));
            }
        }
        assert(manifest@.platforms =~= platforms_of(av, fv));
    }
    Some(manifest)
}

} // verus!
