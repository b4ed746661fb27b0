//! The data of a release and of the manifest built from it, each with its
//! mathematical view, and the table that maps a platform to the file-name
//! suffix of its artifact.

use vstd::prelude::*;
use vstd::string::*;

verus! {

/// One downloadable file of a release.
#[derive(Clone, Debug, PartialEq, Eq)]
pub struct AssetDescriptor {
    pub name: String,
    pub url: String,
}

/// What an [`AssetDescriptor`] holds, as character sequences.
pub struct AssetView {
    pub name: Seq<char>,
    pub url: Seq<char>,
}

impl View for AssetDescriptor {
    type V = AssetView;

    open spec fn view(&self) -> AssetView {
        AssetView { name: self.name@, url: self.url@ }
    }
}

/// One file of a release as the upstream answer lists it: either text may be
/// absent there.
#[derive(Clone, Debug, PartialEq, Eq)]
pub struct UpstreamAsset {
    pub name: Option<String>,
    pub url: Option<String>,
}

/// The view of an optional string.
pub open spec fn text_view(o: Option<String>) -> Option<Seq<char>> {
    match o {
        Some(s) => Some(s@),
        None => None,
    }
}

/// The views of a list of assets, in order.
pub open spec fn asset_views(v: Seq<AssetDescriptor>) -> Seq<AssetView> {
    Seq::new(v.len(), |i: int| v[i]@)
}

/// The views of a list of optional texts, in order.
pub open spec fn text_views(v: Seq<Option<String>>) -> Seq<Option<Seq<char>>> {
    Seq::new(v.len(), |i: int| text_view(v[i]))
}

/// The views of a list of strings, in order.
pub open spec fn string_views(v: Seq<String>) -> Seq<Seq<char>> {
    Seq::new(v.len(), |i: int| v[i]@)
}

/// A release as the upstream source describes it. A field that the upstream
/// answer lacks is `None`; an empty field counts as missing too.
#[derive(Clone, Debug, PartialEq, Eq)]
pub struct ReleaseRecord {
    pub tag: Option<String>,
    pub notes: Option<String>,
    pub published_at: Option<String>,
    pub assets: Option<Vec<AssetDescriptor>>,
}

/// What a [`ReleaseRecord`] holds.
pub struct RecordView {
    pub tag: Option<Seq<char>>,
    pub notes: Option<Seq<char>>,
    pub published_at: Option<Seq<char>>,
    pub assets: Option<Seq<AssetView>>,
}

impl View for ReleaseRecord {
    type V = RecordView;

    open spec fn view(&self) -> RecordView {
        RecordView {
            tag: text_view(self.tag),
            notes: text_view(self.notes),
            published_at: text_view(self.published_at),
            assets: match self.assets {
                Some(a) => Some(asset_views(a@)),
                None => None,
            },
        }
    }
}

/// Download address and detached signature of one platform's artifact.
#[derive(Clone, Debug, PartialEq, Eq)]
pub struct PlatformEntry {
    pub url: Option<String>,
    pub signature: Option<String>,
}

/// What a [`PlatformEntry`] holds.
pub struct EntryView {
    pub url: Option<Seq<char>>,
    pub signature: Option<Seq<char>>,
}

impl View for PlatformEntry {
    type V = EntryView;

    open spec fn view(&self) -> EntryView {
        EntryView { url: text_view(self.url), signature: text_view(self.signature) }
    }
}

/// A platform identifier with its entry.
#[derive(Clone, Debug, PartialEq, Eq)]
pub struct PlatformSlot {
    pub id: String,
    pub entry: PlatformEntry,
}

/// Some slot carries the platform identifier `pid`.
pub open spec fn has_slot(slots: Seq<PlatformSlot>, pid: Seq<char>) -> bool {
    exists|i: int| 0 <= i < slots.len() && (#[trigger] slots[i]).id@ == pid
}

/// The index of a slot that carries `pid`.
pub open spec fn slot_of(slots: Seq<PlatformSlot>, pid: Seq<char>) -> int {
    choose|i: int| 0 <= i < slots.len() && (#[trigger] slots[i]).id@ == pid
}

/// The entry stored for `pid`, if any.
pub open spec fn slot_entry(slots: Seq<PlatformSlot>, pid: Seq<char>) -> Option<EntryView> {
    if has_slot(slots, pid) {
        Some(slots[slot_of(slots, pid)].entry@)
    } else {
        None
    }
}

/// No platform identifier is carried by two slots.
pub open spec fn distinct_ids(slots: Seq<PlatformSlot>) -> bool {
    forall|i: int, j: int|
        0 <= i < j < slots.len() ==> (#[trigger] slots[i]).id@ != (#[trigger] slots[j]).id@
}

/// The update manifest of one release.
#[derive(Clone, Debug, PartialEq, Eq)]
pub struct Manifest {
    pub version: String,
    pub notes: String,
    pub pub_date: String,
    pub platforms: Vec<PlatformSlot>,
}

/// What a [`Manifest`] holds: three texts and a map from platform identifier
/// to entry.
pub struct ManifestView {
    pub version: Seq<char>,
    pub notes: Seq<char>,
    pub pub_date: Seq<char>,
    pub platforms: Map<Seq<char>, EntryView>,
}

impl View for Manifest {
    type V = ManifestView;

    open spec fn view(&self) -> ManifestView {
        ManifestView {
            version: self.version@,
            notes: self.notes@,
            pub_date: self.pub_date@,
            platforms: Map::new(
                |pid: Seq<char>| has_slot(self.platforms@, pid),
                |pid: Seq<char>| self.platforms@[slot_of(self.platforms@, pid)].entry@,
            ),
        }
    }
}

/// The view of a manifest that may be absent.
pub open spec fn release_view(r: Option<Manifest>) -> Option<ManifestView> {
    match r {
        Some(m) => Some(m@),
        None => None,
    }
}

impl Manifest {
    /// A platform identifier appears at most once.
    pub open spec fn wf(&self) -> bool {
        distinct_ids(self.platforms@)
    }

    /// The entry of platform `id`, if the manifest has one. Where an
    /// identifier occurs once, this is the entry that the view maps it to.
    pub fn platform(&self, id: &str) -> (r: Option<&PlatformEntry>)
        ensures
            r.is_some() == self@.platforms.contains_key(id@),
            self.wf() && r.is_some() ==> r.unwrap()@ == self@.platforms[id@],
    {
        let mut i: usize = 0;
        while i < self.platforms.len()
            invariant
                i <= self.platforms.len(),
                forall|k: int| 0 <= k < i ==> (#[trigger] self.platforms@[k]).id@ != id@,
            decreases self.platforms.len() - i,
        {
            if crate::text::same_text(self.platforms[i].id.as_str(), id) {
                proof {
                    let w = slot_of(self.platforms@, id@);
                    assert(self.platforms@[i as int].id@ == id@);
                    assert(has_slot(self.platforms@, id@));
                    if self.wf() && w != i {
                        if w < i {
                            assert(self.platforms@[w].id@ != self.platforms@[i as int].id@);
                        } else {
                            assert(self.platforms@[i as int].id@ != self.platforms@[w].id@);
                        }
                    }
                }
                return Some(&self.platforms[i].entry);
            }
            i += 1;
        }
        None
    }

    /// A copy of the manifest, field by field.
    pub fn duplicate(&self) -> (r: Manifest)
        ensures
            r@ == self@,
            r.platforms@ == self.platforms@,
            r.wf() == self.wf(),
    {
        let mut slots: Vec<PlatformSlot> = Vec::new();
        let mut i: usize = 0;
        while i < self.platforms.len()
            invariant
                i <= self.platforms.len(),
                slots.len() == i,
                forall|k: int| 0 <= k < i ==> #[trigger] slots[k] == self.platforms[k],
            decreases self.platforms.len() - i,
        {
            let slot = &self.platforms[i];
            let url = match &slot.entry.url {
                Some(u) => Some(u.clone()),
                None => None,
            };
            let signature = match &slot.entry.signature {
                Some(t) => Some(t.clone()),
                None => None,
            };
            slots.push(PlatformSlot { id: slot.id.clone(), entry: PlatformEntry { url, signature } });
            i += 1;
        }
        assert(slots@ =~= self.platforms@);
        Manifest {
            version: self.version.clone(),
            notes: self.notes.clone(),
            pub_date: self.pub_date.clone(),
            platforms: slots,
        }
    }

    /// The platform identifiers of the manifest, in stored order.
    pub fn platform_ids(&self) -> (r: Vec<String>)
        ensures
            r.len() == self.platforms.len(),
            forall|i: int| 0 <= i < r.len() ==> (#[trigger] r[i])@ == self.platforms[i].id@,
    {
        let mut out: Vec<String> = Vec::new();
        let mut i: usize = 0;
        while i < self.platforms.len()
            invariant
                i <= self.platforms.len(),
                out.len() == i,
                forall|k: int| 0 <= k < i ==> (#[trigger] out[k])@ == self.platforms[k].id@,
            decreases self.platforms.len() - i,
        {
            out.push(self.platforms[i].id.clone());
            i += 1;
        }
        out
    }
}

/// The file-name suffix of the artifact that serves platform `pid`; `None`
/// for an identifier that is not served.
pub open spec fn platform_suffix(pid: Seq<char>) -> Option<Seq<char>> {
    if pid == "linux-x86_64"@ {
        Some("amd64.AppImage.tar.gz"@)
    } else if pid == "darwin-x86_64"@ || pid == "darwin-aarch64"@ {
        Some("app.tar.gz"@)
    } else if pid == "windows-x86_64"@ {
        Some("x64_en-US.msi.zip"@)
    } else {
        None
    }
}

/// One row of the platform table.
pub struct PlatformRule {
    pub id: String,
    pub suffix: String,
}

/// `t` lists the served platforms, each once, with its suffix.
pub open spec fn is_platform_table(t: Seq<PlatformRule>) -> bool {
    &&& t.len() == 4
    &&& t[0].id@ == "linux-x86_64"@
    &&& t[1].id@ == "darwin-x86_64"@
    &&& t[2].id@ == "darwin-aarch64"@
    &&& t[3].id@ == "windows-x86_64"@
    &&& forall|j: int| 0 <= j < 4 ==> platform_suffix((#[trigger] t[j]).id@) == Some(t[j].suffix@)
    &&& forall|i: int, j: int|
        0 <= i < j < 4 ==> (#[trigger] t[i]).id@ != (#[trigger] t[j]).id@
}

/// The four served platform identifiers differ from one another.
pub proof fn lemma_platform_ids_differ()
    ensures
        "linux-x86_64"@ != "darwin-x86_64"@,
        "linux-x86_64"@ != "darwin-aarch64"@,
        "linux-x86_64"@ != "windows-x86_64"@,
        "darwin-x86_64"@ != "darwin-aarch64"@,
        "darwin-x86_64"@ != "windows-x86_64"@,
        "darwin-aarch64"@ != "windows-x86_64"@,
{
    reveal_strlit("linux-x86_64");
    reveal_strlit("darwin-x86_64");
    reveal_strlit("darwin-aarch64");
    reveal_strlit("windows-x86_64");
    assert("linux-x86_64"@.len() == 12);
    assert("darwin-x86_64"@.len() == 13);
    assert("darwin-aarch64"@.len() == 14);
    assert("windows-x86_64"@.len() == 14);
    assert("darwin-aarch64"@[0] == 'd');
    assert("windows-x86_64"@[0] == 'w');
}

/// The platform table: one row for each served platform.
pub fn platform_rules() -> (t: Vec<PlatformRule>)
    ensures
        is_platform_table(t@),
{
    let mut t: Vec<PlatformRule> = Vec::new();
    t.push(
        PlatformRule {
            id: String::from_str("linux-x86_64"),
            suffix: String::from_str("amd64.AppImage.tar.gz"),
        },
    );
    t.push(
        PlatformRule {
            id: String::from_str("darwin-x86_64"),
            suffix: String::from_str("app.tar.gz"),
        },
    );
    t.push(
        PlatformRule {
            id: String::from_str("darwin-aarch64"),
            suffix: String::from_str("app.tar.gz"),
        },
    );
    t.push(
        PlatformRule {
            id: String::from_str("windows-x86_64"),
            suffix: String::from_str("x64_en-US.msi.zip"),
        },
    );
    proof {
        lemma_platform_ids_differ();
    }
    t
}

} // verus!
