use release_manifest::builder::{create_tauri_response, read_assets, signature_requests};
use release_manifest::manifest::{AssetDescriptor, Manifest, ReleaseRecord, UpstreamAsset};

const BOILERPLATE: &str = "See the assets to download this version and install.";

fn asset(name: &str, url: &str) -> AssetDescriptor {
    AssetDescriptor { name: name.to_string(), url: url.to_string() }
}

fn unmatched() -> AssetDescriptor {
    asset("keep_1.0.14_amd64.deb", "https://h/keep.deb")
}

fn record(body: &str, assets: Vec<AssetDescriptor>) -> ReleaseRecord {
    ReleaseRecord {
        tag: Some("v1.0.14".to_string()),
        notes: Some(body.to_string()),
        published_at: Some("2023-01-30T05:30:43Z".to_string()),
        assets: Some(assets),
    }
}

fn build(body: &str, assets: Vec<AssetDescriptor>, fetched: Vec<Option<String>>) -> Manifest {
    create_tauri_response(&record(body, assets), &fetched).expect("a complete record builds")
}

fn url_of(m: &Manifest, id: &str) -> Option<String> {
    m.platform(id).and_then(|e| e.url.clone())
}

fn signature_of(m: &Manifest, id: &str) -> Option<String> {
    m.platform(id).and_then(|e| e.signature.clone())
}

fn sorted_ids(m: &Manifest) -> Vec<String> {
    let mut ids = m.platform_ids();
    ids.sort();
    ids
}

#[test]
fn missing_tag_fails() {
    let mut r = record("notes", vec![asset("app_amd64.AppImage.tar.gz", "https://h/a")]);
    r.tag = None;
    assert_eq!(create_tauri_response(&r, &vec![]), None);
}

#[test]
fn missing_notes_fails() {
    let mut r = record("notes", vec![asset("app_amd64.AppImage.tar.gz", "https://h/a")]);
    r.notes = None;
    assert_eq!(create_tauri_response(&r, &vec![]), None);
}

#[test]
fn missing_publication_time_fails() {
    let mut r = record("notes", vec![asset("app_amd64.AppImage.tar.gz", "https://h/a")]);
    r.published_at = None;
    assert_eq!(create_tauri_response(&r, &vec![]), None);
}

#[test]
fn missing_asset_list_fails() {
    let mut r = record("notes", vec![unmatched()]);
    r.assets = None;
    assert_eq!(create_tauri_response(&r, &vec![]), None);
    assert!(signature_requests(&r).is_empty());
}

#[test]
fn empty_asset_list_fails() {
    let r = ReleaseRecord {
        tag: Some("v1.0.14".to_string()),
        notes: Some("n".to_string()),
        published_at: Some("d".to_string()),
        assets: Some(vec![]),
    };
    assert_eq!(create_tauri_response(&r, &vec![]), None);
    assert!(signature_requests(&r).is_empty());
}

#[test]
fn empty_tag_fails() {
    let mut r = record("notes", vec![asset("app_amd64.AppImage.tar.gz.sig", "https://h/a.sig")]);
    r.tag = Some(String::new());
    assert_eq!(create_tauri_response(&r, &vec![Some("s".to_string())]), None);
    assert!(signature_requests(&r).is_empty());
}

#[test]
fn empty_notes_fail() {
    let r = record("", vec![asset("app_amd64.AppImage.tar.gz.sig", "https://h/a.sig")]);
    assert_eq!(create_tauri_response(&r, &vec![Some("s".to_string())]), None);
    assert!(signature_requests(&r).is_empty());
}

#[test]
fn empty_publication_time_fails() {
    let mut r = record("notes", vec![asset("app_amd64.AppImage.tar.gz.sig", "https://h/a.sig")]);
    r.published_at = Some(String::new());
    assert_eq!(create_tauri_response(&r, &vec![Some("s".to_string())]), None);
    assert!(signature_requests(&r).is_empty());
}

#[test]
fn notes_of_white_space_alone_build_empty_notes() {
    let m = build(" \n", vec![unmatched()], vec![]);
    assert_eq!(m.notes, "");
}

#[test]
fn incomplete_record_requests_no_signature() {
    let mut r = record("notes", vec![asset("app_amd64.AppImage.tar.gz.sig", "https://h/a.sig")]);
    assert_eq!(signature_requests(&r), vec!["https://h/a.sig".to_string()]);
    r.tag = None;
    assert!(signature_requests(&r).is_empty());
}

#[test]
fn version_keeps_its_prefix_and_date_is_copied() {
    let m = build("notes", vec![unmatched()], vec![]);
    assert_eq!(m.version, "v1.0.14");
    assert_eq!(m.pub_date, "2023-01-30T05:30:43Z");
    assert_eq!(m.notes, "notes");
    assert!(m.platforms.is_empty());
}

#[test]
fn boilerplate_and_line_ends_are_removed_from_notes() {
    let body = format!("Fixed a crash.\r\n\r\n{}", BOILERPLATE);
    let m = build(&body, vec![unmatched()], vec![]);
    assert_eq!(m.notes, "Fixed a crash.");
}

#[test]
fn notes_without_boilerplate_are_trimmed_only() {
    let m = build("Line one\nLine two \r\n \n", vec![unmatched()], vec![]);
    assert_eq!(m.notes, "Line one\nLine two");
}

#[test]
fn boilerplate_inside_the_body_stays() {
    let body = format!("{} And more.", BOILERPLATE);
    let m = build(&body, vec![unmatched()], vec![]);
    assert_eq!(m.notes, body);
}

#[test]
fn boilerplate_followed_by_a_line_end_is_not_a_suffix() {
    let body = format!("Text. {}\n", BOILERPLATE);
    let m = build(&body, vec![unmatched()], vec![]);
    assert_eq!(m.notes, format!("Text. {}", BOILERPLATE));
}

#[test]
fn only_one_copy_of_the_boilerplate_is_removed() {
    let body = format!("{}{}", BOILERPLATE, BOILERPLATE);
    let m = build(&body, vec![unmatched()], vec![]);
    assert_eq!(m.notes, BOILERPLATE);
}

#[test]
fn body_of_boilerplate_alone_gives_empty_notes() {
    let m = build(BOILERPLATE, vec![unmatched()], vec![]);
    assert_eq!(m.notes, "");
}

#[test]
fn trailing_tab_is_trimmed() {
    let m = build("Fix\t", vec![unmatched()], vec![]);
    assert_eq!(m.notes, "Fix");
}

#[test]
fn every_kind_of_trailing_white_space_is_trimmed() {
    let body = "a\tb\t \n\u{b}\u{c}\r\u{85}\u{a0}\u{1680}\u{2000}\u{200a}\u{2028}\u{2029}\u{202f}\u{205f}\u{3000}";
    let m = build(body, vec![unmatched()], vec![]);
    assert_eq!(m.notes, "a\tb");
    assert_eq!(m.notes, body.trim_end());
}

#[test]
fn characters_next_to_the_white_space_set_stay() {
    let body = "a\u{200b}";
    let m = build(body, vec![unmatched()], vec![]);
    assert_eq!(m.notes, body);
    let other = "a\u{8}";
    assert_eq!(build(other, vec![unmatched()], vec![]).notes, other);
}

#[test]
fn notes_with_wide_characters_are_cut_by_character() {
    let body = format!("Neu: Schlüssel 🔑\n{}", BOILERPLATE);
    let m = build(&body, vec![unmatched()], vec![]);
    assert_eq!(m.notes, "Neu: Schlüssel 🔑");
}

#[test]
fn linux_artifact_and_signature() {
    let assets = vec![
        asset("app_amd64.AppImage.tar.gz", "https://h/app_amd64.AppImage.tar.gz"),
        asset("app_amd64.AppImage.tar.gz.sig", "https://h/app_amd64.AppImage.tar.gz.sig"),
    ];
    let r = record("notes", assets);
    assert_eq!(signature_requests(&r), vec!["https://h/app_amd64.AppImage.tar.gz.sig".to_string()]);
    let m = create_tauri_response(&r, &vec![Some("SIGNATURE-TEXT".to_string())]).unwrap();
    assert_eq!(url_of(&m, "linux-x86_64"), Some("https://h/app_amd64.AppImage.tar.gz".to_string()));
    assert_eq!(signature_of(&m, "linux-x86_64"), Some("SIGNATURE-TEXT".to_string()));
    assert_eq!(sorted_ids(&m), vec!["linux-x86_64".to_string()]);
}

#[test]
fn darwin_artifact_serves_both_architectures() {
    let m = build("notes", vec![asset("Keep.app.tar.gz", "https://h/Keep.app.tar.gz")], vec![]);
    let url = Some("https://h/Keep.app.tar.gz".to_string());
    assert_eq!(url_of(&m, "darwin-x86_64"), url);
    assert_eq!(url_of(&m, "darwin-aarch64"), url);
    assert_eq!(signature_of(&m, "darwin-x86_64"), None);
    assert_eq!(signature_of(&m, "darwin-aarch64"), None);
    assert_eq!(sorted_ids(&m), vec!["darwin-aarch64".to_string(), "darwin-x86_64".to_string()]);
}

#[test]
fn darwin_signature_serves_both_architectures() {
    let assets = vec![
        asset("Keep.app.tar.gz.sig", "https://h/Keep.app.tar.gz.sig"),
        asset("Keep.app.tar.gz", "https://h/Keep.app.tar.gz"),
    ];
    let m = build("notes", assets, vec![Some("mac-sig".to_string())]);
    assert_eq!(signature_of(&m, "darwin-x86_64"), Some("mac-sig".to_string()));
    assert_eq!(signature_of(&m, "darwin-aarch64"), Some("mac-sig".to_string()));
    assert_eq!(url_of(&m, "darwin-aarch64"), Some("https://h/Keep.app.tar.gz".to_string()));
}

#[test]
fn windows_artifact() {
    let m = build("notes", vec![asset("Keep_1.0.14_x64_en-US.msi.zip", "https://h/w.zip")], vec![]);
    assert_eq!(url_of(&m, "windows-x86_64"), Some("https://h/w.zip".to_string()));
    assert_eq!(sorted_ids(&m), vec!["windows-x86_64".to_string()]);
}

#[test]
fn all_platforms_with_signatures_in_order() {
    let assets = vec![
        asset("k_amd64.AppImage.tar.gz", "u-linux"),
        asset("k_amd64.AppImage.tar.gz.sig", "u-linux-sig"),
        asset("k.app.tar.gz", "u-mac"),
        asset("k.app.tar.gz.sig", "u-mac-sig"),
        asset("k_x64_en-US.msi.zip", "u-win"),
        asset("k_x64_en-US.msi.zip.sig", "u-win-sig"),
        asset("k_amd64.deb", "u-deb"),
    ];
    let r = record("notes", assets);
    assert_eq!(
        signature_requests(&r),
        vec!["u-linux-sig".to_string(), "u-mac-sig".to_string(), "u-win-sig".to_string()]
    );
    let fetched = vec![Some("s1".to_string()), Some("s2".to_string()), Some("s3".to_string())];
    let m = create_tauri_response(&r, &fetched).unwrap();
    assert_eq!(signature_of(&m, "linux-x86_64"), Some("s1".to_string()));
    assert_eq!(signature_of(&m, "darwin-x86_64"), Some("s2".to_string()));
    assert_eq!(signature_of(&m, "darwin-aarch64"), Some("s2".to_string()));
    assert_eq!(signature_of(&m, "windows-x86_64"), Some("s3".to_string()));
    assert_eq!(url_of(&m, "linux-x86_64"), Some("u-linux".to_string()));
    assert_eq!(url_of(&m, "darwin-x86_64"), Some("u-mac".to_string()));
    assert_eq!(url_of(&m, "windows-x86_64"), Some("u-win".to_string()));
    assert_eq!(
        sorted_ids(&m),
        vec![
            "darwin-aarch64".to_string(),
            "darwin-x86_64".to_string(),
            "linux-x86_64".to_string(),
            "windows-x86_64".to_string()
        ]
    );
}

#[test]
fn unmatched_assets_are_ignored() {
    let assets = vec![
        asset("keep_1.0.14_amd64.deb", "u1"),
        asset("keep.dmg", "u2"),
        asset("amd64.appimage.tar.gz", "u3"),
        asset("README.sig", "u4"),
    ];
    let r = record("notes", assets);
    assert!(signature_requests(&r).is_empty());
    let m = create_tauri_response(&r, &vec![]).unwrap();
    assert!(m.platforms.is_empty());
    assert!(m.platform("linux-x86_64").is_none());
}

#[test]
fn failed_signature_fetch_gives_empty_signature() {
    let assets = vec![
        asset("k_amd64.AppImage.tar.gz", "u-linux"),
        asset("k_amd64.AppImage.tar.gz.sig", "u-linux-sig"),
    ];
    let m = build("notes", assets, vec![None]);
    assert_eq!(signature_of(&m, "linux-x86_64"), Some(String::new()));
    assert_eq!(url_of(&m, "linux-x86_64"), Some("u-linux".to_string()));
}

#[test]
fn signature_text_that_was_not_handed_in_is_empty() {
    let assets = vec![
        asset("k.app.tar.gz.sig", "u-mac-sig"),
        asset("k_x64_en-US.msi.zip.sig", "u-win-sig"),
    ];
    let m = build("notes", assets, vec![Some("only-one".to_string())]);
    assert_eq!(signature_of(&m, "darwin-x86_64"), Some("only-one".to_string()));
    assert_eq!(signature_of(&m, "windows-x86_64"), Some(String::new()));
}

#[test]
fn signature_without_artifact_makes_an_entry_without_url() {
    let m = build("notes", vec![asset("k_x64_en-US.msi.zip.sig", "u")], vec![Some("s".to_string())]);
    let e = m.platform("windows-x86_64").unwrap();
    assert_eq!(e.url, None);
    assert_eq!(e.signature, Some("s".to_string()));
}

#[test]
fn later_artifact_overwrites_earlier_one() {
    let assets = vec![
        asset("old_amd64.AppImage.tar.gz", "u-old"),
        asset("new_amd64.AppImage.tar.gz", "u-new"),
    ];
    let m = build("notes", assets, vec![]);
    assert_eq!(url_of(&m, "linux-x86_64"), Some("u-new".to_string()));
    assert_eq!(m.platforms.len(), 1);
}

#[test]
fn asset_named_exactly_like_the_suffix_matches() {
    let m = build("notes", vec![asset("app.tar.gz", "u")], vec![]);
    assert_eq!(url_of(&m, "darwin-x86_64"), Some("u".to_string()));
}

#[test]
fn each_platform_appears_once() {
    let assets = vec![
        asset("a.app.tar.gz", "u1"),
        asset("a.app.tar.gz.sig", "u2"),
        asset("b.app.tar.gz", "u3"),
    ];
    let m = build("notes", assets, vec![Some("s".to_string())]);
    let ids = sorted_ids(&m);
    assert_eq!(ids, vec!["darwin-aarch64".to_string(), "darwin-x86_64".to_string()]);
    assert_eq!(url_of(&m, "darwin-x86_64"), Some("u3".to_string()));
    assert_eq!(signature_of(&m, "darwin-x86_64"), Some("s".to_string()));
}

#[test]
fn duplicate_is_equal_to_the_manifest() {
    let assets = vec![asset("a.app.tar.gz", "u1"), asset("a.app.tar.gz.sig", "u2")];
    let m = build("notes", assets, vec![None]);
    assert_eq!(m.duplicate(), m);
}

fn listed(name: Option<&str>, url: Option<&str>) -> UpstreamAsset {
    UpstreamAsset { name: name.map(str::to_string), url: url.map(str::to_string) }
}

#[test]
fn whole_files_are_read_in_order() {
    let raw = vec![listed(Some("a.app.tar.gz"), Some("u1")), listed(Some(""), Some("u2"))];
    assert_eq!(read_assets(&raw), Some(vec![asset("a.app.tar.gz", "u1"), asset("", "u2")]));
    assert_eq!(read_assets(&vec![]), Some(vec![]));
}

#[test]
fn file_without_name_voids_the_list() {
    let raw = vec![listed(Some("a.app.tar.gz"), Some("u1")), listed(None, Some("u2"))];
    assert_eq!(read_assets(&raw), None);
}

#[test]
fn file_without_address_voids_the_list() {
    let raw = vec![listed(Some("a.app.tar.gz"), None), listed(Some("b"), Some("u2"))];
    assert_eq!(read_assets(&raw), None);
    let mut r = record("notes", vec![unmatched()]);
    r.assets = read_assets(&raw);
    assert_eq!(create_tauri_response(&r, &vec![]), None);
}
