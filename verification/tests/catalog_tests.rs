use patch_updater::catalog::{applicable_patches, parse_catalog, read_entries, sort_by_version, PatchInfo};
use patch_updater::error::UpdaterError;
use patch_updater::version::Version;

fn versions(patches: &[PatchInfo]) -> Vec<String> {
    patches.iter().map(|p| p.version.to_string()).collect()
}

fn urls(patches: &[PatchInfo]) -> Vec<String> {
    patches.iter().map(|p| p.download_url.clone()).collect()
}

fn patch(version: &str, url: &str) -> PatchInfo {
    PatchInfo { version: Version::parse(version).unwrap(), download_url: url.to_string() }
}

#[test]
fn scenario_catalog_with_older_patch_comment_and_stray_file() {
    let text = "patch-1.0.1.zip\npatch-0.9.0.zip\nnot-a-patch.txt\n# comment\n";
    let catalog = parse_catalog(text).unwrap();
    assert_eq!(versions(&catalog), ["0.9.0", "1.0.1"]);
    let installed = Version::parse("1.0.0").unwrap();
    let applicable = applicable_patches(&installed, &catalog);
    assert_eq!(versions(&applicable), ["1.0.1"]);
    assert_eq!(urls(&applicable), ["patch-1.0.1.zip"]);
}

#[test]
fn scenario_catalog_with_only_an_older_patch() {
    let catalog = parse_catalog("patch-1.0.0.zip").unwrap();
    assert_eq!(versions(&catalog), ["1.0.0"]);
    let installed = Version::parse("2.0.0").unwrap();
    assert!(applicable_patches(&installed, &catalog).is_empty());
}

#[test]
fn lines_that_name_no_patch_are_excluded() {
    let text = "\n   \n# patch-9.9.9.zip\n  # indented comment\nreadme.md\npatch-1.0.zip\npatch-one.zip\n\
                Patch-1.0.0.zip\npatch-1.0.0.ZIP\npatch-1.0.0.zip.sig\nxpatch-1.0.0.zip\npatch-2.0.0.zip?x=1\n";
    assert!(read_entries(text).is_empty());
    assert!(matches!(parse_catalog(text), Err(UpdaterError::NoUpdatesAvailable)));
}

#[test]
fn every_matching_line_gives_one_patch() {
    let text = "patch-1.0.0.zip\njunk\npatch-1.0.0.zip\nhttps://h/p/patch-3.0.0.zip\n";
    let entries = read_entries(text);
    assert_eq!(versions(&entries), ["1.0.0", "1.0.0", "3.0.0"]);
    assert_eq!(urls(&entries), ["patch-1.0.0.zip", "patch-1.0.0.zip", "https://h/p/patch-3.0.0.zip"]);
}

#[test]
fn the_download_url_is_the_trimmed_line() {
    let text = "  \thttps://example.com/patches/patch-1.2.3.zip  \r\n";
    let entries = read_entries(text);
    assert_eq!(urls(&entries), ["https://example.com/patches/patch-1.2.3.zip"]);
    assert_eq!(versions(&entries), ["1.2.3"]);
}

#[test]
fn the_final_segment_decides() {
    let entries = read_entries("patch-1.0.0.zip/other.txt\nother/patch-2.0.0.zip\npatch-3.0.0.zip/\npatch-4.0.0.zip/.\n");
    assert_eq!(versions(&entries), ["2.0.0", "3.0.0", "4.0.0"]);
    assert_eq!(urls(&entries), ["other/patch-2.0.0.zip", "patch-3.0.0.zip/", "patch-4.0.0.zip/."]);
}

#[test]
fn carriage_returns_and_missing_final_newline_do_not_matter() {
    let with = parse_catalog("patch-1.0.0.zip\r\npatch-2.0.0.zip\r\n").unwrap();
    let without = parse_catalog("patch-1.0.0.zip\npatch-2.0.0.zip").unwrap();
    assert_eq!(versions(&with), ["1.0.0", "2.0.0"]);
    assert_eq!(urls(&with), urls(&without));
}

#[test]
fn the_catalog_is_ascending_by_version() {
    let text = "patch-1.19.0.zip\npatch-1.5.0.zip\npatch-1.0.0-rc.1.zip\npatch-10.0.0.zip\npatch-1.0.0.zip\npatch-1.0.0-alpha.zip\n";
    let catalog = parse_catalog(text).unwrap();
    assert_eq!(versions(&catalog), ["1.0.0-alpha", "1.0.0-rc.1", "1.0.0", "1.5.0", "1.19.0", "10.0.0"]);
    for pair in catalog.windows(2) {
        assert!(pair[0].version.compare(&pair[1].version) <= 0);
    }
}

#[test]
fn patches_of_one_version_are_all_kept() {
    let catalog = parse_catalog("b/patch-1.0.0.zip\npatch-0.1.0.zip\na/patch-1.0.0.zip\n").unwrap();
    assert_eq!(versions(&catalog), ["0.1.0", "1.0.0", "1.0.0"]);
    let mut twins = urls(&catalog)[1..].to_vec();
    twins.sort();
    assert_eq!(twins, ["a/patch-1.0.0.zip", "b/patch-1.0.0.zip"]);
}

#[test]
fn an_empty_text_has_no_updates() {
    assert!(matches!(parse_catalog(""), Err(UpdaterError::NoUpdatesAvailable)));
    assert!(matches!(parse_catalog("\n\n"), Err(UpdaterError::NoUpdatesAvailable)));
}

#[test]
fn sort_by_version_orders_and_keeps_every_patch() {
    let patches = vec![patch("2.0.0", "c"), patch("1.0.0", "a"), patch("3.0.0", "d"), patch("1.0.0", "b")];
    let sorted = sort_by_version(patches);
    assert_eq!(versions(&sorted), ["1.0.0", "1.0.0", "2.0.0", "3.0.0"]);
    let mut twins = urls(&sorted)[..2].to_vec();
    twins.sort();
    assert_eq!(twins, ["a", "b"]);
    assert_eq!(urls(&sorted)[2..], ["c", "d"]);
    assert!(sort_by_version(Vec::new()).is_empty());
}

#[test]
fn applicable_patches_are_exactly_the_newer_ones_ascending() {
    let catalog = vec![
        patch("3.0.0", "e"),
        patch("1.0.0", "a"),
        patch("2.0.0-beta", "c"),
        patch("2.0.0", "d"),
        patch("1.5.0", "b"),
    ];
    let installed = Version::parse("1.5.0").unwrap();
    let applicable = applicable_patches(&installed, &catalog);
    assert_eq!(versions(&applicable), ["2.0.0-beta", "2.0.0", "3.0.0"]);
    for p in &catalog {
        let newer = p.version.is_newer_than(&installed);
        let kept = applicable.iter().any(|a| a.download_url == p.download_url);
        assert_eq!(newer, kept);
    }
}

#[test]
fn the_installed_version_itself_is_not_applicable() {
    let catalog = vec![patch("1.0.0", "a"), patch("1.0.0+build", "b")];
    let installed = Version::parse("1.0.0").unwrap();
    assert_eq!(urls(&applicable_patches(&installed, &catalog)), ["b"]);
}

#[test]
fn nothing_is_applicable_when_all_patches_are_older_or_equal() {
    let catalog = vec![patch("1.0.0", "a"), patch("0.5.0", "b"), patch("2.0.0-rc.1", "c")];
    let installed = Version::parse("2.0.0").unwrap();
    assert!(applicable_patches(&installed, &catalog).is_empty());
    assert!(applicable_patches(&installed, &Vec::new()).is_empty());
}

#[test]
fn patch_info_clone_keeps_both_fields() {
    let first = patch("1.2.3", "https://h/patch-1.2.3.zip");
    let copy = first.clone();
    assert_eq!(copy.version.to_string(), "1.2.3");
    assert_eq!(copy.download_url, first.download_url);
}

#[test]
fn a_path_that_ends_in_a_parent_component_names_no_patch() {
    assert!(read_entries("x/patch-1.0.0.zip/..\n").is_empty());
    assert!(read_entries("..\n.\n/\n").is_empty());
}

#[test]
fn only_the_slash_separates_components() {
    assert!(read_entries("dir\\patch-1.0.0.zip\n").is_empty());
    assert_eq!(versions(&read_entries("dir\\x/patch-1.0.0.zip\n")), ["1.0.0"]);
}

#[test]
fn a_comment_sign_inside_a_line_is_part_of_the_line() {
    let entries = read_entries("a#b/patch-1.0.0.zip\n");
    assert_eq!(urls(&entries), ["a#b/patch-1.0.0.zip"]);
}
