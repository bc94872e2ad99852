use std::io::{Cursor, Write};

use patch_updater::install::{ArchiveEntry, ExtractStep, Extraction};
use patch_updater::updater::{UpdateConfig, Updater};
use zip::write::SimpleFileOptions;
use zip::{CompressionMethod, ZipArchive, ZipWriter};

fn archive_of(names: &[&str]) -> ZipArchive<Cursor<Vec<u8>>> {
    let options = SimpleFileOptions::default().compression_method(CompressionMethod::Stored);
    let mut writer = ZipWriter::new(Cursor::new(Vec::new()));
    for name in names {
        if name.ends_with('/') {
            writer.add_directory(*name, options).unwrap();
        } else {
            writer.start_file(*name, options).unwrap();
            writer.write_all(name.as_bytes()).unwrap();
        }
    }
    ZipArchive::new(writer.finish().unwrap()).unwrap()
}

fn entries_of(archive: &mut ZipArchive<Cursor<Vec<u8>>>) -> Vec<ArchiveEntry> {
    (0..archive.len())
        .map(|i| {
            let file = archive.by_index(i).unwrap();
            ArchiveEntry {
                enclosed_path: file.enclosed_name().map(|path| path.to_string_lossy().into_owned()),
                is_dir: file.is_dir(),
            }
        })
        .collect()
}

fn plan_extraction(entries: &Vec<ArchiveEntry>, archive: &str) -> Vec<ExtractStep> {
    Updater::new(UpdateConfig { update_url: None, version: None }).apply_patch(archive, entries)
}

fn planned(steps: &[ExtractStep]) -> Vec<(usize, &str, bool)> {
    steps.iter().map(|s| (s.entry, s.path.as_str(), s.is_dir)).collect()
}

#[test]
fn entries_of_a_real_archive_are_planned_in_archive_order() {
    let mut archive = archive_of(&["bin/", "bin/game.exe", "readme.txt", "data/maps/level.db"]);
    let entries = entries_of(&mut archive);
    let steps = plan_extraction(&entries, "patch-1.0.1.zip");
    assert_eq!(
        planned(&steps),
        [(0, "bin/", true), (1, "bin/game.exe", false), (2, "readme.txt", false), (3, "data/maps/level.db", false)]
    );
    assert!(steps.iter().enumerate().all(|(k, s)| s.current == k + 1 && s.total == 4));
}

#[test]
fn entries_that_would_leave_the_root_are_never_planned() {
    let names = ["../evil.txt", "ok/file.txt", "/etc/passwd", "a/../../evil", "a/../b.txt", "ok/../../x/", "./c.txt"];
    let mut archive = archive_of(&names);
    let entries = entries_of(&mut archive);
    let steps = plan_extraction(&entries, "patch-2.0.0.zip");
    assert_eq!(
        planned(&steps),
        [(1, "ok/file.txt", false), (4, "a/../b.txt", false), (6, "./c.txt", false)]
    );
    for step in &steps {
        assert!(!step.path.starts_with('/'));
        let mut depth = 0i32;
        for component in step.path.split('/') {
            match component {
                "" | "." => {}
                ".." => depth -= 1,
                _ => depth += 1,
            }
            assert!(depth >= 0);
        }
    }
}

#[test]
fn an_extraction_hands_out_the_plan_of_a_real_archive() {
    let mut archive = archive_of(&["a/", "../b", "a/c"]);
    let entries = entries_of(&mut archive);
    let mut extraction = Extraction::new("p.zip", entries.len());
    let handed: Vec<Option<usize>> = entries.iter().map(|e| extraction.step(e).map(|s| s.entry)).collect();
    assert_eq!(handed, [Some(0), None, Some(2)]);
    assert!(extraction.is_finished());
}

#[test]
fn an_archive_without_its_skipped_entries_is_planned_alike() {
    let names = ["../evil.txt", "ok/", "/etc/passwd", "ok/file.txt", "a/../../evil", "b.txt"];
    let kept = ["ok/", "ok/file.txt", "b.txt"];
    let whole = plan_extraction(&entries_of(&mut archive_of(&names)), "patch-2.0.0.zip");
    let rest = plan_extraction(&entries_of(&mut archive_of(&kept)), "patch-2.0.0.zip");
    let writes = |steps: &[ExtractStep]| -> Vec<(String, bool)> {
        steps.iter().map(|s| (s.path.clone(), s.is_dir)).collect()
    };
    assert_eq!(writes(&whole), writes(&rest));
    assert_eq!(whole.iter().map(|s| s.entry).collect::<Vec<_>>(), [1, 3, 5]);
    assert_eq!(rest.iter().map(|s| s.entry).collect::<Vec<_>>(), [0, 1, 2]);
}
