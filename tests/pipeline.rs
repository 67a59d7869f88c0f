use std::collections::{HashMap, HashSet};

use music_sorter::copier::{copy_action, next_step, start_copy, CopyAction, CopyEvent, CopyOutcome, CopyStep};
use music_sorter::metadata::TagProbe;
use music_sorter::run::{MusicItems, ScanEntry};
use music_sorter::validate::EntryKind;

/// An in-memory filesystem: directories and files with their bytes.
struct World {
    dirs: HashSet<String>,
    files: HashMap<String, Vec<u8>>,
    copy_fails: bool,
    created: Vec<String>,
}

impl World {
    fn new() -> World {
        let mut dirs = HashSet::new();
        dirs.insert("/src".to_string());
        dirs.insert("/dest".to_string());
        World { dirs, files: HashMap::new(), copy_fails: false, created: Vec::new() }
    }

    fn kind(&self, p: &str) -> EntryKind {
        if self.dirs.contains(p) {
            EntryKind::Directory
        } else if self.files.contains_key(p) {
            EntryKind::File
        } else {
            EntryKind::Missing
        }
    }

    fn create_all(&mut self, p: &str) -> bool {
        let mut cur = String::new();
        for (i, part) in p.split('/').enumerate() {
            if i > 0 {
                cur.push('/');
            }
            cur.push_str(part);
            if !cur.is_empty() && !self.dirs.contains(&cur) {
                self.dirs.insert(cur.clone());
                self.created.push(cur.clone());
            }
        }
        true
    }
}

fn tags(artist: &str, album: &str, title: &str) -> TagProbe {
    TagProbe::Tags { artist: artist.to_string(), album: album.to_string(), title: title.to_string() }
}

fn file_entry(path: &str, probe: TagProbe) -> ScanEntry {
    ScanEntry { path: path.to_string(), kind: EntryKind::File, tags: probe }
}

/// Runs the copy stage over every found file, as the application does.
fn copy_all(items: &mut MusicItems, world: &mut World) {
    for i in 0..items.file_list.len() {
        let mut step = start_copy();
        let outcome = loop {
            let event = match copy_action(&items.file_list[i], step) {
                CopyAction::StatDirectory(p) | CopyAction::StatFile(p) => CopyEvent::Found(world.kind(&p)),
                CopyAction::CreateDirectory(p) => CopyEvent::Attempted(world.create_all(&p)),
                CopyAction::CopyFile { from, to } => {
                    if world.copy_fails {
                        CopyEvent::Attempted(false)
                    } else {
                        let bytes = world.files.get(&from).cloned().unwrap_or_default();
                        world.files.insert(to, bytes);
                        CopyEvent::Attempted(true)
                    }
                }
                CopyAction::Finish(o) => break o,
            };
            step = next_step(step, event);
        };
        assert!(items.processed() < items.music_files_found);
        items.record_copy(outcome);
    }
}

fn run(world: &mut World, entries: Vec<ScanEntry>) -> MusicItems {
    let mut items = MusicItems::new("/src".to_string(), "/dest".to_string());
    items.scan_for_music_files(entries);
    items.extract_metadata();
    copy_all(&mut items, world);
    items
}

#[test]
fn tagged_file_goes_under_artist_and_album() {
    let mut world = World::new();
    world.files.insert("/src/a.flac".to_string(), vec![1, 2, 3]);
    let items = run(&mut world, vec![file_entry("/src/a.flac", tags("Muse", "Origin of Symmetry", "Bliss"))]);
    assert_eq!(items.file_list[0].dest_file, "/dest/Muse/Origin of Symmetry/Bliss.flac");
    assert_eq!(items.music_files_found, 1);
    assert_eq!(items.music_files_copied, 1);
    assert_eq!(world.files.get("/dest/Muse/Origin of Symmetry/Bliss.flac"), Some(&vec![1, 2, 3]));
}

#[test]
fn untagged_file_keeps_its_name_without_extra_extension() {
    let mut world = World::new();
    world.files.insert("/src/track07.mp3".to_string(), vec![7]);
    let items = run(&mut world, vec![file_entry("/src/track07.mp3", TagProbe::NoTags)]);
    let f = &items.file_list[0];
    assert_eq!(f.artist, "Unknown");
    assert_eq!(f.album, "Unknown");
    assert_eq!(f.title, "track07.mp3");
    assert_eq!(f.format, "");
    assert_eq!(f.dest_file, "/dest/Unknown/Unknown/track07.mp3");
    assert_eq!(items.music_files_copied, 1);
}

#[test]
fn existing_destination_is_skipped_and_kept() {
    let mut world = World::new();
    world.files.insert("/src/a.mp3".to_string(), vec![1]);
    world.dirs.insert("/dest/A".to_string());
    world.dirs.insert("/dest/A/B".to_string());
    world.files.insert("/dest/A/B/T.mp3".to_string(), vec![9, 9]);
    let items = run(&mut world, vec![file_entry("/src/a.mp3", tags("A", "B", "T"))]);
    assert_eq!(items.music_files_skipped, 1);
    assert_eq!(items.music_files_copied, 0);
    assert_eq!(world.files.get("/dest/A/B/T.mp3"), Some(&vec![9, 9]));
    assert_eq!(world.files.get("/src/a.mp3"), Some(&vec![1]));
}

#[test]
fn missing_directory_chain_is_created_before_copy() {
    let mut world = World::new();
    world.files.insert("/src/x.ogg".to_string(), vec![5]);
    let items = run(&mut world, vec![file_entry("/src/x.ogg", tags("Art", "Alb", "Song"))]);
    assert_eq!(world.created, vec!["/dest/Art".to_string(), "/dest/Art/Alb".to_string()]);
    assert_eq!(items.music_files_copied, 1);
    assert!(world.files.contains_key("/dest/Art/Alb/Song.ogg"));
}

#[test]
fn create_action_names_the_parent() {
    let mut items = MusicItems::new("/src".to_string(), "/dest".to_string());
    items.scan_for_music_files(vec![file_entry("/src/x.ogg", tags("Art", "Alb", "Song"))]);
    items.extract_metadata();
    let step = next_step(start_copy(), CopyEvent::Found(EntryKind::Missing));
    assert_eq!(step, CopyStep::CreateParent);
    match copy_action(&items.file_list[0], step) {
        CopyAction::CreateDirectory(p) => assert_eq!(p, "/dest/Art/Alb"),
        other => panic!("unexpected action {:?}", other),
    }
}

#[test]
fn second_run_copies_nothing() {
    let mut world = World::new();
    let mut entries = Vec::new();
    let mut again = Vec::new();
    for (i, name) in ["one", "two", "three"].iter().enumerate() {
        let path = format!("/src/{}.mp3", i);
        world.files.insert(path.clone(), vec![i as u8]);
        entries.push(file_entry(&path, tags("Band", "Record", name)));
        again.push(file_entry(&path, tags("Band", "Record", name)));
    }
    let first = run(&mut world, entries);
    assert_eq!(first.music_files_copied, 3);
    let second = run(&mut world, again);
    assert_eq!(second.music_files_copied, 0);
    assert_eq!(second.music_files_skipped, second.music_files_found);
    assert_eq!(second.music_files_failed, 0);
}

#[test]
fn counters_add_up_with_mixed_outcomes() {
    let mut world = World::new();
    world.dirs.insert("/dest/A".to_string());
    world.dirs.insert("/dest/A/B".to_string());
    world.files.insert("/dest/A/B/old.mp3".to_string(), vec![0]);
    let entries = vec![
        file_entry("/src/1.mp3", tags("A", "B", "old")),
        file_entry("/src/2.mp3", tags("A", "B", "new")),
        file_entry("/src/3.mp3", tags("A", "B", "new")),
        ScanEntry { path: "/src/cover.jpg".to_string(), kind: EntryKind::File, tags: TagProbe::Unreadable },
        ScanEntry { path: "/src/sub".to_string(), kind: EntryKind::Directory, tags: TagProbe::Unreadable },
    ];
    let items = run(&mut world, entries);
    assert_eq!(items.music_files_found, 3);
    assert_eq!(items.music_files_skipped, 2);
    assert_eq!(items.music_files_copied, 1);
    assert_eq!(items.music_files_failed, 0);
    assert_eq!(items.music_files_copied + items.music_files_skipped + items.music_files_failed, items.music_files_found);
}

#[test]
fn failed_copies_are_counted_and_run_continues() {
    let mut world = World::new();
    world.copy_fails = true;
    let entries = vec![
        file_entry("/src/1.mp3", tags("A", "B", "x")),
        file_entry("/src/2.mp3", tags("A", "B", "y")),
    ];
    let items = run(&mut world, entries);
    assert_eq!(items.music_files_failed, 2);
    assert_eq!(items.processed(), 2);
}
