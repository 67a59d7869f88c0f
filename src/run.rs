use vstd::prelude::*;
use crate::metadata::{album_of, artist_of, describe, format_of, is_audio_file, title_of, TagProbe};
use crate::paths::{build, destination_of};
use crate::validate::EntryKind;

verus! {

/// One audio file found under the source root.
#[derive(Debug)]
pub struct MusicFile {
    pub artist: String,
    pub album: String,
    pub title: String,
    /// The extension appended to the title, with its dot, or empty.
    pub format: String,
    pub source_file: String,
    pub dest_file: String,
    /// What the tag reader reported when the file was found.
    pub tags: TagProbe,
}

/// One entry of the walk over the source root, as the caller observed it.
#[derive(Debug)]
pub struct ScanEntry {
    pub path: String,
    pub kind: EntryKind,
    /// The tag reader's report; only read for regular files.
    pub tags: TagProbe,
}

/// The state of one run: the two roots, the files found, and the counters.
#[derive(Debug)]
pub struct MusicItems {
    pub source_folder: String,
    pub dest_folder: String,
    pub music_files_found: usize,
    pub music_files_copied: usize,
    pub music_files_skipped: usize,
    pub music_files_failed: usize,
    pub file_list: Vec<MusicFile>,
}

/// An entry is kept when it is a regular file that the tag reader opens.
pub open spec fn accepts(e: ScanEntry) -> bool {
    e.kind is File && !(e.tags@ is Unreadable)
}

/// The entries kept by the scan, in walk order.
pub open spec fn accepted(entries: Seq<ScanEntry>) -> Seq<ScanEntry> {
    entries.filter(|e: ScanEntry| accepts(e))
}

proof fn lemma_accepted_step(entries: Seq<ScanEntry>)
    requires
        entries.len() > 0,
    ensures
        accepted(entries) == (if accepts(entries.last()) {
            accepted(entries.drop_last()).push(entries.last())
        } else {
            accepted(entries.drop_last())
        }),
{
    reveal_with_fuel(Seq::filter, 1);
}

/// The scan keeps exactly the walked entries that are regular files the tag
/// reader opens: each kept entry is one of the walk and is such a file, and
/// each such entry of the walk is kept.
pub proof fn lemma_scan_keeps_audio_files(entries: Seq<ScanEntry>)
    ensures
        forall|j: int|
            0 <= j < accepted(entries).len() ==> accepts(#[trigger] accepted(entries)[j])
                && entries.contains(accepted(entries)[j]),
        forall|i: int|
            0 <= i < entries.len() && accepts(#[trigger] entries[i]) ==> accepted(
                entries,
            ).contains(entries[i]),
{
    broadcast use vstd::seq_lib::group_filter_ensures;

    let pred = |e: ScanEntry| accepts(e);
    assert forall|j: int| 0 <= j < accepted(entries).len() implies accepts(
        #[trigger] accepted(entries)[j],
    ) && entries.contains(accepted(entries)[j]) by {
        entries.lemma_filter_pred(pred, j);
        entries.lemma_filter_contains_rev(pred, accepted(entries)[j]);
    }
    assert forall|i: int| 0 <= i < entries.len() && accepts(#[trigger] entries[i]) implies accepted(
        entries,
    ).contains(entries[i]) by {
        entries.lemma_filter_contains(pred, i);
    }
}

/// A record just made for a scanned entry: only its source and tags are set.
pub open spec fn fresh_from(f: MusicFile, e: ScanEntry) -> bool {
    &&& f.source_file == e.path
    &&& f.tags == e.tags
    &&& f.artist@.len() == 0
    &&& f.album@.len() == 0
    &&& f.title@.len() == 0
    &&& f.format@.len() == 0
    &&& f.dest_file@.len() == 0
}

/// `after` is `before` with its metadata and destination filled in, the
/// destination under `root`.
pub open spec fn extracted_from(after: MusicFile, before: MusicFile, root: Seq<char>) -> bool {
    let src = before.source_file@;
    let reading = before.tags@;
    &&& after.source_file == before.source_file
    &&& after.tags == before.tags
    &&& after.artist@ == artist_of(reading)
    &&& after.album@ == album_of(reading)
    &&& after.title@ == title_of(src, reading)
    &&& after.format@ == format_of(src, reading)
    &&& after.dest_file@ == destination_of(
        root,
        artist_of(reading),
        album_of(reading),
        title_of(src, reading),
        format_of(src, reading),
    )
}

impl MusicItems {
    /// The count of found files matches the list, and no more files were
    /// processed than found.
    pub open spec fn wf(&self) -> bool {
        &&& self.music_files_found == self.file_list@.len()
        &&& self.music_files_copied + self.music_files_skipped + self.music_files_failed
            <= self.music_files_found
    }

    /// The roots and counters of `self` and `other` agree.
    pub open spec fn same_header(&self, other: &MusicItems) -> bool {
        &&& self.source_folder == other.source_folder
        &&& self.dest_folder == other.dest_folder
        &&& self.music_files_copied == other.music_files_copied
        &&& self.music_files_skipped == other.music_files_skipped
        &&& self.music_files_failed == other.music_files_failed
    }

    /// A run over two validated roots, before anything was found.
    pub fn new(source_folder: String, dest_folder: String) -> (r: MusicItems)
        ensures
            r.wf(),
            r.source_folder == source_folder,
            r.dest_folder == dest_folder,
            r.file_list@.len() == 0,
            r.music_files_found == 0,
            r.music_files_copied == 0,
            r.music_files_skipped == 0,
            r.music_files_failed == 0,
    {
        MusicItems {
            source_folder,
            dest_folder,
            music_files_found: 0,
            music_files_copied: 0,
            music_files_skipped: 0,
            music_files_failed: 0,
            file_list: Vec::new(),
        }
    }

    /// Takes one walked entry: a regular file that the tag reader opens is
    /// added to the list and counted as found; any other entry is dropped.
    pub fn scan_entry(&mut self, entry: ScanEntry) -> (r: bool)
        requires
            old(self).wf(),
        ensures
            r == accepts(entry),
            final(self).wf(),
            final(self).same_header(old(self)),
            r ==> final(self).file_list@.len() == old(self).file_list@.len() + 1
                && final(self).file_list@.drop_last() == old(self).file_list@
                && fresh_from(final(self).file_list@.last(), entry),
            !r ==> final(self).file_list@ == old(self).file_list@,
    {
        if entry.kind == EntryKind::File && is_audio_file(&entry.tags) {
            let f = MusicFile {
                artist: String::new(),
                album: String::new(),
                title: String::new(),
                format: String::new(),
                source_file: entry.path,
                dest_file: String::new(),
                tags: entry.tags,
            };
            self.file_list.push(f);
            assert(self.file_list@.drop_last() =~= old(self).file_list@);
            self.music_files_found = self.file_list.len();
            true
        } else {
            false
        }
    }

    /// Takes the whole walk, in order: the entries that [`Self::scan_entry`]
    /// accepts are appended to the list in walk order and counted as found.
    pub fn scan_for_music_files(&mut self, entries: Vec<ScanEntry>)
        requires
            old(self).wf(),
        ensures
            final(self).wf(),
            final(self).same_header(old(self)),
            final(self).file_list@.len() == old(self).file_list@.len() + accepted(entries@).len(),
            final(self).file_list@.subrange(0, old(self).file_list@.len() as int)
                == old(self).file_list@,
            forall|j: int|
                0 <= j < accepted(entries@).len() ==> fresh_from(
                    #[trigger] final(self).file_list@[old(self).file_list@.len() + j],
                    accepted(entries@)[j],
                ),
    {
        let ghost all = entries@;
        let ghost base = old(self).file_list@.len();
        let n = entries.len();
        // Reverse the walk, so that popping yields it in order.
        let mut pending = entries;
        let mut rev: Vec<ScanEntry> = Vec::new();
        while pending.len() > 0
            invariant
                all.len() == n,
                pending@ == all.subrange(0, pending@.len() as int),
                rev@.len() + pending@.len() == n,
                forall|j: int| 0 <= j < rev@.len() ==> #[trigger] rev@[j] == all[n - 1 - j],
            decreases pending@.len(),
        {
            let e = pending.pop().unwrap();
            rev.push(e);
        }
        let mut i: usize = 0;
        while rev.len() > 0
            invariant
                all.len() == n,
                i + rev@.len() == n,
                forall|j: int| 0 <= j < rev@.len() ==> #[trigger] rev@[j] == all[n - 1 - j],
                self.wf(),
                self.same_header(old(self)),
                self.file_list@.len() == base + accepted(all.subrange(0, i as int)).len(),
                self.file_list@.subrange(0, base as int) == old(self).file_list@,
                forall|j: int|
                    0 <= j < accepted(all.subrange(0, i as int)).len() ==> fresh_from(
                        #[trigger] self.file_list@[base + j],
                        accepted(all.subrange(0, i as int))[j],
                    ),
            decreases rev@.len(),
        {
            let ghost before = self.file_list@;
            let ghost prefix = all.subrange(0, i as int);
            let e = rev.pop().unwrap();
            assert(e == all[i as int]);
            assert(all.subrange(0, i + 1).drop_last() =~= prefix);
            assert(all.subrange(0, i + 1).last() == e);
            proof {
                lemma_accepted_step(all.subrange(0, i + 1));
            }
            self.scan_entry(e);
            assert(self.file_list@.subrange(0, base as int) =~= old(self).file_list@) by {
                assert(forall|k: int| 0 <= k < before.len() ==> self.file_list@[k] == before[k]) by {
                    if accepts(e) {
                        assert(forall|k: int| 0 <= k < before.len()
                            ==> self.file_list@.drop_last()[k] == self.file_list@[k]);
                    }
                }
                assert(before.subrange(0, base as int) =~= old(self).file_list@);
            }
            proof {
                if accepts(e) {
                    assert forall|j: int|
                        0 <= j < accepted(all.subrange(0, i + 1)).len() implies fresh_from(
                            #[trigger] self.file_list@[base + j],
                            accepted(all.subrange(0, i + 1))[j],
                        ) by {
                        if j < accepted(prefix).len() {
                            assert(self.file_list@.drop_last()[base + j]
                                == self.file_list@[base + j]);
                        }
                    }
                }
            }
            i = i + 1;
        }
        assert(all.subrange(0, n as int) =~= all);
    }

    /// Fills in every file's artist, album, title, extension and destination
    /// under the destination root, from the tags read when it was found.
    pub fn extract_metadata(&mut self)
        requires
            old(self).wf(),
        ensures
            final(self).wf(),
            final(self).same_header(old(self)),
            final(self).music_files_found == old(self).music_files_found,
            final(self).file_list@.len() == old(self).file_list@.len(),
            forall|i: int|
                0 <= i < old(self).file_list@.len() ==> extracted_from(
                    #[trigger] final(self).file_list@[i],
                    old(self).file_list@[i],
                    old(self).dest_folder@,
                ),
    {
        let n = self.file_list.len();
        let mut i: usize = 0;
        while i < n
            invariant
                n == old(self).file_list@.len(),
                i <= n,
                self.wf(),
                self.same_header(old(self)),
                self.file_list@.len() == n,
                forall|k: int|
                    0 <= k < i ==> extracted_from(
                        #[trigger] self.file_list@[k],
                        old(self).file_list@[k],
                        old(self).dest_folder@,
                    ),
                forall|k: int| i <= k < n ==> #[trigger] self.file_list@[k] == old(self).file_list@[k],
            decreases n - i,
        {
            let (a, b, t, f) = describe(
                self.file_list[i].source_file.as_str(),
                &self.file_list[i].tags,
            );
            let d = build(
                self.dest_folder.as_str(),
                a.as_str(),
                b.as_str(),
                t.as_str(),
                f.as_str(),
            );
            let file = &mut self.file_list[i];
            file.artist = a;
            file.album = b;
            file.title = t;
            file.format = f;
            file.dest_file = d;
            i = i + 1;
        }
    }
}

} // verus!
