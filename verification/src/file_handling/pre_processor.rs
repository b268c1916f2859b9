use super::{archive_folder_name, path_texts, DirScan, EntryInfo};
use crate::date::{day_number, lemma_order_is_calendar_order, Date};
use crate::filetypes::{
    all_extensions, extension_named, lemma_all_extensions_listed, lists_extension, Extensions,
};
use crate::parser::UserInput;
use crate::paths::{extension_of, join, path_eq, path_extension, path_join, same_path};
use crate::prelude::{Error, Result, ARCHIVE_FOLDER_NAME};
use crate::text::unicode_lowercase;
use vstd::prelude::*;

verus! {

/// The kind of file that a path names, by its extension in any letter case;
/// a path without extension is read as one with the empty extension.
pub open spec fn kind_of(path: Seq<char>) -> Option<Extensions> {
    let ext = match path_extension(path) {
        Some(e) => e,
        None => Seq::<char>::empty(),
    };
    extension_named(unicode_lowercase(ext))
}

/// Finds the files of a folder that are old enough to be archived.
#[derive(Debug)]
pub struct PreProcessor<'a> {
    input: &'a UserInput,
    ext: Vec<Extensions>,
}

impl<'a> PreProcessor<'a> {
    /// The inputs the files are judged by.
    pub closed spec fn input(self) -> UserInput {
        *self.input
    }

    /// The kinds of file that are archived.
    pub closed spec fn kinds(self) -> Seq<Extensions> {
        self.ext@
    }

    /// The path of the archive folder inside the folder being archived.
    pub open spec fn archive_path(self) -> Seq<char> {
        path_join(self.input().folder_path@, archive_folder_name())
    }

    /// The path names a kind of file that is archived: every kind that its
    /// extension can name is.
    pub open spec fn accepts_kind(self, path: Seq<char>) -> bool {
        kind_of(path) is Some
    }

    /// The kinds of file archived are all kinds there are.
    #[verifier::type_invariant]
    closed spec fn archives_every_kind(self) -> bool {
        self.ext@ == all_extensions()
    }

    /// The entry is a file of an archived kind last changed on the cut-off
    /// date or earlier.
    pub open spec fn selects(self, entry: EntryInfo) -> bool {
        &&& self.accepts_kind(entry.path@)
        &&& match entry.modified {
            Some(d) => d.spec_on_or_before(self.input().oldest_to_keep),
            None => false,
        }
    }

    /// The paths, in order, of the entries that are archived: those selected,
    /// but for the archive folder itself.
    pub open spec fn kept_paths(self, entries: Seq<EntryInfo>) -> Seq<Seq<char>>
        decreases entries.len(),
    {
        if entries.len() == 0 {
            Seq::empty()
        } else {
            let before = self.kept_paths(entries.drop_last());
            let e = entries.last();
            if self.selects(e) && !path_eq(e.path@, self.archive_path()) {
                before.push(e.path@)
            } else {
                before
            }
        }
    }

    /// Every path kept for archiving is the path of a selected entry that is
    /// not the archive folder, every such entry's path is kept, and no more
    /// paths are kept than there are entries.
    pub proof fn lemma_kept_paths(self, entries: Seq<EntryInfo>)
        ensures
            self.kept_paths(entries).len() <= entries.len(),
            forall|k: int|
                0 <= k < self.kept_paths(entries).len() ==> exists|i: int|
                    0 <= i < entries.len() && entries[i].path@ == #[trigger] self.kept_paths(
                        entries,
                    )[k] && self.selects(entries[i]) && !path_eq(
                        entries[i].path@,
                        self.archive_path(),
                    ),
            forall|i: int|
                0 <= i < entries.len() && self.selects(#[trigger] entries[i]) && !path_eq(
                    entries[i].path@,
                    self.archive_path(),
                ) ==> self.kept_paths(entries).contains(entries[i].path@),
        decreases entries.len(),
    {
        if entries.len() > 0 {
            let init = entries.drop_last();
            self.lemma_kept_paths(init);
            let before = self.kept_paths(init);
            let kept = self.kept_paths(entries);
            let n = entries.len() - 1;
            assert forall|k: int| 0 <= k < kept.len() implies exists|i: int|
                0 <= i < entries.len() && entries[i].path@ == #[trigger] kept[k] && self.selects(
                    entries[i],
                ) && !path_eq(entries[i].path@, self.archive_path()) by {
                if k < before.len() {
                    assert(kept[k] == before[k]);
                    let i = choose|i: int|
                        0 <= i < init.len() && init[i].path@ == #[trigger] before[k]
                            && self.selects(init[i]) && !path_eq(
                            init[i].path@,
                            self.archive_path(),
                        );
                    assert(entries[i] == init[i]);
                } else {
                    assert(kept[k] == entries[n].path@);
                }
            }
            assert forall|i: int|
                0 <= i < entries.len() && self.selects(#[trigger] entries[i]) && !path_eq(
                    entries[i].path@,
                    self.archive_path(),
                ) implies kept.contains(entries[i].path@) by {
                if i < n {
                    assert(entries[i] == init[i]);
                    assert(before.contains(init[i].path@));
                    let k = choose|k: int| 0 <= k < before.len() && before[k] == init[i].path@;
                    assert(kept[k] == before[k]);
                } else {
                    assert(kept[kept.len() - 1] == entries[i].path@);
                }
            }
        }
    }

    /// The test an entry passes to be archived: selected, and not the
    /// archive folder itself.
    pub open spec fn archives(self) -> spec_fn(EntryInfo) -> bool {
        |e: EntryInfo| self.selects(e) && !path_eq(e.path@, self.archive_path())
    }

    /// An entry is selected exactly when its extension names a kind of file
    /// and, on real calendar days, it was last changed on a day whose number
    /// is at most the cut-off's: on the cut-off day or before, to the day.
    pub proof fn lemma_selects_by_calendar(self, entry: EntryInfo)
        requires
            entry.modified matches Some(d) ==> d.wf(),
            self.input().oldest_to_keep.wf(),
        ensures
            self.selects(entry) <==> (kind_of(entry.path@) is Some && (entry.modified matches Some(
                d,
            ) && day_number(d) <= day_number(self.input().oldest_to_keep))),
    {
        match entry.modified {
            Some(d) => lemma_order_is_calendar_order(d, self.input().oldest_to_keep),
            None => {},
        }
    }

    /// The paths kept are those of the entries that pass the archiving test,
    /// each once and in order: as many paths as such entries.
    pub proof fn lemma_kept_paths_are_filtered(self, entries: Seq<EntryInfo>)
        ensures
            self.kept_paths(entries) == entries.filter(self.archives()).map_values(
                |e: EntryInfo| e.path@,
            ),
            self.kept_paths(entries).len() == entries.filter(self.archives()).len(),
        decreases entries.len(),
    {
        reveal_with_fuel(Seq::filter, 1);
        let f = |e: EntryInfo| e.path@;
        if entries.len() == 0 {
            assert(entries.filter(self.archives()).map_values(f) =~= Seq::<Seq<char>>::empty());
        } else {
            let init = entries.drop_last();
            self.lemma_kept_paths_are_filtered(init);
            let sub = init.filter(self.archives());
            if (self.archives())(entries.last()) {
                assert(sub.push(entries.last()).map_values(f) =~= sub.map_values(f).push(
                    entries.last().path@,
                ));
            }
        }
    }

    /// Where the entries' paths are all different, no path is kept twice.
    pub proof fn lemma_kept_paths_distinct(self, entries: Seq<EntryInfo>)
        requires
            forall|i: int, j: int|
                0 <= i < j < entries.len() ==> entries[i].path@ != entries[j].path@,
        ensures
            forall|k: int, l: int|
                0 <= k < l < self.kept_paths(entries).len() ==> self.kept_paths(entries)[k]
                    != self.kept_paths(entries)[l],
        decreases entries.len(),
    {
        if entries.len() > 0 {
            let init = entries.drop_last();
            let n = entries.len() - 1;
            self.lemma_kept_paths_distinct(init);
            self.lemma_kept_paths(init);
            let before = self.kept_paths(init);
            let kept = self.kept_paths(entries);
            assert forall|k: int, l: int| 0 <= k < l < kept.len() implies kept[k] != kept[l] by {
                if l == before.len() {
                    assert(kept[k] == before[k]);
                    let i = choose|i: int|
                        0 <= i < init.len() && init[i].path@ == #[trigger] before[k]
                            && self.selects(init[i]) && !path_eq(
                            init[i].path@,
                            self.archive_path(),
                        );
                    assert(entries[i] == init[i]);
                    assert(kept[l] == entries[n].path@);
                } else {
                    assert(kept[k] == before[k]);
                    assert(kept[l] == before[l]);
                }
            }
        }
    }

    /// A pre-processor for `input` that archives every kind of file.
    pub fn new(input: &'a UserInput) -> (res: Self)
        ensures
            res.input() == *input,
            res.kinds() == all_extensions(),
    {
        let ext = Extensions::generate_set();
        PreProcessor { input, ext }
    }

    /// Whether the date on which `path` was last changed is needed to judge
    /// it, that is whether it names a kind of file that is archived.
    pub fn needs_modified_date(&self, path: &str) -> (res: bool)
        ensures
            res == self.accepts_kind(path@),
    {
        let ext = match extension_of(path) {
            Some(e) => e,
            None => String::new(),
        };
        proof {
            use_type_invariant(self);
        }
        match Extensions::from_extension(ext.as_str()) {
            Some(kind) => {
                proof {
                    lemma_all_extensions_listed(kind);
                }
                lists_extension(&self.ext, kind)
            },
            None => false,
        }
    }

    /// Whether a file last changed on `modified` is old enough to be archived:
    /// on the cut-off date or earlier.
    pub fn is_recent(&self, modified: &Date) -> (res: bool)
        ensures
            res == modified.spec_on_or_before(self.input().oldest_to_keep),
    {
        modified.on_or_before(&self.input.oldest_to_keep)
    }

    /// The path of the entry, where it is to be archived.
    pub fn process_file(&self, entry: &EntryInfo) -> (res: Option<String>)
        ensures
            res is Some <==> self.selects(*entry),
            res matches Some(p) ==> p@ == entry.path@,
    {
        if !self.needs_modified_date(entry.path.as_str()) {
            return None;
        }
        let recent = match &entry.modified {
            Some(d) => self.is_recent(d),
            None => false,
        };
        if recent {
            Some(entry.path.clone())
        } else {
            None
        }
    }

    /// The paths to archive among `entries`, kept in order; refused where
    /// they are fewer than the minimum number of files.
    pub fn process_dir(&self, entries: &Vec<EntryInfo>) -> (res: Result<Vec<String>>)
        ensures
            self.kept_paths(entries@).len() >= self.input().required_min_files ==> (res matches Ok(
                files,
            ) && path_texts(files@) == self.kept_paths(entries@)),
            self.kept_paths(entries@).len() < self.input().required_min_files ==> (res matches Err(
                Error::NoFilesOutsideOfGivenBounds,
            )),
            res matches Ok(files) ==> files.len() >= self.input().required_min_files,
    {
        proof {
            reveal_strlit("_archive");
            assert(ARCHIVE_FOLDER_NAME@ =~= archive_folder_name());
        }
        let archive = join(self.input.folder_path.as_str(), ARCHIVE_FOLDER_NAME);
        let mut files: Vec<String> = Vec::new();
        let mut i: usize = 0;
        while i < entries.len()
            invariant
                0 <= i <= entries.len(),
                archive@ == self.archive_path(),
                path_texts(files@) == self.kept_paths(entries@.take(i as int)),
            decreases entries.len() - i,
        {
            proof {
                assert(entries@.take(i + 1).drop_last() =~= entries@.take(i as int));
            }
            let found = self.process_file(&entries[i]);
            match found {
                Some(path) => {
                    if !same_path(path.as_str(), archive.as_str()) {
                        files.push(path);
                    }
                },
                None => {},
            }
            proof {
                assert(path_texts(files@) =~= self.kept_paths(entries@.take(i + 1)));
            }
            i = i + 1;
        }
        assert(entries@.take(entries.len() as int) =~= entries@);
        if files.len() >= self.input.required_min_files {
            Ok(files)
        } else {
            Err(Error::NoFilesOutsideOfGivenBounds)
        }
    }

    /// The files of the folder to archive. Refused where the path is not a
    /// directory, where the directory cannot be read, where no file is to be
    /// archived, or where fewer than the minimum are.
    pub fn process(&self, scan: DirScan) -> (res: Result<Vec<String>>)
        ensures
            scan is NotADirectory ==> (res matches Err(Error::InvalidInput)),
            scan matches DirScan::Unreadable(e) ==> res == Err::<Vec<String>, Error>(e),
            scan matches DirScan::Entries(entries) ==> {
                let kept = self.kept_paths(entries@);
                &&& kept.len() < self.input().required_min_files ==> (res matches Err(
                    Error::NoFilesOutsideOfGivenBounds,
                ))
                &&& kept.len() >= self.input().required_min_files && kept.len() == 0 ==> (res matches Err(
                    Error::NoFilesFoundInGivenDir,
                ))
                &&& kept.len() >= self.input().required_min_files && kept.len() > 0 ==> (res matches Ok(
                    files,
                ) && path_texts(files@) == kept)
            },
            res matches Ok(files) ==> files.len() >= self.input().required_min_files && files.len() > 0,
    {
        match scan {
            DirScan::NotADirectory => Err(Error::InvalidInput),
            DirScan::Unreadable(e) => Err(e),
            DirScan::Entries(entries) => {
                match self.process_dir(&entries) {
                    Ok(files) => {
                        if files.len() == 0 {
                            Err(Error::NoFilesFoundInGivenDir)
                        } else {
                            Ok(files)
                        }
                    },
                    Err(e) => Err(e),
                }
            },
        }
    }
}

} // verus!
