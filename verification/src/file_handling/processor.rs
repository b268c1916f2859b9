use super::{archive_folder_name, path_texts, DirScan, EntryInfo};
use crate::date::{day_number, lemma_order_is_calendar_order, Date};
use crate::parser::UserInput;
use crate::paths::{extension_of, join, path_eq, path_extension, path_join, same_path};
use crate::prelude::{Error, Result, ARCHIVE_FOLDER_NAME};
use crate::text::{
    all_ascii_letters, ascii_lowercase, same_text, to_lowercase, unicode_lowercase,
};
use vstd::prelude::*;

verus! {

/// The kinds of file that the archiver recognises by their extension.
#[derive(Clone, Copy, Debug, PartialEq, Eq, Structural)]
pub enum Extensions {
    Xlsx,
    Csv,
    Xls,
    Xlsm,
}

/// Every kind of file, in the order `generate_set` lists them.
pub open spec fn all_extensions() -> Seq<Extensions> {
    seq![
        Extensions::Xlsx,
        Extensions::Csv,
        Extensions::Xls,
        Extensions::Xlsm,
    ]
}

/// The kind of file whose lower-case extension is `name`.
pub open spec fn extension_named(name: Seq<char>) -> Option<Extensions> {
    if name == seq!['x', 'l', 's', 'x'] {
        Some(Extensions::Xlsx)
    } else if name == seq!['c', 's', 'v'] {
        Some(Extensions::Csv)
    } else if name == seq!['x', 'l', 's'] {
        Some(Extensions::Xls)
    } else if name == seq!['x', 'l', 's', 'm'] {
        Some(Extensions::Xlsm)
    } else {
        None
    }
}

/// Every kind of file is listed by `generate_set`, exactly once.
pub proof fn lemma_all_extensions_listed(e: Extensions)
    ensures
        all_extensions().contains(e),
        forall|i: int, j: int|
            0 <= i < j < all_extensions().len() ==> all_extensions()[i] != all_extensions()[j],
{
    let s = all_extensions();
    match e {
        Extensions::Xlsx => assert(s[0] == e),
        Extensions::Csv => assert(s[1] == e),
        Extensions::Xls => assert(s[2] == e),
        Extensions::Xlsm => assert(s[3] == e),
    }
}

/// The extension, in small letters, that names each kind of file.
pub open spec fn extension_name(e: Extensions) -> Seq<char> {
    match e {
        Extensions::Xlsx => seq!['x', 'l', 's', 'x'],
        Extensions::Csv => seq!['c', 's', 'v'],
        Extensions::Xls => seq!['x', 'l', 's'],
        Extensions::Xlsm => seq!['x', 'l', 's', 'm'],
    }
}

/// Every kind of file is reached by an extension: its name is made of ASCII
/// letters, lowercasing leaves it as it is, and it names that kind, which
/// `generate_set` lists. With the contract of `from_extension`, that name
/// (in any mix of capitals and small letters) gives that kind.
pub proof fn lemma_every_kind_named(e: Extensions)
    ensures
        all_ascii_letters(extension_name(e)),
        ascii_lowercase(extension_name(e)) == extension_name(e),
        extension_named(extension_name(e)) == Some(e),
        all_extensions().contains(e),
{
    let n = extension_name(e);
    assert(ascii_lowercase(n) =~= n);
    lemma_all_extensions_listed(e);
}

/// Only the name of a kind gives that kind: every text that names a kind is
/// that kind's extension name, so any other extension names no kind.
pub proof fn lemma_only_kind_names(name: Seq<char>, e: Extensions)
    requires
        extension_named(name) == Some(e),
    ensures
        name == extension_name(e),
{
}

impl Extensions {
    /// All kinds of file that the archiver handles.
    pub fn generate_set() -> (res: Vec<Self>)
        ensures
            res@ == all_extensions(),
    {
        let res = vec![
            Extensions::Xlsx,
            Extensions::Csv,
            Extensions::Xls,
            Extensions::Xlsm,
        ];
        assert(res@ =~= all_extensions());
        res
    }

    /// The kind of file whose extension, already in lower case, is `name`.
    pub fn from_lowercase_name(name: &str) -> (res: Option<Self>)
        ensures
            res == extension_named(name@),
    {
        proof {
            reveal_strlit("xlsx");
            assert("xlsx"@ =~= seq!['x', 'l', 's', 'x']);
            reveal_strlit("csv");
            assert("csv"@ =~= seq!['c', 's', 'v']);
            reveal_strlit("xls");
            assert("xls"@ =~= seq!['x', 'l', 's']);
            reveal_strlit("xlsm");
            assert("xlsm"@ =~= seq!['x', 'l', 's', 'm']);
        }
        if same_text(name, "xlsx") {
            Some(Extensions::Xlsx)
        } else if same_text(name, "csv") {
            Some(Extensions::Csv)
        } else if same_text(name, "xls") {
            Some(Extensions::Xls)
        } else if same_text(name, "xlsm") {
            Some(Extensions::Xlsm)
        } else {
            None
        }
    }

    /// The kind of file with extension `ext`, in any letter case.
    pub fn from_extension(ext: &str) -> (res: Option<Self>)
        ensures
            res == extension_named(unicode_lowercase(ext@)),
            all_ascii_letters(ext@) ==> res == extension_named(ascii_lowercase(ext@)),
    {
        let lower = to_lowercase(ext);
        Self::from_lowercase_name(lower.as_str())
    }
}

/// Whether `kinds` lists `kind`.
pub fn lists_extension(kinds: &Vec<Extensions>, kind: Extensions) -> (res: bool)
    ensures
        res == kinds@.contains(kind),
{
    let mut i: usize = 0;
    while i < kinds.len()
        invariant
            0 <= i <= kinds.len(),
            forall|j: int| 0 <= j < i ==> kinds@[j] != kind,
        decreases kinds.len() - i,
    {
        if kinds[i] == kind {
            assert(kinds@[i as int] == kind);
            return true;
        }
        i = i + 1;
    }
    false
}

/// The kind of file that a path names, by its extension in any letter case;
/// a path without extension is read as one with the empty extension.
pub open spec fn kind_of(path: Seq<char>) -> Option<Extensions> {
    let ext = match path_extension(path) {
        Some(e) => e,
        None => Seq::<char>::empty(),
    };
    extension_named(unicode_lowercase(ext))
}

/// Finds the files of a folder that are old enough to be archived.
#[derive(Debug)]
pub struct Processor<'a> {
    input: &'a UserInput,
    ext: Vec<Extensions>,
}

impl<'a> Processor<'a> {
    /// The inputs the files are judged by.
    pub closed spec fn input(self) -> UserInput {
        *self.input
    }

    /// The kinds of file that are archived.
    pub closed spec fn kinds(self) -> Seq<Extensions> {
        self.ext@
    }

    /// The path of the archive folder inside the folder being archived.
    pub open spec fn archive_path(self) -> Seq<char> {
        path_join(self.input().folder_path@, archive_folder_name())
    }

    /// The path names a kind of file that is archived: every kind that its
    /// extension can name is.
    pub open spec fn accepts_kind(self, path: Seq<char>) -> bool {
        kind_of(path) is Some
    }

    /// The kinds of file archived are all kinds there are.
    #[verifier::type_invariant]
    closed spec fn archives_every_kind(self) -> bool {
        self.ext@ == all_extensions()
    }

    /// The entry is a file of an archived kind last changed on the cut-off
    /// date or earlier.
    pub open spec fn selects(self, entry: EntryInfo) -> bool {
        &&& self.accepts_kind(entry.path@)
        &&& match entry.modified {
            Some(d) => d.spec_on_or_before(self.input().oldest_to_keep),
            None => false,
        }
    }

    /// The paths, in order, of the entries that are archived: those selected,
    /// but for the archive folder itself.
    pub open spec fn kept_paths(self, entries: Seq<EntryInfo>) -> Seq<Seq<char>>
        decreases entries.len(),
    {
        if entries.len() == 0 {
            Seq::empty()
        } else {
            let before = self.kept_paths(entries.drop_last());
            let e = entries.last();
            if self.selects(e) && !path_eq(e.path@, self.archive_path()) {
                before.push(e.path@)
            } else {
                before
            }
        }
    }

    /// Every path kept for archiving is the path of a selected entry that is
    /// not the archive folder, every such entry's path is kept, and no more
    /// paths are kept than there are entries.
    pub proof fn lemma_kept_paths(self, entries: Seq<EntryInfo>)
        ensures
            self.kept_paths(entries).len() <= entries.len(),
            forall|k: int|
                0 <= k < self.kept_paths(entries).len() ==> exists|i: int|
                    0 <= i < entries.len() && entries[i].path@ == #[trigger] self.kept_paths(
                        entries,
                    )[k] && self.selects(entries[i]) && !path_eq(
                        entries[i].path@,
                        self.archive_path(),
                    ),
            forall|i: int|
                0 <= i < entries.len() && self.selects(#[trigger] entries[i]) && !path_eq(
                    entries[i].path@,
                    self.archive_path(),
                ) ==> self.kept_paths(entries).contains(entries[i].path@),
        decreases entries.len(),
    {
        if entries.len() > 0 {
            let init = entries.drop_last();
            self.lemma_kept_paths(init);
            let before = self.kept_paths(init);
            let kept = self.kept_paths(entries);
            let n = entries.len() - 1;
            assert forall|k: int| 0 <= k < kept.len() implies exists|i: int|
                0 <= i < entries.len() && entries[i].path@ == #[trigger] kept[k] && self.selects(
                    entries[i],
                ) && !path_eq(entries[i].path@, self.archive_path()) by {
                if k < before.len() {
                    assert(kept[k] == before[k]);
                    let i = choose|i: int|
                        0 <= i < init.len() && init[i].path@ == #[trigger] before[k]
                            && self.selects(init[i]) && !path_eq(
                            init[i].path@,
                            self.archive_path(),
                        );
                    assert(entries[i] == init[i]);
                } else {
                    assert(kept[k] == entries[n].path@);
                }
            }
            assert forall|i: int|
                0 <= i < entries.len() && self.selects(#[trigger] entries[i]) && !path_eq(
                    entries[i].path@,
                    self.archive_path(),
                ) implies kept.contains(entries[i].path@) by {
                if i < n {
                    assert(entries[i] == init[i]);
                    assert(before.contains(init[i].path@));
                    let k = choose|k: int| 0 <= k < before.len() && before[k] == init[i].path@;
                    assert(kept[k] == before[k]);
                } else {
                    assert(kept[kept.len() - 1] == entries[i].path@);
                }
            }
        }
    }

    /// The test an entry passes to be archived: selected, and not the
    /// archive folder itself.
    pub open spec fn archives(self) -> spec_fn(EntryInfo) -> bool {
        |e: EntryInfo| self.selects(e) && !path_eq(e.path@, self.archive_path())
    }

    /// An entry is selected exactly when its extension names a kind of file
    /// and, on real calendar days, it was last changed on a day whose number
    /// is at most the cut-off's: on the cut-off day or before, to the day.
    pub proof fn lemma_selects_by_calendar(self, entry: EntryInfo)
        requires
            entry.modified matches Some(d) ==> d.wf(),
            self.input().oldest_to_keep.wf(),
        ensures
            self.selects(entry) <==> (kind_of(entry.path@) is Some && (entry.modified matches Some(
                d,
            ) && day_number(d) <= day_number(self.input().oldest_to_keep))),
    {
        match entry.modified {
            Some(d) => lemma_order_is_calendar_order(d, self.input().oldest_to_keep),
            None => {},
        }
    }

    /// The paths kept are those of the entries that pass the archiving test,
    /// each once and in order: as many paths as such entries.
    pub proof fn lemma_kept_paths_are_filtered(self, entries: Seq<EntryInfo>)
        ensures
            self.kept_paths(entries) == entries.filter(self.archives()).map_values(
                |e: EntryInfo| e.path@,
            ),
            self.kept_paths(entries).len() == entries.filter(self.archives()).len(),
        decreases entries.len(),
    {
        reveal_with_fuel(Seq::filter, 1);
        let f = |e: EntryInfo| e.path@;
        if entries.len() == 0 {
            assert(entries.filter(self.archives()).map_values(f) =~= Seq::<Seq<char>>::empty());
        } else {
            let init = entries.drop_last();
            self.lemma_kept_paths_are_filtered(init);
            let sub = init.filter(self.archives());
            if (self.archives())(entries.last()) {
                assert(sub.push(entries.last()).map_values(f) =~= sub.map_values(f).push(
                    entries.last().path@,
                ));
            }
        }
    }

    /// Where the entries' paths are all different, no path is kept twice.
    pub proof fn lemma_kept_paths_distinct(self, entries: Seq<EntryInfo>)
        requires
            forall|i: int, j: int|
                0 <= i < j < entries.len() ==> entries[i].path@ != entries[j].path@,
        ensures
            forall|k: int, l: int|
                0 <= k < l < self.kept_paths(entries).len() ==> self.kept_paths(entries)[k]
                    != self.kept_paths(entries)[l],
        decreases entries.len(),
    {
        if entries.len() > 0 {
            let init = entries.drop_last();
            let n = entries.len() - 1;
            self.lemma_kept_paths_distinct(init);
            self.lemma_kept_paths(init);
            let before = self.kept_paths(init);
            let kept = self.kept_paths(entries);
            assert forall|k: int, l: int| 0 <= k < l < kept.len() implies kept[k] != kept[l] by {
                if l == before.len() {
                    assert(kept[k] == before[k]);
                    let i = choose|i: int|
                        0 <= i < init.len() && init[i].path@ == #[trigger] before[k]
                            && self.selects(init[i]) && !path_eq(
                            init[i].path@,
                            self.archive_path(),
                        );
                    assert(entries[i] == init[i]);
                    assert(kept[l] == entries[n].path@);
                } else {
                    assert(kept[k] == before[k]);
                    assert(kept[l] == before[l]);
                }
            }
        }
    }

    /// A processor for `input` that archives every kind of file.
    pub fn new(input: &'a UserInput) -> (res: Self)
        ensures
            res.input() == *input,
            res.kinds() == all_extensions(),
    {
        let ext = Extensions::generate_set();
        Processor { input, ext }
    }

    /// Whether the date on which `path` was last changed is needed to judge
    /// it, that is whether it names a kind of file that is archived.
    pub fn needs_modified_date(&self, path: &str) -> (res: bool)
        ensures
            res == self.accepts_kind(path@),
    {
        let ext = match extension_of(path) {
            Some(e) => e,
            None => String::new(),
        };
        proof {
            use_type_invariant(self);
        }
        match Extensions::from_extension(ext.as_str()) {
            Some(kind) => {
                proof {
                    lemma_all_extensions_listed(kind);
                }
                lists_extension(&self.ext, kind)
            },
            None => false,
        }
    }

    /// Whether a file last changed on `modified` is old enough to be archived:
    /// on the cut-off date or earlier.
    pub fn is_recent(&self, modified: &Date) -> (res: bool)
        ensures
            res == modified.spec_on_or_before(self.input().oldest_to_keep),
    {
        modified.on_or_before(&self.input.oldest_to_keep)
    }

    /// The path of the entry, where it is to be archived.
    pub fn process_file(&self, entry: &EntryInfo) -> (res: Option<String>)
        ensures
            res is Some <==> self.selects(*entry),
            res matches Some(p) ==> p@ == entry.path@,
    {
        if !self.needs_modified_date(entry.path.as_str()) {
            return None;
        }
        let recent = match &entry.modified {
            Some(d) => self.is_recent(d),
            None => false,
        };
        if recent {
            Some(entry.path.clone())
        } else {
            None
        }
    }

    /// The paths to archive among `entries`, kept in order; refused where
    /// they are fewer than the minimum number of files.
    pub fn process_dir(&self, entries: &Vec<EntryInfo>) -> (res: Result<Vec<String>>)
        ensures
            self.kept_paths(entries@).len() >= self.input().required_min_files ==> (res matches Ok(
                files,
            ) && path_texts(files@) == self.kept_paths(entries@)),
            self.kept_paths(entries@).len() < self.input().required_min_files ==> (res matches Err(
                Error::NoFilesOutsideOfGivenBounds,
            )),
            res matches Ok(files) ==> files.len() >= self.input().required_min_files,
    {
        proof {
            reveal_strlit("_archive");
            assert(ARCHIVE_FOLDER_NAME@ =~= archive_folder_name());
        }
        let archive = join(self.input.folder_path.as_str(), ARCHIVE_FOLDER_NAME);
        let mut files: Vec<String> = Vec::new();
        let mut i: usize = 0;
        while i < entries.len()
            invariant
                0 <= i <= entries.len(),
                archive@ == self.archive_path(),
                path_texts(files@) == self.kept_paths(entries@.take(i as int)),
            decreases entries.len() - i,
        {
            proof {
                assert(entries@.take(i + 1).drop_last() =~= entries@.take(i as int));
            }
            let found = self.process_file(&entries[i]);
            match found {
                Some(path) => {
                    if !same_path(path.as_str(), archive.as_str()) {
                        files.push(path);
                    }
                },
                None => {},
            }
            proof {
                assert(path_texts(files@) =~= self.kept_paths(entries@.take(i + 1)));
            }
            i = i + 1;
        }
        assert(entries@.take(entries.len() as int) =~= entries@);
        if files.len() >= self.input.required_min_files {
            Ok(files)
        } else {
            Err(Error::NoFilesOutsideOfGivenBounds)
        }
    }

    /// The files of the folder to archive. Refused where the path is not a
    /// directory, where the directory cannot be read, where no file is to be
    /// archived, or where fewer than the minimum are.
    pub fn process(&self, scan: DirScan) -> (res: Result<Vec<String>>)
        ensures
            scan is NotADirectory ==> (res matches Err(Error::InvalidInput)),
            scan matches DirScan::Unreadable(e) ==> res == Err::<Vec<String>, Error>(e),
            scan matches DirScan::Entries(entries) ==> {
                let kept = self.kept_paths(entries@);
                &&& kept.len() < self.input().required_min_files ==> (res matches Err(
                    Error::NoFilesOutsideOfGivenBounds,
                ))
                &&& kept.len() >= self.input().required_min_files && kept.len() == 0 ==> (res matches Err(
                    Error::NoFilesFoundInGivenDir,
                ))
                &&& kept.len() >= self.input().required_min_files && kept.len() > 0 ==> (res matches Ok(
                    files,
                ) && path_texts(files@) == kept)
            },
            res matches Ok(files) ==> files.len() >= self.input().required_min_files && files.len() > 0,
    {
        match scan {
            DirScan::NotADirectory => Err(Error::InvalidInput),
            DirScan::Unreadable(e) => Err(e),
            DirScan::Entries(entries) => {
                match self.process_dir(&entries) {
                    Ok(files) => {
                        if files.len() == 0 {
                            Err(Error::NoFilesFoundInGivenDir)
                        } else {
                            Ok(files)
                        }
                    },
                    Err(e) => Err(e),
                }
            },
        }
    }
}

} // verus!
