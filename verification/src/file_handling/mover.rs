use super::{archive_folder_name, path_texts};
use crate::parser::UserInput;
use crate::paths::{file_name_of, join, path_file_name, path_join};
use crate::prelude::{Error, Result, ARCHIVE_FOLDER_NAME};
use vstd::prelude::*;

verus! {

/// How moving one file into the archive ended.
#[derive(Debug)]
pub enum MoveOutcome {
    /// The file now stands in the archive and no longer in the folder.
    Moved,
    /// The file was copied, but removing the original failed with this message.
    RemoveFailed(String),
    /// The file could not be copied, or its copy was not the file.
    Failed(Error),
}

/// The step that follows copying a file into the archive.
#[derive(Debug)]
pub enum CopyStep {
    /// The copy matches: remove the original.
    RemoveOriginal,
    /// The move ends here, with this outcome.
    Finished(MoveOutcome),
}

/// The number of files among `outcomes` that were moved.
pub open spec fn moved_count(outcomes: Seq<MoveOutcome>) -> nat
    decreases outcomes.len(),
{
    if outcomes.len() == 0 {
        0
    } else {
        moved_count(outcomes.drop_last()) + if outcomes.last() is Moved { 1nat } else { 0nat }
    }
}

/// The number of files moved is at most the number of files.
pub proof fn lemma_moved_count_bounded(outcomes: Seq<MoveOutcome>)
    ensures
        moved_count(outcomes) <= outcomes.len(),
    decreases outcomes.len(),
{
    if outcomes.len() > 0 {
        lemma_moved_count_bounded(outcomes.drop_last());
    }
}

/// The number of files moved is the number of times `Moved` occurs among
/// the outcomes, whatever their order.
pub proof fn lemma_moved_count_is_multiplicity(outcomes: Seq<MoveOutcome>)
    ensures
        moved_count(outcomes) == outcomes.to_multiset().count(MoveOutcome::Moved),
    decreases outcomes.len(),
{
    broadcast use vstd::seq_lib::group_to_multiset_ensures;
    broadcast use vstd::multiset::group_multiset_axioms;

    if outcomes.len() == 0 {
        assert(outcomes.to_multiset() =~= vstd::multiset::Multiset::empty());
    } else {
        let init = outcomes.drop_last();
        lemma_moved_count_is_multiplicity(init);
        assert(init.push(outcomes.last()) =~= outcomes);
    }
}

/// The verdict on a move does not depend on the order in which the files'
/// outcomes come: outcomes that are a reordering of one another count as
/// many moved files, so every verdict function gives the same variant on them.
pub proof fn lemma_moved_count_ignores_order(a: Seq<MoveOutcome>, b: Seq<MoveOutcome>)
    requires
        a.to_multiset() == b.to_multiset(),
    ensures
        moved_count(a) == moved_count(b),
{
    lemma_moved_count_is_multiplicity(a);
    lemma_moved_count_is_multiplicity(b);
}

/// The number of files that a list of `len` files is cut into chunks of for
/// parallel moving: a sixth of them, and at least one.
pub open spec fn spec_chunk_size(len: int) -> int {
    if len / 6 >= 1 {
        len / 6
    } else {
        1
    }
}

/// Every path has a file name, the two lists are as long, and the file names
/// agree position by position.
pub open spec fn copies_match(originals: Seq<Seq<char>>, archived: Seq<Seq<char>>) -> bool {
    &&& originals.len() == archived.len()
    &&& forall|i: int| 0 <= i < originals.len() ==> path_file_name(#[trigger] originals[i]) is Some
    &&& forall|i: int| 0 <= i < archived.len() ==> path_file_name(#[trigger] archived[i]) is Some
    &&& forall|i: int|
        0 <= i < originals.len() ==> path_file_name(#[trigger] originals[i]) == path_file_name(
            archived[i],
        )
}

/// Moves the files that the pre-processor found into the archive folder.
#[derive(Clone, Debug)]
pub struct Mover<'a> {
    input: &'a UserInput,
}

impl<'a> Mover<'a> {
    /// The inputs the move is judged by.
    pub closed spec fn input(self) -> UserInput {
        *self.input
    }

    /// A mover for `input`.
    pub fn new(input: &'a UserInput) -> (res: Self)
        ensures
            res.input() == *input,
    {
        Mover { input }
    }

    /// The archive folder: the folder being archived joined with `_archive`.
    pub fn archive_dir(&self) -> (res: String)
        ensures
            res@ == path_join(self.input().folder_path@, archive_folder_name()),
    {
        proof {
            reveal_strlit("_archive");
            assert(ARCHIVE_FOLDER_NAME@ =~= archive_folder_name());
        }
        join(self.input.folder_path.as_str(), ARCHIVE_FOLDER_NAME)
    }

    /// The number of files per chunk when `len` files are moved in parallel.
    pub fn chunk_size(len: usize) -> (res: usize)
        ensures
            res == spec_chunk_size(len as int),
            res >= 1,
    {
        let sixth = len / 6;
        if sixth >= 1 {
            sixth
        } else {
            1
        }
    }

    /// Where `file` goes in the archive folder `archive`: the archive folder
    /// joined with the file's name; `None` where the path has no file name.
    pub fn destination(archive: &str, file: &str) -> (res: Option<String>)
        ensures
            res is Some <==> path_file_name(file@) is Some,
            res matches Some(d) ==> d@ == path_join(archive@, path_file_name(file@).unwrap()),
    {
        match file_name_of(file) {
            Some(name) => Some(join(archive, name.as_str())),
            None => None,
        }
    }

    /// The file names of `paths`, where every path has one.
    fn file_names(paths: &Vec<String>) -> (res: Option<Vec<String>>)
        ensures
            res is Some <==> forall|i: int|
                0 <= i < paths@.len() ==> path_file_name(#[trigger] paths@[i]@) is Some,
            res matches Some(names) ==> names@.len() == paths@.len() && forall|i: int|
                0 <= i < paths@.len() ==> path_file_name(#[trigger] paths@[i]@) == Some(
                    names@[i]@,
                ),
    {
        let mut names: Vec<String> = Vec::new();
        let mut i: usize = 0;
        while i < paths.len()
            invariant
                0 <= i <= paths.len(),
                names@.len() == i,
                forall|j: int|
                    0 <= j < i ==> path_file_name(#[trigger] paths@[j]@) == Some(names@[j]@),
            decreases paths.len() - i,
        {
            match file_name_of(paths[i].as_str()) {
                Some(name) => names.push(name),
                None => {
                    return None;
                },
            }
            i = i + 1;
        }
        Some(names)
    }

    /// The number of positions below `len` at which the two lists of names agree.
    fn count_matches(a: &Vec<String>, b: &Vec<String>, len: usize) -> (res: usize)
        requires
            len <= a.len(),
            len <= b.len(),
        ensures
            res <= len,
            res == len <==> forall|i: int| 0 <= i < len ==> a@[i]@ == b@[i]@,
    {
        let mut count: usize = 0;
        let mut i: usize = 0;
        while i < len
            invariant
                len <= a.len(),
                len <= b.len(),
                0 <= i <= len,
                count <= i,
                count == i <==> forall|j: int| 0 <= j < i ==> a@[j]@ == b@[j]@,
            decreases len - i,
        {
            if a[i] == b[i] {
                count = count + 1;
            }
            i = i + 1;
        }
        count
    }

    /// Checks that each archived copy bears the name of its original: it
    /// passes exactly where every path has a file name, the two lists are as
    /// long, and the names agree position by position; otherwise the copies
    /// do not match.
    pub fn check_files(files_original: &Vec<String>, files_archive: &Vec<String>) -> (res: Result<()>)
        ensures
            res is Ok <==> copies_match(path_texts(files_original@), path_texts(files_archive@)),
            res is Err ==> (res matches Err(Error::CopiedFilesDontMatch)),
    {
        let ghost o = path_texts(files_original@);
        let ghost a = path_texts(files_archive@);
        let original_names = Self::file_names(files_original);
        let archive_names = Self::file_names(files_archive);
        match (original_names, archive_names) {
            (Some(original_names), Some(archive_names)) => {
                let len = if original_names.len() < archive_names.len() {
                    original_names.len()
                } else {
                    archive_names.len()
                };
                let success_count = Self::count_matches(&original_names, &archive_names, len);
                if original_names.len() == archive_names.len() && success_count == len {
                    assert forall|i: int| 0 <= i < o.len() implies path_file_name(#[trigger] o[i]) is Some
                        && path_file_name(o[i]) == path_file_name(a[i]) by {
                        assert(o[i] == files_original@[i]@);
                        assert(a[i] == files_archive@[i]@);
                    }
                    assert forall|i: int| 0 <= i < a.len() implies path_file_name(#[trigger] a[i]) is Some by {
                        assert(a[i] == files_archive@[i]@);
                    }
                    Ok(())
                } else {
                    proof {
                        if original_names.len() == archive_names.len() {
                            let k = choose|k: int| 0 <= k < len && original_names@[k]@ != archive_names@[k]@;
                            assert(o[k] == files_original@[k]@);
                            assert(a[k] == files_archive@[k]@);
                        }
                    }
                    Err(Error::CopiedFilesDontMatch)
                }
            },
            (None, _) => {
                proof {
                    let k = choose|k: int| 0 <= k < files_original@.len() && path_file_name(files_original@[k]@) is None;
                    assert(o[k] == files_original@[k]@);
                }
                Err(Error::CopiedFilesDontMatch)
            },
            (_, None) => {
                proof {
                    let k = choose|k: int| 0 <= k < files_archive@.len() && path_file_name(files_archive@[k]@) is None;
                    assert(a[k] == files_archive@[k]@);
                }
                Err(Error::CopiedFilesDontMatch)
            },
        }
    }

    /// What follows copying `file` to `destination`: where the copy failed,
    /// the move ends with that error; where the copy does not bear the
    /// original's name, it ends as a mismatch; otherwise the original is to
    /// be removed.
    pub fn after_copy(copied: Result<()>, file: &str, destination: &str) -> (res: CopyStep)
        ensures
            copied matches Err(e) ==> res == CopyStep::Finished(MoveOutcome::Failed(e)),
            copied is Ok && copies_match(seq![file@], seq![destination@]) ==> res is RemoveOriginal,
            copied is Ok && !copies_match(seq![file@], seq![destination@]) ==> (res matches CopyStep::Finished(
                MoveOutcome::Failed(Error::CopiedFilesDontMatch),
            )),
    {
        match copied {
            Err(e) => CopyStep::Finished(MoveOutcome::Failed(e)),
            Ok(()) => {
                let originals = vec![String::from_str(file)];
                let copies = vec![String::from_str(destination)];
                assert(path_texts(originals@) =~= seq![file@]);
                assert(path_texts(copies@) =~= seq![destination@]);
                match Self::check_files(&originals, &copies) {
                    Ok(()) => CopyStep::RemoveOriginal,
                    Err(e) => CopyStep::Finished(MoveOutcome::Failed(e)),
                }
            },
        }
    }

    /// How a move ends once the original was to be removed: moved where the
    /// removal succeeded, otherwise with the removal's message.
    pub fn after_remove(removed: std::result::Result<(), String>) -> (res: MoveOutcome)
        ensures
            removed is Ok ==> res is Moved,
            removed matches Err(m) ==> res == MoveOutcome::RemoveFailed(m),
    {
        match removed {
            Ok(()) => MoveOutcome::Moved,
            Err(m) => MoveOutcome::RemoveFailed(m),
        }
    }

    /// The number of files among `outcomes` that were moved.
    pub fn count_moved(outcomes: &Vec<MoveOutcome>) -> (res: usize)
        ensures
            res == moved_count(outcomes@),
    {
        let mut count: usize = 0;
        let mut i: usize = 0;
        while i < outcomes.len()
            invariant
                0 <= i <= outcomes.len(),
                count == moved_count(outcomes@.take(i as int)),
            decreases outcomes.len() - i,
        {
            proof {
                assert(outcomes@.take(i + 1).drop_last() =~= outcomes@.take(i as int));
                lemma_moved_count_bounded(outcomes@.take(i as int));
            }
            match &outcomes[i] {
                MoveOutcome::Moved => {
                    count = count + 1;
                },
                _ => {},
            }
            i = i + 1;
        }
        assert(outcomes@.take(outcomes.len() as int) =~= outcomes@);
        count
    }

    /// The verdict on a move: it succeeds where at least the minimum number
    /// of files was moved.
    fn verdict(&self, outcomes: &Vec<MoveOutcome>) -> (res: Result<()>)
        ensures
            res is Ok <==> moved_count(outcomes@) >= self.input().required_min_files,
            res is Err ==> (res matches Err(Error::InvalidInput)),
    {
        let success_count = Self::count_moved(outcomes);
        if success_count >= self.input.required_min_files {
            Ok(())
        } else {
            Err(Error::InvalidInput)
        }
    }

    /// The verdict on moving by copying each file into the archive, checking
    /// the copy and removing the original, from how each file's move ended.
    pub fn par_move_files_copy(&self, outcomes: &Vec<MoveOutcome>) -> (res: Result<()>)
        ensures
            res is Ok <==> moved_count(outcomes@) >= self.input().required_min_files,
            res is Err ==> (res matches Err(Error::InvalidInput)),
    {
        self.verdict(outcomes)
    }

    /// The verdict on moving by renaming each file into the archive, chunk
    /// by chunk in parallel, from how each file's move ended.
    pub fn par_move_files(&self, outcomes: &Vec<MoveOutcome>) -> (res: Result<()>)
        ensures
            res is Ok <==> moved_count(outcomes@) >= self.input().required_min_files,
            res is Err ==> (res matches Err(Error::InvalidInput)),
    {
        self.verdict(outcomes)
    }

    /// The verdict on moving by renaming each file into the archive with a
    /// bounded number of concurrent tasks, from how each file's move ended.
    pub fn chunked_move_files(&self, outcomes: &Vec<MoveOutcome>) -> (res: Result<()>)
        ensures
            res is Ok <==> moved_count(outcomes@) >= self.input().required_min_files,
            res is Err ==> (res matches Err(Error::InvalidInput)),
    {
        self.verdict(outcomes)
    }
}

/// The number of moves that `chunked_move_files` lets run at once.
pub const MAX_CONCURRENT_TASKS: usize = 50;

} // verus!
