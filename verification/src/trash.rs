//! The trash: where trashed files and their records are kept, and what is
//! to be done to restore or to clear them.

use vstd::prelude::*;
use vstd::string::StringExecFns;
use crate::descriptor::{lines_of, read_lines};
use crate::files::{content, join, joined, Files};
use crate::text::{
    decimal, from_chars, has_prefix, index_of, lemma_index_of, push_decimal, replace_each,
    replaced, rows, split, split_at_each, strip_prefix, to_chars,
};

verus! {

/// The trash.
#[derive(Clone, Copy, Debug)]
pub struct Trash {}

/// Where a trashed file is kept, and where its record is.
#[derive(Debug)]
pub struct TrashEntry {
    pub file: String,
    pub info: String,
}

/// One step of a restore: the file at `from` goes back to `to`, and the
/// record at `info` is removed.
#[derive(Debug)]
pub struct RestoreStep {
    pub from: String,
    pub to: String,
    pub info: String,
}

/// What a clearing of the trash removes.
#[derive(Debug)]
pub enum ClearPlan {
    /// The listed files and their records.
    Entries(Vec<TrashEntry>),
    /// All that is in the two directories, which are then made anew.
    Everything { files: String, info: String },
}

/// The directory in which trashed files are kept: `data_dir/Trash/files`.
pub open spec fn trash_files_dir(data_dir: Seq<char>) -> Seq<char> {
    joined(joined(data_dir, "Trash"@), "files"@)
}

/// The directory in which the records are kept: `data_dir/Trash/info`.
pub open spec fn trash_info_dir(data_dir: Seq<char>) -> Seq<char> {
    joined(joined(data_dir, "Trash"@), "info"@)
}

/// Where the trashed file `name` is kept.
pub open spec fn trashed_file(data_dir: Seq<char>, name: Seq<char>) -> Seq<char> {
    joined(trash_files_dir(data_dir), name)
}

/// Where the record of the trashed file `name` is kept.
pub open spec fn trashed_info(data_dir: Seq<char>, name: Seq<char>) -> Seq<char> {
    joined(trash_info_dir(data_dir), name + ".trashinfo"@)
}

/// The first of the lines that begins with `Path=`.
pub open spec fn path_line(lines: Seq<Seq<char>>) -> Option<Seq<char>>
    decreases lines.len(),
{
    if lines.len() == 0 {
        None
    } else if has_prefix(lines[0], "Path="@) {
        Some(lines[0])
    } else {
        path_line(lines.drop_first())
    }
}

/// The path that a record says its file came from: in the first line that
/// begins with `Path=`, what follows the last `=`.
pub open spec fn restore_target(record: Seq<char>) -> Option<Seq<char>> {
    match path_line(lines_of(record)) {
        Some(line) => Some(split(line, '=').last()),
        None => None,
    }
}

/// The step that restores the trashed file `name`, if its record can be
/// read and names a path.
pub open spec fn restore_step(
    data_dir: Seq<char>,
    name: Seq<char>,
    files: Seq<(Seq<char>, Option<Seq<char>>)>,
) -> Option<(Seq<char>, Seq<char>, Seq<char>)> {
    match content(files, trashed_info(data_dir, name)) {
        Some(record) => match restore_target(record) {
            Some(to) => Some((trashed_file(data_dir, name), to, trashed_info(data_dir, name))),
            None => None,
        },
        None => None,
    }
}

/// The content of a restore step.
pub open spec fn step_view(s: RestoreStep) -> (Seq<char>, Seq<char>, Seq<char>) {
    (s.from@, s.to@, s.info@)
}

/// The directories of the trash below the user's data directory: that of
/// the files, then that of the records.
pub fn get_trash_dirs(data_dir: &str) -> (dirs: (String, String))
    ensures
        dirs.0@ == trash_files_dir(data_dir@),
        dirs.1@ == trash_info_dir(data_dir@),
{
    let base = join(data_dir, "Trash");
    (join(base.as_str(), "files"), join(base.as_str(), "info"))
}

/// Builds the place of the trashed file `name` and of its record.
pub fn trash_entry(data_dir: &str, name: &str) -> (entry: TrashEntry)
    ensures
        entry.file@ == trashed_file(data_dir@, name@),
        entry.info@ == trashed_info(data_dir@, name@),
{
    let (files_dir, info_dir) = get_trash_dirs(data_dir);
    let mut record = String::from_str(name);
    record.append(".trashinfo");
    TrashEntry {
        file: join(files_dir.as_str(), name),
        info: join(info_dir.as_str(), record.as_str()),
    }
}

/// Reads from a record the path its file came from.
pub fn read_restore_target(record: &str) -> (r: Option<String>)
    ensures
        r is Some <==> restore_target(record@) is Some,
        r is Some ==> r->0@ == restore_target(record@)->0,
{
    let chars = to_chars(record);
    let lines = read_lines(&chars);
    let mut i: usize = 0;
    assert(rows(lines@).skip(0) =~= rows(lines@));
    while i < lines.len()
        invariant
            i <= lines.len(),
            rows(lines@) == lines_of(record@),
            path_line(rows(lines@)) == path_line(rows(lines@).skip(i as int)),
        decreases lines.len() - i,
    {
        let line = &lines[i];
        proof {
            let rest = rows(lines@).skip(i as int);
            assert(rest[0] == line@);
            assert(rest.drop_first() =~= rows(lines@).skip(i + 1));
        }
        if strip_prefix(line, "Path=").is_some() {
            let pieces = split_at_each(line, 0, '=');
            assert(line@.skip(0) =~= line@);
            assert(pieces.len() > 0) by {
                assert(rows(pieces@).len() == pieces@.len());
            }
            let last = &pieces[pieces.len() - 1];
            assert(rows(pieces@).last() == last@);
            assert(last@.subrange(0, last@.len() as int) =~= last@);
            return Some(from_chars(last, 0, last.len()));
        }
        i += 1;
    }
    None
}

impl Trash {
    /// The trash.
    pub fn new() -> Trash {
        Trash {  }
    }

    /// Whether each of the trashed files `paths` can be restored: its
    /// record can be read and names the path the file came from.
    pub fn can_restore(&self, paths: &[String], data_dir: &str, files: &Files) -> (r: bool)
        ensures
            r == forall|i: int|
                0 <= i < paths@.len() ==> restore_step(data_dir@, #[trigger] paths@[i]@, files@)
                    is Some,
    {
        let mut i: usize = 0;
        while i < paths.len()
            invariant
                i <= paths.len(),
                forall|j: int|
                    0 <= j < i ==> restore_step(data_dir@, #[trigger] paths@[j]@, files@) is Some,
            decreases paths.len() - i,
        {
            let entry = trash_entry(data_dir, paths[i].as_str());
            let target = match files.read(entry.info.as_str()) {
                Some(record) => read_restore_target(record.as_str()),
                None => None,
            };
            if target.is_none() {
                assert(restore_step(data_dir@, paths@[i as int]@, files@) is None);
                return false;
            }
            i += 1;
        }
        true
    }

    /// Plans the restoring of the trashed files `paths`: one step for each,
    /// in order, that moves the file back to where its record says it came
    /// from and removes the record.
    pub fn restore(&self, paths: &[String], data_dir: &str, files: &Files) -> (plan: Vec<
        RestoreStep,
    >)
        requires
            forall|i: int|
                0 <= i < paths@.len() ==> restore_step(data_dir@, #[trigger] paths@[i]@, files@)
                    is Some,
        ensures
            plan@.len() == paths@.len(),
            forall|i: int|
                0 <= i < paths@.len() ==> Some(step_view(#[trigger] plan@[i])) == restore_step(
                    data_dir@,
                    paths@[i]@,
                    files@,
                ),
    {
        let mut plan: Vec<RestoreStep> = Vec::new();
        let mut i: usize = 0;
        while i < paths.len()
            invariant
                i <= paths.len(),
                plan@.len() == i,
                forall|j: int|
                    0 <= j < paths@.len() ==> restore_step(
                        data_dir@,
                        #[trigger] paths@[j]@,
                        files@,
                    ) is Some,
                forall|j: int|
                    0 <= j < i ==> Some(step_view(#[trigger] plan@[j])) == restore_step(
                        data_dir@,
                        paths@[j]@,
                        files@,
                    ),
            decreases paths.len() - i,
        {
            let entry = trash_entry(data_dir, paths[i].as_str());
            assert(restore_step(data_dir@, paths@[i as int]@, files@) is Some);
            let record = files.read(entry.info.as_str()).unwrap();
            let to = read_restore_target(record.as_str()).unwrap();
            plan.push(RestoreStep { from: entry.file, to, info: entry.info });
            i += 1;
        }
        plan
    }

    /// Plans the clearing of the trash: of the trashed files `paths` and
    /// their records, or of everything if no files are given.
    pub fn clear(&self, paths: Option<&[String]>, data_dir: &str) -> (plan: ClearPlan)
        ensures
            match paths {
                Some(names) => {
                    &&& plan is Entries
                    &&& plan->Entries_0@.len() == names@.len()
                    &&& forall|i: int|
                        0 <= i < names@.len() ==> {
                            &&& (#[trigger] plan->Entries_0@[i]).file@ == trashed_file(
                                data_dir@,
                                names@[i]@,
                            )
                            &&& plan->Entries_0@[i].info@ == trashed_info(data_dir@, names@[i]@)
                        }
                },
                None => {
                    &&& plan is Everything
                    &&& plan->files@ == trash_files_dir(data_dir@)
                    &&& plan->info@ == trash_info_dir(data_dir@)
                },
            },
    {
        match paths {
            Some(names) => {
                let mut entries: Vec<TrashEntry> = Vec::new();
                let mut i: usize = 0;
                while i < names.len()
                    invariant
                        i <= names.len(),
                        entries@.len() == i,
                        forall|j: int|
                            0 <= j < i ==> {
                                &&& (#[trigger] entries@[j]).file@ == trashed_file(
                                    data_dir@,
                                    names@[j]@,
                                )
                                &&& entries@[j].info@ == trashed_info(data_dir@, names@[j]@)
                            },
                    decreases names.len() - i,
                {
                    entries.push(trash_entry(data_dir, names[i].as_str()));
                    i += 1;
                }
                ClearPlan::Entries(entries)
            },
            None => {
                let (files, info) = get_trash_dirs(data_dir);
                ClearPlan::Everything { files, info }
            },
        }
    }
}

/// The name under which the file `name` is trashed at the given attempt: its
/// own at the first; at a later one the number of the attempt is put in,
/// after the part before the first dot, or at the end if there is no dot.
pub open spec fn trash_name(name: Seq<char>, attempt: nat) -> Seq<char> {
    let dot = index_of(name, '.') as int;
    if attempt == 0 {
        name
    } else if dot < name.len() {
        name.take(dot) + seq!['.'] + decimal(attempt) + seq!['.'] + name.skip(dot + 1)
    } else {
        name + seq!['.'] + decimal(attempt)
    }
}

/// Builds the name under which a file is trashed at the given attempt.
pub fn make_trash_name(name: &str, attempt: u64) -> (r: String)
    ensures
        r@ == trash_name(name@, attempt as nat),
{
    if attempt == 0 {
        return String::from_str(name);
    }
    let chars = to_chars(name);
    let mut dot: usize = 0;
    while dot < chars.len() && chars[dot] != '.'
        invariant
            dot <= chars.len(),
            forall|j: int| 0 <= j < dot ==> chars@[j] != '.',
        decreases chars.len() - dot,
    {
        dot += 1;
    }
    proof {
        lemma_index_of(chars@, '.', dot as int);
    }
    let mut r = from_chars(&chars, 0, dot);
    assert(chars@.subrange(0, dot as int) =~= name@.take(dot as int));
    r.push('.');
    push_decimal(&mut r, attempt);
    if dot < chars.len() {
        r.push('.');
        let rest = from_chars(&chars, dot + 1, chars.len());
        assert(chars@.subrange(dot + 1, chars.len() as int) =~= name@.skip(dot + 1));
        r.append(rest.as_str());
        assert(r@ =~= trash_name(name@, attempt as nat));
    } else {
        assert(name@.take(dot as int) =~= name@);
        assert(r@ =~= trash_name(name@, attempt as nat));
    }
    r
}

/// The form of a record: `$PATH` stands for where the file came from,
/// `$DATE` for when it was trashed.
pub const TRASH_META_TEMPLATE: &'static str = "[Trash Info]\nPath=$PATH\nDeletionDate=$DATE";

/// The record of a file trashed from `path` at `date`: the form with the
/// path filled in, and then the date.
pub open spec fn trash_record(path: Seq<char>, date: Seq<char>) -> Seq<char> {
    replaced(replaced(TRASH_META_TEMPLATE@, "$PATH"@, path), "$DATE"@, date)
}

/// Writes the record of a file trashed from `path` at `date`.
pub fn make_trash_record(path: &str, date: &str) -> (record: String)
    ensures
        record@ == trash_record(path@, date@),
{
    let with_path = replace_each(TRASH_META_TEMPLATE, "$PATH", path);
    replace_each(with_path.as_str(), "$DATE", date)
}

} // verus!
