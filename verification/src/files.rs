//! The files a lookup may consult: a snapshot of the paths that exist, with
//! the text of those that were read, and the names under which icons and
//! descriptors are looked for.

use vstd::prelude::*;
use vstd::string::StringExecFns;
use crate::text::{
    from_chars, index_of, lemma_index_of, rows, split, split_at_each, texts, to_chars,
};

verus! {

/// The name of the application; its private icon directory is named so.
pub const APP_NAME: &'static str = "aerome";

/// The name of the theme that ships with the application.
pub const FILE_MANAGER_THEME_NAME: &'static str = "AeromeFileManager";

/// The path of `name` below `base`. An absolute `name` stands for itself, and
/// no separator is added after an empty `base` or one that ends in one.
pub open spec fn joined(base: Seq<char>, name: Seq<char>) -> Seq<char> {
    if name.len() > 0 && name[0] == '/' {
        name
    } else if base.len() == 0 || base.last() == '/' {
        base + name
    } else {
        base + seq!['/'] + name
    }
}

/// The path of the icon `icon` with extension `ext` in directory `subdir` of
/// theme `theme` below `base`: `base/theme/subdir/icon.ext`.
pub open spec fn icon_path(
    base: Seq<char>,
    theme: Seq<char>,
    subdir: Seq<char>,
    icon: Seq<char>,
    ext: Seq<char>,
) -> Seq<char> {
    joined(joined(joined(base, theme), subdir), icon) + seq!['.'] + ext
}

/// The path of an icon outside any theme: `base/icon.ext`.
pub open spec fn plain_icon_path(base: Seq<char>, icon: Seq<char>, ext: Seq<char>) -> Seq<char> {
    joined(base, icon) + seq!['.'] + ext
}

/// The path of the descriptor of theme `name` below `base`:
/// `base/name/index.theme`.
pub open spec fn descriptor_path(base: Seq<char>, name: Seq<char>) -> Seq<char> {
    joined(joined(base, name), "index.theme"@)
}

/// Builds the path of `name` below `base`.
pub fn join(base: &str, name: &str) -> (path: String)
    ensures
        path@ == joined(base@, name@),
{
    proof {
        reveal_strlit("/");
    }
    let name_len = name.unicode_len();
    if name_len > 0 && name.get_char(0) == '/' {
        return String::from_str(name);
    }
    let base_len = base.unicode_len();
    let mut path = String::from_str(base);
    if !(base_len == 0 || base.get_char(base_len - 1) == '/') {
        path.append("/");
        assert("/"@ =~= seq!['/']);
    }
    path.append(name);
    path
}

/// Builds `base/theme/subdir/icon.ext`.
pub fn make_icon_path(base: &str, theme: &str, subdir: &str, icon: &str, ext: &str) -> (path:
    String)
    ensures
        path@ == icon_path(base@, theme@, subdir@, icon@, ext@),
{
    proof {
        reveal_strlit(".");
    }
    let in_theme = join(base, theme);
    let in_subdir = join(in_theme.as_str(), subdir);
    let mut path = join(in_subdir.as_str(), icon);
    path.append(".");
    assert("."@ =~= seq!['.']);
    path.append(ext);
    path
}

/// Builds `base/icon.ext`.
pub fn make_plain_icon_path(base: &str, icon: &str, ext: &str) -> (path: String)
    ensures
        path@ == plain_icon_path(base@, icon@, ext@),
{
    proof {
        reveal_strlit(".");
    }
    let mut path = join(base, icon);
    path.append(".");
    assert("."@ =~= seq!['.']);
    path.append(ext);
    path
}

/// Builds `base/name/index.theme`.
pub fn make_descriptor_path(base: &str, name: &str) -> (path: String)
    ensures
        path@ == descriptor_path(base@, name@),
{
    let in_theme = join(base, name);
    join(in_theme.as_str(), "index.theme")
}

/// One file of a snapshot: its path, and its text if it was read.
#[derive(Clone, Debug)]
pub struct FileEntry {
    pub path: String,
    pub text: Option<String>,
}

/// A snapshot of the file system. A path exists if some entry has it; its
/// text is that of the first entry that has it.
#[derive(Clone, Debug)]
pub struct Files {
    pub entries: Vec<FileEntry>,
}

/// The paths of a snapshot, in order.
pub open spec fn paths_of(files: Seq<(Seq<char>, Option<Seq<char>>)>) -> Seq<Seq<char>> {
    files.map_values(|e: (Seq<char>, Option<Seq<char>>)| e.0)
}

/// Whether `path` exists in the snapshot.
pub open spec fn present(files: Seq<(Seq<char>, Option<Seq<char>>)>, path: Seq<char>) -> bool {
    index_of(paths_of(files), path) < files.len()
}

/// The text of `path` in the snapshot: `None` if the path does not exist or
/// could not be read.
pub open spec fn content(files: Seq<(Seq<char>, Option<Seq<char>>)>, path: Seq<char>) -> Option<
    Seq<char>,
> {
    let k = index_of(paths_of(files), path) as int;
    if k < files.len() {
        files[k].1
    } else {
        None
    }
}

impl View for Files {
    type V = Seq<(Seq<char>, Option<Seq<char>>)>;

    open spec fn view(&self) -> Seq<(Seq<char>, Option<Seq<char>>)> {
        self.entries@.map_values(
            |e: FileEntry|
                (
                    e.path@,
                    match e.text {
                        Some(t) => Some(t@),
                        None => None,
                    },
                ),
        )
    }
}

impl Files {
    /// The snapshot in which nothing exists.
    pub fn new() -> (files: Files)
        ensures
            files@ == Seq::<(Seq<char>, Option<Seq<char>>)>::empty(),
    {
        let files = Files { entries: Vec::new() };
        assert(files@ =~= Seq::empty());
        files
    }

    /// Records that `path` exists, with `text` if it could be read. An entry
    /// recorded earlier for the same path keeps precedence.
    pub fn insert(&mut self, path: String, text: Option<String>)
        ensures
            final(self)@ == old(self)@.push(
                (
                    path@,
                    match text {
                        Some(t) => Some(t@),
                        None => None,
                    },
                ),
            ),
    {
        self.entries.push(FileEntry { path, text });
        assert(final(self)@ =~= old(self)@.push(
            (
                path@,
                match text {
                    Some(t) => Some(t@),
                    None => None,
                },
            ),
        ));
    }

    /// The position of the first entry for `path`, or the number of entries
    /// if there is none.
    pub fn locate(&self, path: &str) -> (k: usize)
        ensures
            k == index_of(paths_of(self@), path@),
            k <= self.entries.len(),
    {
        let mut k: usize = 0;
        while k < self.entries.len()
            invariant
                k <= self.entries.len(),
                forall|j: int| 0 <= j < k ==> paths_of(self@)[j] != path@,
            decreases self.entries.len() - k,
        {
            if self.entries[k].path.as_str().eq(path) {
                proof {
                    lemma_index_of(paths_of(self@), path@, k as int);
                }
                return k;
            }
            k += 1;
        }
        proof {
            lemma_index_of(paths_of(self@), path@, k as int);
        }
        k
    }

    /// Whether `path` exists.
    pub fn contains(&self, path: &str) -> (r: bool)
        ensures
            r == present(self@, path@),
    {
        self.locate(path) < self.entries.len()
    }

    /// The text of `path`, if the path exists and was read.
    pub fn read(&self, path: &str) -> (r: Option<&String>)
        ensures
            match r {
                Some(t) => content(self@, path@) == Some(t@),
                None => content(self@, path@) is None,
            },
    {
        let k = self.locate(path);
        if k < self.entries.len() {
            self.entries[k].text.as_ref()
        } else {
            None
        }
    }
}

/// The directories below which themes and icons are looked for, in priority
/// order: the personal directory `home/.icons`, `dir/icons` for each entry of
/// the colon-separated data-directory path, the system pixmap directory, and
/// the application's own directory below `local`.
pub open spec fn base_directories(
    home: Option<Seq<char>>,
    data_dirs: Option<Seq<char>>,
    local: Option<Seq<char>>,
) -> Seq<Seq<char>> {
    let personal = match home {
        Some(h) => seq![joined(h, ".icons"@)],
        None => Seq::empty(),
    };
    let shared = match data_dirs {
        Some(d) => split(d, ':').map_values(|dir: Seq<char>| joined(dir, "icons"@)),
        None => Seq::empty(),
    };
    let private = match local {
        Some(l) => seq![joined(l, APP_NAME@)],
        None => Seq::empty(),
    };
    personal + shared + seq!["/usr/share/pixmaps"@] + private
}

/// The view of an optional string slice.
pub open spec fn opt_view(s: Option<&str>) -> Option<Seq<char>> {
    match s {
        Some(t) => Some(t@),
        None => None,
    }
}

/// Lists the base directories in priority order, from the user's home
/// directory, the data-directory search path and the user's local data
/// directory, each as far as it is known.
pub fn get_basename_list(home: Option<&str>, data_dirs: Option<&str>, local: Option<&str>) -> (bases:
    Vec<String>)
    ensures
        texts(bases@) == base_directories(opt_view(home), opt_view(data_dirs), opt_view(local)),
{
    let mut bases: Vec<String> = Vec::new();
    if let Some(h) = home {
        bases.push(join(h, ".icons"));
    }
    let ghost personal = texts(bases@);
    let ghost shared = match data_dirs {
        Some(d) => split(d@, ':').map_values(|dir: Seq<char>| joined(dir, "icons"@)),
        None => Seq::empty(),
    };
    if let Some(d) = data_dirs {
        let chars = to_chars(d);
        let pieces = split_at_each(&chars, 0, ':');
        assert(chars@.skip(0) =~= d@);
        assert(texts(bases@) =~= personal + shared.take(0));
        let mut i: usize = 0;
        while i < pieces.len()
            invariant
                i <= pieces.len(),
                rows(pieces@) == split(d@, ':'),
                shared == split(d@, ':').map_values(|dir: Seq<char>| joined(dir, "icons"@)),
                texts(bases@) == personal + shared.take(i as int),
            decreases pieces.len() - i,
        {
            let dir = from_chars(&pieces[i], 0, pieces[i].len());
            let base = join(dir.as_str(), "icons");
            proof {
                assert(pieces@[i as int]@.subrange(0, pieces@[i as int]@.len() as int)
                    =~= pieces@[i as int]@);
                assert(rows(pieces@)[i as int] == pieces@[i as int]@);
                assert(shared[i as int] == base@);
                assert(texts(bases@.push(base)) =~= texts(bases@).push(base@));
                assert(shared.take(i + 1) =~= shared.take(i as int).push(shared[i as int]));
                assert(personal + shared.take(i as int).push(base@) =~= (personal + shared.take(
                    i as int,
                )).push(base@));
            }
            bases.push(base);
            i += 1;
        }
        assert(shared.take(i as int) =~= shared);
    } else {
        assert(texts(bases@) =~= personal + shared);
    }
    let pixmaps = String::from_str("/usr/share/pixmaps");
    assert(texts(bases@.push(pixmaps)) =~= personal + shared + seq!["/usr/share/pixmaps"@]);
    bases.push(pixmaps);
    if let Some(l) = local {
        let private = join(l, APP_NAME);
        assert(texts(bases@.push(private)) =~= personal + shared + seq!["/usr/share/pixmaps"@]
            + seq![private@]);
        bases.push(private);
    } else {
        assert(texts(bases@) =~= personal + shared + seq!["/usr/share/pixmaps"@] + Seq::<
            Seq<char>,
        >::empty());
    }
    bases
}

} // verus!
