//! Themes: a named set of directories with their sizing policies and the
//! themes inherited from.

use vstd::prelude::*;
use vstd::string::StringExecFns;
use crate::descriptor::{parse, parse_text, sizing_view, DirectorySizing};
use crate::files::{content, descriptor_path, make_descriptor_path, paths_of, present, Files};
use crate::sizing::SizingPolicy;
use crate::text::{copy_strings, index_of, lemma_index_of_is_first, texts};

verus! {

/// A loaded theme. The themes it inherits from are owned by it, each loaded
/// in full.
#[derive(Debug)]
pub struct Theme {
    pub name: String,
    pub directories: Vec<String>,
    pub inherits: Vec<Theme>,
    pub sizing: Vec<DirectorySizing>,
}

/// The mathematical content of a [`Theme`].
pub ghost struct ThemeView {
    pub name: Seq<char>,
    pub directories: Seq<Seq<char>>,
    pub inherits: Seq<ThemeView>,
    pub sizing: Seq<(Seq<char>, SizingPolicy)>,
}

/// The content of a theme: its own fields, and the contents of its parents.
pub open spec fn theme_view(theme: Theme) -> ThemeView
    decreases theme,
{
    ThemeView {
        name: theme.name@,
        directories: texts(theme.directories@),
        inherits: Seq::new(
            theme.inherits.len() as nat,
            |i: int|
                if 0 <= i < theme.inherits.len() {
                    theme_view(theme.inherits[i])
                } else {
                    arbitrary()
                },
        ),
        sizing: sizing_view(theme.sizing@),
    }
}

impl View for Theme {
    type V = ThemeView;

    open spec fn view(&self) -> ThemeView {
        theme_view(*self)
    }
}

/// The views of a sequence of themes.
pub open spec fn theme_views(v: Seq<Theme>) -> Seq<ThemeView> {
    Seq::new(v.len(), |i: int| v[i]@)
}

/// The parents in the view of a theme are the views of its parents.
pub proof fn lemma_theme_view(theme: Theme)
    ensures
        theme@.name == theme.name@,
        theme@.directories == texts(theme.directories@),
        theme@.inherits == theme_views(theme.inherits@),
        theme@.sizing == sizing_view(theme.sizing@),
{
    assert(theme@.inherits.len() == theme.inherits@.len());
    assert forall|i: int| 0 <= i < theme.inherits@.len() implies theme@.inherits[i]
        == theme_views(theme.inherits@)[i] by {
        assert(theme.inherits[i] == theme.inherits@[i]);
    }
    assert(theme@.inherits =~= theme_views(theme.inherits@));
}

/// The policy that a sizing table declares for `subdir`: that of the last
/// declaration of it, `None` if it is not declared.
pub open spec fn policy_of(sizing: Seq<(Seq<char>, SizingPolicy)>, subdir: Seq<char>) -> Option<
    SizingPolicy,
>
    decreases sizing.len(),
{
    if sizing.len() == 0 {
        None
    } else if sizing.last().0 == subdir {
        Some(sizing.last().1)
    } else {
        policy_of(sizing.drop_last(), subdir)
    }
}

/// Whether directory `subdir` of the theme matches a request. A directory
/// without a declared policy matches nothing.
pub open spec fn matches_size(theme: ThemeView, subdir: Seq<char>, size: int, scale: int) -> bool {
    match policy_of(theme.sizing, subdir) {
        Some(p) => p.accepts(size, scale),
        None => false,
    }
}

/// The distance of a request from directory `subdir` of the theme; `None`
/// for a directory without a declared policy.
pub open spec fn size_distance(theme: ThemeView, subdir: Seq<char>, size: int, scale: int) -> Option<
    int,
> {
    match policy_of(theme.sizing, subdir) {
        Some(p) => Some(p.gap(size, scale)),
        None => None,
    }
}

/// The first descriptor of theme `name` that can be read below the base
/// directories, as its path and text.
pub open spec fn find_descriptor(
    name: Seq<char>,
    bases: Seq<Seq<char>>,
    files: Seq<(Seq<char>, Option<Seq<char>>)>,
) -> Option<(Seq<char>, Seq<char>)>
    decreases bases.len(),
{
    if bases.len() == 0 {
        None
    } else {
        let path = descriptor_path(bases[0], name);
        match content(files, path) {
            Some(text) => Some((path, text)),
            None => find_descriptor(name, bases.drop_first(), files),
        }
    }
}

/// Whether `pending` can be the descriptors being loaded: they are distinct
/// files of the snapshot.
pub open spec fn in_progress(
    pending: Seq<Seq<char>>,
    files: Seq<(Seq<char>, Option<Seq<char>>)>,
) -> bool {
    &&& pending.no_duplicates()
    &&& forall|i: int| 0 <= i < pending.len() ==> present(files, #[trigger] pending[i])
}

/// A descriptor that is found is a file of the snapshot with the text found.
pub proof fn lemma_found_descriptor_is_read(
    name: Seq<char>,
    bases: Seq<Seq<char>>,
    files: Seq<(Seq<char>, Option<Seq<char>>)>,
)
    ensures
        match find_descriptor(name, bases, files) {
            Some((path, text)) => content(files, path) == Some(text) && present(files, path),
            None => true,
        },
    decreases bases.len(),
{
    if bases.len() > 0 && content(files, descriptor_path(bases[0], name)) is None {
        lemma_found_descriptor_is_read(name, bases.drop_first(), files);
    }
}

/// There are no more descriptors being loaded than the snapshot has files.
pub proof fn lemma_pending_fits(
    pending: Seq<Seq<char>>,
    files: Seq<(Seq<char>, Option<Seq<char>>)>,
)
    requires
        in_progress(pending, files),
    ensures
        pending.len() <= files.len(),
{
    let paths = paths_of(files);
    pending.unique_seq_to_set();
    paths.lemma_cardinality_of_set();
    assert forall|p: Seq<char>| pending.to_set().contains(p) implies paths.to_set().contains(
        p,
    ) by {
        let i = choose|i: int| 0 <= i < pending.len() && pending[i] == p;
        assert(present(files, pending[i]));
        lemma_index_of_is_first(paths, p);
        assert(paths[index_of(paths, p) as int] == p);
    }
    vstd::set_lib::lemma_len_subset(pending.to_set(), paths.to_set());
}

/// The path of the descriptor of theme `name` that is found.
pub open spec fn found_path(
    name: Seq<char>,
    bases: Seq<Seq<char>>,
    files: Seq<(Seq<char>, Option<Seq<char>>)>,
) -> Seq<char> {
    match find_descriptor(name, bases, files) {
        Some((path, _)) => path,
        None => Seq::empty(),
    }
}

/// A descriptor that is found and not among those being loaded can join
/// them.
pub proof fn lemma_pending_grows(
    name: Seq<char>,
    bases: Seq<Seq<char>>,
    files: Seq<(Seq<char>, Option<Seq<char>>)>,
    pending: Seq<Seq<char>>,
)
    requires
        in_progress(pending, files),
        find_descriptor(name, bases, files) is Some,
        !pending.contains(found_path(name, bases, files)),
    ensures
        in_progress(pending.push(found_path(name, bases, files)), files),
        pending.len() < files.len(),
{
    let path = found_path(name, bases, files);
    lemma_found_descriptor_is_read(name, bases, files);
    let more = pending.push(path);
    assert forall|i: int, j: int| 0 <= i < more.len() && 0 <= j < more.len() && i != j implies
        more[i] != more[j] by {
        if i < pending.len() && j < pending.len() {
            assert(pending[i] != pending[j]);
        } else if i < pending.len() {
            assert(pending.contains(pending[i]));
        } else {
            assert(pending.contains(pending[j]));
        }
    }
    lemma_pending_fits(more, files);
}

/// The theme `name` as loaded from the snapshot while the descriptors at
/// `pending` are being loaded: `None` if no descriptor of it can be read, or
/// if its descriptor is one of those being loaded. Parents that do not load
/// are left out of the theme.
pub open spec fn loaded(
    name: Seq<char>,
    bases: Seq<Seq<char>>,
    files: Seq<(Seq<char>, Option<Seq<char>>)>,
    pending: Seq<Seq<char>>,
) -> Option<ThemeView>
    decreases files.len() - pending.len(), 0nat,
    when in_progress(pending, files)
{
    match find_descriptor(name, bases, files) {
        None => None,
        Some((path, text)) => {
            if pending.contains(path) {
                None
            } else {
                proof {
                    lemma_pending_grows(name, bases, files, pending);
                }
                let declared = parse_text(text);
                Some(
                    ThemeView {
                        name,
                        directories: declared.directories,
                        inherits: loaded_all(declared.inherits, bases, files, pending.push(path)),
                        sizing: declared.sizing,
                    },
                )
            }
        },
    }
}

/// The themes among `names` that load, in order.
pub open spec fn loaded_all(
    names: Seq<Seq<char>>,
    bases: Seq<Seq<char>>,
    files: Seq<(Seq<char>, Option<Seq<char>>)>,
    pending: Seq<Seq<char>>,
) -> Seq<ThemeView>
    decreases files.len() - pending.len(), names.len() + 1,
    when in_progress(pending, files)
{
    if names.len() == 0 {
        Seq::empty()
    } else {
        proof {
            lemma_pending_fits(pending, files);
        }
        let before = loaded_all(names.drop_last(), bases, files, pending);
        match loaded(names.last(), bases, files, pending) {
            Some(theme) => before.push(theme),
            None => before,
        }
    }
}

impl Theme {
    /// The policy declared for `subdir`, if any.
    pub fn policy(&self, subdir: &str) -> (r: Option<SizingPolicy>)
        ensures
            r == policy_of(self@.sizing, subdir@),
    {
        let mut i: usize = self.sizing.len();
        assert(self@.sizing.take(i as int) =~= self@.sizing);
        while i > 0
            invariant
                i <= self.sizing.len(),
                policy_of(self@.sizing, subdir@) == policy_of(self@.sizing.take(i as int), subdir@),
            decreases i,
        {
            let ghost upto = self@.sizing.take(i as int);
            assert(upto.last() == (self.sizing@[i - 1].name@, self.sizing@[i - 1].policy));
            assert(upto.drop_last() =~= self@.sizing.take(i - 1));
            if self.sizing[i - 1].name.as_str().eq(subdir) {
                return Some(self.sizing[i - 1].policy);
            }
            i -= 1;
        }
        None
    }

    /// Loads the theme `name` from the snapshot: the first descriptor
    /// `base/name/index.theme` that can be read, and recursively the themes it
    /// inherits from. `None` exactly when no descriptor of `name` can be read.
    pub fn load(name: &str, bases: &Vec<String>, files: &Files) -> (r: Option<Theme>)
        ensures
            r is Some <==> find_descriptor(name@, texts(bases@), files@) is Some,
            match r {
                Some(theme) => Some(theme@) == loaded(name@, texts(bases@), files@, Seq::empty()),
                None => loaded(name@, texts(bases@), files@, Seq::empty()) is None,
            },
    {
        let mut pending: Vec<String> = Vec::new();
        assert(texts(pending@) =~= Seq::<Seq<char>>::empty());
        load_while(name, bases, files, &mut pending)
    }
}

/// Finds the first descriptor of `name` that can be read.
fn locate_descriptor<'a>(name: &str, bases: &Vec<String>, files: &'a Files) -> (r: Option<
    (String, &'a String),
>)
    ensures
        match r {
            Some((path, text)) => find_descriptor(name@, texts(bases@), files@) == Some(
                (path@, text@),
            ),
            None => find_descriptor(name@, texts(bases@), files@) is None,
        },
{
    let mut i: usize = 0;
    assert(texts(bases@).skip(0) =~= texts(bases@));
    while i < bases.len()
        invariant
            i <= bases.len(),
            find_descriptor(name@, texts(bases@), files@) == find_descriptor(
                name@,
                texts(bases@).skip(i as int),
                files@,
            ),
        decreases bases.len() - i,
    {
        let path = make_descriptor_path(bases[i].as_str(), name);
        proof {
            let rest = texts(bases@).skip(i as int);
            assert(rest[0] == bases@[i as int]@);
            assert(rest.drop_first() =~= texts(bases@).skip(i + 1));
        }
        match files.read(path.as_str()) {
            Some(text) => {
                return Some((path, text));
            },
            None => {},
        }
        i += 1;
    }
    None
}

/// Whether `path` is one of `pending`.
fn is_pending(pending: &Vec<String>, path: &str) -> (r: bool)
    ensures
        r == texts(pending@).contains(path@),
{
    let mut i: usize = 0;
    while i < pending.len()
        invariant
            i <= pending.len(),
            forall|j: int| 0 <= j < i ==> texts(pending@)[j] != path@,
        decreases pending.len() - i,
    {
        if pending[i].as_str().eq(path) {
            assert(texts(pending@)[i as int] == path@);
            return true;
        }
        i += 1;
    }
    false
}

/// Loads `name` while the descriptors at `pending` are being loaded.
fn load_while(name: &str, bases: &Vec<String>, files: &Files, pending: &mut Vec<String>) -> (r:
    Option<Theme>)
    requires
        in_progress(texts(old(pending)@), files@),
    ensures
        final(pending)@ == old(pending)@,
        match r {
            Some(theme) => Some(theme@) == loaded(
                name@,
                texts(bases@),
                files@,
                texts(old(pending)@),
            ),
            None => loaded(name@, texts(bases@), files@, texts(old(pending)@)) is None,
        },
    decreases files@.len() - old(pending)@.len(), 0nat,
{
    let found = locate_descriptor(name, bases, files);
    match found {
        None => None,
        Some((path, text)) => {
            if is_pending(pending, path.as_str()) {
                return None;
            }
            proof {
                lemma_pending_grows(name@, texts(bases@), files@, texts(pending@));
            }
            let declared = parse(text.as_str());
            let ghost before = pending@;
            let ghost path_view = path@;
            pending.push(path);
            assert(texts(pending@) =~= texts(before).push(path_view));
            let parents = load_all(&declared.inherits, bases, files, pending);
            pending.pop();
            assert(pending@ =~= before);
            let theme = Theme {
                name: String::from_str(name),
                directories: declared.directories,
                inherits: parents,
                sizing: declared.sizing,
            };
            proof {
                lemma_theme_view(theme);
            }
            Some(theme)
        },
    }
}

/// Loads those of `names` that load.
fn load_all(names: &Vec<String>, bases: &Vec<String>, files: &Files, pending: &mut Vec<String>) -> (r:
    Vec<Theme>)
    requires
        in_progress(texts(old(pending)@), files@),
    ensures
        final(pending)@ == old(pending)@,
        theme_views(r@) == loaded_all(
            texts(names@),
            texts(bases@),
            files@,
            texts(old(pending)@),
        ),
    decreases files@.len() - old(pending)@.len(), names@.len() + 1,
{
    let mut themes: Vec<Theme> = Vec::new();
    let mut i: usize = 0;
    assert(texts(names@).take(0) =~= Seq::<Seq<char>>::empty());
    assert(theme_views(themes@) =~= Seq::<ThemeView>::empty());
    while i < names.len()
        invariant
            i <= names.len(),
            pending@ == old(pending)@,
            in_progress(texts(pending@), files@),
            theme_views(themes@) == loaded_all(
                texts(names@).take(i as int),
                texts(bases@),
                files@,
                texts(pending@),
            ),
        decreases names.len() - i,
    {
        proof {
            let upto = texts(names@).take(i + 1);
            assert(upto.drop_last() =~= texts(names@).take(i as int));
            assert(upto.last() == names@[i as int]@);
        }
        match load_while(names[i].as_str(), bases, files, pending) {
            Some(theme) => {
                assert(theme_views(themes@.push(theme)) =~= theme_views(themes@).push(theme@));
                themes.push(theme);
            },
            None => {},
        }
        i += 1;
    }
    assert(texts(names@).take(i as int) =~= texts(names@));
    themes
}

/// Decides whether directory `subdir` of `theme` matches a request for
/// `size` pixels at `scale`.
pub fn directory_matches_size(subdir: &str, size: i32, scale: i32, theme: &Theme) -> (r: bool)
    ensures
        r == matches_size(theme@, subdir@, size as int, scale as int),
{
    match theme.policy(subdir) {
        Some(p) => p.matches(size, scale),
        None => false,
    }
}

/// Computes the distance of a request from directory `subdir` of `theme`.
pub fn directory_size_distance(subdir: &str, size: i32, scale: i32, theme: &Theme) -> (r: Option<
    i64,
>)
    ensures
        r is Some <==> size_distance(theme@, subdir@, size as int, scale as int) is Some,
        r is Some ==> r->0 == size_distance(theme@, subdir@, size as int, scale as int)->0,
{
    match theme.policy(subdir) {
        Some(p) => Some(p.distance(size, scale)),
        None => None,
    }
}

/// Copies a vector of sizing declarations.
pub fn copy_sizing(v: &Vec<DirectorySizing>) -> (r: Vec<DirectorySizing>)
    ensures
        sizing_view(r@) == sizing_view(v@),
{
    let mut r: Vec<DirectorySizing> = Vec::new();
    let mut i: usize = 0;
    while i < v.len()
        invariant
            i <= v.len(),
            r.len() == i,
            forall|j: int| 0 <= j < i ==> r@[j].name@ == v@[j].name@ && r@[j].policy == v@[j].policy,
        decreases v.len() - i,
    {
        r.push(DirectorySizing { name: v[i].name.clone(), policy: v[i].policy });
        i += 1;
    }
    assert(sizing_view(r@) =~= sizing_view(v@));
    r
}

impl Theme {
    /// A copy of the theme, parents included.
    pub fn duplicate(&self) -> (r: Theme)
        ensures
            r@ == self@,
        decreases self,
    {
        let mut parents: Vec<Theme> = Vec::new();
        let mut i: usize = 0;
        while i < self.inherits.len()
            invariant
                i <= self.inherits.len(),
                parents.len() == i,
                forall|j: int| 0 <= j < i ==> parents@[j]@ == self.inherits@[j]@,
            decreases self.inherits.len() - i,
        {
            let parent = self.inherits[i].duplicate();
            parents.push(parent);
            i += 1;
        }
        let r = Theme {
            name: self.name.clone(),
            directories: copy_strings(&self.directories),
            inherits: parents,
            sizing: copy_sizing(&self.sizing),
        };
        proof {
            lemma_theme_view(r);
            lemma_theme_view(*self);
            assert(theme_views(r.inherits@) =~= theme_views(self.inherits@));
        }
        r
    }
}

} // verus!
