//! The search for an icon: over the directories of a theme, then over the
//! themes it inherits from, then over a fallback theme, then outside any
//! theme.

use vstd::prelude::*;
use rayon::iter::{IndexedParallelIterator, IntoParallelRefIterator};
use crate::files::{
    icon_path, make_icon_path, make_plain_icon_path, plain_icon_path, present, Files,
};
use crate::text::{index_of, lemma_index_of, lemma_index_of_is_first, texts};
use crate::theme::{
    directory_matches_size, directory_size_distance, lemma_theme_view, matches_size,
    size_distance, theme_views, Theme, ThemeView,
};

verus! {

/// One place where an icon may be: the path of a file, and how the
/// directory it is in relates to the request.
#[derive(Debug)]
pub struct Candidate {
    pub path: String,
    pub matches: bool,
    pub distance: Option<i64>,
}

/// The mathematical content of a [`Candidate`].
pub ghost struct CandidateView {
    pub path: Seq<char>,
    pub matches: bool,
    pub distance: Option<int>,
}

impl View for Candidate {
    type V = CandidateView;

    open spec fn view(&self) -> CandidateView {
        CandidateView {
            path: self.path@,
            matches: self.matches,
            distance: match self.distance {
                Some(d) => Some(d as int),
                None => None,
            },
        }
    }
}

/// The views of a sequence of candidates.
pub open spec fn candidate_views(v: Seq<Candidate>) -> Seq<CandidateView> {
    v.map_values(|c: Candidate| c@)
}

/// The file name extensions looked for, in order of preference.
pub open spec fn extensions() -> Seq<Seq<char>> {
    seq!["png"@, "svg"@, "xpm"@]
}

/// The candidate for one directory, base directory and extension.
pub open spec fn candidate_at(
    theme: ThemeView,
    subdir: Seq<char>,
    base: Seq<char>,
    ext: Seq<char>,
    icon: Seq<char>,
    size: int,
    scale: int,
) -> CandidateView {
    CandidateView {
        path: icon_path(base, theme.name, subdir, icon, ext),
        matches: matches_size(theme, subdir, size, scale),
        distance: size_distance(theme, subdir, size, scale),
    }
}

/// The candidates of one directory: for each base directory in order, one
/// per extension in order.
pub open spec fn candidates_in(
    theme: ThemeView,
    subdir: Seq<char>,
    bases: Seq<Seq<char>>,
    icon: Seq<char>,
    size: int,
    scale: int,
) -> Seq<CandidateView>
    decreases bases.len(),
{
    if bases.len() == 0 {
        Seq::empty()
    } else {
        candidates_in(theme, subdir, bases.drop_last(), icon, size, scale) + extensions().map_values(
            |ext: Seq<char>| candidate_at(theme, subdir, bases.last(), ext, icon, size, scale),
        )
    }
}

/// The candidates of the directories `subdirs` of a theme, directory by
/// directory in order.
pub open spec fn candidates_of(
    theme: ThemeView,
    subdirs: Seq<Seq<char>>,
    bases: Seq<Seq<char>>,
    icon: Seq<char>,
    size: int,
    scale: int,
) -> Seq<CandidateView>
    decreases subdirs.len(),
{
    if subdirs.len() == 0 {
        Seq::empty()
    } else {
        candidates_of(theme, subdirs.drop_last(), bases, icon, size, scale) + candidates_in(
            theme,
            subdirs.last(),
            bases,
            icon,
            size,
            scale,
        )
    }
}

/// Lists the candidates of a theme for a request, in the order in which they
/// are preferred: directories in the order of the descriptor, then base
/// directories by priority, then extensions.
pub fn list_candidates(icon: &str, size: i32, scale: i32, theme: &Theme, bases: &Vec<String>) -> (out:
    Vec<Candidate>)
    ensures
        candidate_views(out@) == candidates_of(
            theme@,
            theme@.directories,
            texts(bases@),
            icon@,
            size as int,
            scale as int,
        ),
{
    let mut out: Vec<Candidate> = Vec::new();
    let ghost dirs = theme@.directories;
    let ghost all_bases = texts(bases@);
    let mut i: usize = 0;
    assert(dirs.take(0) =~= Seq::<Seq<char>>::empty());
    assert(candidate_views(out@) =~= Seq::<CandidateView>::empty());
    while i < theme.directories.len()
        invariant
            i <= theme.directories.len(),
            dirs == theme@.directories,
            dirs == texts(theme.directories@),
            all_bases == texts(bases@),
            candidate_views(out@) == candidates_of(
                theme@,
                dirs.take(i as int),
                all_bases,
                icon@,
                size as int,
                scale as int,
            ),
        decreases theme.directories.len() - i,
    {
        let subdir = theme.directories[i].as_str();
        let matches = directory_matches_size(subdir, size, scale, theme);
        let distance = directory_size_distance(subdir, size, scale, theme);
        let ghost done = candidate_views(out@);
        let mut j: usize = 0;
        proof {
            assert(dirs.take(i + 1).drop_last() =~= dirs.take(i as int));
            assert(dirs.take(i + 1).last() == subdir@);
            assert(all_bases.take(0) =~= Seq::<Seq<char>>::empty());
            assert(done + Seq::<CandidateView>::empty() =~= done);
        }
        while j < bases.len()
            invariant
                j <= bases.len(),
                all_bases == texts(bases@),
                subdir@ == dirs[i as int],
                matches == matches_size(theme@, subdir@, size as int, scale as int),
                distance is Some <==> size_distance(theme@, subdir@, size as int, scale as int)
                    is Some,
                distance is Some ==> distance->0 == size_distance(
                    theme@,
                    subdir@,
                    size as int,
                    scale as int,
                )->0,
                candidate_views(out@) == done + candidates_in(
                    theme@,
                    subdir@,
                    all_bases.take(j as int),
                    icon@,
                    size as int,
                    scale as int,
                ),
            decreases bases.len() - j,
        {
            let base = bases[j].as_str();
            proof {
                lemma_theme_view(*theme);
            }
            let png = Candidate {
                path: make_icon_path(base, theme.name.as_str(), subdir, icon, "png"),
                matches,
                distance,
            };
            let svg = Candidate {
                path: make_icon_path(base, theme.name.as_str(), subdir, icon, "svg"),
                matches,
                distance,
            };
            let xpm = Candidate {
                path: make_icon_path(base, theme.name.as_str(), subdir, icon, "xpm"),
                matches,
                distance,
            };
            proof {
                let upto = all_bases.take(j + 1);
                assert(upto.drop_last() =~= all_bases.take(j as int));
                assert(upto.last() == base@);
                let three = extensions().map_values(
                    |ext: Seq<char>|
                        candidate_at(theme@, subdir@, base@, ext, icon@, size as int, scale as int),
                );
                assert(three =~= seq![png@, svg@, xpm@]);
                assert(candidate_views(out@.push(png).push(svg).push(xpm)) =~= candidate_views(
                    out@,
                ) + seq![png@, svg@, xpm@]);
                assert(done + candidates_in(
                    theme@,
                    subdir@,
                    all_bases.take(j as int),
                    icon@,
                    size as int,
                    scale as int,
                ) + three =~= done + (candidates_in(
                    theme@,
                    subdir@,
                    all_bases.take(j as int),
                    icon@,
                    size as int,
                    scale as int,
                ) + three));
            }
            out.push(png);
            out.push(svg);
            out.push(xpm);
            j += 1;
        }
        assert(all_bases.take(j as int) =~= all_bases);
        i += 1;
    }
    assert(dirs.take(i as int) =~= dirs);
    out
}

/// Whether a candidate is an exact hit: its file exists and its directory
/// matches the request.
pub open spec fn is_hit(c: CandidateView, files: Seq<(Seq<char>, Option<Seq<char>>)>) -> bool {
    c.matches && present(files, c.path)
}

/// Whether a candidate is a near miss: its file exists, its directory does
/// not match the request, and a distance is defined for it.
pub open spec fn is_near(c: CandidateView, files: Seq<(Seq<char>, Option<Seq<char>>)>) -> bool {
    !c.matches && c.distance is Some && present(files, c.path)
}

/// For each candidate, whether it is an exact hit.
pub open spec fn hits(cands: Seq<CandidateView>, files: Seq<(Seq<char>, Option<Seq<char>>)>) -> Seq<
    bool,
> {
    cands.map_values(|c: CandidateView| is_hit(c, files))
}

/// The near miss with the smallest distance among the first `n` candidates,
/// and among several of that distance the first; `None` if there is no near
/// miss among them.
pub open spec fn closest(
    cands: Seq<CandidateView>,
    files: Seq<(Seq<char>, Option<Seq<char>>)>,
    n: nat,
) -> Option<int>
    decreases n,
{
    if n == 0 || n > cands.len() {
        None
    } else {
        let before = closest(cands, files, (n - 1) as nat);
        let c = cands[n - 1];
        if is_near(c, files) && (before is None || c.distance->0 < cands[before->0].distance->0) {
            Some(n - 1)
        } else {
            before
        }
    }
}

/// What `closest` selects: a near miss that no near miss undercuts, and that
/// no earlier near miss equals in distance.
pub proof fn lemma_closest(
    cands: Seq<CandidateView>,
    files: Seq<(Seq<char>, Option<Seq<char>>)>,
    n: nat,
)
    requires
        n <= cands.len(),
    ensures
        match closest(cands, files, n) {
            Some(k) => {
                &&& 0 <= k < n
                &&& is_near(cands[k], files)
                &&& forall|j: int|
                    0 <= j < n && is_near(#[trigger] cands[j], files) ==> cands[k].distance->0
                        <= cands[j].distance->0
                &&& forall|j: int|
                    0 <= j < k && is_near(#[trigger] cands[j], files) ==> cands[k].distance->0
                        < cands[j].distance->0
            },
            None => forall|j: int| 0 <= j < n ==> !is_near(#[trigger] cands[j], files),
        },
    decreases n,
{
    if n > 0 {
        lemma_closest(cands, files, (n - 1) as nat);
    }
}

/// Decides whether a candidate is an exact hit.
pub fn check_hit(c: &Candidate, files: &Files) -> (r: bool)
    ensures
        r == is_hit(c@, files@),
{
    c.matches && files.contains(c.path.as_str())
}

/// `position_first` of rayon's indexed parallel iterators returns the index
/// of the first item, in the order of the sequence, for which the predicate
/// holds, and `None` if it holds for no item. The predicate here is
/// [`check_hit`].
#[verifier::external_body]
fn position_first_hit(cands: &Vec<Candidate>, files: &Files) -> (r: Option<usize>)
    ensures
        match r {
            Some(k) => {
                &&& k < cands@.len()
                &&& is_hit(cands@[k as int]@, files@)
                &&& forall|j: int| 0 <= j < k ==> !is_hit(#[trigger] cands@[j]@, files@)
            },
            None => forall|j: int| 0 <= j < cands@.len() ==> !is_hit(#[trigger] cands@[j]@, files@),
        },
{
    cands.par_iter().position_first(|c| check_hit(c, files))
}

/// The first exact hit among the candidates.
pub fn first_hit(cands: &Vec<Candidate>, files: &Files) -> (r: Option<usize>)
    ensures
        match r {
            Some(k) => k < cands@.len() && k == index_of(
                hits(candidate_views(cands@), files@),
                true,
            ),
            None => index_of(hits(candidate_views(cands@), files@), true) == cands@.len(),
        },
{
    let r = position_first_hit(cands, files);
    proof {
        let flags = hits(candidate_views(cands@), files@);
        assert forall|j: int| 0 <= j < cands@.len() implies flags[j] == is_hit(
            #[trigger] cands@[j]@,
            files@,
        ) by {}
        match r {
            Some(k) => lemma_index_of(flags, true, k as int),
            None => lemma_index_of(flags, true, cands@.len() as int),
        }
    }
    r
}

/// The closest near miss among the candidates.
pub fn closest_miss(cands: &Vec<Candidate>, files: &Files) -> (r: Option<usize>)
    ensures
        match r {
            Some(k) => k < cands@.len() && closest(
                candidate_views(cands@),
                files@,
                cands@.len(),
            ) == Some(k as int),
            None => closest(candidate_views(cands@), files@, cands@.len()) is None,
        },
{
    let mut best: Option<usize> = None;
    let mut least: i64 = 0;
    let mut i: usize = 0;
    while i < cands.len()
        invariant
            i <= cands.len(),
            match best {
                Some(k) => {
                    &&& k < i
                    &&& closest(candidate_views(cands@), files@, i as nat) == Some(k as int)
                    &&& cands@[k as int].distance == Some(least)
                },
                None => closest(candidate_views(cands@), files@, i as nat) is None,
            },
        decreases cands.len() - i,
    {
        let c = &cands[i];
        assert(candidate_views(cands@)[i as int] == c@);
        if !c.matches {
            if let Some(d) = c.distance {
                if (best.is_none() || d < least) && files.contains(c.path.as_str()) {
                    best = Some(i);
                    least = d;
                }
            }
        }
        i += 1;
    }
    best
}

/// What the search of one theme finds: the first exact hit among the
/// theme's candidates; failing that, the closest near miss; failing that,
/// what the first of the inherited themes finds that finds anything.
pub open spec fn search_theme(
    theme: ThemeView,
    bases: Seq<Seq<char>>,
    files: Seq<(Seq<char>, Option<Seq<char>>)>,
    icon: Seq<char>,
    size: int,
    scale: int,
) -> Option<Seq<char>>
    decreases theme, theme.inherits.len() + 2,
{
    let cands = candidates_of(theme, theme.directories, bases, icon, size, scale);
    let hit = index_of(hits(cands, files), true) as int;
    if hit < cands.len() {
        Some(cands[hit].path)
    } else {
        match closest(cands, files, cands.len()) {
            Some(k) => Some(cands[k].path),
            None => search_parents(theme, 0, bases, files, icon, size, scale),
        }
    }
}

/// What the first of the themes inherited by `theme`, from position `from`
/// on, finds that finds anything.
pub open spec fn search_parents(
    theme: ThemeView,
    from: nat,
    bases: Seq<Seq<char>>,
    files: Seq<(Seq<char>, Option<Seq<char>>)>,
    icon: Seq<char>,
    size: int,
    scale: int,
) -> Option<Seq<char>>
    decreases theme, theme.inherits.len() - from + 1,
{
    if from >= theme.inherits.len() {
        None
    } else {
        match search_theme(theme.inherits[from as int], bases, files, icon, size, scale) {
            Some(path) => Some(path),
            None => search_parents(theme, from + 1, bases, files, icon, size, scale),
        }
    }
}

/// Searches `theme` and the themes it inherits from for an icon.
pub fn find_icon_helper(
    icon: &str,
    size: i32,
    scale: i32,
    theme: &Theme,
    bases: &Vec<String>,
    files: &Files,
) -> (r: Option<String>)
    ensures
        r is Some <==> search_theme(
            theme@,
            texts(bases@),
            files@,
            icon@,
            size as int,
            scale as int,
        ) is Some,
        r is Some ==> r->0@ == search_theme(
            theme@,
            texts(bases@),
            files@,
            icon@,
            size as int,
            scale as int,
        )->0,
    decreases theme,
{
    let mut cands = list_candidates(icon, size, scale, theme, bases);
    let ghost all = candidate_views(cands@);
    if let Some(k) = first_hit(&cands, files) {
        let found = cands.swap_remove(k);
        assert(found@ == all[k as int]);
        return Some(found.path);
    }
    if let Some(k) = closest_miss(&cands, files) {
        let found = cands.swap_remove(k);
        assert(found@ == all[k as int]);
        return Some(found.path);
    }
    proof {
        lemma_theme_view(*theme);
    }
    let mut i: usize = 0;
    while i < theme.inherits.len()
        invariant
            i <= theme.inherits.len(),
            theme@.inherits == theme_views(theme.inherits@),
            search_theme(theme@, texts(bases@), files@, icon@, size as int, scale as int)
                == search_parents(
                theme@,
                i as nat,
                texts(bases@),
                files@,
                icon@,
                size as int,
                scale as int,
            ),
        decreases theme.inherits.len() - i,
    {
        let found = find_icon_helper(icon, size, scale, &theme.inherits[i], bases, files);
        assert(theme@.inherits[i as int] == theme.inherits@[i as int]@);
        if found.is_some() {
            return found;
        }
        i += 1;
    }
    None
}

/// The places where an icon may be outside any theme: for each base
/// directory in order, one path per extension in order.
pub open spec fn plain_candidates(bases: Seq<Seq<char>>, icon: Seq<char>) -> Seq<Seq<char>>
    decreases bases.len(),
{
    if bases.len() == 0 {
        Seq::empty()
    } else {
        plain_candidates(bases.drop_last(), icon) + extensions().map_values(
            |ext: Seq<char>| plain_icon_path(bases.last(), icon, ext),
        )
    }
}

/// What the search outside any theme finds: the first of the plain
/// candidates that exists.
pub open spec fn search_plain(
    bases: Seq<Seq<char>>,
    files: Seq<(Seq<char>, Option<Seq<char>>)>,
    icon: Seq<char>,
) -> Option<Seq<char>> {
    let paths = plain_candidates(bases, icon);
    let k = index_of(paths.map_values(|p: Seq<char>| present(files, p)), true) as int;
    if k < paths.len() {
        Some(paths[k])
    } else {
        None
    }
}

/// What a lookup finds: what the search of the theme finds, else what the
/// search of the fallback theme finds, else what the search outside any
/// theme finds.
pub open spec fn find_spec(
    theme: ThemeView,
    fallback: ThemeView,
    bases: Seq<Seq<char>>,
    files: Seq<(Seq<char>, Option<Seq<char>>)>,
    icon: Seq<char>,
    size: int,
    scale: int,
) -> Option<Seq<char>> {
    match search_theme(theme, bases, files, icon, size, scale) {
        Some(path) => Some(path),
        None => match search_theme(fallback, bases, files, icon, size, scale) {
            Some(path) => Some(path),
            None => search_plain(bases, files, icon),
        },
    }
}

/// Lists the plain candidates for an icon.
pub fn list_plain_candidates(icon: &str, bases: &Vec<String>) -> (out: Vec<String>)
    ensures
        texts(out@) == plain_candidates(texts(bases@), icon@),
{
    let mut out: Vec<String> = Vec::new();
    let ghost all_bases = texts(bases@);
    let mut j: usize = 0;
    assert(all_bases.take(0) =~= Seq::<Seq<char>>::empty());
    assert(texts(out@) =~= Seq::<Seq<char>>::empty());
    while j < bases.len()
        invariant
            j <= bases.len(),
            all_bases == texts(bases@),
            texts(out@) == plain_candidates(all_bases.take(j as int), icon@),
        decreases bases.len() - j,
    {
        let base = bases[j].as_str();
        let png = make_plain_icon_path(base, icon, "png");
        let svg = make_plain_icon_path(base, icon, "svg");
        let xpm = make_plain_icon_path(base, icon, "xpm");
        proof {
            let upto = all_bases.take(j + 1);
            assert(upto.drop_last() =~= all_bases.take(j as int));
            assert(upto.last() == base@);
            let three = extensions().map_values(|ext: Seq<char>| plain_icon_path(base@, icon@, ext));
            assert(three =~= seq![png@, svg@, xpm@]);
            assert(texts(out@.push(png).push(svg).push(xpm)) =~= texts(out@) + seq![
                png@,
                svg@,
                xpm@,
            ]);
        }
        out.push(png);
        out.push(svg);
        out.push(xpm);
        j += 1;
    }
    assert(all_bases.take(j as int) =~= all_bases);
    out
}

/// Searches the base directories themselves, outside any theme and without
/// regard to size, for `icon.png`, `icon.svg` or `icon.xpm`.
pub fn lookup_fallback_icon(icon: &str, bases: &Vec<String>, files: &Files) -> (r: Option<String>)
    ensures
        r is Some <==> search_plain(texts(bases@), files@, icon@) is Some,
        r is Some ==> r->0@ == search_plain(texts(bases@), files@, icon@)->0,
{
    let mut paths = list_plain_candidates(icon, bases);
    let ghost all = texts(paths@);
    let ghost flags = all.map_values(|p: Seq<char>| present(files@, p));
    let mut i: usize = 0;
    while i < paths.len()
        invariant
            i <= paths.len(),
            all == texts(paths@),
            all == plain_candidates(texts(bases@), icon@),
            flags == all.map_values(|p: Seq<char>| present(files@, p)),
            forall|j: int| 0 <= j < i ==> !flags[j],
        decreases paths.len() - i,
    {
        if files.contains(paths[i].as_str()) {
            proof {
                lemma_index_of(flags, true, i as int);
                assert(all[i as int] == paths@[i as int]@);
            }
            let found = paths.swap_remove(i);
            return Some(found);
        }
        i += 1;
    }
    proof {
        lemma_index_of(flags, true, i as int);
    }
    None
}

/// Looks an icon up: in `theme` and the themes it inherits from, then in
/// `fallback` and the themes it inherits from, then outside any theme.
pub fn find_icon(
    icon: &str,
    size: i32,
    scale: i32,
    theme: &Theme,
    fallback: &Theme,
    bases: &Vec<String>,
    files: &Files,
) -> (r: Option<String>)
    ensures
        r is Some <==> find_spec(
            theme@,
            fallback@,
            texts(bases@),
            files@,
            icon@,
            size as int,
            scale as int,
        ) is Some,
        r is Some ==> r->0@ == find_spec(
            theme@,
            fallback@,
            texts(bases@),
            files@,
            icon@,
            size as int,
            scale as int,
        )->0,
{
    let themed = find_icon_helper(icon, size, scale, theme, bases, files);
    if themed.is_some() {
        return themed;
    }
    let generic = find_icon_helper(icon, size, scale, fallback, bases, files);
    if generic.is_some() {
        return generic;
    }
    lookup_fallback_icon(icon, bases, files)
}

/// A theme is searched among existing files only: whatever the search of a
/// theme finds exists in the snapshot.
pub proof fn lemma_search_theme_finds_existing(
    theme: ThemeView,
    bases: Seq<Seq<char>>,
    files: Seq<(Seq<char>, Option<Seq<char>>)>,
    icon: Seq<char>,
    size: int,
    scale: int,
)
    ensures
        search_theme(theme, bases, files, icon, size, scale) is Some ==> present(
            files,
            search_theme(theme, bases, files, icon, size, scale)->0,
        ),
    decreases theme, theme.inherits.len() + 2,
{
    let cands = candidates_of(theme, theme.directories, bases, icon, size, scale);
    let flags = hits(cands, files);
    lemma_index_of_is_first(flags, true);
    let hit = index_of(flags, true) as int;
    if hit >= cands.len() {
        lemma_closest(cands, files, cands.len());
        if closest(cands, files, cands.len()) is None {
            lemma_search_parents_finds_existing(theme, 0, bases, files, icon, size, scale);
        }
    }
}

/// Whatever the search of the inherited themes finds exists in the snapshot.
pub proof fn lemma_search_parents_finds_existing(
    theme: ThemeView,
    from: nat,
    bases: Seq<Seq<char>>,
    files: Seq<(Seq<char>, Option<Seq<char>>)>,
    icon: Seq<char>,
    size: int,
    scale: int,
)
    ensures
        search_parents(theme, from, bases, files, icon, size, scale) is Some ==> present(
            files,
            search_parents(theme, from, bases, files, icon, size, scale)->0,
        ),
    decreases theme, theme.inherits.len() - from + 1,
{
    if from < theme.inherits.len() {
        lemma_search_theme_finds_existing(
            theme.inherits[from as int],
            bases,
            files,
            icon,
            size,
            scale,
        );
        lemma_search_parents_finds_existing(theme, from + 1, bases, files, icon, size, scale);
    }
}

/// Whatever a lookup finds exists in the snapshot.
pub proof fn lemma_find_finds_existing(
    theme: ThemeView,
    fallback: ThemeView,
    bases: Seq<Seq<char>>,
    files: Seq<(Seq<char>, Option<Seq<char>>)>,
    icon: Seq<char>,
    size: int,
    scale: int,
)
    ensures
        find_spec(theme, fallback, bases, files, icon, size, scale) is Some ==> present(
            files,
            find_spec(theme, fallback, bases, files, icon, size, scale)->0,
        ),
{
    lemma_search_theme_finds_existing(theme, bases, files, icon, size, scale);
    lemma_search_theme_finds_existing(fallback, bases, files, icon, size, scale);
    let paths = plain_candidates(bases, icon);
    lemma_index_of_is_first(paths.map_values(|p: Seq<char>| present(files, p)), true);
}

/// The paths of a sequence of candidates.
pub open spec fn candidate_paths(cands: Seq<CandidateView>) -> Seq<Seq<char>> {
    cands.map_values(|c: CandidateView| c.path)
}

/// The paths whose existence the search of a theme may ask for: those of
/// the theme's candidates, then those of the themes it inherits from.
pub open spec fn consulted(
    theme: ThemeView,
    bases: Seq<Seq<char>>,
    icon: Seq<char>,
    size: int,
    scale: int,
) -> Seq<Seq<char>>
    decreases theme, theme.inherits.len() + 2,
{
    candidate_paths(candidates_of(theme, theme.directories, bases, icon, size, scale))
        + consulted_by_parents(theme, 0, bases, icon, size, scale)
}

/// The paths whose existence the search of the themes inherited by `theme`,
/// from position `from` on, may ask for.
pub open spec fn consulted_by_parents(
    theme: ThemeView,
    from: nat,
    bases: Seq<Seq<char>>,
    icon: Seq<char>,
    size: int,
    scale: int,
) -> Seq<Seq<char>>
    decreases theme, theme.inherits.len() - from + 1,
{
    if from >= theme.inherits.len() {
        Seq::empty()
    } else {
        consulted(theme.inherits[from as int], bases, icon, size, scale) + consulted_by_parents(
            theme,
            from + 1,
            bases,
            icon,
            size,
            scale,
        )
    }
}

/// The paths whose existence a lookup may ask for: those of the theme, then
/// those of the fallback theme, then the plain candidates.
pub open spec fn consulted_by_find(
    theme: ThemeView,
    fallback: ThemeView,
    bases: Seq<Seq<char>>,
    icon: Seq<char>,
    size: int,
    scale: int,
) -> Seq<Seq<char>> {
    consulted(theme, bases, icon, size, scale) + consulted(fallback, bases, icon, size, scale)
        + plain_candidates(bases, icon)
}

/// Whether two snapshots agree on the existence of each of `paths`.
pub open spec fn agree_on(
    first: Seq<(Seq<char>, Option<Seq<char>>)>,
    second: Seq<(Seq<char>, Option<Seq<char>>)>,
    paths: Seq<Seq<char>>,
) -> bool {
    forall|i: int| 0 <= i < paths.len() ==> present(first, #[trigger] paths[i]) == present(
        second,
        paths[i],
    )
}

/// Snapshots that agree on a list of paths agree on each part of it.
pub proof fn lemma_agree_on_parts(
    first: Seq<(Seq<char>, Option<Seq<char>>)>,
    second: Seq<(Seq<char>, Option<Seq<char>>)>,
    front: Seq<Seq<char>>,
    back: Seq<Seq<char>>,
)
    requires
        agree_on(first, second, front + back),
    ensures
        agree_on(first, second, front),
        agree_on(first, second, back),
{
    let all = front + back;
    assert forall|i: int| 0 <= i < front.len() implies present(first, #[trigger] front[i])
        == present(second, front[i]) by {
        assert(all[i] == front[i]);
    }
    assert forall|i: int| 0 <= i < back.len() implies present(first, #[trigger] back[i])
        == present(second, back[i]) by {
        assert(all[front.len() + i] == back[i]);
    }
}

/// The closest near miss is the same in snapshots that agree on the
/// candidates' paths.
pub proof fn lemma_closest_reads_only_candidates(
    cands: Seq<CandidateView>,
    first: Seq<(Seq<char>, Option<Seq<char>>)>,
    second: Seq<(Seq<char>, Option<Seq<char>>)>,
    n: nat,
)
    requires
        agree_on(first, second, candidate_paths(cands)),
    ensures
        closest(cands, first, n) == closest(cands, second, n),
    decreases n,
{
    if n > 0 && n <= cands.len() {
        lemma_closest_reads_only_candidates(cands, first, second, (n - 1) as nat);
        assert(candidate_paths(cands)[n - 1] == cands[n - 1].path);
    }
}

/// The search of a theme asks for nothing but the consulted paths: it finds
/// the same in snapshots that agree on them.
pub proof fn lemma_search_theme_reads_only_consulted(
    theme: ThemeView,
    bases: Seq<Seq<char>>,
    first: Seq<(Seq<char>, Option<Seq<char>>)>,
    second: Seq<(Seq<char>, Option<Seq<char>>)>,
    icon: Seq<char>,
    size: int,
    scale: int,
)
    requires
        agree_on(first, second, consulted(theme, bases, icon, size, scale)),
    ensures
        search_theme(theme, bases, first, icon, size, scale) == search_theme(
            theme,
            bases,
            second,
            icon,
            size,
            scale,
        ),
    decreases theme, theme.inherits.len() + 2,
{
    let cands = candidates_of(theme, theme.directories, bases, icon, size, scale);
    lemma_agree_on_parts(
        first,
        second,
        candidate_paths(cands),
        consulted_by_parents(theme, 0, bases, icon, size, scale),
    );
    assert(hits(cands, first) =~= hits(cands, second)) by {
        assert forall|i: int| 0 <= i < cands.len() implies hits(cands, first)[i] == hits(
            cands,
            second,
        )[i] by {
            assert(candidate_paths(cands)[i] == cands[i].path);
        }
    }
    lemma_closest_reads_only_candidates(cands, first, second, cands.len());
    lemma_search_parents_reads_only_consulted(theme, 0, bases, first, second, icon, size, scale);
}

/// The search of the inherited themes finds the same in snapshots that
/// agree on the paths it may ask for.
pub proof fn lemma_search_parents_reads_only_consulted(
    theme: ThemeView,
    from: nat,
    bases: Seq<Seq<char>>,
    first: Seq<(Seq<char>, Option<Seq<char>>)>,
    second: Seq<(Seq<char>, Option<Seq<char>>)>,
    icon: Seq<char>,
    size: int,
    scale: int,
)
    requires
        agree_on(first, second, consulted_by_parents(theme, from, bases, icon, size, scale)),
    ensures
        search_parents(theme, from, bases, first, icon, size, scale) == search_parents(
            theme,
            from,
            bases,
            second,
            icon,
            size,
            scale,
        ),
    decreases theme, theme.inherits.len() - from + 1,
{
    if from < theme.inherits.len() {
        lemma_agree_on_parts(
            first,
            second,
            consulted(theme.inherits[from as int], bases, icon, size, scale),
            consulted_by_parents(theme, from + 1, bases, icon, size, scale),
        );
        lemma_search_theme_reads_only_consulted(
            theme.inherits[from as int],
            bases,
            first,
            second,
            icon,
            size,
            scale,
        );
        lemma_search_parents_reads_only_consulted(
            theme,
            from + 1,
            bases,
            first,
            second,
            icon,
            size,
            scale,
        );
    }
}

/// A lookup asks for nothing but the consulted paths: it finds the same in
/// snapshots that agree on them.
pub proof fn lemma_find_reads_only_consulted(
    theme: ThemeView,
    fallback: ThemeView,
    bases: Seq<Seq<char>>,
    first: Seq<(Seq<char>, Option<Seq<char>>)>,
    second: Seq<(Seq<char>, Option<Seq<char>>)>,
    icon: Seq<char>,
    size: int,
    scale: int,
)
    requires
        agree_on(first, second, consulted_by_find(theme, fallback, bases, icon, size, scale)),
    ensures
        find_spec(theme, fallback, bases, first, icon, size, scale) == find_spec(
            theme,
            fallback,
            bases,
            second,
            icon,
            size,
            scale,
        ),
{
    let of_theme = consulted(theme, bases, icon, size, scale);
    let of_fallback = consulted(fallback, bases, icon, size, scale);
    let plain = plain_candidates(bases, icon);
    lemma_agree_on_parts(first, second, of_theme + of_fallback, plain);
    lemma_agree_on_parts(first, second, of_theme, of_fallback);
    lemma_search_theme_reads_only_consulted(theme, bases, first, second, icon, size, scale);
    lemma_search_theme_reads_only_consulted(fallback, bases, first, second, icon, size, scale);
    assert(plain.map_values(|p: Seq<char>| present(first, p)) =~= plain.map_values(
        |p: Seq<char>| present(second, p),
    ));
}

/// Lists the paths whose existence the search of `theme` may ask for.
pub fn list_consulted(icon: &str, size: i32, scale: i32, theme: &Theme, bases: &Vec<String>) -> (out:
    Vec<String>)
    ensures
        texts(out@) == consulted(theme@, texts(bases@), icon@, size as int, scale as int),
    decreases theme,
{
    let mut cands = list_candidates(icon, size, scale, theme, bases);
    let ghost own = candidate_paths(candidate_views(cands@));
    let mut out: Vec<String> = Vec::new();
    let mut k: usize = 0;
    let n = cands.len();
    assert(texts(out@) =~= own.take(0));
    while k < n
        invariant
            k <= n,
            n == cands.len(),
            own == candidate_paths(candidate_views(cands@)),
            texts(out@) == own.take(k as int),
        decreases n - k,
    {
        let path = cands[k].path.clone();
        proof {
            assert(candidate_views(cands@)[k as int] == cands@[k as int]@);
            assert(own[k as int] == path@);
            assert(texts(out@.push(path)) =~= texts(out@).push(path@));
            assert(own.take(k + 1) =~= own.take(k as int).push(own[k as int]));
        }
        out.push(path);
        k += 1;
    }
    assert(own.take(n as int) =~= own);
    proof {
        lemma_theme_view(*theme);
        assert(texts(out@) + Seq::<Seq<char>>::empty() =~= texts(out@));
    }
    let mut i: usize = theme.inherits.len();
    let mut tail: Vec<String> = Vec::new();
    assert(texts(tail@) =~= Seq::<Seq<char>>::empty());
    while i > 0
        invariant
            i <= theme.inherits.len(),
            theme@.inherits == theme_views(theme.inherits@),
            texts(tail@) == consulted_by_parents(
                theme@,
                i as nat,
                texts(bases@),
                icon@,
                size as int,
                scale as int,
            ),
        decreases i,
    {
        i -= 1;
        let mut of_parent = list_consulted(icon, size, scale, &theme.inherits[i], bases);
        assert(theme@.inherits[i as int] == theme.inherits@[i as int]@);
        append_strings(&mut of_parent, &mut tail);
        tail = of_parent;
    }
    append_strings(&mut out, &mut tail);
    out
}

/// Moves the strings of `more` to the end of `all`.
fn append_strings(all: &mut Vec<String>, more: &mut Vec<String>)
    ensures
        texts(final(all)@) == texts(old(all)@) + texts(old(more)@),
        final(more)@.len() == 0,
{
    all.append(more);
    assert(texts(all@) =~= texts(old(all)@) + texts(old(more)@));
}

/// Lists the paths whose existence a lookup may ask for.
pub fn list_consulted_by_find(
    icon: &str,
    size: i32,
    scale: i32,
    theme: &Theme,
    fallback: &Theme,
    bases: &Vec<String>,
) -> (out: Vec<String>)
    ensures
        texts(out@) == consulted_by_find(
            theme@,
            fallback@,
            texts(bases@),
            icon@,
            size as int,
            scale as int,
        ),
{
    let mut out = list_consulted(icon, size, scale, theme, bases);
    let mut of_fallback = list_consulted(icon, size, scale, fallback, bases);
    let mut plain = list_plain_candidates(icon, bases);
    append_strings(&mut out, &mut of_fallback);
    append_strings(&mut out, &mut plain);
    out
}

} // verus!
