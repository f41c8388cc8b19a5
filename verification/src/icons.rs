//! The engine: a cache of resolved lookups in front of the search, emptied
//! when the system's icon theme changes.

use vstd::prelude::*;
use vstd::string::StringExecFns;
use crate::descriptor::DirectorySizing;
use crate::files::{Files, FILE_MANAGER_THEME_NAME};
use crate::search::{consulted_by_find, find_icon, find_spec, list_consulted_by_find};
use crate::sizing::SizingPolicy;
use crate::text::{
    from_chars, remove_each, texts, to_chars, trim_end, trim_start, trimmed_end, trimmed_start,
    without,
};
use crate::theme::{lemma_theme_view, loaded, theme_views, Theme, ThemeView};

verus! {

/// The number of seconds that must pass after a check of the system's theme
/// before the next one.
pub const CHECK_INTERVAL: u64 = 5;

/// The key of a cached lookup.
#[derive(Clone, Debug)]
pub struct Lookup {
    pub icon: String,
    pub size: i32,
    pub scale: i32,
    pub theme: String,
}

/// The mathematical content of a [`Lookup`]. Two keys are the same exactly
/// when all four fields agree.
pub ghost struct LookupView {
    pub theme: Seq<char>,
    pub icon: Seq<char>,
    pub size: int,
    pub scale: int,
}

impl View for Lookup {
    type V = LookupView;

    open spec fn view(&self) -> LookupView {
        LookupView {
            theme: self.theme@,
            icon: self.icon@,
            size: self.size as int,
            scale: self.scale as int,
        }
    }
}

impl Lookup {
    /// The key for `icon` at `size` and `scale` in `theme`.
    pub fn new(theme: &str, icon: &str, size: i32, scale: i32) -> (key: Lookup)
        ensures
            key@ == (LookupView {
                theme: theme@,
                icon: icon@,
                size: size as int,
                scale: scale as int,
            }),
    {
        Lookup { theme: String::from_str(theme), icon: String::from_str(icon), size, scale }
    }

    /// Whether two keys are the same.
    pub fn same_as(&self, other: &Lookup) -> (r: bool)
        ensures
            r == (self@ == other@),
    {
        self.size == other.size && self.scale == other.scale && self.theme.as_str().eq(
            other.theme.as_str(),
        ) && self.icon.as_str().eq(other.icon.as_str())
    }
}

/// Why a lookup failed.
#[derive(Debug)]
pub enum IconLookupFailure {
    /// No descriptor could be read for the named theme.
    ThemeMissing(String),
    /// The icon was found in no theme and outside none.
    IconResolutionFailed(Lookup),
}

/// The mathematical content of an [`IconLookupFailure`].
pub ghost enum FailureView {
    ThemeMissing(Seq<char>),
    IconResolutionFailed(LookupView),
}

impl View for IconLookupFailure {
    type V = FailureView;

    open spec fn view(&self) -> FailureView {
        match self {
            IconLookupFailure::ThemeMissing(name) => FailureView::ThemeMissing(name@),
            IconLookupFailure::IconResolutionFailed(key) => FailureView::IconResolutionFailed(key@),
        }
    }
}

/// The content of the result of a lookup.
pub open spec fn outcome_view(r: Result<String, IconLookupFailure>) -> Result<
    Seq<char>,
    FailureView,
> {
    match r {
        Ok(path) => Ok(path@),
        Err(e) => Err(e@),
    }
}

/// One cached lookup: the key, and the path found or `None` for a lookup
/// that failed.
#[derive(Clone, Debug)]
pub struct CacheEntry {
    pub lookup: Lookup,
    pub path: Option<String>,
}

/// The content of an optional string.
pub open spec fn opt_text(s: Option<String>) -> Option<Seq<char>> {
    match s {
        Some(t) => Some(t@),
        None => None,
    }
}

/// The views of a sequence of cache entries.
pub open spec fn cache_view(v: Seq<CacheEntry>) -> Seq<(LookupView, Option<Seq<char>>)> {
    v.map_values(|e: CacheEntry| (e.lookup@, opt_text(e.path)))
}

/// What a cache holds for `key`: `None` if the lookup was never attempted,
/// `Some(None)` if it failed, `Some(Some(path))` if it resolved to `path`.
/// Of several entries for a key the last counts.
pub open spec fn cached(cache: Seq<(LookupView, Option<Seq<char>>)>, key: LookupView) -> Option<
    Option<Seq<char>>,
>
    decreases cache.len(),
{
    if cache.len() == 0 {
        None
    } else if cache.last().0 == key {
        Some(cache.last().1)
    } else {
        cached(cache.drop_last(), key)
    }
}

/// The theme of the given name in a table of themes. Of several themes of a
/// name the last counts.
pub open spec fn theme_named(themes: Seq<ThemeView>, name: Seq<char>) -> Option<ThemeView>
    decreases themes.len(),
{
    if themes.len() == 0 {
        None
    } else if themes.last().name == name {
        Some(themes.last())
    } else {
        theme_named(themes.drop_last(), name)
    }
}

/// The theme that ships with the application: three directories, none
/// inherited.
pub open spec fn application_theme() -> ThemeView {
    ThemeView {
        name: FILE_MANAGER_THEME_NAME@,
        directories: seq!["places"@, "mimetypes"@, "scalable"@],
        inherits: Seq::empty(),
        sizing: seq![
            ("places"@, SizingPolicy::Fixed(256)),
            ("mimetypes"@, SizingPolicy::Fixed(256)),
            ("scalable"@, SizingPolicy::Scalable(32)),
        ],
    }
}

/// An empty theme named `hicolor`, for systems that have no such theme.
pub open spec fn fallback_stub() -> ThemeView {
    ThemeView {
        name: "hicolor"@,
        directories: Seq::empty(),
        inherits: Seq::empty(),
        sizing: Seq::empty(),
    }
}

/// The themes an engine starts with: the application's, and the stub of the
/// fallback theme if asked for.
pub open spec fn default_themes(stub_fallback: bool) -> Seq<ThemeView> {
    if stub_fallback {
        seq![application_theme(), fallback_stub()]
    } else {
        seq![application_theme()]
    }
}

/// Builds the themes an engine starts with.
pub fn create_default_themes(stub_fallback: bool) -> (themes: Vec<Theme>)
    ensures
        theme_views(themes@) == default_themes(stub_fallback),
{
    let mut directories: Vec<String> = Vec::new();
    directories.push(String::from_str("places"));
    directories.push(String::from_str("mimetypes"));
    directories.push(String::from_str("scalable"));
    let mut sizing: Vec<DirectorySizing> = Vec::new();
    sizing.push(
        DirectorySizing { name: String::from_str("places"), policy: SizingPolicy::Fixed(256) },
    );
    sizing.push(
        DirectorySizing { name: String::from_str("mimetypes"), policy: SizingPolicy::Fixed(256) },
    );
    sizing.push(
        DirectorySizing { name: String::from_str("scalable"), policy: SizingPolicy::Scalable(32) },
    );
    let application = Theme {
        name: String::from_str(FILE_MANAGER_THEME_NAME),
        directories,
        inherits: Vec::new(),
        sizing,
    };
    proof {
        lemma_theme_view(application);
        assert(application@.directories =~= application_theme().directories);
        assert(application@.sizing =~= application_theme().sizing);
        assert(application@.inherits =~= application_theme().inherits);
    }
    let mut themes: Vec<Theme> = Vec::new();
    themes.push(application);
    if stub_fallback {
        let stub = Theme {
            name: String::from_str("hicolor"),
            directories: Vec::new(),
            inherits: Vec::new(),
            sizing: Vec::new(),
        };
        proof {
            lemma_theme_view(stub);
            assert(stub@.directories =~= fallback_stub().directories);
            assert(stub@.sizing =~= fallback_stub().sizing);
            assert(stub@.inherits =~= fallback_stub().inherits);
        }
        themes.push(stub);
    }
    assert(theme_views(themes@) =~= default_themes(stub_fallback));
    themes
}

/// What a lookup is run against: the time, the icon theme the system is set
/// to, the base directories, and what was found below them, in two
/// snapshots: one of the theme descriptors, one of the icon files.
#[derive(Debug)]
pub struct Environment {
    /// Seconds since the epoch.
    pub now: u64,
    /// The name of the system's icon theme, as last read.
    pub theme_name: String,
    /// The base directories, in priority order.
    pub bases: Vec<String>,
    /// The theme descriptors that were found, with their text.
    pub descriptors: Files,
    /// The icon files that exist.
    pub files: Files,
}

/// The mathematical content of an [`Environment`].
pub ghost struct EnvironmentView {
    pub now: int,
    pub theme_name: Seq<char>,
    pub bases: Seq<Seq<char>>,
    pub descriptors: Seq<(Seq<char>, Option<Seq<char>>)>,
    pub files: Seq<(Seq<char>, Option<Seq<char>>)>,
}

impl View for Environment {
    type V = EnvironmentView;

    open spec fn view(&self) -> EnvironmentView {
        EnvironmentView {
            now: self.now as int,
            theme_name: self.theme_name@,
            bases: texts(self.bases@),
            descriptors: self.descriptors@,
            files: self.files@,
        }
    }
}

/// The engine's state, with public fields: what is written to and read from
/// the cache file.
#[derive(Debug)]
pub struct SavedIcons {
    pub cache: Vec<CacheEntry>,
    pub cache_mtime: u64,
    pub cache_mtime_last_check: u64,
    pub cache_is_stale: bool,
    pub current_theme_name: String,
    pub themes: Vec<Theme>,
    pub stub_fallback: bool,
}

/// The engine.
#[derive(Debug)]
pub struct Icons {
    cache: Vec<CacheEntry>,
    cache_mtime: u64,
    cache_mtime_last_check: u64,
    cache_is_stale: bool,
    current_theme_name: String,
    themes: Vec<Theme>,
    stub_fallback: bool,
}

/// The mathematical content of an engine.
pub ghost struct IconsView {
    /// The cached lookups, oldest first.
    pub cache: Seq<(LookupView, Option<Seq<char>>)>,
    /// The loaded themes, oldest first.
    pub themes: Seq<ThemeView>,
    /// When the cache was last found stale.
    pub cache_mtime: int,
    /// When the system's theme was last checked.
    pub last_check: int,
    /// Whether the cache was found stale and not flushed since.
    pub stale: bool,
    /// The name of the theme that lookups are made in.
    pub theme_name: Seq<char>,
    /// Whether a flush seeds an empty fallback theme.
    pub stub_fallback: bool,
}

impl View for SavedIcons {
    type V = IconsView;

    open spec fn view(&self) -> IconsView {
        IconsView {
            cache: cache_view(self.cache@),
            themes: theme_views(self.themes@),
            cache_mtime: self.cache_mtime as int,
            last_check: self.cache_mtime_last_check as int,
            stale: self.cache_is_stale,
            theme_name: self.current_theme_name@,
            stub_fallback: self.stub_fallback,
        }
    }
}

impl View for Icons {
    type V = IconsView;

    closed spec fn view(&self) -> IconsView {
        IconsView {
            cache: cache_view(self.cache@),
            themes: theme_views(self.themes@),
            cache_mtime: self.cache_mtime as int,
            last_check: self.cache_mtime_last_check as int,
            stale: self.cache_is_stale,
            theme_name: self.current_theme_name@,
            stub_fallback: self.stub_fallback,
        }
    }
}

/// An engine is well formed when the application's theme is loaded, and its
/// two times are times a clock of 64 bits can show.
pub open spec fn well_formed(v: IconsView) -> bool {
    &&& theme_named(v.themes, FILE_MANAGER_THEME_NAME@) is Some
    &&& 0 <= v.cache_mtime <= u64::MAX
    &&& 0 <= v.last_check <= u64::MAX
}

/// The state of a new engine for the theme `theme_name`.
pub open spec fn fresh(theme_name: Seq<char>, stub_fallback: bool) -> IconsView {
    IconsView {
        cache: Seq::empty(),
        themes: default_themes(stub_fallback),
        cache_mtime: 0,
        last_check: 0,
        stale: false,
        theme_name,
        stub_fallback,
    }
}

/// Whether a check of the system's theme at time `now` is skipped: fewer
/// than [`CHECK_INTERVAL`] seconds have passed since the last one.
pub open spec fn throttled(v: IconsView, now: int) -> bool {
    now - v.last_check < CHECK_INTERVAL
}

/// What a staleness check at time `now` answers when the system's theme is
/// `live`: while throttled, what was found last; else whether the theme
/// has changed.
pub open spec fn check_result(v: IconsView, now: int, live: Seq<char>) -> bool {
    if throttled(v, now) {
        v.stale
    } else {
        live != v.theme_name
    }
}

/// The state after a staleness check. While throttled nothing changes. Else
/// the time of the check is recorded, and a changed theme is adopted and
/// the cache marked stale.
pub open spec fn after_check(v: IconsView, now: int, live: Seq<char>) -> IconsView {
    if throttled(v, now) {
        v
    } else if live != v.theme_name {
        IconsView { theme_name: live, last_check: now, cache_mtime: now, stale: true, ..v }
    } else {
        IconsView { last_check: now, ..v }
    }
}

/// The state after a flush: no cached lookup, the default themes alone, and
/// not stale.
pub open spec fn flushed(v: IconsView) -> IconsView {
    IconsView {
        cache: Seq::empty(),
        themes: default_themes(v.stub_fallback),
        stale: false,
        ..v
    }
}

/// The key under which the engine caches a request.
pub open spec fn key_of(v: IconsView, icon: Seq<char>, size: int, scale: int) -> LookupView {
    LookupView { theme: v.theme_name, icon, size, scale }
}

impl Icons {
    /// Whether the engine is well formed.
    pub open spec fn wf(&self) -> bool {
        well_formed(self@)
    }

    /// A new engine for the theme `theme_name`, with nothing cached.
    pub fn new(theme_name: &str, stub_fallback: bool) -> (icons: Icons)
        ensures
            icons.wf(),
            icons@ == fresh(theme_name@, stub_fallback),
    {
        let icons = Icons {
            cache: Vec::new(),
            cache_mtime: 0,
            cache_mtime_last_check: 0,
            cache_is_stale: false,
            current_theme_name: String::from_str(theme_name),
            themes: create_default_themes(stub_fallback),
            stub_fallback,
        };
        proof {
            assert(icons@.cache =~= Seq::empty());
            lemma_default_themes_hold_application(stub_fallback);
        }
        icons
    }

    /// Tests whether the engine is well formed.
    pub fn is_well_formed(&self) -> (r: bool)
        ensures
            r == self.wf(),
    {
        self.theme_index(FILE_MANAGER_THEME_NAME).is_some()
    }

    /// When the cache was last found stale, in seconds since the epoch.
    pub fn get_cache_mtime(&self) -> (t: u64)
        ensures
            t == self@.cache_mtime,
    {
        self.cache_mtime
    }

    /// The name of the theme that lookups are made in.
    pub fn theme_name(&self) -> (name: &String)
        ensures
            name@ == self@.theme_name,
    {
        &self.current_theme_name
    }

    /// Whether a staleness check at time `now` would consult the system's
    /// theme.
    pub fn check_is_due(&self, now: u64) -> (due: bool)
        ensures
            due == !throttled(self@, now as int),
    {
        !(now < self.cache_mtime_last_check || now - self.cache_mtime_last_check
            < CHECK_INTERVAL)
    }

    /// Checks at time `now` whether the cache is stale, given the name
    /// `live` of the system's icon theme. The name is consulted only when
    /// the check is due.
    pub fn cache_is_stale(&mut self, now: u64, live: &str) -> (stale: bool)
        requires
            old(self).wf(),
        ensures
            final(self).wf(),
            final(self)@ == after_check(old(self)@, now as int, live@),
            stale == check_result(old(self)@, now as int, live@),
    {
        if !self.check_is_due(now) {
            return self.cache_is_stale;
        }
        if !live.eq(self.current_theme_name.as_str()) {
            self.current_theme_name = String::from_str(live);
            self.cache_mtime_last_check = now;
            self.cache_mtime = now;
            self.cache_is_stale = true;
            return true;
        }
        self.cache_mtime_last_check = now;
        false
    }

    /// Forgets every cached lookup and every loaded theme but the default
    /// ones.
    pub fn flush_cache(&mut self)
        ensures
            final(self).wf(),
            final(self)@ == flushed(old(self)@),
    {
        self.cache_is_stale = false;
        self.cache = Vec::new();
        self.themes = create_default_themes(self.stub_fallback);
        proof {
            assert(final(self)@.cache =~= Seq::empty());
            lemma_default_themes_hold_application(self.stub_fallback);
        }
    }

    /// What the cache holds for a request in the current theme.
    pub fn get_cached(&self, icon: &str, size: i32, scale: i32) -> (r: Option<Option<String>>)
        ensures
            r is Some <==> cached(self@.cache, key_of(self@, icon@, size as int, scale as int))
                is Some,
            r is Some ==> opt_text(r->0) == cached(
                self@.cache,
                key_of(self@, icon@, size as int, scale as int),
            )->0,
    {
        let key = Lookup::new(self.current_theme_name.as_str(), icon, size, scale);
        match self.cache_index(&key) {
            Some(i) => Some(self.cache[i].path.clone()),
            None => None,
        }
    }

    /// The position of the entry that counts for `key`, if there is one.
    fn cache_index(&self, key: &Lookup) -> (r: Option<usize>)
        ensures
            match r {
                Some(i) => i < self.cache@.len() && cached(self@.cache, key@) == Some(
                    opt_text(self.cache@[i as int].path),
                ),
                None => cached(self@.cache, key@) is None,
            },
    {
        let mut i: usize = self.cache.len();
        assert(self@.cache.take(i as int) =~= self@.cache);
        while i > 0
            invariant
                i <= self.cache.len(),
                cached(self@.cache, key@) == cached(self@.cache.take(i as int), key@),
            decreases i,
        {
            let ghost upto = self@.cache.take(i as int);
            assert(upto.last() == (self.cache@[i - 1].lookup@, opt_text(self.cache@[i - 1].path)));
            assert(upto.drop_last() =~= self@.cache.take(i - 1));
            if self.cache[i - 1].lookup.same_as(key) {
                return Some(i - 1);
            }
            i -= 1;
        }
        None
    }

    /// The position of the theme that counts for `name`, if there is one.
    fn theme_index(&self, name: &str) -> (r: Option<usize>)
        ensures
            match r {
                Some(i) => i < self.themes@.len() && theme_named(self@.themes, name@) == Some(
                    self.themes@[i as int]@,
                ),
                None => theme_named(self@.themes, name@) is None,
            },
    {
        let mut i: usize = self.themes.len();
        assert(self@.themes.take(i as int) =~= self@.themes);
        while i > 0
            invariant
                i <= self.themes.len(),
                theme_named(self@.themes, name@) == theme_named(
                    self@.themes.take(i as int),
                    name@,
                ),
            decreases i,
        {
            let ghost upto = self@.themes.take(i as int);
            assert(upto.last() == self.themes@[i - 1]@);
            assert(upto.drop_last() =~= self@.themes.take(i - 1));
            proof {
                lemma_theme_view(self.themes@[i - 1]);
            }
            if self.themes[i - 1].name.as_str().eq(name) {
                return Some(i - 1);
            }
            i -= 1;
        }
        None
    }
}

/// A theme added to a table is the one found under its name; under every
/// other name the table answers as before.
pub proof fn lemma_theme_named_push(themes: Seq<ThemeView>, theme: ThemeView, name: Seq<char>)
    ensures
        theme_named(themes.push(theme), name) == if theme.name == name {
            Some(theme)
        } else {
            theme_named(themes, name)
        },
{
    assert(themes.push(theme).drop_last() =~= themes);
}

/// The default themes hold the application's theme.
pub proof fn lemma_default_themes_hold_application(stub_fallback: bool)
    ensures
        theme_named(default_themes(stub_fallback), FILE_MANAGER_THEME_NAME@) is Some,
{
    let none = Seq::<ThemeView>::empty();
    lemma_theme_named_push(none, application_theme(), FILE_MANAGER_THEME_NAME@);
    assert(none.push(application_theme()) =~= seq![application_theme()]);
    if stub_fallback {
        lemma_theme_named_push(
            seq![application_theme()],
            fallback_stub(),
            FILE_MANAGER_THEME_NAME@,
        );
        assert(seq![application_theme()].push(fallback_stub()) =~= default_themes(true));
    }
}

/// The table of themes once the theme `name` is loaded: the table itself if
/// it holds the theme; else the table with the theme added as loaded from
/// the snapshot, the application's theme appended to the themes it inherits
/// from. `None` if the theme is not in the table and does not load.
pub open spec fn with_theme(
    themes: Seq<ThemeView>,
    name: Seq<char>,
    bases: Seq<Seq<char>>,
    descriptors: Seq<(Seq<char>, Option<Seq<char>>)>,
) -> Option<Seq<ThemeView>> {
    if theme_named(themes, name) is Some {
        Some(themes)
    } else {
        match loaded(name, bases, descriptors, Seq::empty()) {
            Some(theme) => Some(
                themes.push(
                    ThemeView {
                        inherits: theme.inherits.push(
                            theme_named(themes, FILE_MANAGER_THEME_NAME@)->0,
                        ),
                        ..theme
                    },
                ),
            ),
            None => None,
        }
    }
}

/// The table of themes once the fallback theme `hicolor` is loaded: the
/// table itself if it holds the theme, else the table with the theme added
/// as loaded. `None` if the theme is not in the table and does not load.
pub open spec fn with_fallback(
    themes: Seq<ThemeView>,
    bases: Seq<Seq<char>>,
    descriptors: Seq<(Seq<char>, Option<Seq<char>>)>,
) -> Option<Seq<ThemeView>> {
    if theme_named(themes, "hicolor"@) is Some {
        Some(themes)
    } else {
        match loaded("hicolor"@, bases, descriptors, Seq::empty()) {
            Some(theme) => Some(themes.push(theme)),
            None => None,
        }
    }
}

/// The result that a cached or computed answer stands for.
pub open spec fn outcome_of(key: LookupView, answer: Option<Seq<char>>) -> Result<
    Seq<char>,
    FailureView,
> {
    match answer {
        Some(path) => Ok(path),
        None => Err(FailureView::IconResolutionFailed(key)),
    }
}

/// The state and the result after a request is resolved, without a
/// staleness check. A cached answer is returned and nothing changes. Else
/// the current theme and the fallback theme are loaded as far as they are
/// not; if one is missing the request fails and nothing is cached; else the
/// icon is searched and the answer, found or not, is cached.
pub open spec fn resolved(
    v: IconsView,
    icon: Seq<char>,
    size: int,
    scale: int,
    bases: Seq<Seq<char>>,
    descriptors: Seq<(Seq<char>, Option<Seq<char>>)>,
    files: Seq<(Seq<char>, Option<Seq<char>>)>,
) -> (IconsView, Result<Seq<char>, FailureView>) {
    let key = key_of(v, icon, size, scale);
    match cached(v.cache, key) {
        Some(answer) => (v, outcome_of(key, answer)),
        None => match with_theme(v.themes, v.theme_name, bases, descriptors) {
            None => (v, Err(FailureView::ThemeMissing(v.theme_name))),
            Some(themed) => match with_fallback(themed, bases, descriptors) {
                None => (
                    IconsView { themes: themed, ..v },
                    Err(FailureView::ThemeMissing("hicolor"@)),
                ),
                Some(themes) => {
                    let answer = find_spec(
                        theme_named(themed, v.theme_name)->0,
                        theme_named(themes, "hicolor"@)->0,
                        bases,
                        files,
                        icon,
                        size,
                        scale,
                    );
                    (
                        IconsView { themes, cache: v.cache.push((key, answer)), ..v },
                        outcome_of(key, answer),
                    )
                },
            },
        },
    }
}

/// The state and the result after a lookup: the cache is checked for
/// staleness and flushed if it is stale, then the request is resolved.
pub open spec fn found(
    v: IconsView,
    icon: Seq<char>,
    size: int,
    scale: int,
    env: EnvironmentView,
) -> (IconsView, Result<Seq<char>, FailureView>) {
    let checked = after_check(v, env.now, env.theme_name);
    let current = if check_result(v, env.now, env.theme_name) {
        flushed(checked)
    } else {
        checked
    };
    resolved(current, icon, size, scale, env.bases, env.descriptors, env.files)
}

impl Icons {
    /// Makes sure the theme `name` is in the table and returns its
    /// position, or `None` if it is not and does not load. With `adopt` the
    /// theme is loaded as the current theme, the application's theme
    /// appended to its parents; without, as the fallback theme.
    fn ensure_theme(
        &mut self,
        name: &str,
        adopt: bool,
        bases: &Vec<String>,
        descriptors: &Files,
    ) -> (r: Option<usize>)
        requires
            old(self).wf(),
            !adopt ==> name@ == "hicolor"@,
        ensures
            final(self).wf(),
            final(self)@ == (IconsView { themes: final(self)@.themes, ..old(self)@ }),
            final(self).cache@ == old(self).cache@,
            match r {
                Some(i) => {
                    &&& i < final(self).themes@.len()
                    &&& theme_named(final(self)@.themes, name@) == Some(
                        final(self).themes@[i as int]@,
                    )
                    &&& old(self).themes@.len() <= final(self).themes@.len()
                    &&& forall|j: int|
                        0 <= j < old(self).themes@.len() ==> final(self).themes@[j] == old(
                            self,
                        ).themes@[j]
                    &&& Some(final(self)@.themes) == if adopt {
                        with_theme(old(self)@.themes, name@, texts(bases@), descriptors@)
                    } else {
                        with_fallback(old(self)@.themes, texts(bases@), descriptors@)
                    }
                },
                None => {
                    &&& final(self)@ == old(self)@
                    &&& final(self).themes@ == old(self).themes@
                    &&& theme_named(old(self)@.themes, name@) is None
                    &&& loaded(name@, texts(bases@), descriptors@, Seq::empty()) is None
                },
            },
    {
        if let Some(i) = self.theme_index(name) {
            return Some(i);
        }
        match Theme::load(name, bases, descriptors) {
            None => None,
            Some(mut theme) => {
                let ghost plain = theme@;
                let ghost before = self@.themes;
                proof {
                    lemma_theme_view(theme);
                }
                if adopt {
                    let k = self.theme_index(FILE_MANAGER_THEME_NAME).unwrap();
                    let application = self.themes[k].duplicate();
                    theme.inherits.push(application);
                    proof {
                        lemma_theme_view(theme);
                        assert(theme@.inherits =~= plain.inherits.push(application@));
                    }
                }
                proof {
                    lemma_theme_named_push(before, theme@, name@);
                    lemma_theme_named_push(before, theme@, FILE_MANAGER_THEME_NAME@);
                    assert(theme_views(self.themes@.push(theme)) =~= before.push(theme@));
                }
                self.themes.push(theme);
                Some(self.themes.len() - 1)
            },
        }
    }

    /// Resolves a request without a staleness check: from the cache if the
    /// request was resolved before, else by a search whose answer is cached.
    pub fn resolve(&mut self, icon: &str, size: i32, scale: i32, env: &Environment) -> (r: Result<
        String,
        IconLookupFailure,
    >)
        requires
            old(self).wf(),
        ensures
            final(self).wf(),
            (final(self)@, outcome_view(r)) == resolved(
                old(self)@,
                icon@,
                size as int,
                scale as int,
                env@.bases,
                env@.descriptors,
                env@.files,
            ),
    {
        let key = Lookup::new(self.current_theme_name.as_str(), icon, size, scale);
        if let Some(i) = self.cache_index(&key) {
            return match &self.cache[i].path {
                Some(path) => Ok(path.clone()),
                None => Err(IconLookupFailure::IconResolutionFailed(key)),
            };
        }
        let name = self.current_theme_name.clone();
        let themed = match self.ensure_theme(name.as_str(), true, &env.bases, &env.descriptors) {
            Some(i) => i,
            None => {
                return Err(IconLookupFailure::ThemeMissing(name));
            },
        };
        let ghost with_current = self@.themes;
        let generic = match self.ensure_theme("hicolor", false, &env.bases, &env.descriptors) {
            Some(i) => i,
            None => {
                return Err(IconLookupFailure::ThemeMissing(String::from_str("hicolor")));
            },
        };
        let answer = find_icon(
            icon,
            size,
            scale,
            &self.themes[themed],
            &self.themes[generic],
            &env.bases,
            &env.files,
        );
        let ghost cache_before = self@.cache;
        let kept = match &answer {
            Some(path) => Some(path.clone()),
            None => None,
        };
        let entry = CacheEntry {
            lookup: Lookup::new(name.as_str(), icon, size, scale),
            path: kept,
        };
        assert(cache_view(self.cache@.push(entry)) =~= cache_before.push(
            (entry.lookup@, opt_text(entry.path)),
        ));
        self.cache.push(entry);
        match answer {
            Some(path) => Ok(path),
            None => Err(IconLookupFailure::IconResolutionFailed(key)),
        }
    }

    /// Looks an icon up in the current theme: checks the cache for
    /// staleness, flushes it if it is stale, and resolves the request.
    pub fn find(&mut self, icon: &str, size: i32, scale: i32, env: &Environment) -> (r: Result<
        String,
        IconLookupFailure,
    >)
        requires
            old(self).wf(),
        ensures
            final(self).wf(),
            (final(self)@, outcome_view(r)) == found(
                old(self)@,
                icon@,
                size as int,
                scale as int,
                env@,
            ),
    {
        if self.cache_is_stale(env.now, env.theme_name.as_str()) {
            self.flush_cache();
        }
        self.resolve(icon, size, scale, env)
    }
}

/// The icons looked up ahead of any request, at 256 pixels and scale 1.
pub const COMMON_MIME_TYPES: [&'static str; 29] = [
    "folder",
    "folder-music",
    "folder-pictures",
    "folder-documents",
    "folder-download",
    "user-desktop",
    "folder-publicshare",
    "folder-templates",
    "folder-videos",
    "text-plain",
    "text-html",
    "application-json",
    "application-xml",
    "application-pdf",
    "image-jpeg",
    "image-png",
    "audio-mpeg",
    "audio-ogg",
    "video-mp4",
    "video-quicktime",
    "application-octet-stream",
    "application-vnd.ms-excel",
    "application-vnd.ms-powerpoint",
    "application-vnd.openxmlformats-officedocument.wordprocessingml.document",
    "application-x-www-form-urlencoded",
    "multipart-form-data",
    "application-zip",
    "application-javascript",
    "text-css",
];

/// The names of the icons looked up ahead of any request.
pub open spec fn common_names() -> Seq<Seq<char>> {
    COMMON_MIME_TYPES@.map_values(|name: &'static str| name@)
}

/// The state after the icons `names` are looked up one after the other,
/// each at 256 pixels and scale 1.
pub open spec fn warmed(v: IconsView, names: Seq<Seq<char>>, env: EnvironmentView) -> IconsView
    decreases names.len(),
{
    if names.len() == 0 {
        v
    } else {
        found(warmed(v, names.drop_last(), env), names.last(), 256, 1, env).0
    }
}

impl Icons {
    /// Looks the common icons up, so that later requests for them are
    /// answered from the cache. Failures are not reported.
    pub fn cache_common_mimetypes(&mut self, env: &Environment)
        requires
            old(self).wf(),
        ensures
            final(self).wf(),
            final(self)@ == warmed(old(self)@, common_names(), env@),
    {
        let mut i: usize = 0;
        assert(common_names().take(0) =~= Seq::<Seq<char>>::empty());
        while i < 29
            invariant
                i <= 29,
                self.wf(),
                self@ == warmed(old(self)@, common_names().take(i as int), env@),
            decreases 29 - i,
        {
            proof {
                let upto = common_names().take(i + 1);
                assert(upto.drop_last() =~= common_names().take(i as int));
                assert(upto.last() == COMMON_MIME_TYPES[i as int]@);
            }
            let _ = self.find(COMMON_MIME_TYPES[i], 256, 1, env);
            i += 1;
        }
        assert(common_names().take(29) =~= common_names());
    }
}

/// The theme name in the answer of the desktop's settings to a query for
/// the icon theme: the answer without its quotes and without the blanks
/// around it.
pub open spec fn setting_value(answer: Seq<char>) -> Seq<char> {
    trim_end(trim_start(without(answer, '\'')))
}

/// Extracts the theme name from the answer of the desktop's settings.
pub fn theme_name_from_setting(answer: &str) -> (name: String)
    ensures
        name@ == setting_value(answer@),
{
    let chars = to_chars(answer);
    let bare = remove_each(&chars, '\'');
    let start = trimmed_start(&bare);
    let end = trimmed_end(&bare, start);
    from_chars(&bare, start, end)
}

/// The state of the engine restored from a saved state: the saved state
/// itself if it is well formed, none if it is not.
pub open spec fn restored(saved: IconsView) -> Option<IconsView> {
    if well_formed(saved) {
        Some(saved)
    } else {
        None
    }
}

impl Icons {
    /// The name of the icon theme the desktop is set to, given the answer
    /// of the desktop's settings to a query for it; the name of the
    /// application's theme where there are no such settings to ask.
    pub fn get_current_theme_name(answer: Option<&str>) -> (name: String)
        ensures
            name@ == match answer {
                Some(text) => setting_value(text@),
                None => FILE_MANAGER_THEME_NAME@,
            },
    {
        match answer {
            Some(text) => theme_name_from_setting(text),
            None => String::from_str(FILE_MANAGER_THEME_NAME),
        }
    }
}

/// Copies a cache.
pub fn copy_cache(cache: &Vec<CacheEntry>) -> (r: Vec<CacheEntry>)
    ensures
        cache_view(r@) == cache_view(cache@),
{
    let mut r: Vec<CacheEntry> = Vec::new();
    let mut i: usize = 0;
    while i < cache.len()
        invariant
            i <= cache.len(),
            r.len() == i,
            forall|j: int|
                0 <= j < i ==> r@[j].lookup@ == cache@[j].lookup@ && opt_text(r@[j].path)
                    == opt_text(cache@[j].path),
        decreases cache.len() - i,
    {
        let e = &cache[i];
        let path = match &e.path {
            Some(p) => Some(p.clone()),
            None => None,
        };
        r.push(
            CacheEntry {
                lookup: Lookup::new(e.lookup.theme.as_str(), e.lookup.icon.as_str(), e.lookup.size, e.lookup.scale),
                path,
            },
        );
        i += 1;
    }
    assert(cache_view(r@) =~= cache_view(cache@));
    r
}

/// Copies a table of themes.
pub fn copy_themes(themes: &Vec<Theme>) -> (r: Vec<Theme>)
    ensures
        theme_views(r@) == theme_views(themes@),
{
    let mut r: Vec<Theme> = Vec::new();
    let mut i: usize = 0;
    while i < themes.len()
        invariant
            i <= themes.len(),
            r.len() == i,
            forall|j: int| 0 <= j < i ==> r@[j]@ == themes@[j]@,
        decreases themes.len() - i,
    {
        r.push(themes[i].duplicate());
        i += 1;
    }
    assert(theme_views(r@) =~= theme_views(themes@));
    r
}

impl Icons {
    /// The engine's state, for writing it to the cache file.
    pub fn export(&self) -> (saved: SavedIcons)
        ensures
            saved@ == self@,
    {
        SavedIcons {
            cache: copy_cache(&self.cache),
            cache_mtime: self.cache_mtime,
            cache_mtime_last_check: self.cache_mtime_last_check,
            cache_is_stale: self.cache_is_stale,
            current_theme_name: self.current_theme_name.clone(),
            themes: copy_themes(&self.themes),
            stub_fallback: self.stub_fallback,
        }
    }

    /// The engine with the given state, if that state is well formed.
    pub fn restore(saved: SavedIcons) -> (r: Option<Icons>)
        ensures
            r is Some <==> restored(saved@) is Some,
            r is Some ==> r->0.wf() && r->0@ == restored(saved@)->0,
    {
        let icons = Icons {
            cache: saved.cache,
            cache_mtime: saved.cache_mtime,
            cache_mtime_last_check: saved.cache_mtime_last_check,
            cache_is_stale: saved.cache_is_stale,
            current_theme_name: saved.current_theme_name,
            themes: saved.themes,
            stub_fallback: saved.stub_fallback,
        };
        if icons.is_well_formed() {
            Some(icons)
        } else {
            None
        }
    }

    /// The engine at startup: the one with the state read from the cache
    /// file, if a state was read and is well formed; else a new one for the
    /// theme `theme_name`.
    pub fn new_from_cbor(saved: Option<SavedIcons>, theme_name: &str, stub_fallback: bool) -> (icons:
        Icons)
        ensures
            icons.wf(),
            icons@ == match saved {
                Some(state) if restored(state@) is Some => restored(state@)->0,
                _ => fresh(theme_name@, stub_fallback),
            },
    {
        match saved {
            Some(state) => match Icons::restore(state) {
                Some(icons) => icons,
                None => Icons::new(theme_name, stub_fallback),
            },
            None => Icons::new(theme_name, stub_fallback),
        }
    }
}

/// The state once the themes that a request needs are loaded: unchanged if
/// the request's answer is cached or the current theme is missing; else
/// with the current theme in the table, and the fallback theme if it is
/// there to load.
pub open spec fn prepared(
    v: IconsView,
    icon: Seq<char>,
    size: int,
    scale: int,
    bases: Seq<Seq<char>>,
    descriptors: Seq<(Seq<char>, Option<Seq<char>>)>,
) -> IconsView {
    if cached(v.cache, key_of(v, icon, size, scale)) is Some {
        v
    } else {
        match with_theme(v.themes, v.theme_name, bases, descriptors) {
            None => v,
            Some(themed) => match with_fallback(themed, bases, descriptors) {
                None => IconsView { themes: themed, ..v },
                Some(themes) => IconsView { themes, ..v },
            },
        }
    }
}

/// The paths whose existence the resolving of a request may ask for: none
/// if the request's answer is cached or a theme is missing; else those
/// that the lookup in the current theme and the fallback theme consults.
pub open spec fn probed(
    v: IconsView,
    icon: Seq<char>,
    size: int,
    scale: int,
    bases: Seq<Seq<char>>,
    descriptors: Seq<(Seq<char>, Option<Seq<char>>)>,
) -> Seq<Seq<char>> {
    if cached(v.cache, key_of(v, icon, size, scale)) is Some {
        Seq::empty()
    } else {
        match with_theme(v.themes, v.theme_name, bases, descriptors) {
            None => Seq::empty(),
            Some(themed) => match with_fallback(themed, bases, descriptors) {
                None => Seq::empty(),
                Some(themes) => consulted_by_find(
                    theme_named(themed, v.theme_name)->0,
                    theme_named(themes, "hicolor"@)->0,
                    bases,
                    icon,
                    size,
                    scale,
                ),
            },
        }
    }
}

impl Icons {
    /// The names of the themes that a request would have loaded: the
    /// current theme and the fallback theme, as far as they are not loaded.
    pub fn themes_to_load(&self) -> (names: Vec<String>)
        ensures
            texts(names@) == (if theme_named(self@.themes, self@.theme_name) is None {
                seq![self@.theme_name]
            } else {
                Seq::<Seq<char>>::empty()
            }) + (if theme_named(self@.themes, "hicolor"@) is None {
                seq!["hicolor"@]
            } else {
                Seq::<Seq<char>>::empty()
            }),
    {
        let mut names: Vec<String> = Vec::new();
        if self.theme_index(self.current_theme_name.as_str()).is_none() {
            names.push(self.current_theme_name.clone());
        }
        if self.theme_index("hicolor").is_none() {
            names.push(String::from_str("hicolor"));
        }
        assert(texts(names@) =~= (if theme_named(self@.themes, self@.theme_name) is None {
            seq![self@.theme_name]
        } else {
            Seq::<Seq<char>>::empty()
        }) + (if theme_named(self@.themes, "hicolor"@) is None {
            seq!["hicolor"@]
        } else {
            Seq::<Seq<char>>::empty()
        }));
        names
    }

    /// Loads the themes that a request needs, as far as they are not loaded,
    /// and lists the paths whose existence the resolving of the request may
    /// ask for.
    pub fn prepare(
        &mut self,
        icon: &str,
        size: i32,
        scale: i32,
        bases: &Vec<String>,
        descriptors: &Files,
    ) -> (paths: Vec<String>)
        requires
            old(self).wf(),
        ensures
            final(self).wf(),
            final(self)@ == prepared(
                old(self)@,
                icon@,
                size as int,
                scale as int,
                texts(bases@),
                descriptors@,
            ),
            texts(paths@) == probed(
                old(self)@,
                icon@,
                size as int,
                scale as int,
                texts(bases@),
                descriptors@,
            ),
    {
        let key = Lookup::new(self.current_theme_name.as_str(), icon, size, scale);
        let none: Vec<String> = Vec::new();
        assert(texts(none@) =~= Seq::<Seq<char>>::empty());
        if self.cache_index(&key).is_some() {
            return none;
        }
        let name = self.current_theme_name.clone();
        let themed = match self.ensure_theme(name.as_str(), true, bases, descriptors) {
            Some(i) => i,
            None => {
                return none;
            },
        };
        let generic = match self.ensure_theme("hicolor", false, bases, descriptors) {
            Some(i) => i,
            None => {
                return none;
            },
        };
        list_consulted_by_find(
            icon,
            size,
            scale,
            &self.themes[themed],
            &self.themes[generic],
            bases,
        )
    }
}

/// The icon shown in place of one that cannot be resolved.
pub const PLACEHOLDER_ICON: &'static str = "error-symbolic";

/// The size at which the placeholder is looked up.
pub const PLACEHOLDER_SIZE: i32 = 32;

/// The state and the result after a lookup that falls back to the
/// placeholder: those of the lookup if it succeeds, else those of a lookup
/// of the placeholder made after it.
pub open spec fn found_or_placeholder(
    v: IconsView,
    icon: Seq<char>,
    size: int,
    scale: int,
    env: EnvironmentView,
) -> (IconsView, Result<Seq<char>, FailureView>) {
    let (after, result) = found(v, icon, size, scale, env);
    if result is Ok {
        (after, result)
    } else {
        found(after, PLACEHOLDER_ICON@, PLACEHOLDER_SIZE as int, 1, env)
    }
}

impl Icons {
    /// Looks an icon up, and if that fails for any reason, looks the
    /// placeholder up instead.
    pub fn find_or_placeholder(&mut self, icon: &str, size: i32, scale: i32, env: &Environment) -> (r:
        Result<String, IconLookupFailure>)
        requires
            old(self).wf(),
        ensures
            final(self).wf(),
            (final(self)@, outcome_view(r)) == found_or_placeholder(
                old(self)@,
                icon@,
                size as int,
                scale as int,
                env@,
            ),
    {
        match self.find(icon, size, scale, env) {
            Ok(path) => Ok(path),
            Err(_) => self.find(PLACEHOLDER_ICON, PLACEHOLDER_SIZE, 1, env),
        }
    }
}

} // verus!
