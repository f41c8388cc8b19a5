//! What holds of the engine whatever it is asked: that the cache answers
//! alone, that a change of theme empties it, that a saved state comes back
//! as it was, and that a request reads nothing but what it lists.

use vstd::prelude::*;
use crate::files::FILE_MANAGER_THEME_NAME;
use crate::icons::{
    after_check, cached, check_result, flushed, found, fresh, key_of, outcome_of, prepared,
    probed, resolved, restored, theme_named, throttled, well_formed, with_fallback, with_theme,
    EnvironmentView, FailureView, IconsView, LookupView, lemma_theme_named_push,
};
use crate::search::{agree_on, find_spec, lemma_find_reads_only_consulted};
use crate::theme::{loaded, ThemeView};

verus! {

/// A lookup added to a cache is the one found under its key; under every
/// other key the cache answers as before.
pub proof fn lemma_cached_push(
    cache: Seq<(LookupView, Option<Seq<char>>)>,
    key: LookupView,
    path: Option<Seq<char>>,
    other: LookupView,
)
    ensures
        cached(cache.push((key, path)), other) == if key == other {
            Some(path)
        } else {
            cached(cache, other)
        },
{
    assert(cache.push((key, path)).drop_last() =~= cache);
}

/// A request whose answer is cached is answered from the cache: the result
/// is the cached answer and the state is unchanged, whatever the base
/// directories, the descriptors and the files are.
pub proof fn lemma_cached_answer_is_final(
    v: IconsView,
    icon: Seq<char>,
    size: int,
    scale: int,
    bases: Seq<Seq<char>>,
    descriptors: Seq<(Seq<char>, Option<Seq<char>>)>,
    files: Seq<(Seq<char>, Option<Seq<char>>)>,
)
    requires
        cached(v.cache, key_of(v, icon, size, scale)) is Some,
    ensures
        resolved(v, icon, size, scale, bases, descriptors, files) == (
            v,
            outcome_of(
                key_of(v, icon, size, scale),
                cached(v.cache, key_of(v, icon, size, scale))->0,
            ),
        ),
{
}

/// After a request is resolved with any result but a missing theme, its
/// answer is cached: it is the answer that the result stands for.
pub proof fn lemma_resolved_is_cached(
    v: IconsView,
    icon: Seq<char>,
    size: int,
    scale: int,
    bases: Seq<Seq<char>>,
    descriptors: Seq<(Seq<char>, Option<Seq<char>>)>,
    files: Seq<(Seq<char>, Option<Seq<char>>)>,
)
    requires
        !(resolved(v, icon, size, scale, bases, descriptors, files).1 matches Err(
            FailureView::ThemeMissing(_),
        )),
    ensures
        ({
            let (after, result) = resolved(v, icon, size, scale, bases, descriptors, files);
            let key = key_of(v, icon, size, scale);
            &&& after.theme_name == v.theme_name
            &&& cached(after.cache, key) is Some
            &&& result == outcome_of(key, cached(after.cache, key)->0)
        }),
{
    let key = key_of(v, icon, size, scale);
    if cached(v.cache, key) is None {
        let themed = with_theme(v.themes, v.theme_name, bases, descriptors)->0;
        let themes = with_fallback(themed, bases, descriptors)->0;
        let answer = find_spec(
            theme_named(themed, v.theme_name)->0,
            theme_named(themes, "hicolor"@)->0,
            bases,
            files,
            icon,
            size,
            scale,
        );
        lemma_cached_push(v.cache, key, answer, key);
    }
}

/// Persistence round trip: the state of a well-formed engine, saved and
/// restored, is that state again; so every request whose answer was cached
/// is answered by the restored engine as it was cached, whatever the files
/// then are.
pub proof fn lemma_restored_answers_from_cache(
    v: IconsView,
    icon: Seq<char>,
    size: int,
    scale: int,
    bases: Seq<Seq<char>>,
    descriptors: Seq<(Seq<char>, Option<Seq<char>>)>,
    files: Seq<(Seq<char>, Option<Seq<char>>)>,
)
    requires
        well_formed(v),
        cached(v.cache, key_of(v, icon, size, scale)) is Some,
    ensures
        restored(v) == Some(v),
        resolved(restored(v)->0, icon, size, scale, bases, descriptors, files).1 == outcome_of(
            key_of(v, icon, size, scale),
            cached(v.cache, key_of(v, icon, size, scale))->0,
        ),
{
}

/// Cache idempotence: once a lookup has returned a path or has failed to
/// resolve the icon, the same lookup returns the same result again, and
/// neither the cache nor the loaded themes change, whatever the files then
/// are, as long as no change of the system's theme is detected in between.
pub proof fn lemma_repeated_find(
    v: IconsView,
    icon: Seq<char>,
    size: int,
    scale: int,
    first: EnvironmentView,
    second: EnvironmentView,
)
    requires
        !(found(v, icon, size, scale, first).1 matches Err(FailureView::ThemeMissing(_))),
        !check_result(found(v, icon, size, scale, first).0, second.now, second.theme_name),
    ensures
        ({
            let (once, result) = found(v, icon, size, scale, first);
            let (twice, again) = found(once, icon, size, scale, second);
            &&& again == result
            &&& twice.cache == once.cache
            &&& twice.themes == once.themes
        }),
{
    let checked = after_check(v, first.now, first.theme_name);
    let current = if check_result(v, first.now, first.theme_name) {
        flushed(checked)
    } else {
        checked
    };
    lemma_resolved_is_cached(
        current,
        icon,
        size,
        scale,
        first.bases,
        first.descriptors,
        first.files,
    );
    let once = found(v, icon, size, scale, first).0;
    let rechecked = after_check(once, second.now, second.theme_name);
    assert(rechecked.theme_name == once.theme_name);
    assert(rechecked.cache == once.cache);
    lemma_cached_answer_is_final(
        rechecked,
        icon,
        size,
        scale,
        second.bases,
        second.descriptors,
        second.files,
    );
}

/// Negative caching: a lookup that failed to resolve the icon fails in the
/// same way when repeated, from the cache alone.
pub proof fn lemma_failure_is_cached(
    v: IconsView,
    icon: Seq<char>,
    size: int,
    scale: int,
    first: EnvironmentView,
    second: EnvironmentView,
)
    requires
        found(v, icon, size, scale, first).1 matches Err(FailureView::IconResolutionFailed(_)),
        !check_result(found(v, icon, size, scale, first).0, second.now, second.theme_name),
    ensures
        ({
            let (once, result) = found(v, icon, size, scale, first);
            let (twice, again) = found(once, icon, size, scale, second);
            &&& again == result
            &&& again matches Err(FailureView::IconResolutionFailed(_))
            &&& cached(once.cache, key_of(once, icon, size, scale)) == Some(
                None::<Seq<char>>,
            )
            &&& twice.cache == once.cache
        }),
{
    lemma_repeated_find(v, icon, size, scale, first, second);
    let checked = after_check(v, first.now, first.theme_name);
    let current = if check_result(v, first.now, first.theme_name) {
        flushed(checked)
    } else {
        checked
    };
    lemma_resolved_is_cached(
        current,
        icon,
        size,
        scale,
        first.bases,
        first.descriptors,
        first.files,
    );
}

/// Invalidation: when a check is due and the system's theme has changed, a
/// lookup is answered as by a new engine for the new theme. Nothing cached
/// or loaded for the old theme has a part in it.
pub proof fn lemma_theme_change_invalidates(
    v: IconsView,
    icon: Seq<char>,
    size: int,
    scale: int,
    env: EnvironmentView,
)
    requires
        !throttled(v, env.now),
        env.theme_name != v.theme_name,
    ensures
        ({
            let (after, result) = found(v, icon, size, scale, env);
            let (anew, expected) = resolved(
                fresh(env.theme_name, v.stub_fallback),
                icon,
                size,
                scale,
                env.bases,
                env.descriptors,
                env.files,
            );
            &&& result == expected
            &&& after.cache == anew.cache
            &&& after.themes == anew.themes
            &&& after.theme_name == env.theme_name
            &&& !after.stale
        }),
{
}

/// A table that holds a theme is not changed by loading it.
pub proof fn lemma_with_theme_is_idempotent(
    themes: Seq<ThemeView>,
    name: Seq<char>,
    bases: Seq<Seq<char>>,
    descriptors: Seq<(Seq<char>, Option<Seq<char>>)>,
)
    ensures
        with_theme(themes, name, bases, descriptors) is Some ==> {
            let themed = with_theme(themes, name, bases, descriptors)->0;
            &&& theme_named(themed, name) is Some
            &&& with_theme(themed, name, bases, descriptors) == Some(themed)
        },
        with_fallback(themes, bases, descriptors) is Some ==> {
            let with = with_fallback(themes, bases, descriptors)->0;
            &&& theme_named(with, "hicolor"@) is Some
            &&& with_fallback(with, bases, descriptors) == Some(with)
            &&& theme_named(themes, name) is Some ==> theme_named(with, name) is Some
        },
{
    if theme_named(themes, name) is None {
        match loaded(name, bases, descriptors, Seq::empty()) {
            Some(theme) => {
                let adopted = ThemeView {
                    inherits: theme.inherits.push(
                        theme_named(themes, FILE_MANAGER_THEME_NAME@)->0,
                    ),
                    ..theme
                };
                lemma_theme_named_push(themes, adopted, name);
            },
            None => {},
        }
    }
    if theme_named(themes, "hicolor"@) is None {
        match loaded("hicolor"@, bases, descriptors, Seq::empty()) {
            Some(theme) => {
                lemma_theme_named_push(themes, theme, "hicolor"@);
                lemma_theme_named_push(themes, theme, name);
            },
            None => {},
        }
    }
}

/// Preparing a request does not change how it is resolved: the result and
/// the state after it are the same with and without.
pub proof fn lemma_prepared_resolves_alike(
    v: IconsView,
    icon: Seq<char>,
    size: int,
    scale: int,
    bases: Seq<Seq<char>>,
    descriptors: Seq<(Seq<char>, Option<Seq<char>>)>,
    files: Seq<(Seq<char>, Option<Seq<char>>)>,
)
    ensures
        resolved(
            prepared(v, icon, size, scale, bases, descriptors),
            icon,
            size,
            scale,
            bases,
            descriptors,
            files,
        ) == resolved(v, icon, size, scale, bases, descriptors, files),
{
    if cached(v.cache, key_of(v, icon, size, scale)) is None {
        lemma_with_theme_is_idempotent(v.themes, v.theme_name, bases, descriptors);
        match with_theme(v.themes, v.theme_name, bases, descriptors) {
            Some(themed) => {
                lemma_with_theme_is_idempotent(themed, v.theme_name, bases, descriptors);
                match with_fallback(themed, bases, descriptors) {
                    Some(themes) => {
                        lemma_with_theme_is_idempotent(themes, v.theme_name, bases, descriptors);
                        lemma_theme_kept_by_fallback(themed, v.theme_name, bases, descriptors);
                    },
                    None => {},
                }
            },
            None => {},
        }
    }
}

/// Loading the fallback theme leaves the theme found under a name as it is,
/// if one is found.
pub proof fn lemma_theme_kept_by_fallback(
    themes: Seq<ThemeView>,
    name: Seq<char>,
    bases: Seq<Seq<char>>,
    descriptors: Seq<(Seq<char>, Option<Seq<char>>)>,
)
    requires
        theme_named(themes, name) is Some,
        with_fallback(themes, bases, descriptors) is Some,
    ensures
        theme_named(with_fallback(themes, bases, descriptors)->0, name) == theme_named(
            themes,
            name,
        ),
{
    if theme_named(themes, "hicolor"@) is None {
        let theme = loaded("hicolor"@, bases, descriptors, Seq::empty())->0;
        lemma_theme_named_push(themes, theme, name);
    }
}

/// The resolving of a request asks for nothing but the probed paths: its
/// result and the state after it are the same for snapshots of the icon
/// files that agree on them.
pub proof fn lemma_resolved_reads_only_probed(
    v: IconsView,
    icon: Seq<char>,
    size: int,
    scale: int,
    bases: Seq<Seq<char>>,
    descriptors: Seq<(Seq<char>, Option<Seq<char>>)>,
    first: Seq<(Seq<char>, Option<Seq<char>>)>,
    second: Seq<(Seq<char>, Option<Seq<char>>)>,
)
    requires
        agree_on(first, second, probed(v, icon, size, scale, bases, descriptors)),
    ensures
        resolved(v, icon, size, scale, bases, descriptors, first) == resolved(
            v,
            icon,
            size,
            scale,
            bases,
            descriptors,
            second,
        ),
{
    if cached(v.cache, key_of(v, icon, size, scale)) is None {
        match with_theme(v.themes, v.theme_name, bases, descriptors) {
            Some(themed) => match with_fallback(themed, bases, descriptors) {
                Some(themes) => {
                    lemma_find_reads_only_consulted(
                        theme_named(themed, v.theme_name)->0,
                        theme_named(themes, "hicolor"@)->0,
                        bases,
                        first,
                        second,
                        icon,
                        size,
                        scale,
                    );
                },
                None => {},
            },
            None => {},
        }
    }
}

/// Whether no two entries of a cache have the same key.
pub open spec fn distinct_keys(cache: Seq<(LookupView, Option<Seq<char>>)>) -> bool {
    forall|i: int, j: int|
        0 <= i < cache.len() && 0 <= j < cache.len() && i != j ==> (#[trigger] cache[i]).0 != (
        #[trigger] cache[j]).0
}

/// Whether no two themes of a table have the same name.
pub open spec fn distinct_names(themes: Seq<ThemeView>) -> bool {
    forall|i: int, j: int|
        0 <= i < themes.len() && 0 <= j < themes.len() && i != j ==> (#[trigger] themes[i]).name
            != (#[trigger] themes[j]).name
}

/// A key that the cache holds nothing for is the key of none of its
/// entries.
pub proof fn lemma_uncached_key_is_new(
    cache: Seq<(LookupView, Option<Seq<char>>)>,
    key: LookupView,
)
    requires
        cached(cache, key) is None,
    ensures
        forall|i: int| 0 <= i < cache.len() ==> (#[trigger] cache[i]).0 != key,
    decreases cache.len(),
{
    if cache.len() > 0 {
        lemma_uncached_key_is_new(cache.drop_last(), key);
        assert forall|i: int| 0 <= i < cache.len() implies (#[trigger] cache[i]).0 != key by {
            if i < cache.len() - 1 {
                assert(cache.drop_last()[i] == cache[i]);
            }
        }
    }
}

/// A name that the table holds no theme for is the name of none of its
/// themes.
pub proof fn lemma_unloaded_name_is_new(themes: Seq<ThemeView>, name: Seq<char>)
    requires
        theme_named(themes, name) is None,
    ensures
        forall|i: int| 0 <= i < themes.len() ==> (#[trigger] themes[i]).name != name,
    decreases themes.len(),
{
    if themes.len() > 0 {
        lemma_unloaded_name_is_new(themes.drop_last(), name);
        assert forall|i: int| 0 <= i < themes.len() implies (#[trigger] themes[i]).name
            != name by {
            if i < themes.len() - 1 {
                assert(themes.drop_last()[i] == themes[i]);
            }
        }
    }
}

/// A theme loaded under a name has that name.
pub proof fn lemma_loaded_has_its_name(
    name: Seq<char>,
    bases: Seq<Seq<char>>,
    descriptors: Seq<(Seq<char>, Option<Seq<char>>)>,
)
    ensures
        loaded(name, bases, descriptors, Seq::empty()) is Some ==> loaded(
            name,
            bases,
            descriptors,
            Seq::empty(),
        )->0.name == name,
{
}

/// At most one cache entry per key, at most one loaded theme per name: an
/// engine whose cache and table are so stays so when a request is
/// resolved. A new engine and a flushed one are so.
pub proof fn lemma_entries_stay_unique(
    v: IconsView,
    icon: Seq<char>,
    size: int,
    scale: int,
    bases: Seq<Seq<char>>,
    descriptors: Seq<(Seq<char>, Option<Seq<char>>)>,
    files: Seq<(Seq<char>, Option<Seq<char>>)>,
)
    requires
        distinct_keys(v.cache),
        distinct_names(v.themes),
    ensures
        distinct_keys(resolved(v, icon, size, scale, bases, descriptors, files).0.cache),
        distinct_names(resolved(v, icon, size, scale, bases, descriptors, files).0.themes),
        distinct_keys(flushed(v).cache),
        distinct_names(flushed(v).themes),
{
    reveal_strlit("hicolor");
    reveal_strlit("AeromeFileManager");
    assert("hicolor"@.len() != FILE_MANAGER_THEME_NAME@.len());
    let key = key_of(v, icon, size, scale);
    if cached(v.cache, key) is None {
        lemma_uncached_key_is_new(v.cache, key);
        match with_theme(v.themes, v.theme_name, bases, descriptors) {
            Some(themed) => {
                lemma_table_stays_unique(v.themes, v.theme_name, bases, descriptors);
                lemma_table_stays_unique(themed, v.theme_name, bases, descriptors);
            },
            None => {},
        }
    }
}

/// Loading a theme into a table without two themes of one name leaves it
/// so.
pub proof fn lemma_table_stays_unique(
    themes: Seq<ThemeView>,
    name: Seq<char>,
    bases: Seq<Seq<char>>,
    descriptors: Seq<(Seq<char>, Option<Seq<char>>)>,
)
    requires
        distinct_names(themes),
    ensures
        with_theme(themes, name, bases, descriptors) is Some ==> distinct_names(
            with_theme(themes, name, bases, descriptors)->0,
        ),
        with_fallback(themes, bases, descriptors) is Some ==> distinct_names(
            with_fallback(themes, bases, descriptors)->0,
        ),
{
    if theme_named(themes, name) is None {
        lemma_unloaded_name_is_new(themes, name);
        lemma_loaded_has_its_name(name, bases, descriptors);
    }
    if theme_named(themes, "hicolor"@) is None {
        lemma_unloaded_name_is_new(themes, "hicolor"@);
        lemma_loaded_has_its_name("hicolor"@, bases, descriptors);
    }
}

} // verus!
