//! The icon shown for an entry of a listing.

use vstd::prelude::*;
use vstd::string::StringExecFns;
use crate::icons::{
    after_check, cached, check_result, found, key_of, Environment, EnvironmentView, Icons,
    IconsView,
};
use crate::text::{range_is, rows, split, split_at_each, texts, to_chars};

verus! {

/// The icon of a folder of the user's that has an icon of its own, by the
/// folder's name; for any other name, the icon of folders at large.
pub open spec fn special_folder_icon(name: Seq<char>) -> Seq<char> {
    if name == "Music"@ {
        "folder-music"@
    } else if name == "Pictures"@ {
        "folder-pictures"@
    } else if name == "Documents"@ {
        "folder-documents"@
    } else if name == "Downloads"@ {
        "folder-download"@
    } else if name == "Desktop"@ {
        "user-desktop"@
    } else if name == "Dropbox"@ {
        "folder-dropbox"@
    } else if name == "Public"@ {
        "folder-publicshare"@
    } else if name == "Templates"@ {
        "folder-templates"@
    } else if name == "Videos"@ {
        "folder-videos"@
    } else {
        "folder"@
    }
}

/// The icon of the folder at `path`: a special one for the well-known
/// folders directly in a user's home directory, `/home/<user>/<name>`.
pub open spec fn folder_icon(path: Seq<char>) -> Seq<char> {
    let parts = split(path, '/');
    if parts.len() == 4 && parts[1] == "home"@ {
        special_folder_icon(parts[3])
    } else {
        "folder"@
    }
}

/// The address under which the shell asks for the icon named `name`.
pub open spec fn icon_url(name: Seq<char>) -> Seq<char> {
    "icon://"@ + name
}

/// Builds the address of an icon.
pub fn make_icon_url(name: &str) -> (url: String)
    ensures
        url@ == icon_url(name@),
{
    let mut url = String::from_str("icon://");
    url.append(name);
    url
}

/// Picks the icon of one of the user's well-known folders.
fn pick_special_folder_icon(part: &Vec<char>) -> (name: &'static str)
    ensures
        name@ == special_folder_icon(part@),
{
    let n = part.len();
    assert(part@.subrange(0, n as int) =~= part@);
    if range_is(part, 0, n, "Music") {
        "folder-music"
    } else if range_is(part, 0, n, "Pictures") {
        "folder-pictures"
    } else if range_is(part, 0, n, "Documents") {
        "folder-documents"
    } else if range_is(part, 0, n, "Downloads") {
        "folder-download"
    } else if range_is(part, 0, n, "Desktop") {
        "user-desktop"
    } else if range_is(part, 0, n, "Dropbox") {
        "folder-dropbox"
    } else if range_is(part, 0, n, "Public") {
        "folder-publicshare"
    } else if range_is(part, 0, n, "Templates") {
        "folder-templates"
    } else if range_is(part, 0, n, "Videos") {
        "folder-videos"
    } else {
        "folder"
    }
}

/// The address of the icon of the folder at `path`.
pub fn get_folder_icon_url(path: &str) -> (url: String)
    ensures
        url@ == icon_url(folder_icon(path@)),
{
    let chars = to_chars(path);
    let parts = split_at_each(&chars, 0, '/');
    assert(chars@.skip(0) =~= path@);
    assert(rows(parts@).len() == parts@.len());
    if parts.len() == 4 {
        let second = &parts[1];
        assert(rows(parts@)[1] == second@);
        assert(rows(parts@)[3] == parts@[3]@);
        assert(second@.subrange(0, second@.len() as int) =~= second@);
        if range_is(second, 0, second.len(), "home") {
            return make_icon_url(pick_special_folder_icon(&parts[3]));
        }
    }
    make_icon_url("folder")
}

/// The name under which an icon name of a file type is looked up: the
/// generic text icon in place of the generic binary icon when that is the
/// only name, else the name itself.
pub open spec fn lookup_name(name: Seq<char>, alone: bool) -> Seq<char> {
    if alone && name == "application-octet-stream"@ {
        "text-x-generic"@
    } else {
        name
    }
}

/// The first of `names` that the cache holds a path for, looked up at 256
/// pixels and scale 1.
pub open spec fn first_resolved(v: IconsView, names: Seq<Seq<char>>, alone: bool) -> Option<
    Seq<char>,
>
    decreases names.len(),
{
    if names.len() == 0 {
        None
    } else {
        let name = lookup_name(names[0], alone);
        match cached(v.cache, key_of(v, name, 256, 1)) {
            Some(Some(_)) => Some(name),
            _ => first_resolved(v, names.drop_first(), alone),
        }
    }
}

/// Those of `names` that the cache holds nothing for, looked up at 256
/// pixels and scale 1.
pub open spec fn unattempted(v: IconsView, names: Seq<Seq<char>>, alone: bool) -> Seq<Seq<char>>
    decreases names.len(),
{
    if names.len() == 0 {
        Seq::empty()
    } else {
        let before = unattempted(v, names.drop_last(), alone);
        let name = lookup_name(names.last(), alone);
        if cached(v.cache, key_of(v, name, 256, 1)) is None {
            before.push(name)
        } else {
            before
        }
    }
}

/// The state after the icons `names` are looked up in turn until one
/// resolves, and the name of the one that did; the generic text icon if
/// none did.
pub open spec fn first_found(v: IconsView, names: Seq<Seq<char>>, env: EnvironmentView) -> (
    IconsView,
    Seq<char>,
)
    decreases names.len(),
{
    if names.len() == 0 {
        (v, "text-x-generic"@)
    } else {
        let (after, result) = found(v, names[0], 256, 1, env);
        if result is Ok {
            (after, names[0])
        } else {
            first_found(after, names.drop_first(), env)
        }
    }
}

/// The state after the icon of a file is chosen among the icon names of
/// its type, and the name chosen. If the cache is not stale, the first name
/// that it holds a path for is chosen without a lookup; failing that, the
/// names that were never attempted are looked up in turn. If it is stale,
/// all names are looked up in turn.
pub open spec fn file_icon(v: IconsView, names: Seq<Seq<char>>, env: EnvironmentView) -> (
    IconsView,
    Seq<char>,
) {
    let checked = after_check(v, env.now, env.theme_name);
    if check_result(v, env.now, env.theme_name) {
        first_found(checked, names, env)
    } else {
        match first_resolved(checked, names, names.len() == 1) {
            Some(name) => (checked, name),
            None => first_found(checked, unattempted(checked, names, names.len() == 1), env),
        }
    }
}

/// Looks the icons `names` up in turn until one resolves.
fn find_first(names: &Vec<String>, icons: &mut Icons, env: &Environment) -> (name: String)
    requires
        old(icons).wf(),
    ensures
        final(icons).wf(),
        (final(icons)@, name@) == first_found(old(icons)@, texts(names@), env@),
{
    let mut i: usize = 0;
    assert(texts(names@).skip(0) =~= texts(names@));
    while i < names.len()
        invariant
            i <= names.len(),
            icons.wf(),
            first_found(old(icons)@, texts(names@), env@) == first_found(
                icons@,
                texts(names@).skip(i as int),
                env@,
            ),
        decreases names.len() - i,
    {
        proof {
            let rest = texts(names@).skip(i as int);
            assert(rest[0] == names@[i as int]@);
            assert(rest.drop_first() =~= texts(names@).skip(i + 1));
        }
        if icons.find(names[i].as_str(), 256, 1, env).is_ok() {
            return names[i].clone();
        }
        i += 1;
    }
    String::from_str("text-x-generic")
}

/// Chooses the icon of a file among the icon names of its type, the most
/// specific first, and returns the icon's address.
pub fn get_file_icon_url(names: &Vec<String>, icons: &mut Icons, env: &Environment) -> (url: String)
    requires
        old(icons).wf(),
    ensures
        final(icons).wf(),
        final(icons)@ == file_icon(old(icons)@, texts(names@), env@).0,
        url@ == icon_url(file_icon(old(icons)@, texts(names@), env@).1),
{
    if icons.cache_is_stale(env.now, env.theme_name.as_str()) {
        let name = find_first(names, icons, env);
        return make_icon_url(name.as_str());
    }
    let alone = names.len() == 1;
    let mut uncached: Vec<String> = Vec::new();
    let mut i: usize = 0;
    assert(texts(names@).skip(0) =~= texts(names@));
    assert(texts(names@).take(0) =~= Seq::<Seq<char>>::empty());
    assert(texts(uncached@) =~= Seq::<Seq<char>>::empty());
    while i < names.len()
        invariant
            i <= names.len(),
            icons.wf(),
            icons@ == after_check(old(icons)@, env@.now, env@.theme_name),
            !check_result(old(icons)@, env@.now, env@.theme_name),
            alone == (names@.len() == 1),
            first_resolved(icons@, texts(names@), alone) == first_resolved(
                icons@,
                texts(names@).skip(i as int),
                alone,
            ),
            texts(uncached@) == unattempted(icons@, texts(names@).take(i as int), alone),
        decreases names.len() - i,
    {
        proof {
            let rest = texts(names@).skip(i as int);
            assert(rest[0] == names@[i as int]@);
            assert(rest.drop_first() =~= texts(names@).skip(i + 1));
            let upto = texts(names@).take(i + 1);
            assert(upto.drop_last() =~= texts(names@).take(i as int));
            assert(upto.last() == names@[i as int]@);
        }
        let name = if alone && names[i].as_str().eq("application-octet-stream") {
            String::from_str("text-x-generic")
        } else {
            names[i].clone()
        };
        match icons.get_cached(name.as_str(), 256, 1) {
            Some(Some(_)) => {
                return make_icon_url(name.as_str());
            },
            Some(None) => {},
            None => {
                assert(texts(uncached@.push(name)) =~= texts(uncached@).push(name@));
                uncached.push(name);
            },
        }
        i += 1;
    }
    assert(texts(names@).take(i as int) =~= texts(names@));
    let name = find_first(&uncached, icons, env);
    make_icon_url(name.as_str())
}

} // verus!
