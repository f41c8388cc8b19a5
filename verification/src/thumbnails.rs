//! Where thumbnails are kept, and which of them stands in for which.

use vstd::prelude::*;
use vstd::string::StringExecFns;
use crate::files::{join, joined, present, Files};
use crate::text::texts;

verus! {

/// The sizes in which thumbnails are kept.
#[derive(Clone, Copy, Debug, PartialEq, Eq, Structural)]
pub enum ThumbnailSize {
    Normal,
    Large,
    XLarge,
    XXLarge,
}

/// The sizes from the smallest to the largest.
pub open spec fn all_sizes() -> Seq<ThumbnailSize> {
    seq![ThumbnailSize::Normal, ThumbnailSize::Large, ThumbnailSize::XLarge, ThumbnailSize::XXLarge]
}

impl ThumbnailSize {
    /// The position of the size among all sizes.
    pub open spec fn rank(self) -> int {
        match self {
            ThumbnailSize::Normal => 0,
            ThumbnailSize::Large => 1,
            ThumbnailSize::XLarge => 2,
            ThumbnailSize::XXLarge => 3,
        }
    }

    /// The sizes to try when this one is preferred: this one, then the
    /// larger ones in order, then the smaller ones from the smallest up.
    pub open spec fn fallback_order(self) -> Seq<ThumbnailSize> {
        Seq::new(4, |i: int| all_sizes()[(self.rank() + i) % 4])
    }

    /// The name of the directory in which thumbnails of the size are kept.
    pub open spec fn directory_name(self) -> Seq<char> {
        match self {
            ThumbnailSize::Normal => "normal"@,
            ThumbnailSize::Large => "large"@,
            ThumbnailSize::XLarge => "x-large"@,
            ThumbnailSize::XXLarge => "xx-large"@,
        }
    }

    /// The width and height, in pixels, that a thumbnail of the size fits in.
    pub open spec fn pixel_size(self) -> int {
        match self {
            ThumbnailSize::Normal => 128,
            ThumbnailSize::Large => 256,
            ThumbnailSize::XLarge => 512,
            ThumbnailSize::XXLarge => 1024,
        }
    }

    /// Lists the sizes to try when this one is preferred.
    pub fn get_fallback_order(&self) -> (order: Vec<ThumbnailSize>)
        ensures
            order@ == self.fallback_order(),
    {
        let order = match self {
            ThumbnailSize::Normal => vec![
                ThumbnailSize::Normal,
                ThumbnailSize::Large,
                ThumbnailSize::XLarge,
                ThumbnailSize::XXLarge,
            ],
            ThumbnailSize::Large => vec![
                ThumbnailSize::Large,
                ThumbnailSize::XLarge,
                ThumbnailSize::XXLarge,
                ThumbnailSize::Normal,
            ],
            ThumbnailSize::XLarge => vec![
                ThumbnailSize::XLarge,
                ThumbnailSize::XXLarge,
                ThumbnailSize::Normal,
                ThumbnailSize::Large,
            ],
            ThumbnailSize::XXLarge => vec![
                ThumbnailSize::XXLarge,
                ThumbnailSize::Normal,
                ThumbnailSize::Large,
                ThumbnailSize::XLarge,
            ],
        };
        assert(order@ =~= self.fallback_order());
        order
    }

    /// The name of the directory of the size.
    pub fn directory(&self) -> (name: &'static str)
        ensures
            name@ == self.directory_name(),
    {
        match self {
            ThumbnailSize::Normal => "normal",
            ThumbnailSize::Large => "large",
            ThumbnailSize::XLarge => "x-large",
            ThumbnailSize::XXLarge => "xx-large",
        }
    }

    /// The pixel size of the size.
    pub fn pixels(&self) -> (n: u32)
        ensures
            n == self.pixel_size(),
    {
        match self {
            ThumbnailSize::Normal => 128,
            ThumbnailSize::Large => 256,
            ThumbnailSize::XLarge => 512,
            ThumbnailSize::XXLarge => 1024,
        }
    }
}

/// The path of the thumbnail with the given hash and size:
/// `cache_dir/thumbnails/<size>/<hash>.png`.
pub open spec fn thumbnail_path(cache_dir: Seq<char>, hash: Seq<char>, size: ThumbnailSize) -> Seq<
    char,
> {
    joined(joined(joined(cache_dir, "thumbnails"@), size.directory_name()), hash) + ".png"@
}

/// Builds the path of a thumbnail.
pub fn get_thumbnail_path(cache_dir: &str, hash: &str, size: ThumbnailSize) -> (path: String)
    ensures
        path@ == thumbnail_path(cache_dir@, hash@, size),
{
    let all = join(cache_dir, "thumbnails");
    let sized = join(all.as_str(), size.directory());
    let mut path = join(sized.as_str(), hash);
    path.append(".png");
    path
}

/// The address under which the shell asks for the thumbnail with the given
/// hash.
pub open spec fn thumbnail_url(hash: Seq<char>) -> Seq<char> {
    "thumbnail://"@ + hash
}

/// The thumbnails: where they are kept, and the files waiting for one.
#[derive(Debug)]
pub struct Thumbnails {
    pub cache_dir: String,
    pub queue: Vec<String>,
}

/// The first of the thumbnails for `hash`, in the order `sizes`, that
/// exists.
pub open spec fn first_thumbnail(
    cache_dir: Seq<char>,
    hash: Seq<char>,
    sizes: Seq<ThumbnailSize>,
    files: Seq<(Seq<char>, Option<Seq<char>>)>,
) -> Option<Seq<char>>
    decreases sizes.len(),
{
    if sizes.len() == 0 {
        None
    } else if present(files, thumbnail_path(cache_dir, hash, sizes[0])) {
        Some(thumbnail_path(cache_dir, hash, sizes[0]))
    } else {
        first_thumbnail(cache_dir, hash, sizes.drop_first(), files)
    }
}

impl Thumbnails {
    /// The thumbnails kept below `cache_dir`, with no file waiting.
    pub fn new(cache_dir: String) -> (thumbnails: Thumbnails)
        ensures
            thumbnails.cache_dir == cache_dir,
            thumbnails.queue@.len() == 0,
    {
        Thumbnails { cache_dir, queue: Vec::new() }
    }

    /// Asks for a thumbnail of the file `from`: the file waits until the
    /// queue is taken.
    pub fn generate(&mut self, from: &str)
        ensures
            final(self).cache_dir == old(self).cache_dir,
            texts(final(self).queue@) == texts(old(self).queue@).push(from@),
    {
        let waiting = String::from_str(from);
        assert(texts(self.queue@.push(waiting)) =~= texts(self.queue@).push(from@));
        self.queue.push(waiting);
    }

    /// Hands out the files that wait for a thumbnail, in the order in which
    /// they were asked for, and leaves none waiting.
    pub fn take_queued(&mut self) -> (waiting: Vec<String>)
        ensures
            final(self).cache_dir == old(self).cache_dir,
            final(self).queue@.len() == 0,
            waiting@ == old(self).queue@,
    {
        let mut waiting: Vec<String> = Vec::new();
        core::mem::swap(&mut self.queue, &mut waiting);
        waiting
    }

    /// The path of the thumbnail to show for `hash` when `preferred_size` is
    /// preferred: the first in the fallback order that exists.
    pub fn find(&self, hash: &str, preferred_size: ThumbnailSize, files: &Files) -> (r: Option<
        String,
    >)
        ensures
            r is Some <==> first_thumbnail(
                self.cache_dir@,
                hash@,
                preferred_size.fallback_order(),
                files@,
            ) is Some,
            r is Some ==> r->0@ == first_thumbnail(
                self.cache_dir@,
                hash@,
                preferred_size.fallback_order(),
                files@,
            )->0,
    {
        let order = preferred_size.get_fallback_order();
        let mut i: usize = 0;
        assert(order@.skip(0) =~= order@);
        while i < order.len()
            invariant
                i <= order.len(),
                order@ == preferred_size.fallback_order(),
                first_thumbnail(self.cache_dir@, hash@, order@, files@) == first_thumbnail(
                    self.cache_dir@,
                    hash@,
                    order@.skip(i as int),
                    files@,
                ),
            decreases order.len() - i,
        {
            let path = get_thumbnail_path(self.cache_dir.as_str(), hash, order[i]);
            proof {
                let rest = order@.skip(i as int);
                assert(rest[0] == order@[i as int]);
                assert(rest.drop_first() =~= order@.skip(i + 1));
            }
            if files.contains(path.as_str()) {
                return Some(path);
            }
            i += 1;
        }
        None
    }

    /// The address of the large thumbnail of the file at `path`, if the
    /// path has a hash and that thumbnail exists.
    pub fn url_from(&self, path: &str, files: &Files) -> (r: Option<String>)
        ensures
            r is Some <==> path_hash(path@) is Some && present(
                files@,
                thumbnail_path(self.cache_dir@, path_hash(path@)->0, ThumbnailSize::Large),
            ),
            r is Some ==> r->0@ == thumbnail_url(path_hash(path@)->0),
    {
        match get_hash(path) {
            Some(hash) => self.url_from_hash(hash.as_str(), files),
            None => None,
        }
    }

    /// The address of the large thumbnail for `hash`, if that thumbnail
    /// exists.
    pub fn url_from_hash(&self, hash: &str, files: &Files) -> (r: Option<String>)
        ensures
            r is Some <==> present(
                files@,
                thumbnail_path(self.cache_dir@, hash@, ThumbnailSize::Large),
            ),
            r is Some ==> r->0@ == thumbnail_url(hash@),
    {
        let path = get_thumbnail_path(self.cache_dir.as_str(), hash, ThumbnailSize::Large);
        if files.contains(path.as_str()) {
            let mut url = String::from_str("thumbnail://");
            url.append(hash);
            Some(url)
        } else {
            None
        }
    }
}

/// The error of the `url` crate's parser.
#[verifier::external_type_specification]
#[verifier::external_body]
pub struct ExParseError(url::ParseError);

/// The text of the URL that the `url` crate's `Url::parse` reads from
/// `text`, in the form in which the crate writes a URL; `None` where
/// parsing fails.
pub uninterp spec fn normalized_url(text: Seq<char>) -> Option<Seq<char>>;

/// The MD5 digest of the bytes of `data`, as the `md5` crate computes it and
/// writes it in lower-case hexadecimal digits.
pub uninterp spec fn md5_hex(data: Seq<char>) -> Seq<char>;

/// `Url::parse` of the `url` crate parses an absolute URL; the URL parsed
/// is handed back as the text that the crate writes for it. What is
/// claimed is that the outcome depends on the text alone.
#[verifier::external_body]
fn parse_url(text: &str) -> (r: Result<String, url::ParseError>)
    ensures
        r is Ok <==> normalized_url(text@) is Some,
        r is Ok ==> r->Ok_0@ == normalized_url(text@)->0,
{
    url::Url::parse(text).map(String::from)
}

/// `md5::compute` of the `md5` crate computes the digest of the bytes
/// given, and the digest's `LowerHex` writes it in hexadecimal digits. What
/// is claimed is that the outcome depends on the data alone.
#[verifier::external_body]
fn digest_hex(data: &str) -> (r: String)
    ensures
        r@ == md5_hex(data@),
{
    format!("{:x}", md5::compute(data))
}

/// The hash under which the thumbnails of the file at `path` are kept: the
/// digest of the file's address `file://<path>` in normalized form. `None`
/// where that is no address.
pub open spec fn path_hash(path: Seq<char>) -> Option<Seq<char>> {
    match normalized_url("file://"@ + path) {
        Some(address) => Some(md5_hex(address)),
        None => None,
    }
}

/// Computes the hash under which the thumbnails of a file are kept.
pub fn get_hash(path: &str) -> (hash: Option<String>)
    ensures
        hash is Some <==> path_hash(path@) is Some,
        hash is Some ==> hash->0@ == path_hash(path@)->0,
{
    let mut address = String::from_str("file://");
    address.append(path);
    match parse_url(address.as_str()) {
        Ok(normalized) => Some(digest_hex(normalized.as_str())),
        Err(_) => None,
    }
}

} // verus!
