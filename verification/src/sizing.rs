//! Sizing policies of theme directories: which requests a directory matches,
//! and how far off a request is when it does not.

use vstd::prelude::*;

verus! {

/// How the icons of one theme directory relate to a requested size. The
/// number carried by each variant is the directory's nominal size in pixels.
#[derive(Clone, Copy, Debug, PartialEq, Eq, Structural)]
pub enum SizingPolicy {
    /// Icons of exactly the nominal size, for scale factor 1 only.
    Fixed(i32),
    /// Icons that may be scaled between half and twice the nominal size.
    Scalable(i32),
    /// Icons usable within a quarter of the nominal size around it.
    Threshold(i32),
}

/// The three kinds of sizing policy, without a nominal size.
#[derive(Clone, Copy, Debug, PartialEq, Eq, Structural)]
pub enum PolicyKind {
    Fixed,
    Scalable,
    Threshold,
}

/// `n / 2`, rounded toward zero.
pub open spec fn half(n: int) -> int {
    if n >= 0 {
        n / 2
    } else {
        -((-n) / 2)
    }
}

/// `n / 4`, rounded toward zero.
pub open spec fn quarter(n: int) -> int {
    if n >= 0 {
        n / 4
    } else {
        -((-n) / 4)
    }
}

impl SizingPolicy {
    /// The nominal size of the directory.
    pub open spec fn nominal(self) -> int {
        match self {
            SizingPolicy::Fixed(n) => n as int,
            SizingPolicy::Scalable(n) => n as int,
            SizingPolicy::Threshold(n) => n as int,
        }
    }

    /// The kind of the policy.
    pub open spec fn kind(self) -> PolicyKind {
        match self {
            SizingPolicy::Fixed(_) => PolicyKind::Fixed,
            SizingPolicy::Scalable(_) => PolicyKind::Scalable,
            SizingPolicy::Threshold(_) => PolicyKind::Threshold,
        }
    }

    /// The policy of the given kind and nominal size.
    pub open spec fn of(kind: PolicyKind, nominal: i32) -> SizingPolicy {
        match kind {
            PolicyKind::Fixed => SizingPolicy::Fixed(nominal),
            PolicyKind::Scalable => SizingPolicy::Scalable(nominal),
            PolicyKind::Threshold => SizingPolicy::Threshold(nominal),
        }
    }

    /// The smallest effective pixel size the directory matches.
    pub open spec fn lower(self) -> int {
        match self {
            SizingPolicy::Fixed(n) => n as int,
            SizingPolicy::Scalable(n) => half(n as int),
            SizingPolicy::Threshold(n) => n - quarter(n as int),
        }
    }

    /// The largest effective pixel size the directory matches.
    pub open spec fn upper(self) -> int {
        match self {
            SizingPolicy::Fixed(n) => n as int,
            SizingPolicy::Scalable(n) => n * 2,
            SizingPolicy::Threshold(n) => n + quarter(n as int),
        }
    }

    /// Whether a request for `size` pixels at `scale` is matched.
    pub open spec fn accepts(self, size: int, scale: int) -> bool {
        match self {
            SizingPolicy::Fixed(n) => size == n && scale == 1,
            _ => self.lower() <= size * scale <= self.upper(),
        }
    }

    /// How far a request is from the directory. For a fixed directory this is
    /// the gap between the nominal size at `scale` and `size`; for the other
    /// two it is the pixel gap between `size * scale` and the nearest bound
    /// of the matched range, and zero inside the range.
    pub open spec fn gap(self, size: int, scale: int) -> int {
        match self {
            SizingPolicy::Fixed(n) => {
                if n * scale >= size {
                    n * scale - size
                } else {
                    size - n * scale
                }
            },
            _ => {
                if size * scale < self.lower() {
                    self.lower() - size * scale
                } else if size * scale > self.upper() {
                    size * scale - self.upper()
                } else {
                    0
                }
            },
        }
    }

    /// The nominal size as a machine integer.
    pub fn nominal_size(&self) -> (n: i32)
        ensures
            n == self.nominal(),
    {
        match self {
            SizingPolicy::Fixed(n) => *n,
            SizingPolicy::Scalable(n) => *n,
            SizingPolicy::Threshold(n) => *n,
        }
    }

    /// The kind of the policy.
    pub fn policy_kind(&self) -> (k: PolicyKind)
        ensures
            k == self.kind(),
    {
        match self {
            SizingPolicy::Fixed(_) => PolicyKind::Fixed,
            SizingPolicy::Scalable(_) => PolicyKind::Scalable,
            SizingPolicy::Threshold(_) => PolicyKind::Threshold,
        }
    }

    /// Builds the policy of the given kind and nominal size.
    pub fn new(kind: PolicyKind, nominal: i32) -> (p: SizingPolicy)
        ensures
            p == SizingPolicy::of(kind, nominal),
    {
        match kind {
            PolicyKind::Fixed => SizingPolicy::Fixed(nominal),
            PolicyKind::Scalable => SizingPolicy::Scalable(nominal),
            PolicyKind::Threshold => SizingPolicy::Threshold(nominal),
        }
    }

    /// The matched range `(lower, upper)`.
    pub fn bounds(&self) -> (r: (i64, i64))
        ensures
            r.0 == self.lower(),
            r.1 == self.upper(),
    {
        match self {
            SizingPolicy::Fixed(n) => (*n as i64, *n as i64),
            SizingPolicy::Scalable(n) => (half_of(*n as i64), *n as i64 * 2),
            SizingPolicy::Threshold(n) => {
                let t: i64 = quarter_of(*n as i64);
                (*n as i64 - t, *n as i64 + t)
            },
        }
    }

    /// Decides whether the directory matches the request.
    pub fn matches(&self, size: i32, scale: i32) -> (r: bool)
        ensures
            r == self.accepts(size as int, scale as int),
    {
        match self {
            SizingPolicy::Fixed(n) => size == *n && scale == 1,
            _ => {
                let wanted: i64 = effective_size(size, scale);
                let (lo, hi) = self.bounds();
                lo <= wanted && wanted <= hi
            },
        }
    }

    /// Computes the distance of the request from the directory.
    pub fn distance(&self, size: i32, scale: i32) -> (d: i64)
        ensures
            d == self.gap(size as int, scale as int),
    {
        match self {
            SizingPolicy::Fixed(n) => {
                let scaled: i64 = effective_size(*n, scale);
                let size: i64 = size as i64;
                if scaled >= size {
                    scaled - size
                } else {
                    size - scaled
                }
            },
            _ => {
                let wanted: i64 = effective_size(size, scale);
                let (lo, hi) = self.bounds();
                if wanted < lo {
                    lo - wanted
                } else if wanted > hi {
                    wanted - hi
                } else {
                    0
                }
            },
        }
    }
}

/// The product `size * scale`, which always fits in 64 bits.
pub fn effective_size(size: i32, scale: i32) -> (p: i64)
    ensures
        p == size * scale,
        -0x4000_0000_0000_0000 < p <= 0x4000_0000_0000_0000,
{
    assert(-0x4000_0000_0000_0000 < size * scale <= 0x4000_0000_0000_0000) by (nonlinear_arith)
        requires
            -0x8000_0000 <= size < 0x8000_0000,
            -0x8000_0000 <= scale < 0x8000_0000,
    ;
    size as i64 * scale as i64
}

fn half_of(n: i64) -> (h: i64)
    requires
        -0x8000_0000 <= n < 0x8000_0000,
    ensures
        h == half(n as int),
{
    if n >= 0 {
        n / 2
    } else {
        -((-n) / 2)
    }
}

fn quarter_of(n: i64) -> (q: i64)
    requires
        -0x8000_0000 <= n < 0x8000_0000,
    ensures
        q == quarter(n as int),
{
    if n >= 0 {
        n / 4
    } else {
        -((-n) / 4)
    }
}

/// A fixed directory matches exactly one request: its nominal size at scale 1.
pub proof fn lemma_fixed_matches_exactly(n: i32, size: int, scale: int)
    ensures
        SizingPolicy::Fixed(n).accepts(size, scale) <==> (size == n && scale == 1),
{
}

/// A scalable directory matches exactly the requests whose effective size
/// lies between half and twice the nominal size.
pub proof fn lemma_scalable_matches_range(n: i32, size: int, scale: int)
    ensures
        SizingPolicy::Scalable(n).accepts(size, scale) <==> (half(n as int) <= size * scale
            <= n * 2),
{
}

/// For a scalable or threshold directory the distance is zero exactly on the
/// requests it matches, and positive on every other request.
pub proof fn lemma_distance_positive_outside(policy: SizingPolicy, size: int, scale: int)
    requires
        !(policy is Fixed),
    ensures
        policy.gap(size, scale) >= 0,
        policy.gap(size, scale) == 0 <==> policy.accepts(size, scale),
{
}

/// Among two unmatched requests on the same side of the matched range, the
/// one farther from the nearest bound has the strictly larger distance. Above
/// the range this needs the range to be non-empty, which it is for every
/// nominal size that is not negative.
pub proof fn lemma_distance_grows_with_gap(
    policy: SizingPolicy,
    size1: int,
    scale1: int,
    size2: int,
    scale2: int,
)
    requires
        !(policy is Fixed),
        !policy.accepts(size1, scale1),
        !policy.accepts(size2, scale2),
    ensures
        size2 * scale2 < size1 * scale1 < policy.lower() ==> policy.gap(size1, scale1)
            < policy.gap(size2, scale2),
        policy.lower() <= policy.upper() < size1 * scale1 < size2 * scale2 ==> policy.gap(
            size1,
            scale1,
        ) < policy.gap(size2, scale2),
{
}

/// The matched range of a directory whose nominal size is not negative is
/// never empty.
pub proof fn lemma_range_not_empty(policy: SizingPolicy)
    requires
        policy.nominal() >= 0,
    ensures
        policy.lower() <= policy.nominal() <= policy.upper(),
{
}

} // verus!
