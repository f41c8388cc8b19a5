//! Character-level helpers shared by the descriptor parser and the path
//! builder.

use vstd::prelude::*;
use vstd::std_specs::iter::IteratorSpec;
use vstd::string::StringExecFns;

verus! {

/// `String::push` of the standard library appends one character to the end
/// of the string and leaves the characters before it unchanged.
pub assume_specification[ String::push ](s: &mut String, c: char)
    ensures
        final(s)@ == old(s)@.push(c),
;

/// `<str as PartialEq>::eq` of the standard library holds exactly when the
/// two slices have the same characters.
pub assume_specification[ <str as PartialEq>::eq ](a: &str, b: &str) -> (r: bool)
    ensures
        r == (a@ == b@),
;

/// The characters of `s`, in order.
pub fn to_chars(s: &str) -> (v: Vec<char>)
    ensures
        v@ == s@,
{
    broadcast use vstd::string::axiom_spec_iter, vstd::string::next_postcondition;

    let mut v: Vec<char> = Vec::new();
    let mut it = s.chars();
    assert(it.remaining() == s@);
    loop
        invariant
            it.obeys_prophetic_iter_laws(),
            v@ + it.remaining() == s@,
            it.decrease() is Some,
        decreases it.decrease()->0,
    {
        let ghost before = it.remaining();
        match it.next() {
            Some(c) => {
                v.push(c);
                assert(v@ + it.remaining() == s@) by {
                    assert(before == seq![c] + before.drop_first());
                    assert(v@ + it.remaining() =~= (v@.drop_last() + before));
                }
            },
            None => {
                assert(before.len() == 0);
                assert(v@ =~= v@ + before);
                return v;
            },
        }
    }
}

/// The string made of the characters `v[from..to]`.
pub fn from_chars(v: &Vec<char>, from: usize, to: usize) -> (s: String)
    requires
        from <= to <= v.len(),
    ensures
        s@ == v@.subrange(from as int, to as int),
{
    let mut s = String::new();
    let mut i: usize = from;
    while i < to
        invariant
            from <= i <= to <= v.len(),
            s@ == v@.subrange(from as int, i as int),
        decreases to - i,
    {
        s.push(v[i]);
        i += 1;
        assert(s@ =~= v@.subrange(from as int, i as int));
    }
    s
}

/// The views of a vector of character rows.
pub open spec fn rows(v: Seq<Vec<char>>) -> Seq<Seq<char>> {
    v.map_values(|r: Vec<char>| r@)
}

/// The views of a vector of strings.
pub open spec fn texts(v: Seq<String>) -> Seq<Seq<char>> {
    v.map_values(|s: String| s@)
}

/// The position of the first `sep` in `s`, or the length of `s` if there is
/// none.
pub open spec fn index_of<A>(s: Seq<A>, sep: A) -> nat
    decreases s.len(),
{
    if s.len() == 0 {
        0
    } else if s[0] == sep {
        0
    } else {
        1 + index_of(s.drop_first(), sep)
    }
}

/// The pieces of `s` between occurrences of `sep`. There is always at least
/// one piece, and pieces may be empty.
pub open spec fn split(s: Seq<char>, sep: char) -> Seq<Seq<char>>
    decreases s.len(),
{
    let k = index_of(s, sep) as int;
    if k >= s.len() {
        seq![s]
    } else {
        seq![s.take(k)] + split(s.skip(k + 1), sep)
    }
}

/// `index_of` is the one position before which no `sep` occurs and at which
/// `s` has a `sep` or ends.
pub proof fn lemma_index_of<A>(s: Seq<A>, sep: A, k: int)
    requires
        0 <= k <= s.len(),
        forall|i: int| 0 <= i < k ==> s[i] != sep,
        k < s.len() ==> s[k] == sep,
    ensures
        index_of(s, sep) == k,
    decreases k,
{
    if k > 0 {
        let rest = s.drop_first();
        assert forall|i: int| 0 <= i < k - 1 implies rest[i] != sep by {
            assert(rest[i] == s[i + 1]);
        }
        lemma_index_of(rest, sep, k - 1);
    }
}

/// Before `index_of` nothing equals `sep`, and at it, if it is inside `s`,
/// stands `sep`.
pub proof fn lemma_index_of_is_first<A>(s: Seq<A>, sep: A)
    ensures
        index_of(s, sep) <= s.len(),
        forall|i: int| 0 <= i < index_of(s, sep) ==> s[i] != sep,
        index_of(s, sep) < s.len() ==> s[index_of(s, sep) as int] == sep,
    decreases s.len(),
{
    if s.len() > 0 && s[0] != sep {
        let rest = s.drop_first();
        lemma_index_of_is_first(rest, sep);
        assert forall|i: int| 0 <= i < index_of(s, sep) implies s[i] != sep by {
            if i > 0 {
                assert(s[i] == rest[i - 1]);
            }
        }
    }
}

/// Splits `v[from..]` at every `sep`.
pub fn split_at_each(v: &Vec<char>, from: usize, sep: char) -> (out: Vec<Vec<char>>)
    requires
        from <= v.len(),
    ensures
        rows(out@) == split(v@.skip(from as int), sep),
{
    let mut out: Vec<Vec<char>> = Vec::new();
    let mut piece: Vec<char> = Vec::new();
    let mut start: usize = from;
    let mut i: usize = from;
    assert(rows(out@) + split(v@.skip(start as int), sep) =~= split(v@.skip(from as int), sep));
    while i < v.len()
        invariant
            from <= start <= i <= v.len(),
            piece@ == v@.subrange(start as int, i as int),
            forall|j: int| start <= j < i ==> v@[j] != sep,
            rows(out@) + split(v@.skip(start as int), sep) == split(v@.skip(from as int), sep),
        decreases v.len() - i,
    {
        if v[i] == sep {
            proof {
                let rest = v@.skip(start as int);
                lemma_index_of(rest, sep, i - start);
                assert(rest.take(i - start) =~= piece@);
                assert(rest.skip(i - start + 1) =~= v@.skip(i + 1));
                assert(rows(out@.push(piece)) =~= rows(out@).push(piece@));
                assert(rows(out@).push(piece@) + split(v@.skip(i + 1), sep) =~= rows(out@) + split(
                    rest,
                    sep,
                ));
            }
            out.push(piece);
            piece = Vec::new();
            start = i + 1;
        } else {
            piece.push(v[i]);
        }
        i += 1;
        assert(piece@ =~= v@.subrange(start as int, i as int));
    }
    proof {
        let rest = v@.skip(start as int);
        lemma_index_of(rest, sep, rest.len() as int);
        assert(rest =~= piece@);
        assert(rows(out@.push(piece)) =~= rows(out@).push(piece@));
        assert(rows(out@).push(piece@) =~= rows(out@) + split(rest, sep));
    }
    out.push(piece);
    out
}

/// Whether `s` begins with `prefix`.
pub open spec fn has_prefix(s: Seq<char>, prefix: Seq<char>) -> bool {
    prefix.len() <= s.len() && s.take(prefix.len() as int) == prefix
}

/// Tests whether `line` begins with `prefix`, and if so returns the number
/// of characters of the prefix.
pub fn strip_prefix(line: &Vec<char>, prefix: &str) -> (r: Option<usize>)
    ensures
        r is Some <==> has_prefix(line@, prefix@),
        r is Some ==> r->0 == prefix@.len(),
{
    let p = to_chars(prefix);
    if p.len() > line.len() {
        return None;
    }
    let mut i: usize = 0;
    while i < p.len()
        invariant
            i <= p.len() <= line.len(),
            p@ == prefix@,
            line@.take(i as int) == p@.take(i as int),
        decreases p.len() - i,
    {
        if line[i] != p[i] {
            proof {
                if has_prefix(line@, prefix@) {
                    assert(line@.take(p.len() as int)[i as int] == p@[i as int]);
                }
            }
            return None;
        }
        i += 1;
        assert(line@.take(i as int) =~= line@.take(i - 1).push(line@[i - 1]));
        assert(p@.take(i as int) =~= p@.take(i - 1).push(p@[i - 1]));
    }
    assert(p@.take(i as int) =~= p@);
    Some(p.len())
}

/// Whether `c` is one of the blank characters that may trail a value.
pub open spec fn is_blank(c: char) -> bool {
    c == ' ' || c == '\t' || c == '\r' || c == '\n'
}

/// `s` without the blank characters at its end.
pub open spec fn trim_end(s: Seq<char>) -> Seq<char>
    decreases s.len(),
{
    if s.len() > 0 && is_blank(s.last()) {
        trim_end(s.drop_last())
    } else {
        s
    }
}

/// The end of `line[from..]` once trailing blanks are dropped.
pub fn trimmed_end(line: &Vec<char>, from: usize) -> (end: usize)
    requires
        from <= line.len(),
    ensures
        from <= end <= line.len(),
        line@.subrange(from as int, end as int) == trim_end(line@.skip(from as int)),
{
    let mut end: usize = line.len();
    assert(line@.subrange(from as int, end as int) =~= line@.skip(from as int));
    while end > from && (line[end - 1] == ' ' || line[end - 1] == '\t' || line[end - 1] == '\r'
        || line[end - 1] == '\n')
        invariant
            from <= end <= line.len(),
            trim_end(line@.subrange(from as int, end as int)) == trim_end(
                line@.skip(from as int),
            ),
        decreases end,
    {
        proof {
            let cur = line@.subrange(from as int, end as int);
            assert(cur.last() == line@[end - 1]);
            assert(cur.drop_last() =~= line@.subrange(from as int, end - 1));
        }
        end -= 1;
    }
    proof {
        let cur = line@.subrange(from as int, end as int);
        if cur.len() > 0 {
            assert(cur.last() == line@[end - 1]);
        }
    }
    end
}

/// Whether the characters `line[from..to]` spell `word`.
pub fn range_is(line: &Vec<char>, from: usize, to: usize, word: &str) -> (r: bool)
    requires
        from <= to <= line.len(),
    ensures
        r == (line@.subrange(from as int, to as int) == word@),
{
    let w = to_chars(word);
    if w.len() != to - from {
        return false;
    }
    let mut i: usize = 0;
    while i < w.len()
        invariant
            from <= to <= line.len(),
            w.len() == to - from,
            i <= w.len(),
            w@ == word@,
            forall|j: int| 0 <= j < i ==> line@[from + j] == w@[j],
        decreases w.len() - i,
    {
        if line[from + i] != w[i] {
            assert(line@.subrange(from as int, to as int)[i as int] != w@[i as int]);
            return false;
        }
        i += 1;
    }
    assert(line@.subrange(from as int, to as int) =~= w@);
    true
}

/// Whether `c` is a decimal digit.
pub open spec fn is_digit(c: char) -> bool {
    '0' <= c <= '9'
}

/// Whether every character of `s` is a decimal digit.
pub open spec fn all_digits(s: Seq<char>) -> bool {
    forall|i: int| 0 <= i < s.len() ==> is_digit(#[trigger] s[i])
}

/// The number that a sequence of decimal digits denotes.
pub open spec fn digits_value(s: Seq<char>) -> int
    decreases s.len(),
{
    if s.len() == 0 {
        0
    } else {
        digits_value(s.drop_last()) * 10 + (s.last() as u32 - '0' as u32)
    }
}

/// The 32-bit integer that `s` denotes in decimal: an optional sign, then
/// one or more digits and nothing else. `None` for anything else, and for a
/// number that does not fit.
pub open spec fn parse_i32(s: Seq<char>) -> Option<i32> {
    let signed = s.len() > 0 && (s[0] == '-' || s[0] == '+');
    let body = if signed {
        s.drop_first()
    } else {
        s
    };
    let magnitude = digits_value(body);
    let value = if s.len() > 0 && s[0] == '-' {
        -magnitude
    } else {
        magnitude
    };
    if body.len() == 0 || !all_digits(body) {
        None
    } else if -0x8000_0000 <= value < 0x8000_0000 {
        Some(value as i32)
    } else {
        None
    }
}

/// A number never shrinks when more digits follow.
pub proof fn lemma_digits_value_grows(s: Seq<char>, k: int)
    requires
        0 <= k <= s.len(),
        all_digits(s),
    ensures
        0 <= digits_value(s.take(k)) <= digits_value(s),
    decreases s.len() - k,
{
    lemma_digits_value_nonnegative(s.take(k));
    if k < s.len() {
        lemma_digits_value_grows(s, k + 1);
        assert(s.take(k + 1).drop_last() =~= s.take(k));
        assert(is_digit(s[k]));
        assert(s.take(k + 1).last() == s[k]);
    } else {
        assert(s.take(k) =~= s);
    }
}

/// A sequence of digits denotes a number that is not negative.
pub proof fn lemma_digits_value_nonnegative(s: Seq<char>)
    requires
        all_digits(s),
    ensures
        0 <= digits_value(s),
    decreases s.len(),
{
    if s.len() > 0 {
        lemma_digits_value_nonnegative(s.drop_last());
        assert(is_digit(s.last()));
    }
}

/// Reads `line[from..]` as a decimal 32-bit integer.
pub fn parse_int(line: &Vec<char>, from: usize) -> (r: Option<i32>)
    requires
        from <= line.len(),
    ensures
        r == parse_i32(line@.skip(from as int)),
{
    let ghost s = line@.skip(from as int);
    let n = line.len();
    let negative = from < n && line[from] == '-';
    let signed = from < n && (line[from] == '-' || line[from] == '+');
    let start: usize = if signed {
        from + 1
    } else {
        from
    };
    let ghost body = line@.skip(start as int);
    proof {
        if from < n {
            assert(s[0] == line@[from as int]);
        }
        if signed {
            assert(s.drop_first() =~= body);
        }
    }
    if start == n {
        return None;
    }
    let mut acc: i64 = 0;
    let mut i: usize = start;
    assert(body.take(0) =~= Seq::<char>::empty());
    while i < n
        invariant
            start <= i <= n,
            n == line.len(),
            body == line@.skip(start as int),
            body.len() > 0,
            s == line@.skip(from as int),
            signed == (s.len() > 0 && (s[0] == '-' || s[0] == '+')),
            negative == (s.len() > 0 && s[0] == '-'),
            body == if signed {
                s.drop_first()
            } else {
                s
            },
            all_digits(body.take(i - start)),
            acc == digits_value(body.take(i - start)),
            0 <= acc <= 0x8000_0000,
        decreases n - i,
    {
        let c = line[i];
        assert(body[i - start] == c);
        if !(c >= '0' && c <= '9') {
            assert(!is_digit(body[i - start]));
            return None;
        }
        let digit: i64 = (c as u32 - '0' as u32) as i64;
        let next: i64 = acc * 10 + digit;
        proof {
            assert(body.take(i - start + 1).drop_last() =~= body.take(i - start));
            assert(body.take(i - start + 1).last() == c);
        }
        if next > 0x8000_0000 {
            proof {
                if all_digits(body) {
                    lemma_digits_value_grows(body, i - start + 1);
                }
            }
            return None;
        }
        acc = next;
        i += 1;
    }
    assert(body.take(i - start) =~= body);
    if negative {
        Some((-acc) as i32)
    } else if acc < 0x8000_0000 {
        Some(acc as i32)
    } else {
        None
    }
}

/// Copies a vector of strings.
pub fn copy_strings(v: &Vec<String>) -> (r: Vec<String>)
    ensures
        texts(r@) == texts(v@),
{
    let mut r: Vec<String> = Vec::new();
    let mut i: usize = 0;
    while i < v.len()
        invariant
            i <= v.len(),
            r.len() == i,
            forall|j: int| 0 <= j < i ==> r@[j]@ == v@[j]@,
        decreases v.len() - i,
    {
        r.push(v[i].clone());
        i += 1;
    }
    assert(texts(r@) =~= texts(v@));
    r
}

/// `s` without the blank characters at its start.
pub open spec fn trim_start(s: Seq<char>) -> Seq<char>
    decreases s.len(),
{
    if s.len() > 0 && is_blank(s[0]) {
        trim_start(s.drop_first())
    } else {
        s
    }
}

/// `s` without any occurrence of `c`.
pub open spec fn without(s: Seq<char>, c: char) -> Seq<char>
    decreases s.len(),
{
    if s.len() == 0 {
        Seq::empty()
    } else if s.last() == c {
        without(s.drop_last(), c)
    } else {
        without(s.drop_last(), c).push(s.last())
    }
}

/// The start of `line` once leading blanks are dropped.
pub fn trimmed_start(line: &Vec<char>) -> (start: usize)
    ensures
        start <= line.len(),
        line@.skip(start as int) == trim_start(line@),
{
    let mut start: usize = 0;
    assert(line@.skip(0) =~= line@);
    while start < line.len() && (line[start] == ' ' || line[start] == '\t' || line[start] == '\r'
        || line[start] == '\n')
        invariant
            start <= line.len(),
            trim_start(line@.skip(start as int)) == trim_start(line@),
        decreases line.len() - start,
    {
        proof {
            let cur = line@.skip(start as int);
            assert(cur[0] == line@[start as int]);
            assert(cur.drop_first() =~= line@.skip(start + 1));
        }
        start += 1;
    }
    proof {
        let cur = line@.skip(start as int);
        if cur.len() > 0 {
            assert(cur[0] == line@[start as int]);
        }
    }
    start
}

/// Copies `v` without any occurrence of `c`.
pub fn remove_each(v: &Vec<char>, c: char) -> (r: Vec<char>)
    ensures
        r@ == without(v@, c),
{
    let mut r: Vec<char> = Vec::new();
    let mut i: usize = 0;
    assert(v@.take(0) =~= Seq::<char>::empty());
    while i < v.len()
        invariant
            i <= v.len(),
            r@ == without(v@.take(i as int), c),
        decreases v.len() - i,
    {
        proof {
            let upto = v@.take(i + 1);
            assert(upto.drop_last() =~= v@.take(i as int));
            assert(upto.last() == v@[i as int]);
        }
        if v[i] != c {
            r.push(v[i]);
        }
        i += 1;
    }
    assert(v@.take(i as int) =~= v@);
    r
}

/// The character of a decimal digit.
pub open spec fn digit_char(d: int) -> char {
    if d == 0 {
        '0'
    } else if d == 1 {
        '1'
    } else if d == 2 {
        '2'
    } else if d == 3 {
        '3'
    } else if d == 4 {
        '4'
    } else if d == 5 {
        '5'
    } else if d == 6 {
        '6'
    } else if d == 7 {
        '7'
    } else if d == 8 {
        '8'
    } else {
        '9'
    }
}

/// The decimal digits of `n`, without leading zeros.
pub open spec fn decimal(n: nat) -> Seq<char>
    decreases n,
{
    if n < 10 {
        seq![digit_char(n as int)]
    } else {
        decimal(n / 10).push(digit_char((n % 10) as int))
    }
}

/// The decimal digits of a number denote that number.
pub proof fn lemma_decimal_denotes(n: nat)
    ensures
        all_digits(decimal(n)),
        digits_value(decimal(n)) == n,
    decreases n,
{
    if n < 10 {
        let s = seq![digit_char(n as int)];
        assert(s.drop_last() =~= Seq::<char>::empty());
        assert(digits_value(s.drop_last()) == 0);
        assert(s.last() == digit_char(n as int));
    } else {
        lemma_decimal_denotes(n / 10);
        let s = decimal(n);
        assert(s.drop_last() =~= decimal(n / 10));
        assert(s.last() == digit_char((n % 10) as int));
    }
}

/// Appends the decimal digits of `n` to `s`.
pub fn push_decimal(s: &mut String, n: u64)
    ensures
        final(s)@ == old(s)@ + decimal(n as nat),
    decreases n,
{
    if n >= 10 {
        push_decimal(s, n / 10);
    }
    let d = n % 10;
    let c = if d == 0 {
        '0'
    } else if d == 1 {
        '1'
    } else if d == 2 {
        '2'
    } else if d == 3 {
        '3'
    } else if d == 4 {
        '4'
    } else if d == 5 {
        '5'
    } else if d == 6 {
        '6'
    } else if d == 7 {
        '7'
    } else if d == 8 {
        '8'
    } else {
        '9'
    };
    s.push(c);
    proof {
        if n < 10 {
            assert(old(s)@.push(c) =~= old(s)@ + decimal(n as nat));
        } else {
            assert((old(s)@ + decimal((n / 10) as nat)).push(c) =~= old(s)@ + decimal(n as nat));
        }
    }
}

/// `s` with each occurrence of `pattern` replaced by `with`, the occurrences
/// taken from the left and not overlapping. An empty pattern occurs nowhere.
pub open spec fn replaced(s: Seq<char>, pattern: Seq<char>, with: Seq<char>) -> Seq<char>
    decreases s.len(),
{
    if s.len() == 0 || pattern.len() == 0 {
        s
    } else if has_prefix(s, pattern) {
        with + replaced(s.skip(pattern.len() as int), pattern, with)
    } else {
        seq![s[0]] + replaced(s.drop_first(), pattern, with)
    }
}

/// Whether `v[at..]` begins with `pattern`.
fn occurs_at(v: &Vec<char>, at: usize, pattern: &Vec<char>) -> (r: bool)
    requires
        at <= v.len(),
    ensures
        r == has_prefix(v@.skip(at as int), pattern@),
{
    if pattern.len() > v.len() - at {
        return false;
    }
    let mut i: usize = 0;
    while i < pattern.len()
        invariant
            at <= v.len(),
            i <= pattern.len() <= v.len() - at,
            forall|j: int| 0 <= j < i ==> v@[at + j] == pattern@[j],
        decreases pattern.len() - i,
    {
        if v[at + i] != pattern[i] {
            proof {
                let head = v@.skip(at as int).take(pattern.len() as int);
                assert(head[i as int] == v@[at + i]);
            }
            return false;
        }
        i += 1;
    }
    assert(v@.skip(at as int).take(pattern.len() as int) =~= pattern@);
    true
}

/// Replaces each occurrence of `pattern` in `s` by `with`.
pub fn replace_each(s: &str, pattern: &str, with: &str) -> (r: String)
    ensures
        r@ == replaced(s@, pattern@, with@),
{
    let pat = to_chars(pattern);
    if pat.len() == 0 {
        return String::from_str(s);
    }
    let v = to_chars(s);
    let mut r = String::new();
    let mut i: usize = 0;
    assert(v@.skip(0) =~= s@);
    assert(r@ + replaced(v@.skip(0), pat@, with@) =~= replaced(s@, pattern@, with@));
    while i < v.len()
        invariant
            i <= v.len(),
            pat@.len() > 0,
            pat@ == pattern@,
            v@ == s@,
            r@ + replaced(v@.skip(i as int), pat@, with@) == replaced(s@, pattern@, with@),
        decreases v.len() - i,
    {
        let ghost rest = v@.skip(i as int);
        if occurs_at(&v, i, &pat) {
            let ghost before = r@;
            r.append(with);
            proof {
                assert(rest.skip(pat@.len() as int) =~= v@.skip(i + pat@.len()));
                assert(before + (with@ + replaced(v@.skip(i + pat@.len()), pat@, with@)) =~= (
                before + with@) + replaced(v@.skip(i + pat@.len()), pat@, with@));
            }
            i += pat.len();
        } else {
            let ghost before = r@;
            r.push(v[i]);
            proof {
                assert(rest[0] == v@[i as int]);
                assert(rest.drop_first() =~= v@.skip(i + 1));
                assert(before + (seq![v@[i as int]] + replaced(v@.skip(i + 1), pat@, with@)) =~= (
                before.push(v@[i as int])) + replaced(v@.skip(i + 1), pat@, with@));
            }
            i += 1;
        }
    }
    assert(v@.skip(i as int) =~= Seq::<char>::empty());
    assert(r@ + Seq::<char>::empty() =~= r@);
    r
}

} // verus!
