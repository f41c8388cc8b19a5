//! The theme descriptor: an INI-like text whose `[Icon Theme]` section lists
//! the theme's directories and parents, and whose other sections give the
//! sizing policy of one directory each.

use vstd::prelude::*;
use crate::sizing::{PolicyKind, SizingPolicy};
use crate::text::{
    from_chars, has_prefix, parse_i32, parse_int, range_is, rows, split, split_at_each,
    strip_prefix, texts, to_chars, trim_end, trimmed_end,
};

verus! {

/// The sizing policy declared for one directory of a theme.
#[derive(Clone, Debug)]
pub struct DirectorySizing {
    pub name: String,
    pub policy: SizingPolicy,
}

/// What a descriptor declares. A directory may be declared more than once in
/// `sizing`; the last declaration is the one that counts.
#[derive(Clone, Debug)]
pub struct Descriptor {
    pub directories: Vec<String>,
    pub inherits: Vec<String>,
    pub sizing: Vec<DirectorySizing>,
}

/// The mathematical content of a [`Descriptor`].
pub ghost struct DescriptorView {
    pub directories: Seq<Seq<char>>,
    pub inherits: Seq<Seq<char>>,
    pub sizing: Seq<(Seq<char>, SizingPolicy)>,
}

/// The views of a vector of sizing declarations.
pub open spec fn sizing_view(v: Seq<DirectorySizing>) -> Seq<(Seq<char>, SizingPolicy)> {
    v.map_values(|d: DirectorySizing| (d.name@, d.policy))
}

impl View for Descriptor {
    type V = DescriptorView;

    open spec fn view(&self) -> DescriptorView {
        DescriptorView {
            directories: texts(self.directories@),
            inherits: texts(self.inherits@),
            sizing: sizing_view(self.sizing@),
        }
    }
}

/// The section a line belongs to.
#[derive(Clone, Copy, Debug, PartialEq, Eq, Structural)]
pub enum Section {
    /// Before the first section header: lines here are ignored.
    Outside,
    /// Inside `[Icon Theme]`.
    IconTheme,
    /// Inside the section of a directory, the last one of `sizing`.
    Directory,
}

/// The parser's state after some lines.
pub ghost struct ParseState {
    pub section: Section,
    pub content: DescriptorView,
}

/// `line` without the carriage return at its end, if it has one.
pub open spec fn strip_cr(line: Seq<char>) -> Seq<char> {
    if line.len() > 0 && line.last() == '\r' {
        line.drop_last()
    } else {
        line
    }
}

/// The lines of a text: its pieces between line feeds, each without a
/// trailing carriage return.
pub open spec fn lines_of(text: Seq<char>) -> Seq<Seq<char>> {
    split(text, '\n').map_values(|l: Seq<char>| strip_cr(l))
}

/// The pieces that are not empty, in order.
pub open spec fn non_empty(pieces: Seq<Seq<char>>) -> Seq<Seq<char>>
    decreases pieces.len(),
{
    if pieces.len() == 0 {
        Seq::empty()
    } else if pieces.last().len() > 0 {
        non_empty(pieces.drop_last()).push(pieces.last())
    } else {
        non_empty(pieces.drop_last())
    }
}

/// The items of a comma-separated list; empty items are dropped.
pub open spec fn list_items(value: Seq<char>) -> Seq<Seq<char>> {
    non_empty(split(value, ','))
}

/// Whether a line opens a section.
pub open spec fn is_header(line: Seq<char>) -> bool {
    line.len() > 0 && line[0] == '['
}

/// The name in a section header: what stands between the opening bracket and
/// the line's last character.
pub open spec fn header_name(line: Seq<char>) -> Seq<char> {
    if line.len() >= 2 {
        line.subrange(1, line.len() - 1)
    } else {
        Seq::empty()
    }
}

/// The kind that the value of a `Type=` key names, if it names one.
pub open spec fn kind_named(value: Seq<char>) -> Option<PolicyKind> {
    if value == "Fixed"@ {
        Some(PolicyKind::Fixed)
    } else if value == "Scalable"@ {
        Some(PolicyKind::Scalable)
    } else if value == "Threshold"@ {
        Some(PolicyKind::Threshold)
    } else {
        None
    }
}

/// The policy of a directory after one more line of its section. A `Size=`
/// key with a well-formed number sets the nominal size, a `Type=` key with a
/// known value sets the kind; every other line leaves the policy as it is.
pub open spec fn policy_after(policy: SizingPolicy, line: Seq<char>) -> SizingPolicy {
    if has_prefix(line, "Size="@) {
        match parse_i32(line.skip("Size="@.len() as int)) {
            Some(n) => SizingPolicy::of(policy.kind(), n),
            None => policy,
        }
    } else if has_prefix(line, "Type="@) {
        match kind_named(trim_end(line.skip("Type="@.len() as int))) {
            Some(k) => SizingPolicy::of(k, policy.nominal() as i32),
            None => policy,
        }
    } else {
        policy
    }
}

/// The parser's state after one more line.
pub open spec fn step(st: ParseState, line: Seq<char>) -> ParseState {
    if is_header(line) {
        if header_name(line) == "Icon Theme"@ {
            ParseState { section: Section::IconTheme, content: st.content }
        } else {
            ParseState {
                section: Section::Directory,
                content: DescriptorView {
                    sizing: st.content.sizing.push((header_name(line), SizingPolicy::Fixed(0))),
                    ..st.content
                },
            }
        }
    } else {
        match st.section {
            Section::Outside => st,
            Section::IconTheme => {
                if has_prefix(line, "Directories="@) {
                    ParseState {
                        content: DescriptorView {
                            directories: list_items(line.skip("Directories="@.len() as int)),
                            ..st.content
                        },
                        ..st
                    }
                } else if has_prefix(line, "Inherits="@) {
                    ParseState {
                        content: DescriptorView {
                            inherits: list_items(line.skip("Inherits="@.len() as int)),
                            ..st.content
                        },
                        ..st
                    }
                } else {
                    st
                }
            },
            Section::Directory => {
                if st.content.sizing.len() == 0 {
                    st
                } else {
                    let last = st.content.sizing.last();
                    ParseState {
                        content: DescriptorView {
                            sizing: st.content.sizing.drop_last().push(
                                (last.0, policy_after(last.1, line)),
                            ),
                            ..st.content
                        },
                        ..st
                    }
                }
            },
        }
    }
}

/// The state before any line.
pub open spec fn initial_state() -> ParseState {
    ParseState {
        section: Section::Outside,
        content: DescriptorView {
            directories: Seq::empty(),
            inherits: Seq::empty(),
            sizing: Seq::empty(),
        },
    }
}

/// The state after the given lines, taken in order.
pub open spec fn run(lines: Seq<Seq<char>>) -> ParseState
    decreases lines.len(),
{
    if lines.len() == 0 {
        initial_state()
    } else {
        step(run(lines.drop_last()), lines.last())
    }
}

/// What the descriptor with the given text declares.
pub open spec fn parse_text(text: Seq<char>) -> DescriptorView {
    run(lines_of(text)).content
}

/// Splits a text into its lines.
pub fn read_lines(text: &Vec<char>) -> (lines: Vec<Vec<char>>)
    ensures
        rows(lines@) == lines_of(text@),
{
    let pieces = split_at_each(text, 0, '\n');
    assert(text@.skip(0) =~= text@);
    let mut lines: Vec<Vec<char>> = Vec::new();
    let mut i: usize = 0;
    while i < pieces.len()
        invariant
            i <= pieces.len(),
            rows(pieces@) == split(text@, '\n'),
            lines.len() == i,
            forall|j: int| 0 <= j < i ==> lines@[j]@ == strip_cr(#[trigger] pieces@[j]@),
        decreases pieces.len() - i,
    {
        let piece = &pieces[i];
        let n = piece.len();
        let end: usize = if n > 0 && piece[n - 1] == '\r' {
            n - 1
        } else {
            n
        };
        let mut line: Vec<char> = Vec::new();
        let mut k: usize = 0;
        while k < end
            invariant
                k <= end <= piece.len(),
                line@ == piece@.take(k as int),
            decreases end - k,
        {
            line.push(piece[k]);
            k += 1;
            assert(line@ =~= piece@.take(k as int));
        }
        assert(line@ =~= strip_cr(piece@));
        lines.push(line);
        i += 1;
    }
    assert(rows(lines@) =~= lines_of(text@)) by {
        assert forall|j: int| 0 <= j < lines.len() implies rows(lines@)[j] == lines_of(text@)[j] by {
            assert(rows(pieces@)[j] == pieces@[j]@);
        }
    }
    lines
}

/// Reads the comma-separated list that starts at `line[from]`.
pub fn read_list(line: &Vec<char>, from: usize) -> (items: Vec<String>)
    requires
        from <= line.len(),
    ensures
        texts(items@) == list_items(line@.skip(from as int)),
{
    let pieces = split_at_each(line, from, ',');
    let mut items: Vec<String> = Vec::new();
    let mut i: usize = 0;
    assert(rows(pieces@).take(0) =~= Seq::<Seq<char>>::empty());
    assert(texts(items@) =~= Seq::<Seq<char>>::empty());
    while i < pieces.len()
        invariant
            i <= pieces.len(),
            texts(items@) == non_empty(rows(pieces@).take(i as int)),
        decreases pieces.len() - i,
    {
        let piece = &pieces[i];
        proof {
            let upto = rows(pieces@).take(i + 1);
            assert(upto.drop_last() =~= rows(pieces@).take(i as int));
            assert(upto.last() == piece@);
        }
        if piece.len() > 0 {
            let item = from_chars(piece, 0, piece.len());
            assert(piece@.subrange(0, piece.len() as int) =~= piece@);
            assert(texts(items@.push(item)) =~= texts(items@).push(item@));
            items.push(item);
        }
        i += 1;
    }
    assert(rows(pieces@).take(i as int) =~= rows(pieces@));
    items
}

/// Applies one line of a directory's section to the directory's policy.
pub fn read_policy(policy: SizingPolicy, line: &Vec<char>) -> (r: SizingPolicy)
    ensures
        r == policy_after(policy, line@),
{
    if let Some(k) = strip_prefix(line, "Size=") {
        match parse_int(line, k) {
            Some(n) => SizingPolicy::new(policy.policy_kind(), n),
            None => policy,
        }
    } else if let Some(k) = strip_prefix(line, "Type=") {
        let end = trimmed_end(line, k);
        if range_is(line, k, end, "Fixed") {
            SizingPolicy::new(PolicyKind::Fixed, policy.nominal_size())
        } else if range_is(line, k, end, "Scalable") {
            SizingPolicy::new(PolicyKind::Scalable, policy.nominal_size())
        } else if range_is(line, k, end, "Threshold") {
            SizingPolicy::new(PolicyKind::Threshold, policy.nominal_size())
        } else {
            policy
        }
    } else {
        policy
    }
}

/// Parses the text of a descriptor. Nothing is rejected: lines that the
/// grammar gives no meaning are skipped.
pub fn parse(text: &str) -> (d: Descriptor)
    ensures
        d@ == parse_text(text@),
{
    let chars = to_chars(text);
    let lines = read_lines(&chars);
    let mut section = Section::Outside;
    let mut d = Descriptor { directories: Vec::new(), inherits: Vec::new(), sizing: Vec::new() };
    let mut i: usize = 0;
    assert(rows(lines@).take(0) =~= Seq::<Seq<char>>::empty());
    assert(d@.directories =~= Seq::<Seq<char>>::empty());
    assert(d@.inherits =~= Seq::<Seq<char>>::empty());
    assert(d@.sizing =~= Seq::<(Seq<char>, SizingPolicy)>::empty());
    while i < lines.len()
        invariant
            i <= lines.len(),
            (ParseState { section, content: d@ }) == run(rows(lines@).take(i as int)),
            section == Section::Directory ==> d.sizing.len() > 0,
        decreases lines.len() - i,
    {
        let line = &lines[i];
        let ghost before = ParseState { section, content: d@ };
        proof {
            let upto = rows(lines@).take(i + 1);
            assert(upto.drop_last() =~= rows(lines@).take(i as int));
            assert(upto.last() == line@);
        }
        if line.len() > 0 && line[0] == '[' {
            let to: usize = if line.len() >= 2 {
                line.len() - 1
            } else {
                1
            };
            assert(line@.subrange(1, to as int) =~= header_name(line@));
            if range_is(line, 1, to, "Icon Theme") {
                section = Section::IconTheme;
            } else {
                let name = from_chars(line, 1, to);
                let entry = DirectorySizing { name, policy: SizingPolicy::Fixed(0) };
                assert(sizing_view(d.sizing@.push(entry)) =~= sizing_view(d.sizing@).push(
                    (entry.name@, entry.policy),
                ));
                d.sizing.push(entry);
                section = Section::Directory;
            }
        } else {
            match section {
                Section::Outside => {},
                Section::IconTheme => {
                    if let Some(k) = strip_prefix(line, "Directories=") {
                        d.directories = read_list(line, k);
                    } else if let Some(k) = strip_prefix(line, "Inherits=") {
                        d.inherits = read_list(line, k);
                    }
                },
                Section::Directory => {
                    let ghost declared = d.sizing@;
                    let last = d.sizing.pop().unwrap();
                    let policy = read_policy(last.policy, line);
                    let entry = DirectorySizing { name: last.name, policy };
                    proof {
                        assert(sizing_view(declared).last() == (last.name@, last.policy));
                        assert(sizing_view(d.sizing@.push(entry)) =~= sizing_view(
                            declared,
                        ).drop_last().push((entry.name@, entry.policy)));
                    }
                    d.sizing.push(entry);
                },
            }
        }
        assert((ParseState { section, content: d@ }) == step(before, line@));
        i += 1;
    }
    assert(rows(lines@).take(i as int) =~= rows(lines@));
    d
}

} // verus!
