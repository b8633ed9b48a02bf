//! Desired-list inputs and output format tags.
//!
//! The caller's raw package lists enter here and are normalized once into
//! the canonical form the rest of the core works on. Reading files and
//! writing output are the caller's business; this module only carries the
//! format tags it decided on.

use vstd::prelude::*;
use vstd::string::StrSliceExecFns;
use crate::names::{normalize_names, same_names, sorted_names};

verus! {

broadcast use vstd::seq_lib::group_seq_properties;

/// The whitespace stripped from package lines.
pub open spec fn spec_is_space(c: char) -> bool {
    c == ' ' || c == '\t' || c == '\r'
}

/// The sequence without its leading whitespace.
pub open spec fn trim_front(s: Seq<char>) -> Seq<char>
    decreases s.len(),
{
    if s.len() > 0 && spec_is_space(s[0]) {
        trim_front(s.drop_first())
    } else {
        s
    }
}

/// The sequence without its trailing whitespace.
pub open spec fn trim_back(s: Seq<char>) -> Seq<char>
    decreases s.len(),
{
    if s.len() > 0 && spec_is_space(s.last()) {
        trim_back(s.drop_last())
    } else {
        s
    }
}

/// The sequence without surrounding whitespace.
pub open spec fn spec_trim(s: Seq<char>) -> Seq<char> {
    trim_back(trim_front(s))
}

/// The prefix of the sequence before its first `'#'`.
pub open spec fn before_comment(s: Seq<char>) -> Seq<char>
    decreases s.len(),
{
    if s.len() == 0 {
        s
    } else if s[0] == '#' {
        Seq::empty()
    } else {
        seq![s[0]] + before_comment(s.drop_first())
    }
}

/// One line of a package file: blank lines and comment lines carry nothing;
/// any other line carries its text before an inner comment, trimmed.
pub open spec fn spec_parse_line(s: Seq<char>) -> Option<Seq<char>> {
    if s.len() == 0 || s[0] == '#' {
        None
    } else {
        Some(spec_trim(before_comment(s)))
    }
}

/// The package names carried by the lines of a file, in file order.
pub open spec fn spec_parse_lines(ls: Seq<Seq<char>>) -> Seq<Seq<char>>
    decreases ls.len(),
{
    if ls.len() == 0 {
        Seq::empty()
    } else {
        match spec_parse_line(ls[0]) {
            Some(x) => seq![x] + spec_parse_lines(ls.drop_first()),
            None => spec_parse_lines(ls.drop_first()),
        }
    }
}

proof fn lemma_trim_front_is_skip(s: Seq<char>, f: int)
    requires
        0 <= f <= s.len(),
        forall|k: int| 0 <= k < f ==> spec_is_space(s[k]),
        f == s.len() || !spec_is_space(s[f]),
    ensures
        trim_front(s) == s.skip(f),
    decreases f,
{
    if f == 0 {
        assert(s.skip(0) =~= s);
    } else {
        assert(s.drop_first() =~= s.skip(1));
        assert forall|k: int| 0 <= k < f - 1 implies spec_is_space(s.drop_first()[k]) by {
            assert(s.drop_first()[k] == s[k + 1]);
        }
        lemma_trim_front_is_skip(s.drop_first(), f - 1);
        assert(s.drop_first().skip(f - 1) =~= s.skip(f));
    }
}

proof fn lemma_trim_back_is_take(s: Seq<char>, t: int)
    requires
        0 <= t <= s.len(),
        forall|k: int| t <= k < s.len() ==> spec_is_space(s[k]),
        t == 0 || !spec_is_space(s[t - 1]),
    ensures
        trim_back(s) == s.take(t),
    decreases s.len() - t,
{
    if t == s.len() {
        assert(s.take(t) =~= s);
    } else {
        assert(spec_is_space(s.last()));
        lemma_trim_back_is_take(s.drop_last(), t);
        assert(s.drop_last().take(t) =~= s.take(t));
    }
}

proof fn lemma_before_comment_is_take(s: Seq<char>, h: int)
    requires
        0 <= h <= s.len(),
        forall|k: int| 0 <= k < h ==> s[k] != '#',
        h == s.len() || s[h] == '#',
    ensures
        before_comment(s) == s.take(h),
    decreases s.len(),
{
    if s.len() == 0 {
        assert(s.take(h) =~= s);
    } else if s[0] == '#' {
        assert(s.take(0) =~= Seq::<char>::empty());
    } else {
        assert forall|k: int| 0 <= k < h - 1 implies s.drop_first()[k] != '#' by {
            assert(s.drop_first()[k] == s[k + 1]);
        }
        lemma_before_comment_is_take(s.drop_first(), h - 1);
        assert(seq![s[0]] + s.drop_first().take(h - 1) =~= s.take(h));
    }
}

/// Whether the character counts as whitespace around a package name.
fn is_space(c: char) -> (r: bool)
    ensures
        r == spec_is_space(c),
{
    c == ' ' || c == '\t' || c == '\r'
}

/// Strips surrounding whitespace from a string.
fn trim_spaces(s: &str) -> (r: String)
    ensures
        r@ == spec_trim(s@),
{
    let n = s.unicode_len();
    let mut f: usize = 0;
    while f < n && is_space(s.get_char(f))
        invariant
            0 <= f <= n,
            n == s@.len(),
            forall|k: int| 0 <= k < f ==> spec_is_space(s@[k]),
        decreases n - f,
    {
        f = f + 1;
    }
    proof {
        lemma_trim_front_is_skip(s@, f as int);
    }
    let mut t: usize = n;
    while t > f && is_space(s.get_char(t - 1))
        invariant
            f <= t <= n,
            n == s@.len(),
            forall|k: int| t <= k < n ==> spec_is_space(s@[k]),
        decreases t,
    {
        t = t - 1;
    }
    proof {
        let front = s@.skip(f as int);
        assert forall|k: int| t - f <= k < front.len() implies spec_is_space(front[k]) by {
            assert(front[k] == s@[k + f]);
        }
        if t > f {
            assert(front[t - f - 1] == s@[t as int - 1]);
        }
        lemma_trim_back_is_take(front, t - f);
        assert(front.take(t - f) =~= s@.subrange(f as int, t as int));
    }
    let part = s.substring_char(f, t);
    part.to_owned()
}

/// Parses one line of a package file: a blank or comment line yields
/// nothing, any other line its text before an inner comment, trimmed.
pub fn parse_line(line: &str) -> (r: Option<String>)
    ensures
        match r {
            Some(name) => spec_parse_line(line@) == Some(name@),
            None => spec_parse_line(line@) is None,
        },
{
    let n = line.unicode_len();
    if n == 0 {
        return None;
    }
    if line.get_char(0) == '#' {
        return None;
    }
    let mut h: usize = 0;
    while h < n && line.get_char(h) != '#'
        invariant
            0 <= h <= n,
            n == line@.len(),
            forall|k: int| 0 <= k < h ==> line@[k] != '#',
        decreases n - h,
    {
        h = h + 1;
    }
    proof {
        lemma_before_comment_is_take(line@, h as int);
        assert(line@.take(h as int) =~= line@.subrange(0, h as int));
    }
    let content = line.substring_char(0, h);
    Some(trim_spaces(content))
}

/// Parses the lines of a package file into the names they carry, in file
/// order.
pub fn parse_package_lines(lines: &Vec<String>) -> (r: Vec<String>)
    ensures
        r.deep_view() == spec_parse_lines(lines.deep_view()),
{
    let ghost ldv = lines.deep_view();
    let mut out: Vec<String> = Vec::new();
    let mut k: usize = 0;
    proof {
        assert(ldv.skip(0) =~= ldv);
        assert(out.deep_view() =~= Seq::<Seq<char>>::empty());
    }
    while k < lines.len()
        invariant
            k <= lines.len(),
            ldv == lines.deep_view(),
            spec_parse_lines(ldv) =~= out.deep_view() + spec_parse_lines(ldv.skip(k as int)),
        decreases lines.len() - k,
    {
        let ghost prev = out.deep_view();
        proof {
            assert(ldv.skip(k as int)[0] == ldv[k as int]);
            assert(ldv.skip(k as int).drop_first() =~= ldv.skip(k as int + 1));
        }
        match parse_line(lines[k].as_str()) {
            Some(name) => {
                let ghost namedv = name@;
                out.push(name);
                proof {
                    assert(out.deep_view() =~= prev.push(namedv));
                    assert(prev + (seq![namedv] + spec_parse_lines(ldv.skip(k as int + 1)))
                        =~= out.deep_view() + spec_parse_lines(ldv.skip(k as int + 1)));
                }
            },
            None => {},
        }
        k = k + 1;
    }
    proof {
        assert(ldv.skip(ldv.len() as int) =~= Seq::<Seq<char>>::empty());
        assert(out.deep_view() + spec_parse_lines(ldv.skip(ldv.len() as int)) =~= out.deep_view());
    }
    out
}

/// Where rendered output goes.
#[derive(Debug, Clone, Copy, PartialEq, Eq, Structural)]
pub enum OutputFormat {
    /// Print output to the console.
    Stdout,
    /// Write output to a plain-text file.
    Txt,
}

/// Where a desired list came from.
#[derive(Debug, Clone, Copy, PartialEq, Eq, Structural)]
pub enum InputFormat {
    /// Read from the caller's arguments.
    Stdin,
    /// Read from a plain-text file.
    Txt,
}

/// Every output filename is treated as plain text, whatever its extension.
pub fn parse_output_format(_filename: &str) -> (format: OutputFormat)
    ensures
        format == OutputFormat::Txt,
{
    OutputFormat::Txt
}

/// Every input filename is treated as plain text, whatever its extension.
pub fn parse_input_format(_filename: &str) -> (format: InputFormat)
    ensures
        format == InputFormat::Txt,
{
    InputFormat::Txt
}

/// A desired-package list in canonical form, with its source format.
#[derive(Debug, Clone)]
pub struct Input {
    /// Input format type
    pub format: InputFormat,
    /// Canonical package list read from the source
    pub list: Vec<String>,
}

impl Input {
    /// The list is canonical: sorted ascending and duplicate-free.
    pub open spec fn well_formed(&self) -> bool {
        sorted_names(self.list.deep_view())
    }

    /// Builds an input from the raw lines of a package file: comments and
    /// blank lines are dropped, names are trimmed, and the result is
    /// normalized.
    pub fn from_lines(lines: Vec<String>, filename: &str) -> (input: Input)
        ensures
            input.well_formed(),
            same_names(input.list.deep_view(), spec_parse_lines(lines.deep_view())),
            input.format == InputFormat::Txt,
    {
        let format = parse_input_format(filename);
        let parsed = parse_package_lines(&lines);
        let list = normalize_names(&parsed);
        Input { format, list }
    }

    /// Builds an input from a caller-supplied argument list, normalizing it.
    pub fn from_list(list: Vec<String>) -> (input: Input)
        ensures
            input.well_formed(),
            same_names(input.list.deep_view(), list.deep_view()),
            input.format == InputFormat::Stdin,
    {
        let list = normalize_names(&list);
        Input { format: InputFormat::Stdin, list }
    }

    /// Adds names to the input; the result is canonical and carries the
    /// names of both lists.
    pub fn append_list(&mut self, list: Vec<String>)
        ensures
            final(self).well_formed(),
            final(self).format == old(self).format,
            forall|x: Seq<char>|
                #[trigger] final(self).list.deep_view().contains(x) == (old(
                    self,
                ).list.deep_view().contains(x) || list.deep_view().contains(x)),
    {
        let ghost old_dv = self.list.deep_view();
        let ghost add_dv = list.deep_view();
        let mut joined = self.list.clone();
        proof {
            assert(joined.deep_view() =~= old_dv);
        }
        let mut extra = list;
        joined.append(&mut extra);
        proof {
            assert(joined.deep_view() =~= old_dv + add_dv) by {
                assert forall|m: int| 0 <= m < joined.deep_view().len()
                    implies joined.deep_view()[m] == (old_dv + add_dv)[m] by {
                }
            }
        }
        let normalized = normalize_names(&joined);
        self.set_list(normalized);
    }

    /// Replaces the carried list.
    fn set_list(&mut self, list: Vec<String>)
        ensures
            final(self).list == list,
            final(self).format == old(self).format,
    {
        self.list = list;
    }
}

} // verus!
