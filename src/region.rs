//! Replacement of the region between two marker lines of a text.
//!
//! A region opens at a line that matches the start pattern and closes at the
//! next line after it that matches the end pattern. The lines between the two
//! markers are dropped and the replacement lines are put in their place; the
//! end marker is kept, and the start marker is kept unless asked otherwise.
//! Every region of the text is replaced.

use vstd::prelude::*;
use crate::text::strs;

verus! {

#[verifier::external_type_specification]
#[verifier::external_body]
pub struct ExRegex(regex::Regex);

#[verifier::external_type_specification]
#[verifier::external_body]
pub struct ExRegexError(regex::Error);

/// Whether `regex::Regex::new` accepts the pattern: its syntax is valid and
/// the compiled program stays under the default size limit.
pub uninterp spec fn regex_compiles(pattern: Seq<char>) -> bool;

/// Whether the compiled `pattern` matches somewhere in `line`.
pub uninterp spec fn regex_finds(pattern: Seq<char>, line: Seq<char>) -> bool;

/// The lines of a text, as `str::lines` splits it.
pub uninterp spec fn lines_of(text: Seq<char>) -> Seq<Seq<char>>;

/// Relies on `regex::Regex::new`: it fails exactly on the patterns that do
/// not compile.
#[verifier::external_body]
fn compile_regex(pattern: &str) -> (r: Result<regex::Regex, regex::Error>)
    ensures
        r is Ok <==> regex_compiles(pattern@),
{
    regex::Regex::new(pattern)
}

/// Relies on `regex::Regex::is_match` on the regex compiled from the
/// pattern's source.
#[verifier::external_body]
fn regex_is_match(p: &Pattern, line: &str) -> (r: bool)
    ensures
        r == regex_finds(p.source@, line@),
{
    p.re.is_match(line)
}

/// Relies on `str::lines`: the lines of the text, without their terminators.
#[verifier::external_body]
fn split_lines(text: &str) -> (r: Vec<String>)
    ensures
        strs(r@) == lines_of(text@),
{
    text.lines().map(|l| l.to_string()).collect()
}

/// A compiled regular expression, with the pattern it was compiled from.
pub struct Pattern {
    re: regex::Regex,
    source: Ghost<Seq<char>>,
}

impl Pattern {
    pub closed spec fn source(&self) -> Seq<char> {
        self.source@
    }

    /// Compiles `pattern`; `None` where the pattern does not compile.
    pub fn new(pattern: &str) -> (r: Option<Pattern>)
        ensures
            r is Some <==> regex_compiles(pattern@),
            r matches Some(p) ==> p.source() == pattern@,
    {
        match compile_regex(pattern) {
            Ok(re) => Some(Pattern { re, source: Ghost(pattern@) }),
            Err(_) => None,
        }
    }

    pub(crate) fn re_ref(&self) -> &regex::Regex {
        &self.re
    }

    /// Whether the pattern matches somewhere in `line`.
    pub fn is_match(&self, line: &str) -> (r: bool)
        ensures
            r == regex_finds(self.source(), line@),
    {
        regex_is_match(self, line)
    }
}

/// Why a region could not be replaced.
#[derive(Debug, Clone, Copy, PartialEq, Eq, Structural)]
pub enum RegionError {
    /// The start or the end pattern does not compile.
    InvalidPattern,
    /// No line matches the start pattern.
    StartNotFound,
    /// A region was opened and no later line closes it.
    Unclosed,
}

/// Where a scan over the lines stands: the lines written so far, whether it
/// is inside a region, and whether a region was seen.
pub ghost struct ScanState {
    pub out: Seq<Seq<char>>,
    pub inside: bool,
    pub found: bool,
}

/// One line of the scan: `is_start` and `is_end` tell whether it matches the
/// start and the end pattern.
pub open spec fn scan_step(
    st: ScanState,
    line: Seq<char>,
    is_start: bool,
    is_end: bool,
    replace_start: bool,
    repl: Seq<Seq<char>>,
) -> ScanState {
    if st.inside {
        if is_end {
            ScanState { out: st.out + repl.push(line), inside: false, found: st.found }
        } else {
            st
        }
    } else if is_start {
        ScanState {
            out: if replace_start { st.out } else { st.out.push(line) },
            inside: true,
            found: true,
        }
    } else {
        ScanState { out: st.out.push(line), inside: false, found: st.found }
    }
}

/// The scan over the first `i` lines.
pub open spec fn scan(
    lines: Seq<Seq<char>>,
    starts: Seq<bool>,
    ends: Seq<bool>,
    replace_start: bool,
    repl: Seq<Seq<char>>,
    i: nat,
) -> ScanState
    decreases i,
{
    if i == 0 {
        ScanState { out: Seq::empty(), inside: false, found: false }
    } else {
        let j = (i - 1) as nat;
        scan_step(scan(lines, starts, ends, replace_start, repl, j), lines[j as int], starts[j as int], ends[j as int], replace_start, repl)
    }
}

/// The outcome of replacing the regions of `lines`.
pub open spec fn replaced(
    lines: Seq<Seq<char>>,
    starts: Seq<bool>,
    ends: Seq<bool>,
    replace_start: bool,
    repl: Seq<Seq<char>>,
) -> Result<Seq<Seq<char>>, RegionError> {
    let st = scan(lines, starts, ends, replace_start, repl, lines.len());
    if !st.found {
        Err(RegionError::StartNotFound)
    } else if st.inside {
        Err(RegionError::Unclosed)
    } else {
        Ok(st.out)
    }
}

pub open spec fn replaced_view(r: Result<Vec<String>, RegionError>) -> Result<Seq<Seq<char>>, RegionError> {
    match r {
        Ok(v) => Ok(strs(v@)),
        Err(e) => Err(e),
    }
}

/// Replaces the regions of `lines`, where `starts[i]` and `ends[i]` tell
/// whether line `i` matches the start and the end pattern.
pub fn replace_marked_region(
    lines: &Vec<String>,
    starts: &Vec<bool>,
    ends: &Vec<bool>,
    replace_start: bool,
    replacements: &Vec<String>,
) -> (r: Result<Vec<String>, RegionError>)
    requires
        starts@.len() == lines@.len(),
        ends@.len() == lines@.len(),
    ensures
        replaced_view(r) == replaced(strs(lines@), starts@, ends@, replace_start, strs(replacements@)),
{
    let ghost ls = strs(lines@);
    let ghost repl = strs(replacements@);
    let mut out: Vec<String> = Vec::new();
    let mut inside = false;
    let mut found = false;
    let n = lines.len();
    let mut i: usize = 0;
    assert(strs(out@) =~= Seq::<Seq<char>>::empty());
    while i < n
        invariant
            n == lines@.len(),
            starts@.len() == n,
            ends@.len() == n,
            ls == strs(lines@),
            repl == strs(replacements@),
            i <= n,
            (ScanState { out: strs(out@), inside, found }) == scan(ls, starts@, ends@, replace_start, repl, i as nat),
        decreases n - i,
    {
        let line = &lines[i];
        let ghost before = strs(out@);
        assert(ls[i as int] == line@);
        if inside {
            if ends[i] {
                inside = false;
                let m = replacements.len();
                let mut k: usize = 0;
                while k < m
                    invariant
                        m == replacements@.len(),
                        repl == strs(replacements@),
                        k <= m,
                        strs(out@) == before + repl.subrange(0, k as int),
                    decreases m - k,
                {
                    let ghost prev = out@;
                    let item = replacements[k].clone();
                    assert(item@ == repl[k as int]);
                    out.push(item);
                    assert(strs(out@) =~= strs(prev).push(repl[k as int]));
                    assert(repl.subrange(0, k + 1) =~= repl.subrange(0, k as int).push(repl[k as int]));
                    assert(strs(out@) =~= before + repl.subrange(0, k + 1));
                    k = k + 1;
                }
                let ghost prev = out@;
                out.push(line.clone());
                assert(strs(out@) =~= strs(prev).push(line@));
                assert(repl.subrange(0, m as int) =~= repl);
                assert(strs(out@) =~= before + repl.push(line@));
            }
        } else if starts[i] {
            if !replace_start {
                out.push(line.clone());
                assert(strs(out@) =~= before.push(line@));
            }
            inside = true;
            found = true;
        } else {
            out.push(line.clone());
            assert(strs(out@) =~= before.push(line@));
        }
        i = i + 1;
    }
    if !found {
        Err(RegionError::StartNotFound)
    } else if inside {
        Err(RegionError::Unclosed)
    } else {
        Ok(out)
    }
}

/// The lines of `s`, each followed by a newline.
pub open spec fn joined(s: Seq<Seq<char>>) -> Seq<char>
    decreases s.len(),
{
    if s.len() == 0 {
        Seq::empty()
    } else {
        joined(s.drop_last()) + s.last() + "\n"@
    }
}

/// The lines of `lines`, each followed by a newline.
pub fn join_lines(lines: &Vec<String>) -> (r: String)
    ensures
        r@ == joined(strs(lines@)),
{
    let mut r = String::new();
    let n = lines.len();
    let mut i: usize = 0;
    while i < n
        invariant
            n == lines@.len(),
            i <= n,
            r@ == joined(strs(lines@.subrange(0, i as int))),
        decreases n - i,
    {
        r.append(lines[i].as_str());
        r.append("\n");
        let ghost s = strs(lines@.subrange(0, i + 1));
        assert(s.drop_last() =~= strs(lines@.subrange(0, i as int)));
        i = i + 1;
    }
    assert(lines@.subrange(0, n as int) =~= lines@);
    r
}

/// Whether `pattern` matches each of `lines`.
pub open spec fn hits(pattern: Seq<char>, lines: Seq<Seq<char>>) -> Seq<bool> {
    lines.map_values(|l: Seq<char>| regex_finds(pattern, l))
}

fn match_each(p: &Pattern, lines: &Vec<String>) -> (r: Vec<bool>)
    ensures
        r@ == hits(p.source(), strs(lines@)),
{
    let mut r: Vec<bool> = Vec::new();
    let n = lines.len();
    let mut i: usize = 0;
    while i < n
        invariant
            n == lines@.len(),
            i <= n,
            r@ == hits(p.source(), strs(lines@.subrange(0, i as int))),
        decreases n - i,
    {
        let b = p.is_match(lines[i].as_str());
        r.push(b);
        assert(strs(lines@.subrange(0, i + 1)) =~= strs(lines@.subrange(0, i as int)).push(lines@[i as int]@));
        assert(r@ =~= hits(p.source(), strs(lines@.subrange(0, i + 1))));
        i = i + 1;
    }
    assert(lines@.subrange(0, n as int) =~= lines@);
    r
}

/// The outcome of replacing the regions of `text` between lines matching
/// `start` and `end` with `repl`.
pub open spec fn region_replaced(
    text: Seq<char>,
    start: Seq<char>,
    end: Seq<char>,
    replace_start: bool,
    repl: Seq<Seq<char>>,
) -> Result<Seq<char>, RegionError> {
    if !regex_compiles(start) || !regex_compiles(end) {
        Err(RegionError::InvalidPattern)
    } else {
        let ls = lines_of(text);
        match replaced(ls, hits(start, ls), hits(end, ls), replace_start, repl) {
            Ok(out) => Ok(joined(out)),
            Err(e) => Err(e),
        }
    }
}

pub open spec fn text_view(r: Result<String, RegionError>) -> Result<Seq<char>, RegionError> {
    match r {
        Ok(s) => Ok(s@),
        Err(e) => Err(e),
    }
}

/// Replaces every region of `text` that opens at a line matching `start`
/// and closes at the next line matching `end` with `replacements`; the
/// result ends each line with a newline.
pub fn replace_region_in_text(
    text: &str,
    start: &str,
    end: &str,
    replace_start: bool,
    replacements: &Vec<String>,
) -> (r: Result<String, RegionError>)
    ensures
        text_view(r) == region_replaced(text@, start@, end@, replace_start, strs(replacements@)),
{
    let start_re = match Pattern::new(start) {
        Some(p) => p,
        None => return Err(RegionError::InvalidPattern),
    };
    let end_re = match Pattern::new(end) {
        Some(p) => p,
        None => return Err(RegionError::InvalidPattern),
    };
    let lines = split_lines(text);
    let starts = match_each(&start_re, &lines);
    let ends = match_each(&end_re, &lines);
    match replace_marked_region(&lines, &starts, &ends, replace_start, replacements) {
        Ok(out) => Ok(join_lines(&out)),
        Err(e) => Err(e),
    }
}

} // verus!
