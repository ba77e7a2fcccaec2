//! The lint declarations of a source file.

use vstd::prelude::*;
use crate::lint::{views, Lint, LintView};
use crate::region::{regex_compiles, Pattern};
use crate::text::{ascii_lower, unescape_desc};

verus! {

/// A lint declaration: its name, its group, and its description.
pub const LINT_DECLARATION: &'static str = r#"(?x)
    declare_clippy_lint!\s*[\{(]\s*
    pub\s+(?P<name>[A-Z_][A-Z_0-9]*)\s*,\s*
    (?P<cat>[a-z_]+)\s*,\s*
    "(?P<desc>(?:[^"\\]+|\\(?s).(?-s))*)"\s*[})]
"#;

/// A deprecated lint's declaration: its name, and why it was removed.
pub const DEPRECATED_DECLARATION: &'static str = r#"(?x)
    declare_deprecated_lint!\s*[{(]\s*
    pub\s+(?P<name>[A-Z_][A-Z_0-9]*)\s*,\s*
    "(?P<desc>(?:[^"\\]+|\\(?s).(?-s))*)"\s*[})]
"#;

/// For each successive match of `pattern` in `text`, the text of each of its
/// capture groups, in order, an empty text for a group that took no part.
pub uninterp spec fn regex_captures(pattern: Seq<char>, text: Seq<char>) -> Seq<Seq<Seq<char>>>;

/// The views of a list of capture lists.
pub open spec fn capture_views(c: Seq<Vec<String>>) -> Seq<Seq<Seq<char>>> {
    c.map_values(|v: Vec<String>| v@.map_values(|s: String| s@))
}

/// Relies on `regex::Regex::captures_iter` with `Captures::iter`: the capture
/// groups of each successive non-overlapping match, the whole match left out.
#[verifier::external_body]
fn captures_of(p: &Pattern, text: &str) -> (r: Vec<Vec<String>>)
    ensures
        capture_views(r@) == regex_captures(p.source(), text@),
{
    p.re_ref().captures_iter(text).map(|c| {
        c.iter().skip(1).map(|m| m.map_or(String::new(), |m| m.as_str().to_string())).collect()
    }).collect()
}

/// Field `k` of a capture list, empty where the list is shorter.
pub open spec fn field(c: Seq<Seq<char>>, k: int) -> Seq<char> {
    if k < c.len() {
        c[k]
    } else {
        Seq::empty()
    }
}

/// The lint that a declaration's captures give.
pub open spec fn declared(c: Seq<Seq<char>>, module: Seq<char>) -> LintView {
    LintView {
        name: ascii_lower(field(c, 0)),
        group: field(c, 1),
        desc: unescape_desc(field(c, 2)),
        deprecation: None,
        module,
    }
}

/// The lint that a deprecated lint's declaration captures give.
pub open spec fn declared_deprecated(c: Seq<Seq<char>>, module: Seq<char>) -> LintView {
    LintView {
        name: ascii_lower(field(c, 0)),
        group: "Deprecated"@,
        desc: unescape_desc(field(c, 1)),
        deprecation: Some(field(c, 1)),
        module,
    }
}

/// The lints of a file of `module`, given the captures of its lint
/// declarations and of its deprecated lints' declarations.
pub open spec fn lints_of(
    decls: Seq<Seq<Seq<char>>>,
    deprecated: Seq<Seq<Seq<char>>>,
    module: Seq<char>,
) -> Seq<LintView> {
    decls.map_values(|c: Seq<Seq<char>>| declared(c, module)) + deprecated.map_values(
        |c: Seq<Seq<char>>| declared_deprecated(c, module),
    )
}

fn capture(c: &Vec<String>, k: usize) -> (r: &str)
    ensures
        r@ == field(c@.map_values(|s: String| s@), k as int),
{
    if k < c.len() {
        c[k].as_str()
    } else {
        proof {
            reveal_strlit("");
        }
        assert(""@ =~= Seq::<char>::empty());
        ""
    }
}

/// The lints that the captures of a file's declarations give: first those
/// of its lint declarations, then those of its deprecated lints, each in the
/// order of the file.
pub fn lints_from_captures(
    decls: &Vec<Vec<String>>,
    deprecated: &Vec<Vec<String>>,
    module: &str,
) -> (r: Vec<Lint>)
    ensures
        views(r@) == lints_of(capture_views(decls@), capture_views(deprecated@), module@),
{
    let ghost d = capture_views(decls@);
    let ghost e = capture_views(deprecated@);
    let mut r: Vec<Lint> = Vec::new();
    let n = decls.len();
    let mut i: usize = 0;
    while i < n
        invariant
            n == decls@.len(),
            d == capture_views(decls@),
            i <= n,
            views(r@) == d.subrange(0, i as int).map_values(|c: Seq<Seq<char>>| declared(c, module@)),
        decreases n - i,
    {
        let c = &decls[i];
        assert(d[i as int] == c@.map_values(|s: String| s@));
        let l = Lint::new(capture(c, 0), capture(c, 1), capture(c, 2), None, module);
        let ghost before = r@;
        r.push(l);
        assert(d.subrange(0, i + 1) =~= d.subrange(0, i as int).push(d[i as int]));
        assert(l@ == declared(d[i as int], module@));
        assert(views(r@) =~= views(before).push(l@));
        i = i + 1;
    }
    assert(d.subrange(0, n as int) =~= d);
    let ghost head = views(r@);
    let m = deprecated.len();
    let mut k: usize = 0;
    while k < m
        invariant
            m == deprecated@.len(),
            e == capture_views(deprecated@),
            k <= m,
            views(r@) == head + e.subrange(0, k as int).map_values(|c: Seq<Seq<char>>| declared_deprecated(c, module@)),
        decreases m - k,
    {
        let c = &deprecated[k];
        assert(e[k as int] == c@.map_values(|s: String| s@));
        let reason = capture(c, 1);
        let l = Lint::new(capture(c, 0), "Deprecated", reason, Some(reason), module);
        let ghost before = r@;
        r.push(l);
        assert(e.subrange(0, k + 1) =~= e.subrange(0, k as int).push(e[k as int]));
        assert(l@ == declared_deprecated(e[k as int], module@));
        assert(views(r@) =~= views(before).push(l@));
        k = k + 1;
    }
    assert(e.subrange(0, m as int) =~= e);
    assert(views(r@) =~= lints_of(d, e, module@));
    r
}

/// The lints declared in `content`, a source file of `module`; `None` where
/// a declaration pattern does not compile.
pub fn parse_contents(content: &str, module: &str) -> (r: Option<Vec<Lint>>)
    ensures
        r is Some <==> regex_compiles(LINT_DECLARATION@) && regex_compiles(DEPRECATED_DECLARATION@),
        r matches Some(v) ==> views(v@) == lints_of(
            regex_captures(LINT_DECLARATION@, content@),
            regex_captures(DEPRECATED_DECLARATION@, content@),
            module@,
        ),
{
    let decl = Pattern::new(LINT_DECLARATION)?;
    let depr = Pattern::new(DEPRECATED_DECLARATION)?;
    let decls = captures_of(&decl, content);
    let deprecated = captures_of(&depr, content);
    Some(lints_from_captures(&decls, &deprecated, module))
}

/// The module that a source file declares its lints in: the file's stem, or
/// the stem of its directory for a `mod.rs`.
pub fn lint_module(file_stem: &str, dir_stem: &str) -> (r: String)
    ensures
        r@ == if file_stem@ == "mod"@ { dir_stem@ } else { file_stem@ },
{
    if String::from_str(file_stem) == String::from_str("mod") {
        String::from_str(dir_stem)
    } else {
        String::from_str(file_stem)
    }
}

} // verus!
