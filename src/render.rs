//! The text fragments generated from lint records.

use vstd::prelude::*;
use crate::lint::{group_keys, in_group, internal, usable_views, views, Lint, LintView};
use crate::order::{dedup_strings, distinct, lex_le, sort_strings, sorted_perm_of};
use crate::text::{ascii_upper, strs, to_ascii_upper};

verus! {

/// Where the documentation of every lint is published.
pub const DOCS_LINK: &'static str = "https://rust-lang-nursery.github.io/rust-clippy/master/index.html";

/// The entry of a lint in a `register_lint_group` list.
pub open spec fn group_entry(v: LintView) -> Seq<char> {
    "        "@ + v.module + "::"@ + ascii_upper(v.name) + ","@
}

/// The declaration that makes a lint module visible.
pub open spec fn module_entry(m: Seq<char>) -> Seq<char> {
    "pub mod "@ + m + ";"@
}

/// The link reference of a lint at the bottom of the changelog.
pub open spec fn changelog_entry(name: Seq<char>) -> Seq<char> {
    "[`"@ + name + "`]: "@ + DOCS_LINK@ + "#"@ + name
}

pub open spec fn module_of(v: LintView) -> Seq<char> {
    v.module
}

pub open spec fn name_of(v: LintView) -> Seq<char> {
    v.name
}

/// The names of the lints of `s` that are not internal, in their order.
pub open spec fn public_names(s: Seq<LintView>) -> Seq<Seq<char>> {
    s.filter(|v: LintView| !internal(v)).map_values(|v: LintView| name_of(v))
}

/// `out` is the sorted list of the `register_lint_group` entries of the
/// usable lints of `s`.
pub open spec fn group_list_of(out: Seq<Seq<char>>, s: Seq<LintView>) -> bool {
    sorted_perm_of(out, usable_views(s).map_values(|v: LintView| group_entry(v)))
}

/// `out` is the sorted list of the `pub mod` declarations of the modules
/// that hold usable lints of `s`, each once.
pub open spec fn modules_list_of(out: Seq<Seq<char>>, s: Seq<LintView>) -> bool {
    sorted_perm_of(
        out,
        distinct(usable_views(s).map_values(|v: LintView| module_of(v))).map_values(
            |m: Seq<char>| module_entry(m),
        ),
    )
}

/// `out` holds the changelog link references of the lints of `s` that are
/// not internal, in the order of their names.
pub open spec fn changelog_list_of(out: Seq<Seq<char>>, s: Seq<LintView>) -> bool {
    exists|names: Seq<Seq<char>>|
        sorted_perm_of(names, public_names(s)) && out == names.map_values(
            |x: Seq<char>| changelog_entry(x),
        )
}

/// The `register_lint_group` entries of the usable lints of `lints`, sorted.
pub fn gen_lint_group_list(lints: &Vec<Lint>) -> (r: Vec<String>)
    ensures
        group_list_of(strs(r@), views(lints@)),
{
    let usable_lints = Lint::usable_lints(lints);
    let mut r: Vec<String> = Vec::new();
    let n = usable_lints.len();
    let mut i: usize = 0;
    while i < n
        invariant
            n == usable_lints@.len(),
            i <= n,
            strs(r@) == views(usable_lints@.subrange(0, i as int)).map_values(|v: LintView| group_entry(v)),
        decreases n - i,
    {
        let l = &usable_lints[i];
        let mut line = String::from_str("        ");
        line.append(l.module.as_str());
        line.append("::");
        let upper = to_ascii_upper(l.name.as_str());
        line.append(upper.as_str());
        line.append(",");
        assert(line@ == group_entry(l@));
        let ghost before = r@;
        r.push(line);
        assert(views(usable_lints@.subrange(0, i + 1)) =~= views(usable_lints@.subrange(0, i as int)).push(l@));
        assert(strs(r@) =~= strs(before).push(group_entry(l@)));
        i = i + 1;
    }
    assert(usable_lints@.subrange(0, n as int) =~= usable_lints@);
    sort_strings(&mut r);
    r
}

/// Each string of `v` between `pre` and `post`.
fn enclose_each(v: &Vec<String>, pre: &str, post: &str) -> (r: Vec<String>)
    ensures
        strs(r@) == strs(v@).map_values(|x: Seq<char>| pre@ + x + post@),
{
    let mut r: Vec<String> = Vec::new();
    let n = v.len();
    let mut i: usize = 0;
    while i < n
        invariant
            n == v@.len(),
            i <= n,
            strs(r@) == strs(v@.subrange(0, i as int)).map_values(|x: Seq<char>| pre@ + x + post@),
        decreases n - i,
    {
        let mut line = String::from_str(pre);
        line.append(v[i].as_str());
        line.append(post);
        let ghost before = r@;
        r.push(line);
        assert(strs(v@.subrange(0, i + 1)) =~= strs(v@.subrange(0, i as int)).push(v@[i as int]@));
        assert(strs(r@) =~= strs(before).push(pre@ + v@[i as int]@ + post@));
        i = i + 1;
    }
    assert(v@.subrange(0, n as int) =~= v@);
    r
}

/// The `pub mod` declarations of the modules that hold usable lints, each
/// once, sorted.
pub fn gen_modules_list(lints: &Vec<Lint>) -> (r: Vec<String>)
    ensures
        modules_list_of(strs(r@), views(lints@)),
{
    let usable_lints = Lint::usable_lints(lints);
    let mut modules: Vec<String> = Vec::new();
    let n = usable_lints.len();
    let mut i: usize = 0;
    while i < n
        invariant
            n == usable_lints@.len(),
            i <= n,
            strs(modules@) == views(usable_lints@.subrange(0, i as int)).map_values(|v: LintView| module_of(v)),
        decreases n - i,
    {
        let ghost before = modules@;
        modules.push(usable_lints[i].module.clone());
        assert(views(usable_lints@.subrange(0, i + 1)) =~= views(usable_lints@.subrange(0, i as int)).push(usable_lints@[i as int]@));
        assert(strs(modules@) =~= strs(before).push(usable_lints@[i as int]@.module));
        i = i + 1;
    }
    assert(usable_lints@.subrange(0, n as int) =~= usable_lints@);
    let unique = dedup_strings(&modules);
    let mut r = enclose_each(&unique, "pub mod ", ";");
    assert(strs(r@) =~= strs(unique@).map_values(|m: Seq<char>| module_entry(m)));
    sort_strings(&mut r);
    r
}

/// The changelog's link references, one for each lint that is not internal,
/// in the order of the lints' names.
pub fn gen_changelog_lint_list(lints: &Vec<Lint>) -> (r: Vec<String>)
    ensures
        changelog_list_of(strs(r@), views(lints@)),
{
    let mut names: Vec<String> = Vec::new();
    let n = lints.len();
    let mut i: usize = 0;
    while i < n
        invariant
            n == lints@.len(),
            i <= n,
            strs(names@) == public_names(views(lints@.subrange(0, i as int))),
        decreases n - i,
    {
        let l = &lints[i];
        proof {
            let s = views(lints@.subrange(0, i as int));
            assert(views(lints@.subrange(0, i + 1)) =~= s.push(l@));
            assert(s.push(l@).drop_last() =~= s);
            reveal(Seq::filter);
            let f = |v: LintView| !internal(v);
            assert(s.push(l@).filter(f) == if !internal(l@) {
                s.filter(f).push(l@)
            } else {
                s.filter(f)
            });
        }
        if !l.is_internal() {
            let ghost before = names@;
            names.push(l.name.clone());
            assert(strs(names@) =~= strs(before).push(l@.name));
            assert(public_names(views(lints@.subrange(0, i + 1))) =~= public_names(
                views(lints@.subrange(0, i as int)),
            ).push(l@.name));
        }
        i = i + 1;
    }
    assert(lints@.subrange(0, n as int) =~= lints@);
    sort_strings(&mut names);
    let ghost sorted_names = strs(names@);
    let mut r: Vec<String> = Vec::new();
    let m = names.len();
    let mut k: usize = 0;
    while k < m
        invariant
            m == names@.len(),
            k <= m,
            strs(r@) == strs(names@.subrange(0, k as int)).map_values(|x: Seq<char>| changelog_entry(x)),
        decreases m - k,
    {
        let name = names[k].as_str();
        let mut line = String::from_str("[`");
        line.append(name);
        line.append("`]: ");
        line.append(DOCS_LINK);
        line.append("#");
        line.append(name);
        let ghost before = r@;
        r.push(line);
        assert(strs(names@.subrange(0, k + 1)) =~= strs(names@.subrange(0, k as int)).push(names@[k as int]@));
        assert(strs(r@) =~= strs(before).push(changelog_entry(names@[k as int]@)));
        k = k + 1;
    }
    assert(names@.subrange(0, m as int) =~= names@);
    assert(strs(r@) == sorted_names.map_values(|x: Seq<char>| changelog_entry(x)));
    assert(sorted_perm_of(sorted_names, public_names(views(lints@))));
    r
}

/// The four lines that register a removed lint with its reason.
pub open spec fn removal_lines(name: Seq<char>, reason: Seq<char>) -> Seq<Seq<char>> {
    seq![
        "    store.register_removed("@,
        "        \""@ + name + "\","@,
        "        \""@ + reason + "\","@,
        "    );"@,
    ]
}

/// The lines that register every deprecated lint of `s` as removed, in order.
pub open spec fn deprecated_lines(s: Seq<LintView>) -> Seq<Seq<char>>
    decreases s.len(),
{
    if s.len() == 0 {
        Seq::empty()
    } else {
        deprecated_lines(s.drop_last()) + match s.last().deprecation {
            Some(reason) => removal_lines(s.last().name, reason),
            None => Seq::empty(),
        }
    }
}

/// The `register_removed` calls for the deprecated lints of `lints`.
pub fn gen_deprecated(lints: &Vec<Lint>) -> (r: Vec<String>)
    ensures
        strs(r@) == deprecated_lines(views(lints@)),
{
    let mut r: Vec<String> = Vec::new();
    let n = lints.len();
    let mut i: usize = 0;
    while i < n
        invariant
            n == lints@.len(),
            i <= n,
            strs(r@) == deprecated_lines(views(lints@.subrange(0, i as int))),
        decreases n - i,
    {
        let l = &lints[i];
        let ghost s = views(lints@.subrange(0, i as int));
        assert(views(lints@.subrange(0, i + 1)) =~= s.push(l@));
        assert(s.push(l@).drop_last() =~= s);
        match &l.deprecation {
            Some(reason) => {
                let ghost before = r@;
                r.push(String::from_str("    store.register_removed("));
                let mut a = String::from_str("        \"");
                a.append(l.name.as_str());
                a.append("\",");
                r.push(a);
                let mut b = String::from_str("        \"");
                b.append(reason.as_str());
                b.append("\",");
                r.push(b);
                r.push(String::from_str("    );"));
                assert(strs(r@) =~= strs(before) + removal_lines(l@.name, reason@));
            },
            None => {
                assert(deprecated_lines(s.push(l@)) =~= deprecated_lines(s));
            },
        }
        i = i + 1;
    }
    assert(lints@.subrange(0, n as int) =~= lints@);
    r
}

/// The groups that make up the `clippy::all` group.
pub open spec fn in_all_group(g: Seq<char>) -> bool {
    g == "correctness"@ || g == "style"@ || g == "complexity"@ || g == "perf"@
}

fn is_group(l: &Lint, g: &str) -> (r: bool)
    ensures
        r == (l@.group == g@),
{
    l.group == String::from_str(g)
}

/// The lints of `lints` that belong to `clippy::all`, in their order.
pub fn all_group_lints(lints: &Vec<Lint>) -> (r: Vec<Lint>)
    ensures
        views(r@) == views(lints@).filter(|v: LintView| in_all_group(v.group)),
{
    let mut r: Vec<Lint> = Vec::new();
    let n = lints.len();
    let mut i: usize = 0;
    while i < n
        invariant
            n == lints@.len(),
            i <= n,
            views(r@) == views(lints@.subrange(0, i as int)).filter(|v: LintView| in_all_group(v.group)),
        decreases n - i,
    {
        let l = &lints[i];
        proof {
            let s = views(lints@.subrange(0, i as int));
            assert(views(lints@.subrange(0, i + 1)) =~= s.push(l@));
            assert(s.push(l@).drop_last() =~= s);
            reveal(Seq::filter);
            let f = |v: LintView| in_all_group(v.group);
            assert(s.push(l@).filter(f) == if in_all_group(l@.group) {
                s.filter(f).push(l@)
            } else {
                s.filter(f)
            });
        }
        if is_group(l, "correctness") || is_group(l, "style") || is_group(l, "complexity")
            || is_group(l, "perf") {
            let ghost before = r@;
            r.push(l.duplicate());
            assert(views(r@) =~= views(before).push(l@));
        }
        i = i + 1;
    }
    assert(lints@.subrange(0, n as int) =~= lints@);
    r
}

/// The decimal digits of `n`, most significant first, with no leading zero.
pub open spec fn decimal(n: nat) -> Seq<char>
    decreases n,
{
    let digit = seq!['0', '1', '2', '3', '4', '5', '6', '7', '8', '9'][(n % 10) as int];
    if n < 10 {
        seq![digit]
    } else {
        decimal(n / 10).push(digit)
    }
}

/// Relies on `Display` for `usize` (through `to_string`): the number in
/// decimal, with no sign and no leading zero.
#[verifier::external_body]
fn usize_to_decimal(n: usize) -> (r: String)
    ensures
        r@ == decimal(n as nat),
{
    n.to_string()
}

/// The README line that states how many lints there are.
pub open spec fn count_line(count: nat) -> Seq<char> {
    "[There are "@ + decimal(count) + " lints included in this crate!]("@ + DOCS_LINK@ + ")"@
}

/// The README line that states that there are `count` lints.
pub fn gen_lint_count(count: usize) -> (r: String)
    ensures
        r@ == count_line(count as nat),
{
    let mut r = String::from_str("[There are ");
    let digits = usize_to_decimal(count);
    r.append(digits.as_str());
    r.append(" lints included in this crate!](");
    r.append(DOCS_LINK);
    r.append(")");
    r
}

/// The pattern of the line that opens the `register_lint_group` call of
/// `group`.
pub open spec fn group_start_pattern(group: Seq<char>) -> Seq<char> {
    "reg.register_lint_group\\(\"clippy::"@ + group + "\""@
}

/// The pattern of the line that opens the `register_lint_group` call of
/// `group`.
pub fn lint_group_start(group: &str) -> (r: String)
    ensures
        r@ == group_start_pattern(group@),
{
    let mut r = String::from_str("reg.register_lint_group\\(\"clippy::");
    r.append(group);
    r.append("\"");
    r
}

/// The line of a lint in the table of lints.
pub open spec fn table_entry(v: LintView) -> Seq<char> {
    "* ["@ + v.name + "]("@ + DOCS_LINK@ + "#"@ + v.name + ") ("@ + v.desc + ")"@
}

/// `s` is ordered by name.
pub open spec fn by_name(s: Seq<LintView>) -> bool {
    forall|i: int, j: int| 0 <= i < j < s.len() ==> lex_le(s[i].name, s[j].name)
}

/// `out` holds the table lines of the lints of `s`, ordered by name.
pub open spec fn table_block_of(out: Seq<Seq<char>>, s: Seq<LintView>) -> bool {
    exists|ls: Seq<LintView>|
        ls.to_multiset() == s.to_multiset() && by_name(ls) && out == ls.map_values(
            |v: LintView| table_entry(v),
        )
}

/// The groups that the table shows: every group of `s` but "Deprecated".
pub open spec fn table_groups(s: Seq<LintView>) -> Seq<Seq<char>> {
    group_keys(s).filter(|g: Seq<char>| g != "Deprecated"@)
}

/// Relies on `slice::sort_by` with `String`'s `Ord` on the names: the same
/// lints, ordered by name.
#[verifier::external_body]
fn sort_lints_by_name(v: &mut Vec<Lint>)
    ensures
        views(final(v)@).to_multiset() == views(old(v)@).to_multiset(),
        by_name(views(final(v)@)),
{
    v.sort_by(|a, b| a.name.cmp(&b.name));
}

/// The table of the usable lints: for each of their groups but
/// "Deprecated", in order of first occurrence, the group's name and the lines
/// of its lints, ordered by name.
pub fn lint_table(lints: &Vec<Lint>) -> (r: Vec<(String, Vec<String>)>)
    ensures
        r@.len() == table_groups(usable_views(views(lints@))).len(),
        forall|k: int|
            0 <= k < r@.len() ==> {
                let g = table_groups(usable_views(views(lints@)))[k];
                &&& (#[trigger] r@[k]).0@ == g
                &&& table_block_of(strs(r@[k].1@), in_group(usable_views(views(lints@)), g))
            },
{
    let usable = Lint::usable_lints(lints);
    let ghost u = views(usable@);
    let groups = Lint::by_lint_group(&usable);
    let ghost keys = group_keys(u);
    let mut r: Vec<(String, Vec<String>)> = Vec::new();
    let n = groups.len();
    let mut i: usize = 0;
    while i < n
        invariant
            n == groups@.len(),
            n == keys.len(),
            u == views(usable@),
            keys == group_keys(u),
            i <= n,
            forall|k: int| 0 <= k < n ==> {
                &&& (#[trigger] groups@[k]).0@ == keys[k]
                &&& views(groups@[k].1@) == in_group(u, groups@[k].0@)
            },
            r@.len() == keys.subrange(0, i as int).filter(|g: Seq<char>| g != "Deprecated"@).len(),
            forall|k: int|
                0 <= k < r@.len() ==> {
                    let g = keys.subrange(0, i as int).filter(|g: Seq<char>| g != "Deprecated"@)[k];
                    &&& (#[trigger] r@[k]).0@ == g
                    &&& table_block_of(strs(r@[k].1@), in_group(u, g))
                },
        decreases n - i,
    {
        let ghost pre = keys.subrange(0, i as int);
        let ghost f = |g: Seq<char>| g != "Deprecated"@;
        proof {
            assert(keys.subrange(0, i + 1) =~= pre.push(keys[i as int]));
            assert(pre.push(keys[i as int]).drop_last() =~= pre);
            reveal(Seq::filter);
            assert(keys.subrange(0, i + 1).filter(f) == if f(keys[i as int]) {
                pre.filter(f).push(keys[i as int])
            } else {
                pre.filter(f)
            });
        }
        let group = &groups[i].0;
        if *group != String::from_str("Deprecated") {
            let mut members = Lint::copy_all(&groups[i].1);
            sort_lints_by_name(&mut members);
            let mut lines: Vec<String> = Vec::new();
            let m = members.len();
            let mut j: usize = 0;
            while j < m
                invariant
                    m == members@.len(),
                    j <= m,
                    strs(lines@) == views(members@.subrange(0, j as int)).map_values(|v: LintView| table_entry(v)),
                decreases m - j,
            {
                let l = &members[j];
                let mut line = String::from_str("* [");
                line.append(l.name.as_str());
                line.append("](");
                line.append(DOCS_LINK);
                line.append("#");
                line.append(l.name.as_str());
                line.append(") (");
                line.append(l.desc.as_str());
                line.append(")");
                assert(line@ == table_entry(l@));
                let ghost before = lines@;
                lines.push(line);
                assert(views(members@.subrange(0, j + 1)) =~= views(members@.subrange(0, j as int)).push(l@));
                assert(strs(lines@) =~= strs(before).push(table_entry(l@)));
                j = j + 1;
            }
            assert(members@.subrange(0, m as int) =~= members@);
            assert(strs(lines@) == views(members@).map_values(|v: LintView| table_entry(v)));
            let ghost before = r@;
            r.push((group.clone(), lines));
            assert(forall|k: int| 0 <= k < before.len() ==> r@[k] == before[k]);
        }
        i = i + 1;
    }
    assert(keys.subrange(0, n as int) =~= keys);
    r
}

/// The closing line of the table of lints.
pub fn lint_total(count: usize) -> (r: String)
    ensures
        r@ == "there are "@ + decimal(count as nat) + " lints"@,
{
    let mut r = String::from_str("there are ");
    let digits = usize_to_decimal(count);
    r.append(digits.as_str());
    r.append(" lints");
    r
}

} // verus!
