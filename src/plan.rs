//! The regions that a refresh of the generated text rewrites, and what each
//! of them is to hold.

use vstd::prelude::*;
use crate::lint::{group_keys, in_group, usable_views, views, Lint, LintView};
use crate::text::strs;
use crate::render::{
    all_group_lints, changelog_list_of, count_line, deprecated_lines, gen_changelog_lint_list,
    gen_deprecated, gen_lint_count, gen_lint_group_list, gen_modules_list, group_list_of,
    group_start_pattern, in_all_group, lint_group_start, modules_list_of,
};

verus! {

pub const README_PATH: &'static str = "../README.md";

pub const CHANGELOG_PATH: &'static str = "../CHANGELOG.md";

pub const LINTS_LIB_PATH: &'static str = "../clippy_lints/src/lib.rs";

/// The README line that states the number of lints.
pub const COUNT_PATTERN: &'static str = r#"\[There are \d+ lints included in this crate!\]\(https://rust-lang-nursery.github.io/rust-clippy/master/index.html\)"#;

pub const CHANGELOG_START: &'static str = "<!-- begin autogenerated links to lint list -->";

pub const CHANGELOG_END: &'static str = "<!-- end autogenerated links to lint list -->";

pub const DEPRECATED_START: &'static str = "begin deprecated lints";

pub const DEPRECATED_END: &'static str = "end deprecated lints";

pub const MODULES_START: &'static str = "begin lints modules";

pub const MODULES_END: &'static str = "end lints modules";

/// The line that opens the `clippy::all` group's registration.
pub const ALL_GROUP_START: &'static str = r#"reg.register_lint_group\("clippy::all""#;

/// The line that closes a group's registration.
pub const GROUP_END: &'static str = r#"\]\);"#;

/// One region to rewrite: the file, the patterns of the lines that open and
/// close it, whether the opening line goes too, and the new lines.
pub struct RegionEdit {
    pub path: String,
    pub start: String,
    pub end: String,
    pub replace_start: bool,
    pub lines: Vec<String>,
}

/// `e` rewrites the region of `path` between `start` and `end`.
pub open spec fn edit_at(e: RegionEdit, path: Seq<char>, start: Seq<char>, end: Seq<char>, replace_start: bool) -> bool {
    e.path@ == path && e.start@ == start && e.end@ == end && e.replace_start == replace_start
}

fn region_edit(path: &str, start: &str, end: &str, replace_start: bool, lines: Vec<String>) -> (r: RegionEdit)
    ensures
        edit_at(r, path@, start@, end@, replace_start),
        r.lines == lines,
{
    RegionEdit {
        path: String::from_str(path),
        start: String::from_str(start),
        end: String::from_str(end),
        replace_start,
        lines,
    }
}

/// The edits that bring every generated region in line with `lints`, the
/// lints declared in the sources: the README's lint count, the changelog's
/// links, the removed lints, the module list, the `clippy::all` group, and
/// then each group of usable lints, in order of first occurrence.
pub fn update_lints(lints: &Vec<Lint>) -> (r: Vec<RegionEdit>)
    ensures
        r@.len() == 5 + group_keys(usable_views(views(lints@))).len(),
        edit_at(r@[0], README_PATH@, COUNT_PATTERN@, ""@, true),
        strs(r@[0].lines@) == seq![count_line(usable_views(views(lints@)).len())],
        edit_at(r@[1], CHANGELOG_PATH@, CHANGELOG_START@, CHANGELOG_END@, false),
        changelog_list_of(strs(r@[1].lines@), views(lints@)),
        edit_at(r@[2], LINTS_LIB_PATH@, DEPRECATED_START@, DEPRECATED_END@, false),
        strs(r@[2].lines@) == deprecated_lines(views(lints@)),
        edit_at(r@[3], LINTS_LIB_PATH@, MODULES_START@, MODULES_END@, false),
        modules_list_of(strs(r@[3].lines@), views(lints@)),
        edit_at(r@[4], LINTS_LIB_PATH@, ALL_GROUP_START@, GROUP_END@, false),
        group_list_of(
            strs(r@[4].lines@),
            usable_views(views(lints@)).filter(|v: LintView| in_all_group(v.group)),
        ),
        forall|k: int|
            0 <= k < group_keys(usable_views(views(lints@))).len() ==> {
                let g = group_keys(usable_views(views(lints@)))[k];
                &&& edit_at(#[trigger] r@[5 + k], LINTS_LIB_PATH@, group_start_pattern(g), GROUP_END@, false)
                &&& group_list_of(strs(r@[5 + k].lines@), in_group(usable_views(views(lints@)), g))
            },
{
    let usable = Lint::usable_lints(lints);
    let mut r: Vec<RegionEdit> = Vec::new();
    let count = vec![gen_lint_count(usable.len())];
    assert(strs(count@) =~= seq![count_line(usable@.len() as nat)]);
    r.push(region_edit(README_PATH, COUNT_PATTERN, "", true, count));
    r.push(region_edit(CHANGELOG_PATH, CHANGELOG_START, CHANGELOG_END, false, gen_changelog_lint_list(lints)));
    r.push(region_edit(LINTS_LIB_PATH, DEPRECATED_START, DEPRECATED_END, false, gen_deprecated(lints)));
    r.push(region_edit(LINTS_LIB_PATH, MODULES_START, MODULES_END, false, gen_modules_list(lints)));
    let all = all_group_lints(&usable);
    r.push(region_edit(LINTS_LIB_PATH, ALL_GROUP_START, GROUP_END, false, gen_lint_group_list(&all)));
    let ghost first = r@;
    let ghost keys = group_keys(usable_views(views(lints@)));
    let groups = Lint::by_lint_group(&usable);
    let n = groups.len();
    let mut i: usize = 0;
    while i < n
        invariant
            n == groups@.len(),
            i <= n,
            r@.len() == 5 + i,
            forall|k: int| 0 <= k < n ==> {
                &&& (#[trigger] groups@[k]).0@ == group_keys(views(usable@))[k]
                &&& views(groups@[k].1@) == in_group(views(usable@), groups@[k].0@)
            },
            first.len() == 5,
            keys == group_keys(views(usable@)),
            forall|k: int| 0 <= k < 5 ==> #[trigger] r@[k] == first[k],
            forall|k: int|
                0 <= k < i ==> {
                    &&& edit_at(#[trigger] r@[5 + k], LINTS_LIB_PATH@, group_start_pattern(keys[k]), GROUP_END@, false)
                    &&& group_list_of(strs(r@[5 + k].lines@), in_group(views(usable@), keys[k]))
                },
        decreases n - i,
    {
        let start = lint_group_start(groups[i].0.as_str());
        let lines = gen_lint_group_list(&groups[i].1);
        let e = region_edit(LINTS_LIB_PATH, start.as_str(), GROUP_END, false, lines);
        let ghost before = r@;
        r.push(e);
        assert(r@[5 + i as int] == e);
        assert(forall|k: int| 0 <= k < 5 + i ==> r@[k] == before[k]);
        i = i + 1;
    }
    assert(r@[0] == first[0]);
    assert(r@[1] == first[1]);
    assert(r@[2] == first[2]);
    assert(r@[3] == first[3]);
    assert(r@[4] == first[4]);
    r
}

} // verus!
