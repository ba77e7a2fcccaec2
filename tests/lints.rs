use clippy_dev::gather::{lint_module, lints_from_captures, parse_contents};
use clippy_dev::lint::Lint;
use clippy_dev::plan::update_lints;
use clippy_dev::region::{replace_marked_region, replace_region_in_text, Pattern, RegionError};
use clippy_dev::render::{
    all_group_lints, gen_changelog_lint_list, gen_deprecated, gen_lint_count, gen_lint_group_list,
    gen_modules_list, lint_group_start, lint_table, lint_total,
};
use clippy_dev::text::{clean_desc, starts_with, to_ascii_lower, to_ascii_upper};

fn lint(name: &str, group: &str, desc: &str, deprecation: Option<&str>, module: &str) -> Lint {
    Lint::new(name, group, desc, deprecation, module)
}

fn strings(v: &[&str]) -> Vec<String> {
    v.iter().map(|s| s.to_string()).collect()
}

fn sample() -> Vec<Lint> {
    vec![
        lint("PTR_ARG", "style", "abc", None, "ptr"),
        lint("DOC_MARKDOWN", "pedantic", "abc", None, "doc"),
        lint("SHOULD_ASSERT_EQ", "Deprecated", "abc", Some("Reason"), "deprecated_lints"),
        lint("INTERNAL_THING", "internal_style", "abc", None, "module_name"),
        lint("BOX_VEC", "perf", "abc", None, "types"),
        lint("LINKEDLIST", "pedantic", "abc", None, "types"),
    ]
}

#[test]
fn new_lowercases_the_name() {
    let l = lint("PTR_ARG", "style", "x", None, "ptr");
    assert_eq!(l.name, "ptr_arg");
    assert_eq!(l.group, "style");
    assert_eq!(l.module, "ptr");
    assert_eq!(l.deprecation, None);
}

#[test]
fn new_unescapes_the_description() {
    let l = lint("A", "style", "say \\\"hi\\\"", None, "m");
    assert_eq!(l.desc, "say \"hi\"");
    let l = lint("A", "style", "one \\\n      two", None, "m");
    assert_eq!(l.desc, "one two");
}

#[test]
fn text_helpers() {
    assert_eq!(to_ascii_lower("AbC_1"), "abc_1");
    assert_eq!(to_ascii_upper("abC_1"), "ABC_1");
    assert!(starts_with("internal_style", "internal"));
    assert!(!starts_with("inter", "internal"));
    assert!(!starts_with("style", "internal"));
    assert_eq!(clean_desc("plain"), "plain");
    assert_eq!(clean_desc("a\\\\b"), "a\\\\b");
}

#[test]
fn internal_and_usable() {
    let l = sample();
    assert!(!l[0].is_internal());
    assert!(l[3].is_internal());
    assert!(l[0].is_usable());
    assert!(!l[2].is_usable());
    assert!(!l[3].is_usable());
}

#[test]
fn usable_lints_drop_deprecated_and_internal() {
    let u = Lint::usable_lints(&sample());
    let names: Vec<&str> = u.iter().map(|l| l.name.as_str()).collect();
    assert_eq!(names, vec!["ptr_arg", "doc_markdown", "box_vec", "linkedlist"]);
}

#[test]
fn by_lint_group_keeps_first_occurrence_order() {
    let u = Lint::usable_lints(&sample());
    let g = Lint::by_lint_group(&u);
    let keys: Vec<&str> = g.iter().map(|(k, _)| k.as_str()).collect();
    assert_eq!(keys, vec!["style", "pedantic", "perf"]);
    let pedantic: Vec<&str> = g[1].1.iter().map(|l| l.name.as_str()).collect();
    assert_eq!(pedantic, vec!["doc_markdown", "linkedlist"]);
    assert_eq!(g[0].1.len(), 1);
    assert!(Lint::by_lint_group(&Vec::new()).is_empty());
}

#[test]
fn group_list_is_sorted_and_upper_case() {
    let r = gen_lint_group_list(&sample());
    assert_eq!(
        r,
        strings(&[
            "        doc::DOC_MARKDOWN,",
            "        ptr::PTR_ARG,",
            "        types::BOX_VEC,",
            "        types::LINKEDLIST,",
        ])
    );
}

#[test]
fn modules_list_is_sorted_and_unique() {
    let r = gen_modules_list(&sample());
    assert_eq!(r, strings(&["pub mod doc;", "pub mod ptr;", "pub mod types;"]));
}

#[test]
fn changelog_list_orders_by_name() {
    let lints = vec![
        lint("A1", "style", "x", None, "m"),
        lint("A", "style", "x", None, "m"),
        lint("INTERNAL_THING", "internal", "x", None, "m"),
        lint("GONE", "Deprecated", "x", Some("x"), "m"),
    ];
    let r = gen_changelog_lint_list(&lints);
    let docs = "https://rust-lang-nursery.github.io/rust-clippy/master/index.html";
    assert_eq!(
        r,
        vec![
            format!("[`a`]: {}#a", docs),
            format!("[`a1`]: {}#a1", docs),
            format!("[`gone`]: {}#gone", docs),
        ]
    );
}

#[test]
fn deprecated_registrations() {
    let r = gen_deprecated(&sample());
    assert_eq!(
        r,
        strings(&[
            "    store.register_removed(",
            "        \"should_assert_eq\",",
            "        \"Reason\",",
            "    );",
        ])
    );
    assert!(gen_deprecated(&Vec::new()).is_empty());
}

#[test]
fn all_group_selection() {
    let u = Lint::usable_lints(&sample());
    let a = all_group_lints(&u);
    let names: Vec<&str> = a.iter().map(|l| l.name.as_str()).collect();
    assert_eq!(names, vec!["ptr_arg", "box_vec"]);
}

#[test]
fn count_and_total_lines() {
    assert_eq!(
        gen_lint_count(273),
        "[There are 273 lints included in this crate!](https://rust-lang-nursery.github.io/rust-clippy/master/index.html)"
    );
    assert_eq!(lint_total(0), "there are 0 lints");
    assert_eq!(lint_total(10), "there are 10 lints");
}

#[test]
fn group_start_pattern() {
    assert_eq!(lint_group_start("perf"), "reg.register_lint_group\\(\"clippy::perf\"");
}

#[test]
fn replace_region_keeps_markers() {
    let text = "123\n456\n789";
    let r = replace_region_in_text(text, "^123$", "^789$", false, &strings(&["hello"]));
    assert_eq!(r, Ok("123\nhello\n789\n".to_string()));
}

#[test]
fn replace_region_can_drop_the_start() {
    let text = "abc\n123\n789\ndef\n456";
    let r = replace_region_in_text(text, "^123$", "^789$", true, &strings(&["hello"]));
    assert_eq!(r, Ok("abc\nhello\n789\ndef\n456\n".to_string()));
}

#[test]
fn replace_region_empty_end_pattern() {
    let text = "x\n[There are 5 lints]\ny";
    let r = replace_region_in_text(text, r"There are \d+", "", true, &strings(&["[There are 6 lints]"]));
    assert_eq!(r, Ok("x\n[There are 6 lints]\ny\n".to_string()));
}

#[test]
fn replace_region_errors() {
    let repl = strings(&["x"]);
    assert_eq!(replace_region_in_text("a\nb", "^z$", "^b$", false, &repl), Err(RegionError::StartNotFound));
    assert_eq!(replace_region_in_text("a\nb", "^a$", "^z$", false, &repl), Err(RegionError::Unclosed));
    assert_eq!(replace_region_in_text("a\nb", "(", "^b$", false, &repl), Err(RegionError::InvalidPattern));
    assert_eq!(replace_region_in_text("a\nb", "^a$", "[", false, &repl), Err(RegionError::InvalidPattern));
}

#[test]
fn replace_marked_region_on_flags() {
    let lines = strings(&["a", "b", "c", "d"]);
    let r = replace_marked_region(&lines, &vec![true, false, false, false], &vec![false, false, true, false], false, &strings(&["n"]));
    assert_eq!(r, Ok(strings(&["a", "n", "c", "d"])));
    let r = replace_marked_region(&lines, &vec![false; 4], &vec![false; 4], false, &strings(&["n"]));
    assert_eq!(r, Err(RegionError::StartNotFound));
}

#[test]
fn pattern_compiles_and_matches() {
    assert!(Pattern::new("(").is_none());
    let p = Pattern::new(r"^\d+$").unwrap();
    assert!(p.is_match("123"));
    assert!(!p.is_match("12a"));
}

#[test]
fn parse_contents_reads_declarations() {
    let content = r#"
declare_clippy_lint! {
    pub PTR_ARG,
    style,
    "fn arguments of the type `&Vec<...>` or `&String`, suggesting to use `&[...]` or `&str` \
     instead, respectively"
}

declare_clippy_lint!{ pub DOC_MARKDOWN, pedantic, "presence of `_`, `::` or camel-case outside backticks in documentation" }

declare_deprecated_lint! {
    pub SHOULD_ASSERT_EQ,
    "`assert!()` will be more flexible with RFC 2011"
}
"#;
    let r = parse_contents(content, "module_name").unwrap();
    assert_eq!(r.len(), 3);
    assert_eq!(r[0].name, "ptr_arg");
    assert_eq!(r[0].group, "style");
    assert_eq!(
        r[0].desc,
        "fn arguments of the type `&Vec<...>` or `&String`, suggesting to use `&[...]` or `&str` instead, respectively"
    );
    assert_eq!(r[1].name, "doc_markdown");
    assert_eq!(r[1].group, "pedantic");
    assert_eq!(r[2].name, "should_assert_eq");
    assert_eq!(r[2].group, "Deprecated");
    assert_eq!(r[2].deprecation.as_deref(), Some("`assert!()` will be more flexible with RFC 2011"));
    assert!(r.iter().all(|l| l.module == "module_name"));
}

#[test]
fn lints_from_captures_fills_missing_fields() {
    let decls = vec![strings(&["BOX_VEC", "perf", "boxed"]), strings(&["ONLY_NAME"])];
    let depr = vec![strings(&["OLD", "gone"])];
    let r = lints_from_captures(&decls, &depr, "types");
    assert_eq!(r.len(), 3);
    assert_eq!(r[0].name, "box_vec");
    assert_eq!(r[1].group, "");
    assert_eq!(r[2].group, "Deprecated");
    assert_eq!(r[2].deprecation.as_deref(), Some("gone"));
}

#[test]
fn module_names() {
    assert_eq!(lint_module("types", "src"), "types");
    assert_eq!(lint_module("mod", "methods"), "methods");
}

#[test]
fn plan_lists_every_region() {
    let p = update_lints(&sample());
    assert_eq!(p.len(), 5 + 3);
    assert_eq!(p[0].path, "../README.md");
    assert!(p[0].replace_start);
    assert_eq!(p[0].lines.len(), 1);
    assert!(p[0].lines[0].starts_with("[There are 4 lints"));
    assert_eq!(p[4].lines, strings(&["        ptr::PTR_ARG,", "        types::BOX_VEC,"]));
    assert_eq!(p[6].start, "reg.register_lint_group\\(\"clippy::pedantic\"");
    assert_eq!(p[6].lines, strings(&["        doc::DOC_MARKDOWN,", "        types::LINKEDLIST,"]));
}

#[test]
fn table_groups_sorted_by_name() {
    let t = lint_table(&sample());
    assert_eq!(t.len(), 3);
    assert_eq!(t[1].0, "pedantic");
    let docs = "https://rust-lang-nursery.github.io/rust-clippy/master/index.html";
    assert_eq!(
        t[1].1,
        vec![
            format!("* [doc_markdown]({}#doc_markdown) (abc)", docs),
            format!("* [linkedlist]({}#linkedlist) (abc)", docs),
        ]
    );
}

#[test]
fn table_sorts_lints_out_of_order() {
    let lints = vec![
        lint("ZETA", "style", "z", None, "m"),
        lint("A1", "style", "b", None, "m"),
        lint("A", "style", "a", None, "m"),
        lint("GONE", "Deprecated", "g", Some("g"), "m"),
    ];
    let t = lint_table(&lints);
    assert_eq!(t.len(), 1);
    assert_eq!(t[0].0, "style");
    let names: Vec<&str> = t[0].1.iter().map(|l| &l[3..l.find(']').unwrap()]).collect();
    assert_eq!(names, vec!["a", "a1", "zeta"]);
    assert!(t[0].1[0].ends_with(" (a)"));
}

#[test]
fn usable_lints_of_empty_list() {
    assert!(Lint::usable_lints(&Vec::new()).is_empty());
    assert!(gen_lint_group_list(&Vec::new()).is_empty());
    assert!(gen_modules_list(&Vec::new()).is_empty());
    assert!(gen_changelog_lint_list(&Vec::new()).is_empty());
    assert_eq!(update_lints(&Vec::new()).len(), 5);
}
