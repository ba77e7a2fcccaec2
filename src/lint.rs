//! The lint record and the selections made over a list of them.

use vstd::prelude::*;
use crate::order::{dedup_strings, distinct};
use crate::text::{ascii_lower, clean_desc, is_prefix, starts_with, strs, to_ascii_lower, unescape_desc};

verus! {

/// A lint as declared in the registry's sources.
#[derive(Clone, Debug)]
pub struct Lint {
    /// The lint's name, in lower case.
    pub name: String,
    /// The lint group: "style", "perf", ..., "Deprecated", or one that begins
    /// with "internal".
    pub group: String,
    pub desc: String,
    /// Why the lint was removed, for a deprecated lint.
    pub deprecation: Option<String>,
    /// The module that declares the lint.
    pub module: String,
}

/// What a `Lint` holds, as character sequences.
pub ghost struct LintView {
    pub name: Seq<char>,
    pub group: Seq<char>,
    pub desc: Seq<char>,
    pub deprecation: Option<Seq<char>>,
    pub module: Seq<char>,
}

pub open spec fn opt_view(o: Option<String>) -> Option<Seq<char>> {
    match o {
        Some(s) => Some(s@),
        None => None,
    }
}

impl View for Lint {
    type V = LintView;

    open spec fn view(&self) -> LintView {
        LintView {
            name: self.name@,
            group: self.group@,
            desc: self.desc@,
            deprecation: opt_view(self.deprecation),
            module: self.module@,
        }
    }
}

/// The views of a sequence of lints.
pub open spec fn views(s: Seq<Lint>) -> Seq<LintView> {
    s.map_values(|l: Lint| l@)
}

/// Internal lints are those whose group begins with "internal".
pub open spec fn internal(v: LintView) -> bool {
    is_prefix("internal"@, v.group)
}

/// A lint that users can turn on: neither deprecated nor internal.
pub open spec fn usable(v: LintView) -> bool {
    v.deprecation is None && !internal(v)
}

pub open spec fn usable_views(s: Seq<LintView>) -> Seq<LintView> {
    s.filter(|v: LintView| usable(v))
}

/// The distinct groups of `s`, in the order in which each first occurs.
pub open spec fn group_keys(s: Seq<LintView>) -> Seq<Seq<char>> {
    distinct(s.map_values(|v: LintView| v.group))
}

/// The lints of `s` in group `g`, in their order.
pub open spec fn in_group(s: Seq<LintView>, g: Seq<char>) -> Seq<LintView> {
    s.filter(|v: LintView| v.group == g)
}

impl Lint {
    /// Builds a record; the name is stored in lower case, and the description
    /// as the text that its string literal stands for.
    pub fn new(name: &str, group: &str, desc: &str, deprecation: Option<&str>, module: &str) -> (r: Lint)
        ensures
            r@.name == ascii_lower(name@),
            r@.group == group@,
            r@.desc == unescape_desc(desc@),
            r@.deprecation == (match deprecation {
                Some(d) => Some(d@),
                None => None::<Seq<char>>,
            }),
            r@.module == module@,
    {
        let deprecation = match deprecation {
            Some(d) => Some(d.to_owned()),
            None => None,
        };
        Lint {
            name: to_ascii_lower(name),
            group: group.to_owned(),
            desc: clean_desc(desc),
            deprecation,
            module: module.to_owned(),
        }
    }

    /// A copy of the record.
    pub fn duplicate(&self) -> (r: Lint)
        ensures
            r@ == self@,
    {
        let deprecation = match &self.deprecation {
            Some(d) => Some(d.clone()),
            None => None,
        };
        Lint {
            name: self.name.clone(),
            group: self.group.clone(),
            desc: self.desc.clone(),
            deprecation,
            module: self.module.clone(),
        }
    }

    pub fn is_internal(&self) -> (r: bool)
        ensures
            r == internal(self@),
    {
        starts_with(self.group.as_str(), "internal")
    }

    pub fn is_usable(&self) -> (r: bool)
        ensures
            r == usable(self@),
    {
        self.deprecation.is_none() && !self.is_internal()
    }

    /// The lints that are neither deprecated nor internal, in their order.
    pub fn usable_lints(lints: &Vec<Lint>) -> (r: Vec<Lint>)
        ensures
            views(r@) == usable_views(views(lints@)),
    {
        let mut r: Vec<Lint> = Vec::new();
        let n = lints.len();
        let mut i: usize = 0;
        while i < n
            invariant
                n == lints@.len(),
                i <= n,
                views(r@) == usable_views(views(lints@.subrange(0, i as int))),
            decreases n - i,
        {
            let l = &lints[i];
            proof {
                let s = views(lints@.subrange(0, i as int));
                assert(views(lints@.subrange(0, i + 1)) =~= s.push(l@));
                assert(s.push(l@).drop_last() =~= s);
                reveal(Seq::filter);
                assert(usable_views(s.push(l@)) == if usable(l@) {
                    usable_views(s).push(l@)
                } else {
                    usable_views(s)
                });
            }
            if l.is_usable() {
                let ghost before = r@;
                r.push(l.duplicate());
                assert(views(r@) =~= views(before).push(l@));
            }
            i = i + 1;
        }
        assert(lints@.subrange(0, n as int) =~= lints@);
        r
    }

    /// The lints of `lints` whose group is `group`, in their order.
    pub fn lints_in_group(lints: &Vec<Lint>, group: &String) -> (r: Vec<Lint>)
        ensures
            views(r@) == in_group(views(lints@), group@),
    {
        let mut r: Vec<Lint> = Vec::new();
        let n = lints.len();
        let mut i: usize = 0;
        while i < n
            invariant
                n == lints@.len(),
                i <= n,
                views(r@) == in_group(views(lints@.subrange(0, i as int)), group@),
            decreases n - i,
        {
            let l = &lints[i];
            proof {
                let s = views(lints@.subrange(0, i as int));
                assert(views(lints@.subrange(0, i + 1)) =~= s.push(l@));
                assert(s.push(l@).drop_last() =~= s);
                reveal(Seq::filter);
                assert(in_group(s.push(l@), group@) == if l@.group == group@ {
                    in_group(s, group@).push(l@)
                } else {
                    in_group(s, group@)
                });
            }
            if l.group == *group {
                let ghost before = r@;
                r.push(l.duplicate());
                assert(views(r@) =~= views(before).push(l@));
            }
            i = i + 1;
        }
        assert(lints@.subrange(0, n as int) =~= lints@);
        r
    }

    /// The distinct groups of `lints`, each once, in order of first occurrence.
    pub fn lint_groups(lints: &Vec<Lint>) -> (r: Vec<String>)
        ensures
            strs(r@) == group_keys(views(lints@)),
    {
        let mut all: Vec<String> = Vec::new();
        let n = lints.len();
        let mut i: usize = 0;
        while i < n
            invariant
                n == lints@.len(),
                i <= n,
                strs(all@) == views(lints@.subrange(0, i as int)).map_values(|v: LintView| v.group),
            decreases n - i,
        {
            let ghost before = all@;
            all.push(lints[i].group.clone());
            assert(views(lints@.subrange(0, i + 1)) =~= views(lints@.subrange(0, i as int)).push(lints@[i as int]@));
            assert(strs(all@) =~= strs(before).push(lints@[i as int]@.group));
            i = i + 1;
        }
        assert(lints@.subrange(0, n as int) =~= lints@);
        dedup_strings(&all)
    }

    /// Groups `lints` by their group: one entry per distinct group, in order
    /// of first occurrence, holding that group's lints in their order.
    pub fn by_lint_group(lints: &Vec<Lint>) -> (r: Vec<(String, Vec<Lint>)>)
        ensures
            r@.len() == group_keys(views(lints@)).len(),
            forall|k: int| 0 <= k < r@.len() ==> {
                &&& (#[trigger] r@[k]).0@ == group_keys(views(lints@))[k]
                &&& views(r@[k].1@) == in_group(views(lints@), r@[k].0@)
            },
    {
        let keys = Lint::lint_groups(lints);
        let mut r: Vec<(String, Vec<Lint>)> = Vec::new();
        let n = keys.len();
        let mut i: usize = 0;
        while i < n
            invariant
                n == keys@.len(),
                strs(keys@) == group_keys(views(lints@)),
                i <= n,
                r@.len() == i,
                forall|k: int| 0 <= k < i ==> {
                    &&& (#[trigger] r@[k]).0@ == group_keys(views(lints@))[k]
                    &&& views(r@[k].1@) == in_group(views(lints@), r@[k].0@)
                },
            decreases n - i,
        {
            let members = Lint::lints_in_group(lints, &keys[i]);
            assert(strs(keys@)[i as int] == keys@[i as int]@);
            r.push((keys[i].clone(), members));
            i = i + 1;
        }
        r
    }

    /// A copy of each lint of `lints`.
    pub fn copy_all(lints: &Vec<Lint>) -> (r: Vec<Lint>)
        ensures
            views(r@) == views(lints@),
    {
        let mut r: Vec<Lint> = Vec::new();
        let n = lints.len();
        let mut i: usize = 0;
        while i < n
            invariant
                n == lints@.len(),
                i <= n,
                views(r@) == views(lints@.subrange(0, i as int)),
            decreases n - i,
        {
            let ghost before = r@;
            let l = lints[i].duplicate();
            r.push(l);
            assert(views(r@) =~= views(before).push(l@));
            assert(views(lints@.subrange(0, i + 1)) =~= views(lints@.subrange(0, i as int)).push(lints@[i as int]@));
            i = i + 1;
        }
        assert(lints@.subrange(0, n as int) =~= lints@);
        r
    }
}

} // verus!
