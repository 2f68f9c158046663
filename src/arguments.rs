//! Rule arguments configured per path.
//!
//! An argument has an optional default and values for path prefixes
//! ("by subtree"). For a file, the value set for its deepest ancestor wins,
//! and the default applies where no ancestor has one. Paths are `/`-separated,
//! and a path's ancestors are those that `std::path::Path::parent` walks
//! through, each as the text it is a prefix of: the path itself, then the
//! path up to the end of each earlier part, then the root `/` of an absolute
//! path or the empty path of a relative one. Runs of `/` and a trailing `/`
//! separate no part, and a `.` part other than a leading one is no part. So
//! the ancestors of `a/b/c.py` are `a/b/c.py`, `a/b`, `a` and the empty
//! path; those of `/a/b` are `/a/b`, `/a` and `/`; those of `a//b` and of
//! `a/./b` are the path, `a` and the empty path; and those of `a/b/` are
//! `a/b/`, `a` and the empty path.
use crate::text::{chars_of, string_of, string_views};
use vstd::prelude::*;
use vstd::string::StrSliceExecFns;

verus! {

/// The values of one argument: its default and its values by path prefix.
#[derive(Debug, Clone, PartialEq, Eq, Default)]
pub struct ArgumentValues {
    pub default_value: Option<String>,
    pub by_subtree: Vec<(String, String)>,
}

/// Path filters of a ruleset or a rule.
#[derive(Debug, Clone, PartialEq, Eq, Default)]
pub struct PathConfig {
    pub only: Option<Vec<String>>,
    pub ignore: Vec<String>,
}

/// The configuration of a rule: its path filters and its arguments by name.
#[derive(Debug, Clone, PartialEq, Eq, Default)]
pub struct RuleConfig {
    pub paths: PathConfig,
    pub arguments: Vec<(String, ArgumentValues)>,
}

/// The configuration of a ruleset: its path filters and its rules by short
/// name.
#[derive(Debug, Clone, PartialEq, Eq, Default)]
pub struct RulesetConfig {
    pub paths: PathConfig,
    pub rules: Vec<(String, RuleConfig)>,
}

/// A configuration file: its rulesets by name, and the options that apply
/// to all of them.
#[derive(Debug, Clone, PartialEq, Eq, Default)]
pub struct ConfigFile {
    pub rulesets: Vec<(String, RulesetConfig)>,
    pub paths: PathConfig,
    pub ignore_gitignore: Option<bool>,
    pub max_file_size_kb: Option<u64>,
}

/// The content of a [`PathConfig`].
pub struct PathsView {
    pub only: Option<Seq<Seq<char>>>,
    pub ignore: Seq<Seq<char>>,
}

/// The content of an [`ArgumentValues`].
pub struct ArgumentView {
    pub default_value: Option<Seq<char>>,
    pub by_subtree: Seq<(Seq<char>, Seq<char>)>,
}

/// The content of a [`RuleConfig`].
pub struct RuleView {
    pub paths: PathsView,
    pub arguments: Seq<(Seq<char>, ArgumentView)>,
}

/// The content of a [`RulesetConfig`].
pub struct RulesetView {
    pub paths: PathsView,
    pub rules: Seq<(Seq<char>, RuleView)>,
}

/// The content of a [`ConfigFile`].
pub struct ConfigView {
    pub rulesets: Seq<(Seq<char>, RulesetView)>,
    pub paths: PathsView,
    pub ignore_gitignore: Option<bool>,
    pub max_file_size_kb: Option<u64>,
}

/// The content of named arguments.
pub open spec fn named_arguments(l: Seq<(String, ArgumentValues)>) -> Seq<(Seq<char>, ArgumentView)> {
    l.map_values(|e: (String, ArgumentValues)| (e.0@, e.1@))
}

/// The content of named rules.
pub open spec fn named_rules(l: Seq<(String, RuleConfig)>) -> Seq<(Seq<char>, RuleView)> {
    l.map_values(|e: (String, RuleConfig)| (e.0@, e.1@))
}

/// The content of named rulesets.
pub open spec fn named_rulesets(l: Seq<(String, RulesetConfig)>) -> Seq<(Seq<char>, RulesetView)> {
    l.map_values(|e: (String, RulesetConfig)| (e.0@, e.1@))
}

impl View for PathConfig {
    type V = PathsView;

    open spec fn view(&self) -> PathsView {
        PathsView {
            only: match self.only {
                Some(v) => Some(string_views(v@)),
                None => None,
            },
            ignore: string_views(self.ignore@),
        }
    }
}

impl View for ArgumentValues {
    type V = ArgumentView;

    open spec fn view(&self) -> ArgumentView {
        ArgumentView {
            default_value: match self.default_value {
                Some(d) => Some(d@),
                None => None,
            },
            by_subtree: pair_views(self.by_subtree@),
        }
    }
}

impl View for RuleConfig {
    type V = RuleView;

    open spec fn view(&self) -> RuleView {
        RuleView {
            paths: self.paths@,
            arguments: named_arguments(self.arguments@),
        }
    }
}

impl View for RulesetConfig {
    type V = RulesetView;

    open spec fn view(&self) -> RulesetView {
        RulesetView {
            paths: self.paths@,
            rules: named_rules(self.rules@),
        }
    }
}

impl View for ConfigFile {
    type V = ConfigView;

    open spec fn view(&self) -> ConfigView {
        ConfigView {
            rulesets: named_rulesets(self.rulesets@),
            paths: self.paths@,
            ignore_gitignore: self.ignore_gitignore,
            max_file_size_kb: self.max_file_size_kb,
        }
    }
}

/// The value of the first entry of `entries` keyed `key`.
pub open spec fn lookup<V>(entries: Seq<(String, V)>, key: Seq<char>) -> Option<V>
    decreases entries.len(),
{
    if entries.len() == 0 {
        None
    } else if entries[0].0@ == key {
        Some(entries[0].1)
    } else {
        lookup(entries.drop_first(), key)
    }
}

/// The first entry keyed `key` sits at `i`.
proof fn lemma_lookup_at<V>(entries: Seq<(String, V)>, key: Seq<char>, i: int)
    requires
        0 <= i < entries.len(),
        entries[i].0@ == key,
        forall|j: int| 0 <= j < i ==> entries[j].0@ != key,
    ensures
        lookup(entries, key) == Some(entries[i].1),
    decreases i,
{
    if i > 0 {
        lemma_lookup_at(entries.drop_first(), key, i - 1);
    }
}

/// No entry is keyed `key`.
proof fn lemma_lookup_none<V>(entries: Seq<(String, V)>, key: Seq<char>)
    requires
        forall|j: int| 0 <= j < entries.len() ==> entries[j].0@ != key,
    ensures
        lookup(entries, key) is None,
    decreases entries.len(),
{
    if entries.len() > 0 {
        lemma_lookup_none(entries.drop_first(), key);
    }
}

/// Finds the first entry keyed `key`.
fn find_entry<'a, V>(entries: &'a Vec<(String, V)>, key: &String) -> (r: Option<&'a V>)
    ensures
        r matches Some(v) ==> lookup(entries@, key@) == Some(*v),
        r is None ==> lookup(entries@, key@) is None,
{
    let mut i: usize = 0;
    while i < entries.len()
        invariant
            i <= entries@.len(),
            forall|j: int| 0 <= j < i ==> entries@[j].0@ != key@,
        decreases entries.len() - i,
    {
        if entries[i].0 == *key {
            proof {
                lemma_lookup_at(entries@, key@, i as int);
            }
            return Some(&entries[i].1);
        }
        i = i + 1;
    }
    proof {
        lemma_lookup_none(entries@, key@);
    }
    None
}

/// Whether a part of the path `p` ends at `k`: a run of characters other
/// than `/` ends there, and it is not a `.` that follows a `/`.
pub open spec fn ends_part(p: Seq<char>, k: int) -> bool {
    &&& 0 < k <= p.len()
    &&& p[k - 1] != '/'
    &&& (k == p.len() || p[k] == '/')
    &&& !(p[k - 1] == '.' && k >= 2 && p[k - 2] == '/')
}

/// Whether a part of `p` ends after `k`.
pub open spec fn part_after(p: Seq<char>, k: int) -> bool {
    exists|m: int| k < m <= p.len() && #[trigger] ends_part(p, m)
}

/// Whether the first `k` characters of `p` form an ancestor of `p`: `p`
/// itself; `p` up to the end of a part that another part follows; the empty
/// path of a relative `p`, or the root `/` of an absolute one, where `p` has
/// a part.
pub open spec fn is_cut(p: Seq<char>, k: int) -> bool {
    ||| k == p.len()
    ||| (ends_part(p, k) && part_after(p, k))
    ||| (k == 0 && p.len() > 0 && p[0] != '/' && part_after(p, 0))
    ||| (k == 1 && p.len() > 0 && p[0] == '/' && part_after(p, 1))
}

/// Whether `a` is an ancestor of `p` (a path is its own ancestor).
pub open spec fn is_ancestor(a: Seq<char>, p: Seq<char>) -> bool {
    exists|k: int| 0 <= k <= p.len() && is_cut(p, k) && a == p.subrange(0, k)
}

/// The value set for the deepest ancestor of `p` among its first `k + 1`
/// cuts, else the default.
pub open spec fn resolve_from(av: ArgumentValues, p: Seq<char>, k: nat) -> Option<Seq<char>>
    decreases k,
{
    if is_cut(p, k as int) && lookup(av.by_subtree@, p.subrange(0, k as int)) is Some {
        Some(lookup(av.by_subtree@, p.subrange(0, k as int))->0@)
    } else if k == 0 {
        match av.default_value {
            Some(d) => Some(d@),
            None => None,
        }
    } else {
        resolve_from(av, p, (k - 1) as nat)
    }
}

/// The value of an argument for the file at `p`.
pub open spec fn resolve(av: ArgumentValues, p: Seq<char>) -> Option<Seq<char>> {
    resolve_from(av, p, p.len())
}

/// The arguments that have a value for the file at `p`, with that value, in
/// the order in which they are configured.
pub open spec fn resolved_arguments(args: Seq<(String, ArgumentValues)>, p: Seq<char>) -> Seq<
    (Seq<char>, Seq<char>),
>
    decreases args.len(),
{
    if args.len() == 0 {
        seq![]
    } else {
        let before = resolved_arguments(args.drop_last(), p);
        match resolve(args.last().1, p) {
            Some(v) => before.push((args.last().0@, v)),
            None => before,
        }
    }
}

/// The views of a sequence of pairs of strings.
pub open spec fn pair_views(v: Seq<(String, String)>) -> Seq<(Seq<char>, Seq<char>)> {
    v.map_values(|e: (String, String)| (e.0@, e.1@))
}

/// Whether a part of `p` ends at `k`.
fn ends_part_at(p: &Vec<char>, k: usize) -> (r: bool)
    requires
        k <= p@.len(),
    ensures
        r == ends_part(p@, k as int),
{
    0 < k && p[k - 1] != '/' && (k == p.len() || p[k] == '/') && !(p[k - 1] == '.' && k >= 2 && p[k
        - 2] == '/')
}

/// Whether a part of `p` ends after `k`.
fn part_after_at(p: &Vec<char>, k: usize) -> (r: bool)
    requires
        k <= p@.len(),
    ensures
        r == part_after(p@, k as int),
{
    let mut m: usize = k;
    while m < p.len()
        invariant
            k <= m <= p@.len(),
            p@.len() == p.len(),
            forall|j: int| k < j <= m ==> !#[trigger] ends_part(p@, j),
        decreases p.len() - m,
    {
        if ends_part_at(p, m + 1) {
            return true;
        }
        m = m + 1;
    }
    false
}

/// Whether the first `k` characters of `p` form an ancestor of `p`.
fn cut_at(p: &Vec<char>, k: usize) -> (r: bool)
    requires
        k <= p@.len(),
    ensures
        r == is_cut(p@, k as int),
{
    if k == p.len() {
        return true;
    }
    let after = part_after_at(p, k);
    (ends_part_at(p, k) && after) || (k == 0 && p[0] != '/' && after) || (k == 1 && p[0] == '/'
        && after)
}

/// The value of an argument for the file at `filename`: the value set for
/// the deepest ancestor of the path, else the default.
pub fn resolve_argument(values: &ArgumentValues, filename: &str) -> (r: Option<String>)
    ensures
        r matches Some(v) ==> resolve(*values, filename@) == Some(v@),
        r is None ==> resolve(*values, filename@) is None,
{
    let p = chars_of(filename);
    let mut k: usize = p.len();
    loop
        invariant
            k <= p@.len(),
            p@ == filename@,
            resolve(*values, filename@) == resolve_from(*values, p@, k as nat),
        decreases k,
    {
        if cut_at(&p, k) {
            let prefix = string_of(vstd::slice::slice_subrange(p.as_slice(), 0, k));
            match find_entry(&values.by_subtree, &prefix) {
                Some(v) => {
                    return Some(v.clone());
                },
                None => {},
            }
        }
        if k == 0 {
            return match &values.default_value {
                Some(d) => Some(d.clone()),
                None => None,
            };
        }
        k = k - 1;
    }
}

/// The arguments that have a value for the file at `filename`, with that
/// value, in the order in which they are configured.
pub fn filter_arguments(arguments: &Vec<(String, ArgumentValues)>, filename: &str) -> (r: Vec<
    (String, String),
>)
    ensures
        pair_views(r@) == resolved_arguments(arguments@, filename@),
{
    let mut out: Vec<(String, String)> = Vec::new();
    let mut i: usize = 0;
    while i < arguments.len()
        invariant
            i <= arguments@.len(),
            pair_views(out@) == resolved_arguments(arguments@.subrange(0, i as int), filename@),
        decreases arguments.len() - i,
    {
        assert(arguments@.subrange(0, i + 1).drop_last() =~= arguments@.subrange(0, i as int));
        let (name, values) = (&arguments[i].0, &arguments[i].1);
        match resolve_argument(values, filename) {
            Some(v) => {
                let ghost before = out@;
                out.push((name.clone(), v));
                assert(pair_views(out@) =~= pair_views(before).push((name@, v@)));
            },
            None => {},
        }
        i = i + 1;
    }
    assert(arguments@.subrange(0, arguments@.len() as int) =~= arguments@);
    out
}

/// Whether `i` is the position of the first `/` of `name`.
pub open spec fn first_slash_at(name: Seq<char>, i: int) -> bool {
    0 <= i < name.len() && name[i] == '/' && forall|j: int| 0 <= j < i ==> name[j] != '/'
}

/// A qualified rule name split into its ruleset and its short name, at the
/// first `/`; a name without `/` has an empty ruleset.
pub open spec fn split_rule_name_of(name: Seq<char>) -> (Seq<char>, Seq<char>) {
    if name.contains('/') {
        let i = choose|i: int| first_slash_at(name, i);
        (name.subrange(0, i), name.subrange(i + 1, name.len() as int))
    } else {
        (seq![], name)
    }
}

/// Splits a qualified rule name (`ruleset/short-name`) at its first `/`. A
/// name without `/` has an empty ruleset.
pub fn split_rule_name(name: &str) -> (r: (&str, &str))
    ensures
        (r.0@, r.1@) == split_rule_name_of(name@),
{
    let cs = chars_of(name);
    let mut i: usize = 0;
    while i < cs.len()
        invariant
            i <= cs@.len(),
            cs@ == name@,
            forall|j: int| 0 <= j < i ==> cs@[j] != '/',
        decreases cs.len() - i,
    {
        if cs[i] == '/' {
            assert(first_slash_at(name@, i as int));
            let ghost k = choose|k: int| first_slash_at(name@, k);
            assert(k == i) by {
                if k < i {
                    assert(cs@[k] == '/');
                } else if k > i {
                    assert(name@[i as int] == '/');
                }
            }
            return (name.substring_char(0, i), name.substring_char(i + 1, cs.len()));
        }
        i = i + 1;
    }
    assert(!name@.contains('/'));
    proof {
        reveal_strlit("");
    }
    ("", name)
}

/// The arguments of a rule for a file, as a configuration file sets them.
pub open spec fn configured_arguments(config: ConfigFile, filename: Seq<char>, rulename: Seq<char>) -> Seq<
    (Seq<char>, Seq<char>),
> {
    let (ruleset, short_name) = split_rule_name_of(rulename);
    match lookup(config.rulesets@, ruleset) {
        None => seq![],
        Some(rs) => match lookup(rs.rules@, short_name) {
            None => seq![],
            Some(rc) => resolved_arguments(rc.arguments@, filename),
        },
    }
}

/// Serves rule arguments from a configuration file.
pub struct ConfigFileArgumentProvider<'a> {
    pub config: &'a ConfigFile,
}

impl<'a> ConfigFileArgumentProvider<'a> {
    /// The arguments of the rule `rulename` (`ruleset/short-name`) for the
    /// file `filename`: those that have a value there, with that value. A
    /// rule that the configuration does not list has none.
    pub fn get_arguments(&self, filename: &str, rulename: &str) -> (r: Vec<(String, String)>)
        ensures
            pair_views(r@) == configured_arguments(*self.config, filename@, rulename@),
    {
        let (ruleset, short_name) = split_rule_name(rulename);
        let ruleset = ruleset.to_owned();
        let short_name = short_name.to_owned();
        match find_entry(&self.config.rulesets, &ruleset) {
            None => {
                let r: Vec<(String, String)> = Vec::new();
                assert(pair_views(r@) =~= seq![]);
                r
            },
            Some(rs) => match find_entry(&rs.rules, &short_name) {
                None => {
                    let r: Vec<(String, String)> = Vec::new();
                    assert(pair_views(r@) =~= seq![]);
                    r
                },
                Some(cfg) => filter_arguments(&cfg.arguments, filename),
            },
        }
    }
}

/// An argument provider over `config`.
pub fn get_argument_provider(config: &ConfigFile) -> (r: ConfigFileArgumentProvider<'_>)
    ensures
        r.config == config,
{
    ConfigFileArgumentProvider { config }
}

/// `resolve_from` finds a value exactly where the default is set or one of
/// the cuts it looks at has an entry.
proof fn lemma_resolve_from_some(av: ArgumentValues, p: Seq<char>, k: nat)
    ensures
        resolve_from(av, p, k) is Some <==> (av.default_value is Some || exists|j: int|
            0 <= j <= k && is_cut(p, j) && lookup(av.by_subtree@, #[trigger] p.subrange(0, j))
                is Some),
    decreases k,
{
    if k > 0 {
        lemma_resolve_from_some(av, p, (k - 1) as nat);
        if exists|j: int|
            0 <= j <= k && is_cut(p, j) && lookup(av.by_subtree@, #[trigger] p.subrange(0, j))
                is Some {
            let j = choose|j: int|
                0 <= j <= k && is_cut(p, j) && lookup(av.by_subtree@, #[trigger] p.subrange(0, j))
                    is Some;
            if j < k {
                assert(0 <= j <= k - 1 && is_cut(p, j) && lookup(av.by_subtree@, p.subrange(0, j))
                    is Some);
            }
        }
    }
}

/// A part of an ancestor of `path` (its first `k` characters) is a part of
/// `path`.
proof fn lemma_part_of_ancestor(path: Seq<char>, k: int, m: int)
    requires
        0 <= k <= path.len(),
        is_cut(path, k),
        ends_part(path.subrange(0, k), m),
    ensures
        ends_part(path, m),
{
    let a = path.subrange(0, k);
    assert(a[m - 1] == path[m - 1]);
    if m >= 2 {
        assert(a[m - 2] == path[m - 2]);
    }
    if m < k {
        assert(a[m] == path[m]);
    }
}

/// A cut of an ancestor of `path` (its first `k` characters) is a cut of
/// `path`.
proof fn lemma_cut_of_ancestor(path: Seq<char>, k: int, j: int)
    requires
        0 <= k <= path.len(),
        is_cut(path, k),
        0 <= j <= k,
        is_cut(path.subrange(0, k), j),
    ensures
        is_cut(path, j),
{
    let a = path.subrange(0, k);
    if j < k {
        assert(part_after(a, j));
        let m = choose|m: int| j < m <= a.len() && #[trigger] ends_part(a, m);
        lemma_part_of_ancestor(path, k, m);
        assert(part_after(path, j));
        if ends_part(a, j) {
            lemma_part_of_ancestor(path, k, j);
        }
        if j <= 1 {
            assert(a[0] == path[0]);
        }
    }
}

/// A value found for an ancestor of a path is found, possibly overridden,
/// for the path too: if an argument resolves for `ancestor`, and `ancestor` is an
/// ancestor of `path`, it resolves for `path`.
pub proof fn lemma_resolution_monotone(av: ArgumentValues, ancestor: Seq<char>, path: Seq<char>)
    requires
        is_ancestor(ancestor, path),
        resolve(av, ancestor) is Some,
    ensures
        resolve(av, path) is Some,
{
    lemma_resolve_from_some(av, ancestor, ancestor.len());
    lemma_resolve_from_some(av, path, path.len());
    if av.default_value is None {
        let j = choose|j: int|
            0 <= j <= ancestor.len() && is_cut(ancestor, j) && lookup(av.by_subtree@, #[trigger] ancestor.subrange(0, j))
                is Some;
        let k1 = choose|k: int| 0 <= k <= path.len() && is_cut(path, k) && ancestor == path.subrange(0, k);
        assert(ancestor.subrange(0, j) =~= path.subrange(0, j));
        lemma_cut_of_ancestor(path, k1, j);
        assert(0 <= j <= path.len() && is_cut(path, j) && lookup(av.by_subtree@, path.subrange(0, j))
            is Some);
    }
}

/// The arguments configured for a file are those whose value resolves there.
proof fn lemma_resolved_names(args: Seq<(String, ArgumentValues)>, p: Seq<char>, name: Seq<char>)
    ensures
        (exists|i: int|
            0 <= i < resolved_arguments(args, p).len() && #[trigger] resolved_arguments(
                args,
                p,
            )[i].0 == name) <==> (exists|i: int|
            0 <= i < args.len() && (#[trigger] args[i]).0@ == name && resolve(args[i].1, p) is Some),
    decreases args.len(),
{
    if args.len() > 0 {
        lemma_resolved_names(args.drop_last(), p, name);
        let before = resolved_arguments(args.drop_last(), p);
        let now = resolved_arguments(args, p);
        if exists|i: int| 0 <= i < now.len() && #[trigger] now[i].0 == name {
            let i = choose|i: int| 0 <= i < now.len() && #[trigger] now[i].0 == name;
            if i < before.len() {
                assert(before[i].0 == name);
                let k = choose|k: int|
                    0 <= k < args.drop_last().len() && (#[trigger] args.drop_last()[k]).0@ == name
                        && resolve(args.drop_last()[k].1, p) is Some;
                assert(args[k] == args.drop_last()[k]);
            } else {
                assert(args[args.len() - 1] == args.last());
            }
        }
        if exists|i: int|
            0 <= i < args.len() && (#[trigger] args[i]).0@ == name && resolve(args[i].1, p) is Some {
            let k = choose|k: int|
                0 <= k < args.len() && (#[trigger] args[k]).0@ == name && resolve(args[k].1, p) is Some;
            if k < args.len() - 1 {
                assert(args.drop_last()[k] == args[k]);
                let i = choose|i: int| 0 <= i < before.len() && #[trigger] before[i].0 == name;
                assert(now[i] == before[i]);
            } else {
                assert(now[now.len() - 1].0 == name);
            }
        }
    }
}

/// Rule arguments are monotone in the path: every argument that a file at
/// `ancestor` receives, a file at `path` under it (`ancestor` an ancestor of `path`)
/// receives too, with the same or a more specific value.
pub proof fn lemma_arguments_monotone(
    args: Seq<(String, ArgumentValues)>,
    ancestor: Seq<char>,
    path: Seq<char>,
    name: Seq<char>,
)
    requires
        is_ancestor(ancestor, path),
        exists|i: int|
            0 <= i < resolved_arguments(args, ancestor).len() && #[trigger] resolved_arguments(
                args,
                ancestor,
            )[i].0 == name,
    ensures
        exists|i: int|
            0 <= i < resolved_arguments(args, path).len() && #[trigger] resolved_arguments(
                args,
                path,
            )[i].0 == name,
{
    lemma_resolved_names(args, ancestor, name);
    lemma_resolved_names(args, path, name);
    let k = choose|k: int|
        0 <= k < args.len() && (#[trigger] args[k]).0@ == name && resolve(args[k].1, ancestor) is Some;
    lemma_resolution_monotone(args[k].1, ancestor, path);
}

} // verus!
