//! Reading a configuration file's YAML document into a [`ConfigFile`].
//!
//! The document's top level maps `rulesets` (required) to a mapping from
//! ruleset names to their configuration, or to a list whose items are
//! ruleset names or one-entry mappings; it may also hold `only`, `ignore`,
//! `ignore-paths` (added to `ignore`), `ignore-gitignore` and
//! `max-file-size-kb`. A ruleset may hold `only`, `ignore` and `rules`, a
//! mapping from rule names to their configuration; a rule may hold `only`,
//! `ignore` and `arguments`. An argument is a single value, its default, or
//! a mapping from path prefixes to values in which `/` stands for the
//! default. Ruleset names, the rule names of a ruleset, the argument names
//! of a rule and the paths of an argument are unique, and an argument has at
//! most one default.
use crate::arguments::{
    named_arguments, named_rules, named_rulesets, pair_views, ArgumentValues, ArgumentView,
    ConfigFile, ConfigView, PathConfig, PathsView, RuleConfig, RuleView, RulesetConfig,
    RulesetView,
};
use crate::text::string_views;
use vstd::prelude::*;

verus! {

/// A YAML document as a tree.
#[derive(Debug)]
pub enum YamlValue {
    Null,
    Bool(bool),
    /// A number: its text, and its value where it is an unsigned integer
    /// that fits 64 bits.
    Number { text: String, unsigned: Option<u64> },
    String(String),
    Sequence(Vec<YamlValue>),
    /// A mapping's entries, in document order.
    Mapping(Vec<(YamlValue, YamlValue)>),
    Tagged { tag: String, value: Box<YamlValue> },
}

/// Why a configuration could not be read.
#[derive(Debug, Clone, PartialEq, Eq)]
pub struct ConfigError {
    pub reason: String,
}

/// `items` folded from the left by `step`; a step that fails fails the fold.
pub open spec fn fold_opt<A, T>(items: Seq<T>, init: A, step: spec_fn(A, T) -> Option<A>) -> Option<A>
    decreases items.len(),
{
    if items.len() == 0 {
        Some(init)
    } else {
        match fold_opt(items.drop_last(), init, step) {
            None => None,
            Some(acc) => step(acc, items.last()),
        }
    }
}

/// A fold that fails on a prefix fails on the whole.
pub proof fn lemma_fold_fails<A, T>(items: Seq<T>, init: A, step: spec_fn(A, T) -> Option<A>, i: int)
    requires
        0 <= i <= items.len(),
        fold_opt(items.subrange(0, i), init, step) is None,
    ensures
        fold_opt(items, init, step) is None,
    decreases items.len(),
{
    if i < items.len() {
        assert(items.drop_last().subrange(0, i) =~= items.subrange(0, i));
        lemma_fold_fails(items.drop_last(), init, step, i);
    } else {
        assert(items.subrange(0, i) =~= items);
    }
}

/// Whether `k` is the string `key`.
pub open spec fn key_is(k: YamlValue, key: Seq<char>) -> bool {
    match k {
        YamlValue::String(s) => s@ == key,
        _ => false,
    }
}

/// The value of the first entry of `entries` whose key is the string `key`.
pub open spec fn value_at(entries: Seq<(YamlValue, YamlValue)>, key: Seq<char>) -> Option<YamlValue>
    decreases entries.len(),
{
    if entries.len() == 0 {
        None
    } else if key_is(entries[0].0, key) {
        Some(entries[0].1)
    } else {
        value_at(entries.drop_first(), key)
    }
}

/// No path filter.
pub open spec fn no_paths() -> PathsView {
    PathsView { only: None, ignore: seq![] }
}

/// Whether `entries` has an entry named `name`.
pub open spec fn has_name<V>(entries: Seq<(Seq<char>, V)>, name: Seq<char>) -> bool {
    exists|i: int| 0 <= i < entries.len() && (#[trigger] entries[i]).0 == name
}

/// Adds a string item to a list of strings.
pub open spec fn string_step(acc: Seq<Seq<char>>, item: YamlValue) -> Option<Seq<Seq<char>>> {
    match item {
        YamlValue::String(s) => Some(acc.push(s@)),
        _ => None,
    }
}

/// [`string_step`] as a function value.
pub open spec fn string_stepper() -> spec_fn(Seq<Seq<char>>, YamlValue) -> Option<Seq<Seq<char>>> {
    |a: Seq<Seq<char>>, x: YamlValue| string_step(a, x)
}

/// The strings of a list whose items are all strings.
pub open spec fn strings_in(items: Seq<YamlValue>) -> Option<Seq<Seq<char>>> {
    fold_opt(items, seq![], string_stepper())
}

/// A list of strings; absent or null is empty.
pub open spec fn strings_of(v: Option<YamlValue>) -> Option<Seq<Seq<char>>> {
    match v {
        None => Some(seq![]),
        Some(YamlValue::Null) => Some(seq![]),
        Some(YamlValue::Sequence(items)) => strings_in(items@),
        _ => None,
    }
}

/// An optional list of strings; absent or null is none.
pub open spec fn only_of(v: Option<YamlValue>) -> Option<Option<Seq<Seq<char>>>> {
    match v {
        None => Some(None),
        Some(YamlValue::Null) => Some(None),
        Some(YamlValue::Sequence(items)) => match strings_in(items@) {
            Some(l) => Some(Some(l)),
            None => None,
        },
        _ => None,
    }
}

/// The `only` and `ignore` entries of a mapping.
pub open spec fn paths_of(entries: Seq<(YamlValue, YamlValue)>) -> Option<PathsView> {
    match (only_of(value_at(entries, "only"@)), strings_of(value_at(entries, "ignore"@))) {
        (Some(only), Some(ignore)) => Some(PathsView { only, ignore }),
        _ => None,
    }
}

/// The text of a scalar.
pub open spec fn scalar_of(v: YamlValue) -> Option<Seq<char>> {
    match v {
        YamlValue::String(s) => Some(s@),
        YamlValue::Number { text, unsigned } => Some(text@),
        YamlValue::Bool(b) => Some(
            if b {
                "true"@
            } else {
                "false"@
            },
        ),
        _ => None,
    }
}

/// Adds one entry of an argument's mapping: `/` sets the default, another
/// path a value for that path. A second default, or a path given twice,
/// fails.
pub open spec fn argument_step(acc: ArgumentView, e: (YamlValue, YamlValue)) -> Option<ArgumentView> {
    match (scalar_of(e.0), scalar_of(e.1)) {
        (Some(k), Some(x)) => if k == "/"@ {
            if acc.default_value is Some {
                None
            } else {
                Some(ArgumentView { default_value: Some(x), ..acc })
            }
        } else if has_name(acc.by_subtree, k) {
            None
        } else {
            Some(ArgumentView { by_subtree: acc.by_subtree.push((k, x)), ..acc })
        },
        _ => None,
    }
}

/// [`argument_step`] as a function value.
pub open spec fn argument_stepper() -> spec_fn(ArgumentView, (YamlValue, YamlValue)) -> Option<ArgumentView> {
    |a: ArgumentView, e: (YamlValue, YamlValue)| argument_step(a, e)
}

/// The values held by the entries of an argument's mapping.
pub open spec fn argument_entries(es: Seq<(YamlValue, YamlValue)>) -> Option<ArgumentView> {
    fold_opt(es, ArgumentView { default_value: None, by_subtree: seq![] }, argument_stepper())
}

/// The values of an argument: a scalar (its default), or a mapping from
/// path prefixes to scalars.
pub open spec fn argument_of(v: YamlValue) -> Option<ArgumentView> {
    match v {
        YamlValue::Mapping(es) => argument_entries(es@),
        _ => match scalar_of(v) {
            Some(x) => Some(ArgumentView { default_value: Some(x), by_subtree: seq![] }),
            None => None,
        },
    }
}

/// Adds one named argument; a repeated name fails.
pub open spec fn arguments_step(
    acc: Seq<(Seq<char>, ArgumentView)>,
    e: (YamlValue, YamlValue),
) -> Option<Seq<(Seq<char>, ArgumentView)>> {
    match (e.0, argument_of(e.1)) {
        (YamlValue::String(name), Some(a)) => if has_name(acc, name@) {
            None
        } else {
            Some(acc.push((name@, a)))
        },
        _ => None,
    }
}

/// [`arguments_step`] as a function value.
pub open spec fn arguments_stepper() -> spec_fn(Seq<(Seq<char>, ArgumentView)>, (YamlValue, YamlValue)) -> Option<Seq<(Seq<char>, ArgumentView)>> {
    |a: Seq<(Seq<char>, ArgumentView)>, e: (YamlValue, YamlValue)| arguments_step(a, e)
}

/// The named arguments held by the entries of a mapping.
pub open spec fn arguments_in(es: Seq<(YamlValue, YamlValue)>) -> Option<Seq<(Seq<char>, ArgumentView)>> {
    fold_opt(es, seq![], arguments_stepper())
}

/// The arguments of a rule; absent or null is none.
pub open spec fn arguments_of(v: Option<YamlValue>) -> Option<Seq<(Seq<char>, ArgumentView)>> {
    match v {
        None => Some(seq![]),
        Some(YamlValue::Null) => Some(seq![]),
        Some(YamlValue::Mapping(es)) => arguments_in(es@),
        _ => None,
    }
}

/// The configuration of a rule; null is the default one.
pub open spec fn rule_of(v: YamlValue) -> Option<RuleView> {
    match v {
        YamlValue::Null => Some(RuleView { paths: no_paths(), arguments: seq![] }),
        YamlValue::Mapping(es) => match (paths_of(es@), arguments_of(value_at(es@, "arguments"@))) {
            (Some(paths), Some(arguments)) => Some(RuleView { paths, arguments }),
            _ => None,
        },
        _ => None,
    }
}

/// Adds one named rule; a repeated name fails.
pub open spec fn rules_step(acc: Seq<(Seq<char>, RuleView)>, e: (YamlValue, YamlValue)) -> Option<
    Seq<(Seq<char>, RuleView)>,
> {
    match (e.0, rule_of(e.1)) {
        (YamlValue::String(name), Some(r)) => if has_name(acc, name@) {
            None
        } else {
            Some(acc.push((name@, r)))
        },
        _ => None,
    }
}

/// [`rules_step`] as a function value.
pub open spec fn rules_stepper() -> spec_fn(Seq<(Seq<char>, RuleView)>, (YamlValue, YamlValue)) -> Option<Seq<(Seq<char>, RuleView)>> {
    |a: Seq<(Seq<char>, RuleView)>, e: (YamlValue, YamlValue)| rules_step(a, e)
}

/// The named rules held by the entries of a mapping.
pub open spec fn rules_in(es: Seq<(YamlValue, YamlValue)>) -> Option<Seq<(Seq<char>, RuleView)>> {
    fold_opt(es, seq![], rules_stepper())
}

/// The rules of a ruleset: a mapping; absent or null is none.
pub open spec fn rules_of(v: Option<YamlValue>) -> Option<Seq<(Seq<char>, RuleView)>> {
    match v {
        None => Some(seq![]),
        Some(YamlValue::Null) => Some(seq![]),
        Some(YamlValue::Mapping(es)) => rules_in(es@),
        _ => None,
    }
}

/// The configuration of a ruleset held by the entries of a mapping.
pub open spec fn ruleset_of_entries(entries: Seq<(YamlValue, YamlValue)>) -> Option<RulesetView> {
    match (paths_of(entries), rules_of(value_at(entries, "rules"@))) {
        (Some(paths), Some(rules)) => Some(RulesetView { paths, rules }),
        _ => None,
    }
}

/// The configuration of a ruleset; null is the default one.
pub open spec fn ruleset_of(v: YamlValue) -> Option<RulesetView> {
    match v {
        YamlValue::Null => Some(RulesetView { paths: no_paths(), rules: seq![] }),
        YamlValue::Mapping(es) => ruleset_of_entries(es@),
        _ => None,
    }
}

/// An item of a list of rulesets: a name, or a mapping whose first key is
/// the name. With one entry, its value is the configuration; with more,
/// the first value is null and the other entries are the configuration.
pub open spec fn ruleset_item(v: YamlValue) -> Option<(Seq<char>, RulesetView)> {
    match v {
        YamlValue::String(name) => Some((name@, RulesetView { paths: no_paths(), rules: seq![] })),
        YamlValue::Mapping(es) => if es@.len() == 0 {
            None
        } else {
            match es@[0].0 {
                YamlValue::String(name) => {
                    let cfg = if es@.len() == 1 {
                        ruleset_of(es@[0].1)
                    } else if es@[0].1 is Null {
                        ruleset_of_entries(es@.drop_first())
                    } else {
                        None
                    };
                    match cfg {
                        Some(r) => Some((name@, r)),
                        None => None,
                    }
                },
                _ => None,
            }
        },
        _ => None,
    }
}

/// Adds a ruleset; a repeated name fails.
pub open spec fn add_ruleset(
    acc: Seq<(Seq<char>, RulesetView)>,
    item: Option<(Seq<char>, RulesetView)>,
) -> Option<Seq<(Seq<char>, RulesetView)>> {
    match item {
        Some((name, r)) => if has_name(acc, name) {
            None
        } else {
            Some(acc.push((name, r)))
        },
        None => None,
    }
}

/// A named ruleset of a mapping of rulesets.
pub open spec fn ruleset_entry(e: (YamlValue, YamlValue)) -> Option<(Seq<char>, RulesetView)> {
    match (e.0, ruleset_of(e.1)) {
        (YamlValue::String(name), Some(r)) => Some((name@, r)),
        _ => None,
    }
}

/// Adds an item of a list of rulesets, as a function value.
pub open spec fn ruleset_item_stepper() -> spec_fn(Seq<(Seq<char>, RulesetView)>, YamlValue) -> Option<Seq<(Seq<char>, RulesetView)>> {
    |a: Seq<(Seq<char>, RulesetView)>, x: YamlValue| add_ruleset(a, ruleset_item(x))
}

/// Adds an entry of a mapping of rulesets, as a function value.
pub open spec fn ruleset_entry_stepper() -> spec_fn(Seq<(Seq<char>, RulesetView)>, (YamlValue, YamlValue)) -> Option<Seq<(Seq<char>, RulesetView)>> {
    |a: Seq<(Seq<char>, RulesetView)>, e: (YamlValue, YamlValue)| add_ruleset(a, ruleset_entry(e))
}

/// The rulesets of a list.
pub open spec fn rulesets_in_list(items: Seq<YamlValue>) -> Option<Seq<(Seq<char>, RulesetView)>> {
    fold_opt(items, seq![], ruleset_item_stepper())
}

/// The rulesets of a mapping.
pub open spec fn rulesets_in_map(es: Seq<(YamlValue, YamlValue)>) -> Option<Seq<(Seq<char>, RulesetView)>> {
    fold_opt(es, seq![], ruleset_entry_stepper())
}

/// The rulesets: a list or a mapping; they must be present.
pub open spec fn rulesets_of(v: Option<YamlValue>) -> Option<Seq<(Seq<char>, RulesetView)>> {
    match v {
        Some(YamlValue::Sequence(items)) => rulesets_in_list(items@),
        Some(YamlValue::Mapping(es)) => rulesets_in_map(es@),
        _ => None,
    }
}

/// `ignore-gitignore`: a boolean; absent or null is unset.
pub open spec fn flag_of(v: Option<YamlValue>) -> Option<Option<bool>> {
    match v {
        None => Some(None),
        Some(YamlValue::Null) => Some(None),
        Some(YamlValue::Bool(b)) => Some(Some(b)),
        _ => None,
    }
}

/// `max-file-size-kb`: an unsigned integer; absent or null is unset.
pub open spec fn size_of(v: Option<YamlValue>) -> Option<Option<u64>> {
    match v {
        None => Some(None),
        Some(YamlValue::Null) => Some(None),
        Some(YamlValue::Number { text, unsigned: Some(n) }) => Some(Some(n)),
        _ => None,
    }
}

/// The configuration that a document holds, if it is a valid one.
pub open spec fn config_of(doc: YamlValue) -> Option<ConfigView> {
    match doc {
        YamlValue::Mapping(es) => {
            let es = es@;
            match (
                rulesets_of(value_at(es, "rulesets"@)),
                paths_of(es),
                strings_of(value_at(es, "ignore-paths"@)),
                flag_of(value_at(es, "ignore-gitignore"@)),
                size_of(value_at(es, "max-file-size-kb"@)),
            ) {
                (Some(rulesets), Some(paths), Some(extra), Some(ignore_gitignore), Some(max_file_size_kb)) => Some(
                    ConfigView {
                        rulesets,
                        paths: PathsView { only: paths.only, ignore: paths.ignore + extra },
                        ignore_gitignore,
                        max_file_size_kb,
                    },
                ),
                _ => None,
            }
        },
        _ => None,
    }
}

/// `v` without its reference.
pub open spec fn deref(v: Option<&YamlValue>) -> Option<YamlValue> {
    match v {
        Some(x) => Some(*x),
        None => None,
    }
}

/// An error with `reason`.
fn config_error(reason: &str) -> (r: ConfigError)
    ensures
        r.reason@ == reason@,
{
    ConfigError { reason: reason.to_owned() }
}

proof fn lemma_value_at_hit(entries: Seq<(YamlValue, YamlValue)>, key: Seq<char>, i: int)
    requires
        0 <= i < entries.len(),
        key_is(entries[i].0, key),
        forall|j: int| 0 <= j < i ==> !key_is(#[trigger] entries[j].0, key),
    ensures
        value_at(entries, key) == Some(entries[i].1),
    decreases i,
{
    if i > 0 {
        assert(!key_is(entries[0].0, key));
        assert forall|j: int| 0 <= j < i - 1 implies !key_is(#[trigger] entries.drop_first()[j].0, key) by {
            assert(entries.drop_first()[j] == entries[j + 1]);
        }
        lemma_value_at_hit(entries.drop_first(), key, i - 1);
    }
}

proof fn lemma_value_at_miss(entries: Seq<(YamlValue, YamlValue)>, key: Seq<char>)
    requires
        forall|j: int| 0 <= j < entries.len() ==> !key_is(#[trigger] entries[j].0, key),
    ensures
        value_at(entries, key) is None,
    decreases entries.len(),
{
    if entries.len() > 0 {
        assert(!key_is(entries[0].0, key));
        assert forall|j: int| 0 <= j < entries.len() - 1 implies !key_is(
            #[trigger] entries.drop_first()[j].0,
            key,
        ) by {
            assert(entries.drop_first()[j] == entries[j + 1]);
        }
        lemma_value_at_miss(entries.drop_first(), key);
    }
}

/// The value of the first entry of `entries` whose key is the string `key`.
pub fn entry_value<'a>(entries: &'a [(YamlValue, YamlValue)], key: &str) -> (r: Option<&'a YamlValue>)
    ensures
        deref(r) == value_at(entries@, key@),
{
    let wanted = key.to_owned();
    let mut i: usize = 0;
    while i < entries.len()
        invariant
            i <= entries@.len(),
            wanted@ == key@,
            forall|j: int| 0 <= j < i ==> !key_is(#[trigger] entries@[j].0, key@),
        decreases entries.len() - i,
    {
        match &entries[i].0 {
            YamlValue::String(s) => {
                if *s == wanted {
                    assert(key_is(entries@[i as int].0, key@));
                    proof {
                        lemma_value_at_hit(entries@, key@, i as int);
                    }
                    return Some(&entries[i].1);
                }
            },
            _ => {},
        }
        i = i + 1;
    }
    proof {
        lemma_value_at_miss(entries@, key@);
    }
    None
}

/// The strings of a list whose items are all strings.
fn string_items(items: &Vec<YamlValue>) -> (r: Result<Vec<String>, ConfigError>)
    ensures
        r matches Ok(l) ==> strings_in(items@) == Some(string_views(l@)),
        r is Err ==> strings_in(items@) is None,
{
    let mut out: Vec<String> = Vec::new();
    let mut i: usize = 0;
    assert(items@.subrange(0, 0) =~= Seq::<YamlValue>::empty());
    assert(string_views(out@) =~= seq![]);
    while i < items.len()
        invariant
            i <= items@.len(),
            fold_opt(items@.subrange(0, i as int), seq![], string_stepper()) == Some(
                string_views(out@),
            ),
        decreases items.len() - i,
    {
        assert(items@.subrange(0, i + 1).drop_last() =~= items@.subrange(0, i as int));
        match &items[i] {
            YamlValue::String(s) => {
                let ghost before = out@;
                out.push(s.clone());
                assert(string_views(out@) =~= string_views(before).push(s@));
            },
            _ => {
                proof {
                    lemma_fold_fails(items@, seq![], string_stepper(), i + 1);
                }
                return Err(config_error("expected a list of strings"));
            },
        }
        i = i + 1;
    }
    assert(items@.subrange(0, items@.len() as int) =~= items@);
    Ok(out)
}

/// A list of strings; absent or null is empty.
fn strings_value(v: Option<&YamlValue>) -> (r: Result<Vec<String>, ConfigError>)
    ensures
        r matches Ok(l) ==> strings_of(deref(v)) == Some(string_views(l@)),
        r is Err ==> strings_of(deref(v)) is None,
{
    match v {
        None => {
            let r: Vec<String> = Vec::new();
            assert(string_views(r@) =~= seq![]);
            Ok(r)
        },
        Some(YamlValue::Null) => {
            let r: Vec<String> = Vec::new();
            assert(string_views(r@) =~= seq![]);
            Ok(r)
        },
        Some(YamlValue::Sequence(items)) => string_items(items),
        Some(_) => Err(config_error("expected a list of strings")),
    }
}

/// An optional list of strings; absent or null is none.
fn only_value(v: Option<&YamlValue>) -> (r: Result<Option<Vec<String>>, ConfigError>)
    ensures
        r matches Ok(o) ==> only_of(deref(v)) == Some(
            match o {
                Some(l) => Some(string_views(l@)),
                None => None,
            },
        ),
        r is Err ==> only_of(deref(v)) is None,
{
    match v {
        None => Ok(None),
        Some(YamlValue::Null) => Ok(None),
        Some(YamlValue::Sequence(items)) => match string_items(items) {
            Ok(l) => Ok(Some(l)),
            Err(e) => Err(e),
        },
        Some(_) => Err(config_error("expected a list of strings")),
    }
}

/// The `only` and `ignore` entries of a mapping.
fn paths_value(entries: &[(YamlValue, YamlValue)]) -> (r: Result<PathConfig, ConfigError>)
    ensures
        r matches Ok(p) ==> paths_of(entries@) == Some(p@),
        r is Err ==> paths_of(entries@) is None,
{
    let only = only_value(entry_value(entries, "only"));
    let ignore = strings_value(entry_value(entries, "ignore"));
    match (only, ignore) {
        (Ok(only), Ok(ignore)) => Ok(PathConfig { only, ignore }),
        (Err(e), _) => Err(e),
        (_, Err(e)) => Err(e),
    }
}

/// The text of a scalar.
fn scalar_text(v: &YamlValue) -> (r: Option<String>)
    ensures
        r matches Some(t) ==> scalar_of(*v) == Some(t@),
        r is None ==> scalar_of(*v) is None,
{
    match v {
        YamlValue::String(s) => Some(s.clone()),
        YamlValue::Number { text, unsigned: _ } => Some(text.clone()),
        YamlValue::Bool(b) => Some(
            if *b {
                "true".to_owned()
            } else {
                "false".to_owned()
            },
        ),
        _ => None,
    }
}

/// The values of an argument: a scalar (its default), or a mapping from
/// path prefixes to scalars in which `/` stands for the default.
fn argument_value(v: &YamlValue) -> (r: Result<ArgumentValues, ConfigError>)
    ensures
        r matches Ok(a) ==> argument_of(*v) == Some(a@),
        r is Err ==> argument_of(*v) is None,
{
    match v {
        YamlValue::Mapping(es) => {
            let mut acc = ArgumentValues { default_value: None, by_subtree: Vec::new() };
            let slash = "/".to_owned();
            let ghost init = ArgumentView { default_value: None, by_subtree: seq![] };
            assert(pair_views(acc.by_subtree@) =~= seq![]);
            assert(es@.subrange(0, 0) =~= Seq::<(YamlValue, YamlValue)>::empty());
            let mut i: usize = 0;
            while i < es.len()
                invariant
                    i <= es@.len(),
                    slash@ == "/"@,
                    fold_opt(es@.subrange(0, i as int), init, argument_stepper()) == Some(acc@),
                    init == (ArgumentView { default_value: None, by_subtree: seq![] }),
                    argument_of(*v) == argument_entries(es@),
                decreases es.len() - i,
            {
                assert(es@.subrange(0, i + 1).drop_last() =~= es@.subrange(0, i as int));
                let k = scalar_text(&es[i].0);
                let x = scalar_text(&es[i].1);
                match (k, x) {
                    (Some(k), Some(x)) => {
                        if k == slash {
                            if acc.default_value.is_some() {
                                proof {
                                    lemma_fold_fails(es@, init, argument_stepper(), i + 1);
                                }
                                return Err(config_error("an argument has two defaults"));
                            }
                            acc.default_value = Some(x);
                        } else {
                            let found = has_entry_named(&acc.by_subtree, &k);
                            assert(has_name(pair_views(acc.by_subtree@), k@) == found) by {
                                if found {
                                    let j = choose|j: int|
                                        0 <= j < acc.by_subtree@.len() && (
                                        #[trigger] acc.by_subtree@[j]).0@ == k@;
                                    assert(pair_views(acc.by_subtree@)[j].0 == k@);
                                }
                                if has_name(pair_views(acc.by_subtree@), k@) {
                                    let j = choose|j: int|
                                        0 <= j < pair_views(acc.by_subtree@).len() && (
                                        #[trigger] pair_views(acc.by_subtree@)[j]).0 == k@;
                                    assert(acc.by_subtree@[j].0@ == k@);
                                }
                            }
                            if found {
                                proof {
                                    lemma_fold_fails(es@, init, argument_stepper(), i + 1);
                                }
                                return Err(config_error("an argument sets a path twice"));
                            }
                            let ghost before = acc.by_subtree@;
                            acc.by_subtree.push((k, x));
                            assert(pair_views(acc.by_subtree@) =~= pair_views(before).push(
                                (k@, x@),
                            ));
                        }
                    },
                    _ => {
                        proof {
                            lemma_fold_fails(es@, init, argument_stepper(), i + 1);
                        }

                        return Err(config_error("an argument value must be a scalar"));
                    },
                }
                i = i + 1;
            }
            assert(es@.subrange(0, es@.len() as int) =~= es@);
            Ok(acc)
        },
        _ => match scalar_text(v) {
            Some(x) => {
                let a = ArgumentValues { default_value: Some(x), by_subtree: Vec::new() };
                assert(pair_views(a.by_subtree@) =~= seq![]);
                Ok(a)
            },
            None => Err(config_error("an argument value must be a scalar or a mapping")),
        },
    }
}

/// The arguments of a rule; absent or null is none.
fn arguments_value(v: Option<&YamlValue>) -> (r: Result<Vec<(String, ArgumentValues)>, ConfigError>)
    ensures
        r matches Ok(l) ==> arguments_of(deref(v)) == Some(named_arguments(l@)),
        r is Err ==> arguments_of(deref(v)) is None,
{
    match v {
        None => {
            let r: Vec<(String, ArgumentValues)> = Vec::new();
            assert(named_arguments(r@) =~= seq![]);
            Ok(r)
        },
        Some(YamlValue::Null) => {
            let r: Vec<(String, ArgumentValues)> = Vec::new();
            assert(named_arguments(r@) =~= seq![]);
            Ok(r)
        },
        Some(YamlValue::Mapping(es)) => {
            let mut out: Vec<(String, ArgumentValues)> = Vec::new();
            assert(named_arguments(out@) =~= seq![]);
            assert(es@.subrange(0, 0) =~= Seq::<(YamlValue, YamlValue)>::empty());
            let mut i: usize = 0;
            while i < es.len()
                invariant
                    i <= es@.len(),
                    fold_opt(es@.subrange(0, i as int), seq![], arguments_stepper()) == Some(
                        named_arguments(out@),
                    ),
                    arguments_of(deref(v)) == arguments_in(es@),
                decreases es.len() - i,
            {
                assert(es@.subrange(0, i + 1).drop_last() =~= es@.subrange(0, i as int));
                let a = argument_value(&es[i].1);
                match (&es[i].0, a) {
                    (YamlValue::String(name), Ok(a)) => {
                        let found = has_entry_named(&out, name);
                        assert(has_name(named_arguments(out@), name@) == found) by {
                            if found {
                                let k = choose|k: int| 0 <= k < out@.len() && (#[trigger] out@[k]).0@
                                    == name@;
                                assert(named_arguments(out@)[k].0 == name@);
                            }
                            if has_name(named_arguments(out@), name@) {
                                let k = choose|k: int|
                                    0 <= k < named_arguments(out@).len() && (
                                    #[trigger] named_arguments(out@)[k]).0 == name@;
                                assert(out@[k].0@ == name@);
                            }
                        }
                        if found {
                            proof {
                                lemma_fold_fails(es@, seq![], arguments_stepper(), i + 1);
                            }
                            return Err(config_error("found a repeated argument"));
                        }
                        let ghost before = out@;
                        out.push((name.clone(), a));
                        assert(named_arguments(out@) =~= named_arguments(before).push(
                            (name@, a@),
                        ));
                    },
                    _ => {
                        proof {
                            lemma_fold_fails(es@, seq![], arguments_stepper(), i + 1);
                        }
                        return Err(config_error("invalid argument"));
                    },
                }
                i = i + 1;
            }
            assert(es@.subrange(0, es@.len() as int) =~= es@);
            Ok(out)
        },
        Some(_) => Err(config_error("arguments must be a mapping")),
    }
}

/// The configuration of a rule; null is the default one.
fn rule_value(v: &YamlValue) -> (r: Result<RuleConfig, ConfigError>)
    ensures
        r matches Ok(c) ==> rule_of(*v) == Some(c@),
        r is Err ==> rule_of(*v) is None,
{
    match v {
        YamlValue::Null => {
            let c = RuleConfig {
                paths: PathConfig { only: None, ignore: Vec::new() },
                arguments: Vec::new(),
            };
            assert(string_views(c.paths.ignore@) =~= seq![]);
            assert(named_arguments(c.arguments@) =~= seq![]);
            Ok(c)
        },
        YamlValue::Mapping(es) => {
            let paths = paths_value(es.as_slice());
            let arguments = arguments_value(entry_value(es.as_slice(), "arguments"));
            match (paths, arguments) {
                (Ok(paths), Ok(arguments)) => Ok(RuleConfig { paths, arguments }),
                (Err(e), _) => Err(e),
                (_, Err(e)) => Err(e),
            }
        },
        _ => Err(config_error("a rule configuration must be a mapping")),
    }
}

/// Whether `l` has an entry named `name`.
fn has_entry_named<V>(l: &Vec<(String, V)>, name: &String) -> (r: bool)
    ensures
        r == exists|i: int| 0 <= i < l@.len() && (#[trigger] l@[i]).0@ == name@,
{
    let mut i: usize = 0;
    while i < l.len()
        invariant
            i <= l@.len(),
            forall|j: int| 0 <= j < i ==> (#[trigger] l@[j]).0@ != name@,
        decreases l.len() - i,
    {
        if l[i].0 == *name {
            assert(l@[i as int].0@ == name@);
            return true;
        }
        i = i + 1;
    }
    false
}

/// The rules of a ruleset: a mapping; absent or null is none. A repeated
/// rule name fails.
fn rules_value(v: Option<&YamlValue>) -> (r: Result<Vec<(String, RuleConfig)>, ConfigError>)
    ensures
        r matches Ok(l) ==> rules_of(deref(v)) == Some(named_rules(l@)),
        r is Err ==> rules_of(deref(v)) is None,
{
    match v {
        None => {
            let r: Vec<(String, RuleConfig)> = Vec::new();
            assert(named_rules(r@) =~= seq![]);
            Ok(r)
        },
        Some(YamlValue::Null) => {
            let r: Vec<(String, RuleConfig)> = Vec::new();
            assert(named_rules(r@) =~= seq![]);
            Ok(r)
        },
        Some(YamlValue::Mapping(es)) => {
            let mut out: Vec<(String, RuleConfig)> = Vec::new();
            assert(named_rules(out@) =~= seq![]);
            assert(es@.subrange(0, 0) =~= Seq::<(YamlValue, YamlValue)>::empty());
            let mut i: usize = 0;
            while i < es.len()
                invariant
                    i <= es@.len(),
                    fold_opt(es@.subrange(0, i as int), seq![], rules_stepper()) == Some(
                        named_rules(out@),
                    ),
                    rules_of(deref(v)) == rules_in(es@),
                decreases es.len() - i,
            {
                assert(es@.subrange(0, i + 1).drop_last() =~= es@.subrange(0, i as int));
                let rc = rule_value(&es[i].1);
                match (&es[i].0, rc) {
                    (YamlValue::String(name), Ok(rc)) => {
                        let found = has_entry_named(&out, name);
                        assert(has_name(named_rules(out@), name@) == found) by {
                            if found {
                                let k = choose|k: int| 0 <= k < out@.len() && (#[trigger] out@[k]).0@
                                    == name@;
                                assert(named_rules(out@)[k].0 == name@);
                            }
                            if has_name(named_rules(out@), name@) {
                                let k = choose|k: int|
                                    0 <= k < named_rules(out@).len() && (#[trigger] named_rules(
                                        out@,
                                    )[k]).0 == name@;
                                assert(out@[k].0@ == name@);
                            }
                        }
                        if found {
                            proof {
                                lemma_fold_fails(es@, seq![], rules_stepper(), i + 1);
                            }
                            return Err(config_error("found a repeated rule"));
                        }
                        let ghost before = out@;
                        out.push((name.clone(), rc));
                        assert(named_rules(out@) =~= named_rules(before).push((name@, rc@)));
                    },
                    _ => {
                        proof {
                            lemma_fold_fails(es@, seq![], rules_stepper(), i + 1);
                        }
                        return Err(config_error("invalid rule"));
                    },
                }
                i = i + 1;
            }
            assert(es@.subrange(0, es@.len() as int) =~= es@);
            Ok(out)
        },
        Some(_) => Err(config_error("rules must be a mapping")),
    }
}

/// The configuration of a ruleset held by the entries of a mapping.
fn ruleset_from_entries(es: &[(YamlValue, YamlValue)]) -> (r: Result<RulesetConfig, ConfigError>)
    ensures
        r matches Ok(c) ==> ruleset_of_entries(es@) == Some(c@),
        r is Err ==> ruleset_of_entries(es@) is None,
{
    let paths = paths_value(es);
    let rules = rules_value(entry_value(es, "rules"));
    match (paths, rules) {
        (Ok(paths), Ok(rules)) => Ok(RulesetConfig { paths, rules }),
        (Err(e), _) => Err(e),
        (_, Err(e)) => Err(e),
    }
}

/// The default ruleset configuration.
fn default_ruleset() -> (r: RulesetConfig)
    ensures
        r@ == (RulesetView { paths: no_paths(), rules: seq![] }),
{
    let r = RulesetConfig { paths: PathConfig { only: None, ignore: Vec::new() }, rules: Vec::new() };
    assert(string_views(r.paths.ignore@) =~= seq![]);
    assert(named_rules(r.rules@) =~= seq![]);
    r
}

/// The configuration of a ruleset; null is the default one.
fn ruleset_value(v: &YamlValue) -> (r: Result<RulesetConfig, ConfigError>)
    ensures
        r matches Ok(c) ==> ruleset_of(*v) == Some(c@),
        r is Err ==> ruleset_of(*v) is None,
{
    match v {
        YamlValue::Null => Ok(default_ruleset()),
        YamlValue::Mapping(es) => ruleset_from_entries(es.as_slice()),
        _ => Err(config_error("a ruleset configuration must be a mapping")),
    }
}

/// An item of a list of rulesets: a name, or a mapping whose first key is
/// the name.
fn ruleset_item_value(v: &YamlValue) -> (r: Result<(String, RulesetConfig), ConfigError>)
    ensures
        r matches Ok(p) ==> ruleset_item(*v) == Some((p.0@, p.1@)),
        r is Err ==> ruleset_item(*v) is None,
{
    match v {
        YamlValue::String(name) => Ok((name.clone(), default_ruleset())),
        YamlValue::Mapping(es) => {
            if es.len() == 0 {
                return Err(config_error("a ruleset entry must name a ruleset"));
            }
            match &es[0].0 {
                YamlValue::String(name) => {
                    let cfg = if es.len() == 1 {
                        ruleset_value(&es[0].1)
                    } else if matches!(es[0].1, YamlValue::Null) {
                        let rest = vstd::slice::slice_subrange(es.as_slice(), 1, es.len());
                        assert(rest@ =~= es@.drop_first());
                        ruleset_from_entries(rest)
                    } else {
                        Err(config_error("a ruleset entry must name a ruleset"))
                    };
                    match cfg {
                        Ok(c) => Ok((name.clone(), c)),
                        Err(e) => Err(e),
                    }
                },
                _ => Err(config_error("a ruleset name must be a string")),
            }
        },
        _ => Err(config_error("a ruleset entry must be a name or a mapping")),
    }
}

/// A named ruleset of a mapping of rulesets.
fn ruleset_entry_value(e: &(YamlValue, YamlValue)) -> (r: Result<(String, RulesetConfig), ConfigError>)
    ensures
        r matches Ok(p) ==> ruleset_entry(*e) == Some((p.0@, p.1@)),
        r is Err ==> ruleset_entry(*e) is None,
{
    let cfg = ruleset_value(&e.1);
    match (&e.0, cfg) {
        (YamlValue::String(name), Ok(c)) => Ok((name.clone(), c)),
        (_, Err(err)) => Err(err),
        _ => Err(config_error("a ruleset name must be a string")),
    }
}

/// Adds a named ruleset to `out`; a repeated name fails.
fn push_ruleset(out: &mut Vec<(String, RulesetConfig)>, item: Result<(String, RulesetConfig), ConfigError>) -> (r: Result<(), ConfigError>)
    ensures
        add_ruleset(
            named_rulesets(old(out)@),
            match item {
                Ok(p) => Some((p.0@, p.1@)),
                Err(_) => None,
            },
        ) == match r {
            Ok(_) => Some(named_rulesets(final(out)@)),
            Err(_) => None,
        },
{
    match item {
        Ok((name, rs)) => {
            let found = has_entry_named(out, &name);
            assert(has_name(named_rulesets(out@), name@) == found) by {
                if found {
                    let k = choose|k: int| 0 <= k < out@.len() && (#[trigger] out@[k]).0@ == name@;
                    assert(named_rulesets(out@)[k].0 == name@);
                }
                if has_name(named_rulesets(out@), name@) {
                    let k = choose|k: int|
                        0 <= k < named_rulesets(out@).len() && (#[trigger] named_rulesets(
                            out@,
                        )[k]).0 == name@;
                    assert(out@[k].0@ == name@);
                }
            }
            if found {
                return Err(config_error("found a repeated ruleset"));
            }
            let ghost before = out@;
            let ghost entry = (name@, rs@);
            out.push((name, rs));
            assert(named_rulesets(out@) =~= named_rulesets(before).push(entry));
            Ok(())
        },
        Err(e) => Err(e),
    }
}

/// The rulesets: a list or a mapping; they must be present.
fn rulesets_value(v: Option<&YamlValue>) -> (r: Result<Vec<(String, RulesetConfig)>, ConfigError>)
    ensures
        r matches Ok(l) ==> rulesets_of(deref(v)) == Some(named_rulesets(l@)),
        r is Err ==> rulesets_of(deref(v)) is None,
{
    let mut out: Vec<(String, RulesetConfig)> = Vec::new();
    assert(named_rulesets(out@) =~= seq![]);
    match v {
        Some(YamlValue::Sequence(items)) => {
            assert(items@.subrange(0, 0) =~= Seq::<YamlValue>::empty());
            let mut i: usize = 0;
            while i < items.len()
                invariant
                    i <= items@.len(),
                    fold_opt(items@.subrange(0, i as int), seq![], ruleset_item_stepper()) == Some(
                        named_rulesets(out@),
                    ),
                    rulesets_of(deref(v)) == rulesets_in_list(items@),
                decreases items.len() - i,
            {
                assert(items@.subrange(0, i + 1).drop_last() =~= items@.subrange(0, i as int));
                let item = ruleset_item_value(&items[i]);
                match push_ruleset(&mut out, item) {
                    Ok(()) => {},
                    Err(e) => {
                        proof {
                            lemma_fold_fails(items@, seq![], ruleset_item_stepper(), i + 1);
                        }
                        return Err(e);
                    },
                }
                i = i + 1;
            }
            assert(items@.subrange(0, items@.len() as int) =~= items@);
            Ok(out)
        },
        Some(YamlValue::Mapping(es)) => {
            assert(es@.subrange(0, 0) =~= Seq::<(YamlValue, YamlValue)>::empty());
            let mut i: usize = 0;
            while i < es.len()
                invariant
                    i <= es@.len(),
                    fold_opt(es@.subrange(0, i as int), seq![], ruleset_entry_stepper()) == Some(
                        named_rulesets(out@),
                    ),
                    rulesets_of(deref(v)) == rulesets_in_map(es@),
                decreases es.len() - i,
            {
                assert(es@.subrange(0, i + 1).drop_last() =~= es@.subrange(0, i as int));
                let item = ruleset_entry_value(&es[i]);
                match push_ruleset(&mut out, item) {
                    Ok(()) => {},
                    Err(e) => {
                        proof {
                            lemma_fold_fails(es@, seq![], ruleset_entry_stepper(), i + 1);
                        }
                        return Err(e);
                    },
                }
                i = i + 1;
            }
            assert(es@.subrange(0, es@.len() as int) =~= es@);
            Ok(out)
        },
        _ => Err(config_error("the configuration must list its rulesets")),
    }
}

/// `ignore-gitignore`: a boolean; absent or null is unset.
fn flag_value(v: Option<&YamlValue>) -> (r: Result<Option<bool>, ConfigError>)
    ensures
        r matches Ok(f) ==> flag_of(deref(v)) == Some(f),
        r is Err ==> flag_of(deref(v)) is None,
{
    match v {
        None => Ok(None),
        Some(YamlValue::Null) => Ok(None),
        Some(YamlValue::Bool(b)) => Ok(Some(*b)),
        Some(_) => Err(config_error("ignore-gitignore must be a boolean")),
    }
}

/// `max-file-size-kb`: an unsigned integer; absent or null is unset.
fn size_value(v: Option<&YamlValue>) -> (r: Result<Option<u64>, ConfigError>)
    ensures
        r matches Ok(n) ==> size_of(deref(v)) == Some(n),
        r is Err ==> size_of(deref(v)) is None,
{
    match v {
        None => Ok(None),
        Some(YamlValue::Null) => Ok(None),
        Some(YamlValue::Number { text: _, unsigned: Some(n) }) => Ok(Some(*n)),
        Some(_) => Err(config_error("max-file-size-kb must be an unsigned integer")),
    }
}

/// Reads the configuration that a YAML document holds. It fails exactly
/// where the document is not a valid configuration: see the module's
/// description.
pub fn config_from_yaml(doc: &YamlValue) -> (r: Result<ConfigFile, ConfigError>)
    ensures
        r matches Ok(c) ==> config_of(*doc) == Some(c@),
        r is Err ==> config_of(*doc) is None,
{
    match doc {
        YamlValue::Mapping(es) => {
            let es = es.as_slice();
            let rulesets = rulesets_value(entry_value(es, "rulesets"));
            let paths = paths_value(es);
            let extra = strings_value(entry_value(es, "ignore-paths"));
            let ignore_gitignore = flag_value(entry_value(es, "ignore-gitignore"));
            let max_file_size_kb = size_value(entry_value(es, "max-file-size-kb"));
            match (rulesets, paths, extra, ignore_gitignore, max_file_size_kb) {
                (Ok(rulesets), Ok(paths), Ok(mut extra), Ok(ignore_gitignore), Ok(max_file_size_kb)) => {
                    let PathConfig { only, mut ignore } = paths;
                    let ghost before = ignore@;
                    let ghost added = extra@;
                    ignore.append(&mut extra);
                    assert(string_views(ignore@) =~= string_views(before) + string_views(added));
                    Ok(ConfigFile {
                        rulesets,
                        paths: PathConfig { only, ignore },
                        ignore_gitignore,
                        max_file_size_kb,
                    })
                },
                (Err(e), _, _, _, _) => Err(e),
                (_, Err(e), _, _, _) => Err(e),
                (_, _, Err(e), _, _) => Err(e),
                (_, _, _, Err(e), _) => Err(e),
                (_, _, _, _, Err(e)) => Err(e),
            }
        },
        _ => Err(config_error("the configuration must be a mapping")),
    }
}

/// Whether the names of `l` are pairwise distinct.
pub open spec fn names_unique<V>(l: Seq<(Seq<char>, V)>) -> bool {
    forall|i: int, j: int| 0 <= i < j < l.len() ==> (#[trigger] l[i]).0 != (#[trigger] l[j]).0
}

/// Adding a ruleset keeps the names distinct.
proof fn lemma_add_ruleset_unique(
    acc: Seq<(Seq<char>, RulesetView)>,
    item: Option<(Seq<char>, RulesetView)>,
)
    requires
        names_unique(acc),
        add_ruleset(acc, item) is Some,
    ensures
        names_unique(add_ruleset(acc, item)->0),
{
    let (name, r) = item->0;
    let out = acc.push((name, r));
    assert forall|i: int, j: int| 0 <= i < j < out.len() implies (#[trigger] out[i]).0 != (
    #[trigger] out[j]).0 by {
        if j == acc.len() {
            if out[i].0 == name {
                assert(acc[i].0 == name);
            }
        } else {
            assert(out[i] == acc[i] && out[j] == acc[j]);
        }
    }
}

/// A list of rulesets that reads has distinct names.
proof fn lemma_list_unique(items: Seq<YamlValue>)
    requires
        rulesets_in_list(items) is Some,
    ensures
        names_unique(rulesets_in_list(items)->0),
    decreases items.len(),
{
    if items.len() > 0 {
        lemma_list_unique(items.drop_last());
        lemma_add_ruleset_unique(rulesets_in_list(items.drop_last())->0, ruleset_item(items.last()));
    }
}

/// A mapping of rulesets that reads has distinct names.
proof fn lemma_map_unique(es: Seq<(YamlValue, YamlValue)>)
    requires
        rulesets_in_map(es) is Some,
    ensures
        names_unique(rulesets_in_map(es)->0),
    decreases es.len(),
{
    if es.len() > 0 {
        lemma_map_unique(es.drop_last());
        lemma_add_ruleset_unique(rulesets_in_map(es.drop_last())->0, ruleset_entry(es.last()));
    }
}

/// Ruleset names are unique: a document that reads as a configuration names
/// each ruleset once.
pub proof fn lemma_ruleset_names_unique(doc: YamlValue)
    requires
        config_of(doc) is Some,
    ensures
        names_unique(config_of(doc)->0.rulesets),
{
    if let YamlValue::Mapping(es) = doc {
        match value_at(es@, "rulesets"@) {
            Some(YamlValue::Sequence(items)) => lemma_list_unique(items@),
            Some(YamlValue::Mapping(m)) => lemma_map_unique(m@),
            _ => {},
        }
    }
}

} // verus!
