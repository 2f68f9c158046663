//! In-source suppression directives (`no-dd-sa`, `datadog-disable`).
//!
//! A directive on the first line of a file applies to the whole file; on any
//! other line it applies to the line below it. A directive may name the rules
//! it silences (`ruleset/rule`); without names it silences every rule.
use crate::language::Language;
use crate::text::{
    chars_contain, chars_of, char_vec_views, occurs_at, split_state, white_space, lines_of, occurs_in,
    remove_white_space, replace_all, replace_chars, split_lines, split_words, string_of,
    string_views, without_white_space, words_of,
};
use std::collections::HashMap;
use vstd::prelude::*;

verus! {

broadcast use vstd::std_specs::hash::group_hash_axioms;

/// How suppression applies to a whole file.
#[derive(Debug, Clone, PartialEq, Eq)]
pub enum FileIgnoreBehavior {
    /// Every rule is silenced in the file.
    AllRules,
    /// The listed rules are silenced in the file.
    SomeRules(Vec<String>),
}

/// The suppressions declared by a source file.
#[derive(Debug, Clone)]
pub struct LinesToIgnore {
    /// Lines on which every rule is silenced, in the order declared.
    pub lines_to_ignore: Vec<u32>,
    /// For a line, the rules silenced on it.
    pub lines_to_ignore_per_rule: HashMap<u32, Vec<String>>,
    /// Suppression for the whole file.
    pub ignore_file: FileIgnoreBehavior,
}

/// The mathematical content of a [`LinesToIgnore`].
pub struct Suppressions {
    /// Every rule is silenced in the whole file.
    pub ignore_all: bool,
    /// Rules silenced in the whole file (empty when every rule is).
    pub file_rules: Seq<Seq<char>>,
    /// Lines on which every rule is silenced, in the order declared.
    pub lines: Seq<u32>,
    /// For a line, the rules silenced on it.
    pub per_rule: Map<u32, Seq<Seq<char>>>,
}

impl View for LinesToIgnore {
    type V = Suppressions;

    open spec fn view(&self) -> Suppressions {
        Suppressions {
            ignore_all: self.ignore_file is AllRules,
            file_rules: match self.ignore_file {
                FileIgnoreBehavior::AllRules => Seq::empty(),
                FileIgnoreBehavior::SomeRules(v) => string_views(v@),
            },
            lines: self.lines_to_ignore@,
            per_rule: self.lines_to_ignore_per_rule@.map_values(|v: Vec<String>| string_views(v@)),
        }
    }
}

/// Whether a violation of `rule` reported on `line` is silenced.
pub open spec fn filters(s: Suppressions, rule: Seq<char>, line: u32) -> bool {
    ||| s.ignore_all
    ||| s.file_rules.contains(rule)
    ||| s.lines.contains(line)
    ||| (s.per_rule.contains_key(line) && s.per_rule[line].contains(rule))
}

/// The directive markers of a language, compared against a line with its
/// white space removed.
pub open spec fn disabling_patterns(language: Language) -> Seq<Seq<char>> {
    match language {
        Language::Python
        | Language::Starlark
        | Language::Dockerfile
        | Language::Ruby
        | Language::Terraform
        | Language::Yaml
        | Language::Bash => seq!["#no-dd-sa"@, "#datadog-disable"@],
        Language::JavaScript | Language::TypeScript => seq![
            "//no-dd-sa"@,
            "/*no-dd-sa"@,
            "//datadog-disable"@,
            "/*datadog-disable"@,
        ],
        Language::Go
        | Language::Rust
        | Language::Csharp
        | Language::Java
        | Language::Kotlin
        | Language::Swift => seq!["//no-dd-sa"@, "//datadog-disable"@],
        Language::Json => seq!["impossiblestringtoreach"@],
        Language::PHP => seq![
            "//no-dd-sa"@,
            "/*no-dd-sa"@,
            "//datadog-disable"@,
            "/*datadog-disable"@,
            "#no-dd-sa"@,
            "#datadog-disable"@,
        ],
    }
}

/// A directive line with the comment and directive syntax taken out, and
/// commas turned into spaces.
pub open spec fn directive_text(line: Seq<char>) -> Seq<char> {
    replace_all(
        replace_all(
            replace_all(
                replace_all(
                    replace_all(
                        replace_all(
                            replace_all(replace_all(line, "//"@, ""@), "/*"@, ""@),
                            "*/"@,
                            ""@,
                        ),
                        "#"@,
                        ""@,
                    ),
                    "no-dd-sa"@,
                    ""@,
                ),
                "datadog-disable"@,
                ""@,
            ),
            ":"@,
            ""@,
        ),
        ","@,
        " "@,
    )
}

/// The words of `ws` that hold a `/`, in order.
pub open spec fn qualified(ws: Seq<Seq<char>>) -> Seq<Seq<char>>
    decreases ws.len(),
{
    if ws.len() == 0 {
        ws
    } else if ws.last().contains('/') {
        qualified(ws.drop_last()).push(ws.last())
    } else {
        qualified(ws.drop_last())
    }
}

/// The rule identifiers (`ruleset/rule`) that a directive line names.
pub open spec fn rule_ids(line: Seq<char>) -> Seq<Seq<char>> {
    qualified(words_of(directive_text(line)))
}

/// No suppression at all.
pub open spec fn no_suppressions() -> Suppressions {
    Suppressions { ignore_all: false, file_rules: seq![], lines: seq![], per_rule: Map::empty() }
}

/// The effect of one directive on line `n` naming `ids`.
pub open spec fn mark(s: Suppressions, n: u32, ids: Seq<Seq<char>>) -> Suppressions {
    if ids.len() == 0 {
        if n == 1 {
            Suppressions { ignore_all: true, ..s }
        } else {
            Suppressions { lines: s.lines.push((n + 1) as u32), ..s }
        }
    } else if n == 1 {
        Suppressions { file_rules: s.file_rules + ids, ..s }
    } else {
        Suppressions { per_rule: s.per_rule.insert((n + 1) as u32, ids), ..s }
    }
}

/// The effect of line `n`: one directive for each marker of `patterns` that
/// the line, without white space, holds.
pub open spec fn mark_line(
    s: Suppressions,
    n: u32,
    line: Seq<char>,
    patterns: Seq<Seq<char>>,
) -> Suppressions
    decreases patterns.len(),
{
    if patterns.len() == 0 {
        s
    } else {
        let before = mark_line(s, n, line, patterns.drop_last());
        if occurs_in(without_white_space(line), patterns.last()) {
            mark(before, n, rule_ids(line))
        } else {
            before
        }
    }
}

/// The suppressions declared by `lines`, numbered from 1.
pub open spec fn scan_lines(lines: Seq<Seq<char>>, patterns: Seq<Seq<char>>) -> Suppressions
    decreases lines.len(),
{
    if lines.len() == 0 {
        no_suppressions()
    } else {
        mark_line(
            scan_lines(lines.drop_last(), patterns),
            lines.len() as u32,
            lines.last(),
            patterns,
        )
    }
}

/// The suppressions declared by `code`. Once the whole file is silenced, the
/// rules named on its first line no longer matter.
pub open spec fn suppressions_of(code: Seq<char>, language: Language) -> Suppressions {
    let s = scan_lines(lines_of(code), disabling_patterns(language));
    if s.ignore_all {
        Suppressions { file_rules: seq![], ..s }
    } else {
        s
    }
}

/// The markers of `language`, as characters.
fn pattern_chars(language: Language) -> (r: Vec<Vec<char>>)
    ensures
        char_vec_views(r@) == disabling_patterns(language),
{
    let r = match language {
        Language::Python
        | Language::Starlark
        | Language::Dockerfile
        | Language::Ruby
        | Language::Terraform
        | Language::Yaml
        | Language::Bash => vec![chars_of("#no-dd-sa"), chars_of("#datadog-disable")],
        Language::JavaScript | Language::TypeScript => vec![
            chars_of("//no-dd-sa"),
            chars_of("/*no-dd-sa"),
            chars_of("//datadog-disable"),
            chars_of("/*datadog-disable"),
        ],
        Language::Go
        | Language::Rust
        | Language::Csharp
        | Language::Java
        | Language::Kotlin
        | Language::Swift => vec![chars_of("//no-dd-sa"), chars_of("//datadog-disable")],
        Language::Json => vec![chars_of("impossiblestringtoreach")],
        Language::PHP => vec![
            chars_of("//no-dd-sa"),
            chars_of("/*no-dd-sa"),
            chars_of("//datadog-disable"),
            chars_of("/*datadog-disable"),
            chars_of("#no-dd-sa"),
            chars_of("#datadog-disable"),
        ],
    };
    assert(char_vec_views(r@) =~= disabling_patterns(language));
    r
}

/// Whether `w` holds a `/`.
fn has_slash(w: &Vec<char>) -> (r: bool)
    ensures
        r == w@.contains('/'),
{
    let mut i: usize = 0;
    while i < w.len()
        invariant
            i <= w@.len(),
            forall|k: int| 0 <= k < i ==> w@[k] != '/',
        decreases w.len() - i,
    {
        if w[i] == '/' {
            assert(w@[i as int] == '/');
            return true;
        }
        i = i + 1;
    }
    false
}

/// Removes every occurrence of `from` from `s`.
fn remove_all(s: &Vec<char>, from: &str) -> (r: Vec<char>)
    requires
        from@.len() > 0,
    ensures
        r@ == replace_all(s@, from@, ""@),
{
    let f = chars_of(from);
    let e = chars_of("");
    proof {
        reveal_strlit("");
    }
    replace_chars(s, f.as_slice(), e.as_slice())
}

/// The rule identifiers (`ruleset/rule`) that a directive line names.
pub fn directive_rule_ids(line: &Vec<char>) -> (r: Vec<String>)
    ensures
        string_views(r@) == rule_ids(line@),
{
    proof {
        reveal_strlit("//");
        reveal_strlit("/*");
        reveal_strlit("*/");
        reveal_strlit("#");
        reveal_strlit("no-dd-sa");
        reveal_strlit("datadog-disable");
        reveal_strlit(":");
        reveal_strlit(",");
    }
    let t = remove_all(line, "//");
    let t = remove_all(&t, "/*");
    let t = remove_all(&t, "*/");
    let t = remove_all(&t, "#");
    let t = remove_all(&t, "no-dd-sa");
    let t = remove_all(&t, "datadog-disable");
    let t = remove_all(&t, ":");
    let comma = chars_of(",");
    let space = chars_of(" ");
    let t = replace_chars(&t, comma.as_slice(), space.as_slice());
    assert(t@ == directive_text(line@));
    let words = split_words(&t);
    let mut out: Vec<String> = Vec::new();
    let mut i: usize = 0;
    while i < words.len()
        invariant
            i <= words@.len(),
            char_vec_views(words@) == words_of(directive_text(line@)),
            string_views(out@) == qualified(char_vec_views(words@).subrange(0, i as int)),
        decreases words.len() - i,
    {
        let ghost ws = char_vec_views(words@);
        assert(ws.subrange(0, i + 1).drop_last() =~= ws.subrange(0, i as int));
        assert(ws.subrange(0, i + 1).last() == words@[i as int]@);
        if has_slash(&words[i]) {
            let ghost before = out@;
            out.push(string_of(words[i].as_slice()));
            assert(string_views(out@) =~= string_views(before).push(words@[i as int]@));
        }
        i = i + 1;
    }
    assert(char_vec_views(words@).subrange(0, words@.len() as int) =~= char_vec_views(words@));
    out
}

/// The content of the scan's running state.
spec fn state_view(
    ignore_all: bool,
    file_rules: Seq<String>,
    lines: Seq<u32>,
    per_rule: Map<u32, Vec<String>>,
) -> Suppressions {
    Suppressions {
        ignore_all,
        file_rules: string_views(file_rules),
        lines,
        per_rule: per_rule.map_values(|v: Vec<String>| string_views(v@)),
    }
}

/// Reads the suppression directives of `code`.
///
/// Each line is compared, without its white space, against the markers of
/// `language`; each marker that it holds counts as one directive. A directive
/// naming no rule on line 1 silences the whole file, and elsewhere the next
/// line; one naming rules adds them to the file's list on line 1, and
/// elsewhere sets the list of the next line.
pub fn get_lines_to_ignore(code: &str, language: &Language) -> (r: LinesToIgnore)
    requires
        lines_of(code@).len() < u32::MAX,
    ensures
        r@ == suppressions_of(code@, *language),
{
    let chars = chars_of(code);
    let lines = split_lines(&chars);
    let patterns = pattern_chars(*language);
    let ghost ls = char_vec_views(lines@);
    let ghost pats = char_vec_views(patterns@);
    let mut ignore_all = false;
    let mut file_rules: Vec<String> = Vec::new();
    let mut all_lines: Vec<u32> = Vec::new();
    let mut per_rule: HashMap<u32, Vec<String>> = HashMap::new();
    let mut k: usize = 0;
    proof {
        assert(string_views(file_rules@) =~= Seq::<Seq<char>>::empty());
        assert(all_lines@ =~= Seq::<u32>::empty());
        assert(per_rule@.map_values(|v: Vec<String>| string_views(v@)) =~= Map::<
            u32,
            Seq<Seq<char>>,
        >::empty());
    }
    while k < lines.len()
        invariant
            k <= lines@.len(),
            lines@.len() < u32::MAX,
            ls == char_vec_views(lines@),
            pats == char_vec_views(patterns@),
            state_view(ignore_all, file_rules@, all_lines@, per_rule@) == scan_lines(
                ls.subrange(0, k as int),
                pats,
            ),
        decreases lines.len() - k,
    {
        let n: u32 = (k + 1) as u32;
        let line = &lines[k];
        let stripped = remove_white_space(line);
        let ghost before = scan_lines(ls.subrange(0, k as int), pats);
        let mut j: usize = 0;
        assert(pats.subrange(0, 0) =~= Seq::<Seq<char>>::empty());
        while j < patterns.len()
            invariant
                j <= patterns@.len(),
                pats == char_vec_views(patterns@),
                n as int == k + 1,
                n < u32::MAX,
                stripped@ == without_white_space(line@),
                state_view(ignore_all, file_rules@, all_lines@, per_rule@) == mark_line(
                    before,
                    n,
                    line@,
                    pats.subrange(0, j as int),
                ),
            decreases patterns.len() - j,
        {
            assert(pats.subrange(0, j + 1).drop_last() =~= pats.subrange(0, j as int));
            assert(pats.subrange(0, j + 1).last() == patterns@[j as int]@);
            let ghost cur = state_view(ignore_all, file_rules@, all_lines@, per_rule@);
            if chars_contain(stripped.as_slice(), patterns[j].as_slice()) {
                let mut ids = directive_rule_ids(line);
                let ghost ids_view = string_views(ids@);
                if ids.len() == 0 {
                    if n == 1 {
                        ignore_all = true;
                        assert(state_view(ignore_all, file_rules@, all_lines@, per_rule@) =~= mark(
                            cur,
                            n,
                            ids_view,
                        ));
                    } else {
                        all_lines.push(n + 1);
                        assert(state_view(ignore_all, file_rules@, all_lines@, per_rule@) =~= mark(
                            cur,
                            n,
                            ids_view,
                        ));
                    }
                } else if n == 1 {
                    let ghost old_rules = file_rules@;
                    file_rules.append(&mut ids);
                    assert(string_views(file_rules@) =~= string_views(old_rules) + ids_view);
                    assert(state_view(ignore_all, file_rules@, all_lines@, per_rule@) =~= mark(
                        cur,
                        n,
                        ids_view,
                    ));
                } else {
                    let ghost old_map = per_rule@;
                    per_rule.insert(n + 1, ids);
                    assert(per_rule@.map_values(|v: Vec<String>| string_views(v@)) =~= old_map.map_values(
                        |v: Vec<String>| string_views(v@),
                    ).insert((n + 1) as u32, ids_view));
                    assert(state_view(ignore_all, file_rules@, all_lines@, per_rule@) =~= mark(
                        cur,
                        n,
                        ids_view,
                    ));
                }
            }
            j = j + 1;
        }
        assert(pats.subrange(0, patterns@.len() as int) =~= pats);
        assert(ls.subrange(0, k + 1).drop_last() =~= ls.subrange(0, k as int));
        assert(ls.subrange(0, k + 1).last() == line@);
        k = k + 1;
    }
    assert(ls.subrange(0, lines@.len() as int) =~= ls);
    let ignore_file = if ignore_all {
        FileIgnoreBehavior::AllRules
    } else {
        FileIgnoreBehavior::SomeRules(file_rules)
    };
    let r = LinesToIgnore {
        lines_to_ignore: all_lines,
        lines_to_ignore_per_rule: per_rule,
        ignore_file,
    };
    assert(r@ =~= suppressions_of(code@, *language));
    r
}

/// Whether `s` is among `v`.
fn contains_string(v: &Vec<String>, s: &String) -> (r: bool)
    ensures
        r == string_views(v@).contains(s@),
{
    let mut i: usize = 0;
    while i < v.len()
        invariant
            i <= v@.len(),
            forall|k: int| 0 <= k < i ==> v@[k]@ != s@,
        decreases v.len() - i,
    {
        if v[i] == *s {
            assert(string_views(v@)[i as int] == s@);
            return true;
        }
        i = i + 1;
    }
    false
}

/// Whether `x` is among `v`.
fn contains_line(v: &Vec<u32>, x: u32) -> (r: bool)
    ensures
        r == v@.contains(x),
{
    let mut i: usize = 0;
    while i < v.len()
        invariant
            i <= v@.len(),
            forall|k: int| 0 <= k < i ==> v@[k] != x,
        decreases v.len() - i,
    {
        if v[i] == x {
            return true;
        }
        i = i + 1;
    }
    false
}

impl LinesToIgnore {
    /// Whether a violation of `rule` reported on `line` is silenced: the whole
    /// file is silenced, or `rule` is silenced in the whole file, or every
    /// rule is silenced on `line`, or `rule` is among those silenced on
    /// `line`.
    pub fn should_filter_rule(&self, rule: &str, line: u32) -> (r: bool)
        ensures
            r == filters(self@, rule@, line),
    {
        let rule = rule.to_owned();
        match &self.ignore_file {
            FileIgnoreBehavior::AllRules => {
                return true;
            },
            FileIgnoreBehavior::SomeRules(rules) => {
                if contains_string(rules, &rule) {
                    return true;
                }
            },
        }
        if contains_line(&self.lines_to_ignore, line) {
            return true;
        }
        match self.lines_to_ignore_per_rule.get(&line) {
            Some(rules) => contains_string(rules, &rule),
            None => false,
        }
    }
}

/// Once set, silencing the whole file stays set through a line.
proof fn lemma_mark_line_keeps_ignore_all(
    s: Suppressions,
    n: u32,
    line: Seq<char>,
    patterns: Seq<Seq<char>>,
)
    requires
        s.ignore_all,
    ensures
        mark_line(s, n, line, patterns).ignore_all,
    decreases patterns.len(),
{
    if patterns.len() > 0 {
        lemma_mark_line_keeps_ignore_all(s, n, line, patterns.drop_last());
    }
}

/// A first line that holds a marker and names no rule silences the whole file.
proof fn lemma_bare_first_line(s: Suppressions, line: Seq<char>, patterns: Seq<Seq<char>>, i: int)
    requires
        0 <= i < patterns.len(),
        occurs_in(without_white_space(line), patterns[i]),
        rule_ids(line).len() == 0,
    ensures
        mark_line(s, 1, line, patterns).ignore_all,
    decreases patterns.len(),
{
    if i < patterns.len() - 1 {
        lemma_bare_first_line(s, line, patterns.drop_last(), i);
    }
}

/// Silencing by the first line survives the lines after it.
proof fn lemma_scan_keeps_first_line(lines: Seq<Seq<char>>, patterns: Seq<Seq<char>>, i: int)
    requires
        lines.len() > 0,
        0 <= i < patterns.len(),
        occurs_in(without_white_space(lines[0]), patterns[i]),
        rule_ids(lines[0]).len() == 0,
    ensures
        scan_lines(lines, patterns).ignore_all,
    decreases lines.len(),
{
    if lines.len() == 1 {
        lemma_bare_first_line(no_suppressions(), lines[0], patterns, i);
        assert(scan_lines(lines.drop_last(), patterns) == no_suppressions());
        assert(scan_lines(lines, patterns) == mark_line(no_suppressions(), 1, lines[0], patterns));
    } else {
        assert(lines.drop_last()[0] == lines[0]);
        lemma_scan_keeps_first_line(lines.drop_last(), patterns, i);
        lemma_mark_line_keeps_ignore_all(
            scan_lines(lines.drop_last(), patterns),
            lines.len() as u32,
            lines.last(),
            patterns,
        );
    }
}

/// A file whose first line holds a marker of its language and names no rule
/// is silenced as a whole: every violation of every rule on every line is
/// filtered.
pub proof fn lemma_bare_first_line_silences_file(
    code: Seq<char>,
    language: Language,
    marker: Seq<char>,
    rule: Seq<char>,
    line: u32,
)
    requires
        lines_of(code).len() > 0,
        disabling_patterns(language).contains(marker),
        occurs_in(without_white_space(lines_of(code)[0]), marker),
        rule_ids(lines_of(code)[0]).len() == 0,
    ensures
        suppressions_of(code, language).ignore_all,
        filters(suppressions_of(code, language), rule, line),
{
    let pats = disabling_patterns(language);
    let i = choose|i: int| 0 <= i < pats.len() && pats[i] == marker;
    lemma_scan_keeps_first_line(lines_of(code), pats, i);
}

/// Removing white space from a text that has none changes nothing.
proof fn lemma_no_white_space_kept(s: Seq<char>)
    requires
        forall|i: int| 0 <= i < s.len() ==> !white_space(#[trigger] s[i]),
    ensures
        without_white_space(s) == s,
    decreases s.len(),
{
    if s.len() > 0 {
        lemma_no_white_space_kept(s.drop_last());
        assert(s.drop_last().push(s.last()) =~= s);
    }
}

/// Replacing brings in no character that neither the text nor the
/// replacement holds.
proof fn lemma_replace_brings_nothing(s: Seq<char>, from: Seq<char>, to: Seq<char>, c: char)
    requires
        !s.contains(c),
        !to.contains(c),
    ensures
        !replace_all(s, from, to).contains(c),
    decreases s.len(),
{
    if s.len() > 0 && from.len() > 0 {
        let r = replace_all(s, from, to);
        if occurs_at(s, from, 0) {
            let rest = s.subrange(from.len() as int, s.len() as int);
            assert(!rest.contains(c)) by {
                if rest.contains(c) {
                    let i = choose|i: int| 0 <= i < rest.len() && rest[i] == c;
                    assert(s[i + from.len()] == c);
                }
            }
            lemma_replace_brings_nothing(rest, from, to, c);
            let t = replace_all(rest, from, to);
            assert(r == to + t);
            if r.contains(c) {
                let i = choose|i: int| 0 <= i < r.len() && r[i] == c;
                if i < to.len() {
                    assert(to[i] == c);
                } else {
                    assert(t[i - to.len()] == c);
                }
            }
        } else {
            let rest = s.drop_first();
            assert(!rest.contains(c)) by {
                if rest.contains(c) {
                    let i = choose|i: int| 0 <= i < rest.len() && rest[i] == c;
                    assert(s[i + 1] == c);
                }
            }
            lemma_replace_brings_nothing(rest, from, to, c);
            let t = replace_all(rest, from, to);
            assert(r == seq![s[0]] + t);
            if r.contains(c) {
                let i = choose|i: int| 0 <= i < r.len() && r[i] == c;
                if i == 0 {
                    assert(s[0] == c);
                } else {
                    assert(t[i - 1] == c);
                }
            }
        }
    }
}

/// The words of a text, and the word in progress, hold only its characters.
proof fn lemma_words_bring_nothing(s: Seq<char>, c: char)
    requires
        !s.contains(c),
    ensures
        forall|i: int|
            0 <= i < split_state(s).0.len() ==> !(#[trigger] split_state(s).0[i]).contains(c),
        !split_state(s).1.contains(c),
    decreases s.len(),
{
    if s.len() > 0 {
        let p = s.drop_last();
        assert(!p.contains(c)) by {
            if p.contains(c) {
                let i = choose|i: int| 0 <= i < p.len() && p[i] == c;
                assert(s[i] == c);
            }
        }
        lemma_words_bring_nothing(p, c);
        let (words, cur) = split_state(p);
        assert(s.last() != c) by {
            assert(s[s.len() - 1] == s.last());
        }
        if !white_space(s.last()) {
            let cur2 = cur.push(s.last());
            if cur2.contains(c) {
                let i = choose|i: int| 0 <= i < cur2.len() && cur2[i] == c;
                if i < cur.len() {
                    assert(cur[i] == c);
                }
            }
        } else if cur.len() > 0 {
            let words2 = words.push(cur);
            assert forall|i: int| 0 <= i < words2.len() implies !(#[trigger] words2[i]).contains(c) by {
                if i < words.len() {
                    assert(words2[i] == words[i]);
                }
            }
        }
    }
}

/// Words without `/` give no rule identifier.
proof fn lemma_no_slash_no_ids(ws: Seq<Seq<char>>)
    requires
        forall|i: int| 0 <= i < ws.len() ==> !(#[trigger] ws[i]).contains('/'),
    ensures
        qualified(ws).len() == 0,
    decreases ws.len(),
{
    if ws.len() > 0 {
        assert(ws.last() == ws[ws.len() - 1]);
        lemma_no_slash_no_ids(ws.drop_last());
    }
}

/// A directive line without `/` names no rule.
pub proof fn lemma_slashless_line_names_no_rule(line: Seq<char>)
    requires
        !line.contains('/'),
    ensures
        rule_ids(line).len() == 0,
{
    reveal_strlit("");
    reveal_strlit(" ");
    assert(!""@.contains('/'));
    assert(!" "@.contains('/')) by {
        assert(" "@[0] == ' ');
    }
    let t1 = replace_all(line, "//"@, ""@);
    lemma_replace_brings_nothing(line, "//"@, ""@, '/');
    let t2 = replace_all(t1, "/*"@, ""@);
    lemma_replace_brings_nothing(t1, "/*"@, ""@, '/');
    let t3 = replace_all(t2, "*/"@, ""@);
    lemma_replace_brings_nothing(t2, "*/"@, ""@, '/');
    let t4 = replace_all(t3, "#"@, ""@);
    lemma_replace_brings_nothing(t3, "#"@, ""@, '/');
    let t5 = replace_all(t4, "no-dd-sa"@, ""@);
    lemma_replace_brings_nothing(t4, "no-dd-sa"@, ""@, '/');
    let t6 = replace_all(t5, "datadog-disable"@, ""@);
    lemma_replace_brings_nothing(t5, "datadog-disable"@, ""@, '/');
    let t7 = replace_all(t6, ":"@, ""@);
    lemma_replace_brings_nothing(t6, ":"@, ""@, '/');
    let t8 = replace_all(t7, ","@, " "@);
    lemma_replace_brings_nothing(t7, ","@, " "@, '/');
    assert(t8 == directive_text(line));
    lemma_words_bring_nothing(t8, '/');
    let (words, cur) = split_state(t8);
    let ws = words_of(t8);
    assert forall|i: int| 0 <= i < ws.len() implies !(#[trigger] ws[i]).contains('/') by {
        if cur.len() > 0 && i == words.len() {
            assert(ws[i] == cur);
        } else {
            assert(ws[i] == words[i]);
        }
    }
    lemma_no_slash_no_ids(ws);
}

/// A file whose first line is `#no-dd-sa`, in a language with that marker,
/// is silenced as a whole: every violation of every rule on every line is
/// filtered.
pub proof fn lemma_no_dd_sa_first_line_silences_file(
    code: Seq<char>,
    language: Language,
    rule: Seq<char>,
    line: u32,
)
    requires
        lines_of(code).len() > 0,
        lines_of(code)[0] == "#no-dd-sa"@,
        disabling_patterns(language).contains("#no-dd-sa"@),
    ensures
        suppressions_of(code, language).ignore_all,
        filters(suppressions_of(code, language), rule, line),
{
    let l = "#no-dd-sa"@;
    reveal_strlit("#no-dd-sa");
    assert forall|i: int| 0 <= i < l.len() implies !white_space(#[trigger] l[i]) by {}
    lemma_no_white_space_kept(l);
    assert(l.subrange(0, l.len() as int) =~= l);
    assert(occurs_at(without_white_space(l), l, 0));
    assert(!l.contains('/'));
    lemma_slashless_line_names_no_rule(l);
    lemma_bare_first_line_silences_file(code, language, l, rule, line);
}

} // verus!
