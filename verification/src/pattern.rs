//! Pattern rules and matching: a rule is a plain prefix, or a prefix/suffix
//! pair written in a rule line with a literal `...` between the two parts.
//! Rules are matched against the hexadecimal form of an address, the part
//! after the leading `0x`.

use vstd::prelude::*;

verus! {

/// Whether `s` starts with `p`.
pub open spec fn starts_with(s: Seq<char>, p: Seq<char>) -> bool {
    p.len() <= s.len() && s.subrange(0, p.len() as int) == p
}

/// Whether `s` ends with `p`.
pub open spec fn ends_with(s: Seq<char>, p: Seq<char>) -> bool {
    p.len() <= s.len() && s.subrange(s.len() - p.len(), s.len() as int) == p
}

/// The hexadecimal form of an address: the part after the leading `0x`, or
/// the whole sequence when there is no such prefix.
pub open spec fn hex_form(a: Seq<char>) -> Seq<char> {
    if starts_with(a, seq!['0', 'x']) {
        a.skip(2)
    } else {
        a
    }
}

/// The mathematical form of a pattern rule.
pub enum RuleView {
    /// Match addresses whose hexadecimal form starts with the given prefix.
    Prefix(Seq<char>),
    /// Match addresses whose hexadecimal form starts with the first part and
    /// ends with the second.
    Pair(Seq<char>, Seq<char>),
}

/// A pattern rule loaded from one rule line.
pub enum Rule {
    /// A plain prefix rule.
    Prefix(String),
    /// A prefix/suffix pair rule, split on the literal `...`.
    Pair(String, String),
}

impl View for Rule {
    type V = RuleView;

    open spec fn view(&self) -> RuleView {
        match self {
            Rule::Prefix(p) => RuleView::Prefix(p@),
            Rule::Pair(p, s) => RuleView::Pair(p@, s@),
        }
    }
}

/// The views of a sequence of rules.
pub open spec fn views_of(rules: Seq<Rule>) -> Seq<RuleView> {
    rules.map_values(|r: Rule| r@)
}

/// Whether a rule matches an address.
pub open spec fn rule_matches(r: RuleView, a: Seq<char>) -> bool {
    match r {
        RuleView::Prefix(p) => starts_with(hex_form(a), p),
        RuleView::Pair(p, s) => starts_with(hex_form(a), p) && ends_with(hex_form(a), s),
    }
}

/// The index of the first rule that matches the address, if any.
pub open spec fn first_match_index(a: Seq<char>, rules: Seq<RuleView>) -> Option<int>
    decreases rules.len(),
{
    if rules.len() == 0 {
        None
    } else if rule_matches(rules[0], a) {
        Some(0int)
    } else {
        match first_match_index(a, rules.drop_first()) {
            None => None,
            Some(i) => Some(i + 1),
        }
    }
}

/// `first_match_index` returns the least index of a matching rule, and
/// `None` exactly when no rule matches.
pub proof fn lemma_first_match_index(a: Seq<char>, rules: Seq<RuleView>)
    ensures
        match first_match_index(a, rules) {
            Some(i) => 0 <= i < rules.len() && rule_matches(rules[i], a) && (forall|j: int|
                0 <= j < i ==> !rule_matches(rules[j], a)),
            None => forall|j: int| 0 <= j < rules.len() ==> !rule_matches(#[trigger] rules[j], a),
        },
    decreases rules.len(),
{
    if rules.len() > 0 && !rule_matches(rules[0], a) {
        let rest = rules.drop_first();
        lemma_first_match_index(a, rest);
        match first_match_index(a, rest) {
            None => {
                assert forall|j: int| 0 <= j < rules.len() implies !rule_matches(
                    #[trigger] rules[j],
                    a,
                ) by {
                    if j > 0 {
                        assert(rules[j] == rest[j - 1]);
                    }
                }
            },
            Some(i) => {
                assert(rules[i + 1] == rest[i]);
                assert forall|j: int| 0 <= j < i + 1 implies !rule_matches(
                    #[trigger] rules[j],
                    a,
                ) by {
                    if j > 0 {
                        assert(rules[j] == rest[j - 1]);
                    }
                }
            },
        }
    }
}

/// An empty rule set never matches any address.
pub proof fn lemma_empty_rules_never_match(a: Seq<char>)
    ensures
        first_match_index(a, Seq::<RuleView>::empty()) is None,
{
}

/// Whether the three characters of `s` from `i` are the splitter `...`.
pub open spec fn splitter_at(s: Seq<char>, i: int) -> bool {
    0 <= i <= s.len() - 3 && s.subrange(i, i + 3) == seq!['.', '.', '.']
}

/// The index of the leftmost occurrence of the splitter `...` in `s`, if any.
pub open spec fn find_splitter(s: Seq<char>) -> Option<int>
    decreases s.len(),
{
    if s.len() < 3 {
        None
    } else if s.subrange(0, 3) == seq!['.', '.', '.'] {
        Some(0int)
    } else {
        match find_splitter(s.drop_first()) {
            None => None,
            Some(i) => Some(i + 1),
        }
    }
}

/// `find_splitter` returns the least index at which the splitter occurs, and
/// `None` exactly when it occurs nowhere.
pub proof fn lemma_find_splitter(s: Seq<char>)
    ensures
        match find_splitter(s) {
            Some(i) => splitter_at(s, i) && (forall|j: int| 0 <= j < i ==> !splitter_at(s, j)),
            None => forall|j: int| !splitter_at(s, j),
        },
    decreases s.len(),
{
    if s.len() < 3 {
    } else if s.subrange(0, 3) == seq!['.', '.', '.'] {
    } else {
        let rest = s.drop_first();
        lemma_find_splitter(rest);
        assert forall|j: int| 0 <= j <= s.len() - 3 - 1 implies (splitter_at(rest, j) <==>
        splitter_at(s, j + 1)) by {
            assert(rest.subrange(j, j + 3) =~= s.subrange(j + 1, j + 4));
        }
        match find_splitter(rest) {
            None => {
                assert forall|j: int| !splitter_at(s, j) by {
                    if 1 <= j <= s.len() - 3 {
                        assert(!splitter_at(rest, j - 1));
                    }
                }
            },
            Some(i) => {
                assert(splitter_at(s, i + 1));
                assert forall|j: int| 0 <= j < i + 1 implies !splitter_at(s, j) by {
                    if j >= 1 {
                        assert(!splitter_at(rest, j - 1));
                    }
                }
            },
        }
    }
}

/// The rule denoted by one rule line: a blank line denotes no rule; a line
/// with exactly one way to split on the literal `...` denotes a prefix/suffix
/// pair; a line with several occurrences of `...` is malformed and denotes no
/// rule; any other line denotes a plain prefix.
pub open spec fn spec_parse_rule(line: Seq<char>) -> Option<RuleView> {
    match find_splitter(line) {
        None => if line.len() == 0 {
            None
        } else {
            Some(RuleView::Prefix(line))
        },
        Some(i) => {
            let suffix = line.skip(i + 3);
            if find_splitter(suffix) is Some {
                None
            } else {
                Some(RuleView::Pair(line.subrange(0, i), suffix))
            }
        },
    }
}

/// The index of the leftmost occurrence of the splitter `...` in `s`.
pub fn find_splitter_index(s: &str) -> (r: Option<usize>)
    ensures
        match r {
            Some(i) => find_splitter(s@) == Some(i as int),
            None => find_splitter(s@) is None,
        },
{
    let n = s.unicode_len();
    if n < 3 {
        proof {
            lemma_find_splitter(s@);
            match find_splitter(s@) {
                Some(k) => {
                    assert(splitter_at(s@, k));
                },
                None => {},
            }
        }
        return None;
    }
    let mut i: usize = 0;
    while i <= n - 3
        invariant
            n == s@.len(),
            3 <= n,
            i <= n - 2,
            forall|j: int| 0 <= j < i ==> !splitter_at(s@, j),
        decreases n - i,
    {
        if s.get_char(i) == '.' && s.get_char(i + 1) == '.' && s.get_char(i + 2) == '.' {
            proof {
                assert(s@.subrange(i as int, i + 3) =~= seq!['.', '.', '.']);
                lemma_find_splitter(s@);
                match find_splitter(s@) {
                    None => {
                        assert(!splitter_at(s@, i as int));
                    },
                    Some(k) => {
                        if k < i {
                            assert(!splitter_at(s@, k));
                        }
                        if k > i {
                            assert(!splitter_at(s@, i as int));
                        }
                    },
                }
            }
            return Some(i);
        }
        proof {
            if splitter_at(s@, i as int) {
                let t = s@.subrange(i as int, i + 3);
                assert(s@[i as int] == t[0] && s@[i + 1] == t[1] && s@[i + 2] == t[2]);
            }
        }
        i = i + 1;
    }
    proof {
        lemma_find_splitter(s@);
        match find_splitter(s@) {
            Some(k) => {
                assert(splitter_at(s@, k));
            },
            None => {},
        }
    }
    None
}

/// Parses one rule line, returning `None` for a blank or malformed line.
pub fn parse_rule(line: &str) -> (r: Option<Rule>)
    ensures
        match r {
            Some(rule) => spec_parse_rule(line@) == Some(rule@),
            None => spec_parse_rule(line@) is None,
        },
{
    let n = line.unicode_len();
    match find_splitter_index(line) {
        None => {
            if n == 0 {
                None
            } else {
                Some(Rule::Prefix(String::from_str(line)))
            }
        },
        Some(i) => {
            proof {
                lemma_find_splitter(line@);
                assert(splitter_at(line@, i as int));
            }
            let suffix = line.substring_char(i + 3, n);
            proof {
                assert(suffix@ =~= line@.skip(i + 3));
            }
            match find_splitter_index(suffix) {
                Some(_) => None,
                None => {
                    let prefix = line.substring_char(0, i);
                    Some(Rule::Pair(String::from_str(prefix), String::from_str(suffix)))
                },
            }
        },
    }
}

/// The rules denoted by a sequence of rule lines, in order, with blank and
/// malformed lines ignored.
pub open spec fn spec_parse_rules(lines: Seq<Seq<char>>) -> Seq<RuleView>
    decreases lines.len(),
{
    if lines.len() == 0 {
        Seq::empty()
    } else {
        let init = spec_parse_rules(lines.drop_last());
        match spec_parse_rule(lines.last()) {
            None => init,
            Some(r) => init.push(r),
        }
    }
}

/// Parses a whole rule file, one rule line at a time, keeping the order of
/// the lines and ignoring blank and malformed lines.
pub fn parse_rules(lines: &Vec<String>) -> (r: Vec<Rule>)
    ensures
        views_of(r@) == spec_parse_rules(lines@.map_values(|l: String| l@)),
{
    let ghost line_views = lines@.map_values(|l: String| l@);
    let mut rules: Vec<Rule> = Vec::new();
    let mut i: usize = 0;
    while i < lines.len()
        invariant
            i <= lines.len(),
            line_views == lines@.map_values(|l: String| l@),
            line_views.len() == lines@.len(),
            views_of(rules@) == spec_parse_rules(line_views.take(i as int)),
        decreases lines.len() - i,
    {
        proof {
            assert(line_views.take(i + 1).drop_last() =~= line_views.take(i as int));
            assert(line_views.take(i + 1).last() == line_views[i as int]);
            assert(line_views[i as int] == lines@[i as int]@);
        }
        match parse_rule(lines[i].as_str()) {
            None => {},
            Some(rule) => {
                let ghost old_rules = rules@;
                rules.push(rule);
                proof {
                    assert(views_of(rules@) =~= views_of(old_rules).push(rule@));
                }
            },
        }
        i = i + 1;
    }
    proof {
        assert(line_views.take(lines@.len() as int) =~= line_views);
    }
    rules
}

/// Whether `s` starts with `p`, decided character by character.
pub fn str_starts_with(s: &str, p: &str) -> (r: bool)
    ensures
        r == starts_with(s@, p@),
{
    let n = s.unicode_len();
    let m = p.unicode_len();
    if m > n {
        return false;
    }
    let mut i: usize = 0;
    while i < m
        invariant
            i <= m <= n,
            n == s@.len(),
            m == p@.len(),
            forall|j: int| 0 <= j < i ==> s@[j] == p@[j],
        decreases m - i,
    {
        if s.get_char(i) != p.get_char(i) {
            proof {
                assert(s@.subrange(0, p@.len() as int)[i as int] == s@[i as int]);
            }
            return false;
        }
        i = i + 1;
    }
    proof {
        assert(s@.subrange(0, p@.len() as int) =~= p@);
    }
    true
}

/// Whether `s` ends with `p`, decided character by character.
pub fn str_ends_with(s: &str, p: &str) -> (r: bool)
    ensures
        r == ends_with(s@, p@),
{
    let n = s.unicode_len();
    let m = p.unicode_len();
    if m > n {
        return false;
    }
    let off = n - m;
    let mut i: usize = 0;
    while i < m
        invariant
            i <= m <= n,
            off == n - m,
            n == s@.len(),
            m == p@.len(),
            forall|j: int| 0 <= j < i ==> s@[off + j] == p@[j],
        decreases m - i,
    {
        if s.get_char(off + i) != p.get_char(i) {
            proof {
                assert(s@.subrange(s@.len() - p@.len(), s@.len() as int)[i as int]
                    == s@[off + i as int]);
            }
            return false;
        }
        i = i + 1;
    }
    proof {
        assert(s@.subrange(s@.len() - p@.len(), s@.len() as int) =~= p@);
    }
    true
}

/// The hexadecimal form of an address: the part after a leading `0x`.
pub fn address_hex_form<'a>(address: &'a str) -> (h: &'a str)
    ensures
        h@ == hex_form(address@),
{
    let n = address.unicode_len();
    if n >= 2 && address.get_char(0) == '0' && address.get_char(1) == 'x' {
        proof {
            assert(address@.subrange(0, 2) =~= seq!['0', 'x']);
        }
        let h = address.substring_char(2, n);
        proof {
            assert(h@ =~= address@.skip(2));
        }
        h
    } else {
        proof {
            if starts_with(address@, seq!['0', 'x']) {
                assert(address@.subrange(0, 2)[0] == address@[0]);
                assert(address@.subrange(0, 2)[1] == address@[1]);
            }
        }
        address
    }
}

/// Whether the rule matches the address.
pub fn rule_matches_address(rule: &Rule, address: &str) -> (r: bool)
    ensures
        r == rule_matches(rule@, address@),
{
    let h = address_hex_form(address);
    match rule {
        Rule::Prefix(p) => str_starts_with(h, p.as_str()),
        Rule::Pair(p, s) => str_starts_with(h, p.as_str()) && str_ends_with(h, s.as_str()),
    }
}

/// The index of the first rule in `rules` that matches `address`, or `None`
/// when no rule does. Later rules are not evaluated once one matches, so a
/// candidate matches at most once.
pub fn first_match(address: &str, rules: &Vec<Rule>) -> (r: Option<usize>)
    ensures
        match r {
            Some(i) => first_match_index(address@, views_of(rules@)) == Some(i as int),
            None => first_match_index(address@, views_of(rules@)) is None,
        },
        r matches Some(i) ==> i < rules.len() && rule_matches(rules@[i as int]@, address@)
            && (forall|j: int| 0 <= j < i ==> !rule_matches(#[trigger] rules@[j]@, address@)),
        r is None ==> forall|j: int|
            0 <= j < rules.len() ==> !rule_matches(#[trigger] rules@[j]@, address@),
{
    let mut i: usize = 0;
    while i < rules.len()
        invariant
            i <= rules.len(),
            forall|j: int| 0 <= j < i ==> !rule_matches(#[trigger] rules@[j]@, address@),
        decreases rules.len() - i,
    {
        if rule_matches_address(&rules[i], address) {
            proof {
                let views = views_of(rules@);
                lemma_first_match_index(address@, views);
                assert(views[i as int] == rules@[i as int]@);
                assert(forall|j: int| 0 <= j < views.len() ==> #[trigger] views[j] == rules@[j]@);
            }
            return Some(i);
        }
        i = i + 1;
    }
    proof {
        let views = views_of(rules@);
        lemma_first_match_index(address@, views);
        assert(forall|j: int| 0 <= j < views.len() ==> #[trigger] views[j] == rules@[j]@);
    }
    None
}

} // verus!
