//! Tenant rules: an ordered rule set, edited in the UI, compiled into a
//! ClickHouse expression at query time. First matching rule wins; unmatched
//! pods land in the "unassigned" tenant. Because assignment happens at query
//! time, rule changes apply retroactively to all historical data.

use vstd::prelude::*;
use crate::text::{chars_of, push_str, string_of};

verus! {

pub const UNASSIGNED: &'static str = "unassigned";

pub const MAX_RULES: usize = 200;

#[derive(Clone, Copy, Debug, PartialEq, Eq, Structural)]
pub enum MatcherType {
    /// namespace == match_value
    NamespaceExact,
    /// namespace matches the RE2 regex in match_value
    NamespaceRegex,
    /// namespace has label match_key (== match_value unless empty)
    NamespaceLabel,
    /// pod has label match_key (== match_value unless empty)
    PodLabel,
}

#[derive(Clone, Copy, Debug, PartialEq, Eq, Structural)]
pub enum TenantSource {
    /// tenant is the literal tenant_name
    Static,
    /// tenant is the value of the matched label (label matchers only)
    LabelValue,
}

pub struct TenantRule {
    pub matcher_type: MatcherType,
    pub match_key: String,
    pub match_value: String,
    pub tenant_source: TenantSource,
    pub tenant_name: String,
}

/// Why a rule set is refused.
#[derive(Clone, Copy, Debug, PartialEq, Eq, Structural)]
pub enum RuleError {
    /// A namespace matcher without a `match_value`.
    NamespaceMatcherNeedsValue,
    /// The `label_value` tenant source on a namespace matcher.
    LabelValueNeedsLabelMatcher,
    /// A label matcher without a `match_key`.
    LabelMatcherNeedsKey,
    /// The `static` tenant source without a `tenant_name`.
    StaticNeedsTenantName,
    /// More than `MAX_RULES` rules.
    TooManyRules,
}

impl RuleError {
    /// The message shown to the user.
    pub fn message(&self) -> (r: String)
        ensures
            r@ == match *self {
                RuleError::NamespaceMatcherNeedsValue => "namespace matcher needs a match_value"@,
                RuleError::LabelValueNeedsLabelMatcher => "label_value tenant source requires a label matcher"@,
                RuleError::LabelMatcherNeedsKey => "label matcher needs a match_key"@,
                RuleError::StaticNeedsTenantName => "static tenant source needs a tenant_name"@,
                RuleError::TooManyRules => "too many rules (max 200)"@,
            },
    {
        match self {
            RuleError::NamespaceMatcherNeedsValue => String::from_str(
                "namespace matcher needs a match_value",
            ),
            RuleError::LabelValueNeedsLabelMatcher => String::from_str(
                "label_value tenant source requires a label matcher",
            ),
            RuleError::LabelMatcherNeedsKey => String::from_str("label matcher needs a match_key"),
            RuleError::StaticNeedsTenantName => String::from_str(
                "static tenant source needs a tenant_name",
            ),
            RuleError::TooManyRules => String::from_str("too many rules (max 200)"),
        }
    }
}

// ---------------------------------------------------------------------------
// Quoting
// ---------------------------------------------------------------------------

/// How one character is written inside a single-quoted ClickHouse literal.
pub open spec fn escape_char(c: char) -> Seq<char> {
    if c == '\\' {
        seq!['\\', '\\']
    } else if c == '\'' {
        seq!['\\', '\'']
    } else {
        seq![c]
    }
}

/// The body of a single-quoted literal: backslashes doubled, quotes escaped.
pub open spec fn escape(s: Seq<char>) -> Seq<char>
    decreases s.len(),
{
    if s.len() == 0 {
        seq![]
    } else {
        escape(s.drop_last()) + escape_char(s.last())
    }
}

/// `s` as a single-quoted ClickHouse string literal.
pub open spec fn sql_quote_spec(s: Seq<char>) -> Seq<char> {
    seq!['\''] + escape(s) + seq!['\'']
}

/// Reads back the body of a literal: a backslash takes the next character literally.
pub open spec fn unescape(b: Seq<char>) -> Option<Seq<char>>
    decreases b.len(),
{
    if b.len() == 0 {
        Some(seq![])
    } else if b[0] == '\\' {
        if b.len() < 2 {
            None
        } else {
            match unescape(b.subrange(2, b.len() as int)) {
                Some(rest) => Some(seq![b[1]] + rest),
                None => None,
            }
        }
    } else if b[0] == '\'' {
        None
    } else {
        match unescape(b.drop_first()) {
            Some(rest) => Some(seq![b[0]] + rest),
            None => None,
        }
    }
}

/// Reads a whole single-quoted literal back.
pub open spec fn unquote(q: Seq<char>) -> Option<Seq<char>> {
    if q.len() >= 2 && q[0] == '\'' && q.last() == '\'' {
        unescape(q.subrange(1, q.len() - 1))
    } else {
        None
    }
}

/// Escaping from the front: the escape of `c` followed by the escape of the rest.
pub proof fn lemma_escape_cons(c: char, s: Seq<char>)
    ensures
        escape(seq![c] + s) == escape_char(c) + escape(s),
    decreases s.len(),
{
    if s.len() == 0 {
        assert(seq![c] + s =~= seq![c]);
        assert(seq![c].drop_last() =~= Seq::<char>::empty());
        assert(escape_char(c) + escape(s) =~= escape_char(c));
        assert(escape(seq![c]) =~= escape(Seq::<char>::empty()) + escape_char(c));
    } else {
        assert((seq![c] + s).drop_last() =~= seq![c] + s.drop_last());
        lemma_escape_cons(c, s.drop_last());
        assert((seq![c] + s).last() == s.last());
        assert(escape(seq![c] + s) =~= escape_char(c) + escape(s));
    }
}

/// Unescaping undoes escaping.
pub proof fn lemma_unescape_escape(s: Seq<char>)
    ensures
        unescape(escape(s)) == Some(s),
    decreases s.len(),
{
    if s.len() == 0 {
    } else {
        let c = s[0];
        let rest = s.drop_first();
        assert(s =~= seq![c] + rest);
        lemma_escape_cons(c, rest);
        lemma_unescape_escape(rest);
        let e = escape(s);
        if c == '\\' || c == '\'' {
            assert(e.subrange(2, e.len() as int) =~= escape(rest));
        } else {
            assert(e.drop_first() =~= escape(rest));
        }
        assert(seq![c] + rest =~= s);
    }
}

/// Reading the literal that `sql_quote` writes gives back the quoted
/// string, whatever it holds: user text never ends the literal early.
pub proof fn law_sql_quote_round_trip(s: Seq<char>)
    ensures
        unquote(sql_quote_spec(s)) == Some(s),
{
    let q = sql_quote_spec(s);
    assert(q.subrange(1, q.len() - 1) =~= escape(s));
    lemma_unescape_escape(s);
}

/// Escapes a string for embedding in a single-quoted ClickHouse literal.
pub fn push_quoted(out: &mut Vec<char>, s: &str)
    ensures
        final(out)@ == old(out)@ + sql_quote_spec(s@),
{
    let chars = chars_of(s);
    out.push('\'');
    let ghost start = out@;
    let mut i: usize = 0;
    while i < chars.len()
        invariant
            i <= chars@.len(),
            chars@ == s@,
            out@ == start + escape(chars@.subrange(0, i as int)),
        decreases chars.len() - i,
    {
        let c = chars[i];
        if c == '\\' {
            out.push('\\');
            out.push('\\');
        } else if c == '\'' {
            out.push('\\');
            out.push('\'');
        } else {
            out.push(c);
        }
        assert(chars@.subrange(0, i + 1).drop_last() =~= chars@.subrange(0, i as int));
        assert(out@ =~= start + escape(chars@.subrange(0, i + 1)));
        i += 1;
    }
    out.push('\'');
    assert(chars@.subrange(0, chars@.len() as int) =~= s@);
    assert(out@ =~= old(out)@ + sql_quote_spec(s@));
}

/// Escapes a string for embedding in a single-quoted ClickHouse literal.
pub fn sql_quote(s: &str) -> (q: String)
    ensures
        q@ == sql_quote_spec(s@),
{
    let mut out: Vec<char> = Vec::new();
    push_quoted(&mut out, s);
    assert(out@ =~= sql_quote_spec(s@));
    string_of(&out)
}

// ---------------------------------------------------------------------------
// Rules
// ---------------------------------------------------------------------------

/// The `static` source needs a tenant name.
pub open spec fn source_check(r: TenantRule) -> Result<(), RuleError> {
    if r.tenant_source == TenantSource::Static && r.tenant_name@.len() == 0 {
        Err(RuleError::StaticNeedsTenantName)
    } else {
        Ok(())
    }
}

/// What `validate` returns.
pub open spec fn validate_spec(r: TenantRule) -> Result<(), RuleError> {
    match r.matcher_type {
        MatcherType::NamespaceExact | MatcherType::NamespaceRegex => if r.match_value@.len() == 0 {
            Err(RuleError::NamespaceMatcherNeedsValue)
        } else if r.tenant_source == TenantSource::LabelValue {
            Err(RuleError::LabelValueNeedsLabelMatcher)
        } else {
            source_check(r)
        },
        MatcherType::NamespaceLabel | MatcherType::PodLabel => if r.match_key@.len() == 0 {
            Err(RuleError::LabelMatcherNeedsKey)
        } else {
            source_check(r)
        },
    }
}

/// The condition of a rule's `multiIf` branch.
pub open spec fn condition_spec(r: TenantRule, ns_labels: Seq<char>, pod_labels: Seq<char>) -> Seq<
    char,
> {
    match r.matcher_type {
        MatcherType::NamespaceExact => "namespace = "@ + sql_quote_spec(r.match_value@),
        MatcherType::NamespaceRegex => "match(namespace, "@ + sql_quote_spec(r.match_value@) + ")"@,
        MatcherType::NamespaceLabel => if r.match_value@.len() == 0 {
            "mapContains("@ + ns_labels + ", "@ + sql_quote_spec(r.match_key@) + ")"@
        } else {
            ns_labels + "["@ + sql_quote_spec(r.match_key@) + "] = "@ + sql_quote_spec(
                r.match_value@,
            )
        },
        MatcherType::PodLabel => if r.match_value@.len() == 0 {
            "mapContains("@ + pod_labels + ", "@ + sql_quote_spec(r.match_key@) + ")"@
        } else {
            pod_labels + "["@ + sql_quote_spec(r.match_key@) + "] = "@ + sql_quote_spec(
                r.match_value@,
            )
        },
    }
}

/// The tenant value of a rule's `multiIf` branch.
pub open spec fn value_spec(r: TenantRule, ns_labels: Seq<char>, pod_labels: Seq<char>) -> Seq<char> {
    match r.tenant_source {
        TenantSource::Static => sql_quote_spec(r.tenant_name@),
        TenantSource::LabelValue => match r.matcher_type {
            MatcherType::NamespaceLabel => ns_labels + "["@ + sql_quote_spec(r.match_key@) + "]"@,
            _ => pod_labels + "["@ + sql_quote_spec(r.match_key@) + "]"@,
        },
    }
}

impl TenantRule {
    pub fn validate(&self) -> (r: Result<(), RuleError>)
        ensures
            r == validate_spec(*self),
    {
        match self.matcher_type {
            MatcherType::NamespaceExact | MatcherType::NamespaceRegex => {
                if self.match_value.as_str().is_empty() {
                    return Err(RuleError::NamespaceMatcherNeedsValue);
                }
                if self.tenant_source == TenantSource::LabelValue {
                    return Err(RuleError::LabelValueNeedsLabelMatcher);
                }
            },
            MatcherType::NamespaceLabel | MatcherType::PodLabel => {
                if self.match_key.as_str().is_empty() {
                    return Err(RuleError::LabelMatcherNeedsKey);
                }
            },
        }
        if self.tenant_source == TenantSource::Static && self.tenant_name.as_str().is_empty() {
            return Err(RuleError::StaticNeedsTenantName);
        }
        Ok(())
    }

    /// Appends the condition of this rule's branch.
    fn push_condition(&self, out: &mut Vec<char>, ns_labels: &str, pod_labels: &str)
        ensures
            final(out)@ == old(out)@ + condition_spec(*self, ns_labels@, pod_labels@),
    {
        match self.matcher_type {
            MatcherType::NamespaceExact => {
                push_str(out, "namespace = ");
                push_quoted(out, self.match_value.as_str());
            },
            MatcherType::NamespaceRegex => {
                push_str(out, "match(namespace, ");
                push_quoted(out, self.match_value.as_str());
                push_str(out, ")");
            },
            MatcherType::NamespaceLabel | MatcherType::PodLabel => {
                let labels = if self.matcher_type == MatcherType::NamespaceLabel {
                    ns_labels
                } else {
                    pod_labels
                };
                if self.match_value.as_str().is_empty() {
                    push_str(out, "mapContains(");
                    push_str(out, labels);
                    push_str(out, ", ");
                    push_quoted(out, self.match_key.as_str());
                    push_str(out, ")");
                } else {
                    push_str(out, labels);
                    push_str(out, "[");
                    push_quoted(out, self.match_key.as_str());
                    push_str(out, "] = ");
                    push_quoted(out, self.match_value.as_str());
                }
            },
        }
        assert(final(out)@ =~= old(out)@ + condition_spec(*self, ns_labels@, pod_labels@));
    }

    /// Appends the tenant value of this rule's branch.
    fn push_value(&self, out: &mut Vec<char>, ns_labels: &str, pod_labels: &str)
        ensures
            final(out)@ == old(out)@ + value_spec(*self, ns_labels@, pod_labels@),
    {
        match self.tenant_source {
            TenantSource::Static => {
                push_quoted(out, self.tenant_name.as_str());
            },
            TenantSource::LabelValue => {
                let labels = if self.matcher_type == MatcherType::NamespaceLabel {
                    ns_labels
                } else {
                    pod_labels
                };
                push_str(out, labels);
                push_str(out, "[");
                push_quoted(out, self.match_key.as_str());
                push_str(out, "]");
            },
        }
        assert(final(out)@ =~= old(out)@ + value_spec(*self, ns_labels@, pod_labels@));
    }

    /// (condition, value) pair for the multiIf chain. `ns_labels` / `pod_labels`
    /// are the SQL expressions holding the label maps.
    pub fn compile(&self, ns_labels: &str, pod_labels: &str) -> (r: (String, String))
        ensures
            r.0@ == condition_spec(*self, ns_labels@, pod_labels@),
            r.1@ == value_spec(*self, ns_labels@, pod_labels@),
    {
        let mut cond: Vec<char> = Vec::new();
        self.push_condition(&mut cond, ns_labels, pod_labels);
        let mut value: Vec<char> = Vec::new();
        self.push_value(&mut value, ns_labels, pod_labels);
        assert(cond@ =~= condition_spec(*self, ns_labels@, pod_labels@));
        assert(value@ =~= value_spec(*self, ns_labels@, pod_labels@));
        (string_of(&cond), string_of(&value))
    }
}

/// The first error among the rules, in order, if any.
pub open spec fn first_invalid(rules: Seq<TenantRule>) -> Option<RuleError>
    decreases rules.len(),
{
    if rules.len() == 0 {
        None
    } else {
        match validate_spec(rules[0]) {
            Err(e) => Some(e),
            Ok(_) => first_invalid(rules.drop_first()),
        }
    }
}

/// The `multiIf` branches of the rules, in order: `cond, value, ` for each.
pub open spec fn branches(rules: Seq<TenantRule>, ns_labels: Seq<char>, pod_labels: Seq<char>) -> Seq<
    char,
>
    decreases rules.len(),
{
    if rules.len() == 0 {
        seq![]
    } else {
        branches(rules.drop_last(), ns_labels, pod_labels) + condition_spec(
            rules.last(),
            ns_labels,
            pod_labels,
        ) + ", "@ + value_spec(rules.last(), ns_labels, pod_labels) + ", "@
    }
}

/// What `compile_rules` returns: refused when there are more than
/// `MAX_RULES` rules or a rule is invalid (the first invalid rule's error);
/// otherwise `'unassigned'` for no rules, or a `multiIf` with one branch per
/// rule in order and `'unassigned'` as the default.
pub open spec fn compile_rules_spec(
    rules: Seq<TenantRule>,
    ns_labels: Seq<char>,
    pod_labels: Seq<char>,
) -> Result<Seq<char>, RuleError> {
    if rules.len() > MAX_RULES {
        Err(RuleError::TooManyRules)
    } else {
        match first_invalid(rules) {
            Some(e) => Err(e),
            None => if rules.len() == 0 {
                Ok(sql_quote_spec(UNASSIGNED@))
            } else {
                Ok(
                    "multiIf("@ + branches(rules, ns_labels, pod_labels) + sql_quote_spec(
                        UNASSIGNED@,
                    ) + ")"@,
                )
            },
        }
    }
}

pub proof fn lemma_first_invalid_prefix(rules: Seq<TenantRule>, i: int)
    requires
        0 <= i < rules.len(),
        forall|k: int| 0 <= k < i ==> validate_spec(#[trigger] rules[k]) is Ok,
    ensures
        first_invalid(rules) == first_invalid(rules.subrange(i, rules.len() as int)),
    decreases i,
{
    if i > 0 {
        let rest = rules.drop_first();
        assert(validate_spec(rules[0]) is Ok);
        assert forall|k: int| 0 <= k < i - 1 implies validate_spec(#[trigger] rest[k]) is Ok by {
            assert(rest[k] == rules[k + 1]);
        }
        lemma_first_invalid_prefix(rest, i - 1);
        assert(rest.subrange(i - 1, rest.len() as int) =~= rules.subrange(i, rules.len() as int));
    } else {
        assert(rules.subrange(0, rules.len() as int) =~= rules);
    }
}

pub proof fn lemma_first_invalid_none(rules: Seq<TenantRule>)
    requires
        forall|k: int| 0 <= k < rules.len() ==> validate_spec(#[trigger] rules[k]) is Ok,
    ensures
        first_invalid(rules) is None,
    decreases rules.len(),
{
    if rules.len() > 0 {
        let rest = rules.drop_first();
        assert(validate_spec(rules[0]) is Ok);
        assert forall|k: int| 0 <= k < rest.len() implies validate_spec(#[trigger] rest[k]) is Ok by {
            assert(rest[k] == rules[k + 1]);
        }
        lemma_first_invalid_none(rest);
    }
}

/// Compiles the ordered rule set into a single ClickHouse expression yielding
/// the tenant name.
pub fn compile_rules(rules: &[TenantRule], ns_labels: &str, pod_labels: &str) -> (r: Result<
    String,
    RuleError,
>)
    ensures
        match compile_rules_spec(rules@, ns_labels@, pod_labels@) {
            Ok(s) => r matches Ok(x) && x@ == s,
            Err(e) => r == Err::<String, RuleError>(e),
        },
{
    if rules.len() > MAX_RULES {
        return Err(RuleError::TooManyRules);
    }
    let mut i: usize = 0;
    while i < rules.len()
        invariant
            i <= rules@.len(),
            rules@.len() <= MAX_RULES,
            forall|k: int| 0 <= k < i ==> validate_spec(#[trigger] rules@[k]) is Ok,
        decreases rules.len() - i,
    {
        match rules[i].validate() {
            Err(e) => {
                proof {
                    lemma_first_invalid_prefix(rules@, i as int);
                    let sub = rules@.subrange(i as int, rules@.len() as int);
                    assert(sub[0] == rules@[i as int]);
                    assert(validate_spec(sub[0]) == Err::<(), RuleError>(e));
                    assert(first_invalid(sub) == Some(e));
                    assert(first_invalid(rules@) == Some(e));
                }
                return Err(e);
            },
            Ok(()) => {},
        }
        i += 1;
    }
    proof {
        lemma_first_invalid_none(rules@);
    }
    if rules.len() == 0 {
        return Ok(sql_quote(UNASSIGNED));
    }
    let mut out: Vec<char> = Vec::new();
    push_str(&mut out, "multiIf(");
    let ghost start = out@;
    let mut j: usize = 0;
    while j < rules.len()
        invariant
            j <= rules@.len(),
            out@ == start + branches(rules@.subrange(0, j as int), ns_labels@, pod_labels@),
        decreases rules.len() - j,
    {
        rules[j].push_condition(&mut out, ns_labels, pod_labels);
        push_str(&mut out, ", ");
        rules[j].push_value(&mut out, ns_labels, pod_labels);
        push_str(&mut out, ", ");
        proof {
            let pre = rules@.subrange(0, j + 1);
            assert(pre.drop_last() =~= rules@.subrange(0, j as int));
            assert(pre.last() == rules@[j as int]);
        }
        assert(out@ =~= start + branches(rules@.subrange(0, j + 1), ns_labels@, pod_labels@));
        j += 1;
    }
    assert(rules@.subrange(0, rules@.len() as int) =~= rules@);
    push_quoted(&mut out, UNASSIGNED);
    push_str(&mut out, ")");
    assert(out@ =~= "multiIf("@ + branches(rules@, ns_labels@, pod_labels@) + sql_quote_spec(
        UNASSIGNED@,
    ) + ")"@);
    Ok(string_of(&out))
}

} // verus!
