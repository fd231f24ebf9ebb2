use ekokube::server::tenancy::{
    compile_rules, sql_quote, MatcherType, RuleError, TenantRule, TenantSource,
};

fn rule(
    matcher_type: MatcherType,
    key: &str,
    value: &str,
    source: TenantSource,
    name: &str,
) -> TenantRule {
    TenantRule {
        matcher_type,
        match_key: key.into(),
        match_value: value.into(),
        tenant_source: source,
        tenant_name: name.into(),
    }
}

#[test]
fn empty_rules_yield_unassigned() {
    assert_eq!(
        compile_rules(&[], "ns.labels", "pm.labels").unwrap(),
        "'unassigned'"
    );
}

#[test]
fn compiles_ordered_multiif() {
    let rules = vec![
        rule(
            MatcherType::NamespaceExact,
            "",
            "kube-system",
            TenantSource::Static,
            "platform",
        ),
        rule(
            MatcherType::NamespaceLabel,
            "tenant",
            "",
            TenantSource::LabelValue,
            "",
        ),
        rule(
            MatcherType::PodLabel,
            "team",
            "checkout",
            TenantSource::Static,
            "shop-team",
        ),
    ];
    let sql = compile_rules(&rules, "ns.labels", "pm.labels").unwrap();
    assert_eq!(
        sql,
        "multiIf(namespace = 'kube-system', 'platform', \
         mapContains(ns.labels, 'tenant'), ns.labels['tenant'], \
         pm.labels['team'] = 'checkout', 'shop-team', \
         'unassigned')"
    );
}

#[test]
fn escapes_quotes() {
    let rules = vec![rule(
        MatcherType::NamespaceExact,
        "",
        "it's",
        TenantSource::Static,
        "a'b",
    )];
    let sql = compile_rules(&rules, "n", "p").unwrap();
    assert!(sql.contains("'it\\'s'"));
    assert!(sql.contains("'a\\'b'"));
}

#[test]
fn rejects_invalid_rules() {
    assert!(rule(
        MatcherType::NamespaceExact,
        "",
        "",
        TenantSource::Static,
        "x"
    )
    .validate()
    .is_err());
    assert!(
        rule(MatcherType::PodLabel, "", "", TenantSource::Static, "x")
            .validate()
            .is_err()
    );
    assert!(rule(
        MatcherType::NamespaceExact,
        "",
        "ns",
        TenantSource::LabelValue,
        ""
    )
    .validate()
    .is_err());
    assert!(
        rule(MatcherType::PodLabel, "team", "", TenantSource::Static, "")
            .validate()
            .is_err()
    );
    assert!(rule(
        MatcherType::PodLabel,
        "team",
        "",
        TenantSource::LabelValue,
        ""
    )
    .validate()
    .is_ok());
}

#[test]
fn each_rule_error_and_its_message() {
    let e = rule(MatcherType::NamespaceRegex, "", "", TenantSource::Static, "x").validate();
    assert_eq!(e, Err(RuleError::NamespaceMatcherNeedsValue));
    let e = rule(MatcherType::NamespaceRegex, "", "a.*", TenantSource::LabelValue, "").validate();
    assert_eq!(e, Err(RuleError::LabelValueNeedsLabelMatcher));
    let e = rule(MatcherType::NamespaceLabel, "", "v", TenantSource::Static, "x").validate();
    assert_eq!(e, Err(RuleError::LabelMatcherNeedsKey));
    let e = rule(MatcherType::NamespaceLabel, "k", "v", TenantSource::Static, "").validate();
    assert_eq!(e, Err(RuleError::StaticNeedsTenantName));
    assert_eq!(
        RuleError::StaticNeedsTenantName.message(),
        "static tenant source needs a tenant_name"
    );
    let many: Vec<TenantRule> = (0..201)
        .map(|_| rule(MatcherType::NamespaceExact, "", "a", TenantSource::Static, "t"))
        .collect();
    assert_eq!(compile_rules(&many, "n", "p"), Err(RuleError::TooManyRules));
    assert_eq!(RuleError::TooManyRules.message(), "too many rules (max 200)");
    // the first invalid rule decides
    let rules = vec![
        rule(MatcherType::PodLabel, "k", "", TenantSource::Static, "t"),
        rule(MatcherType::PodLabel, "", "", TenantSource::Static, ""),
        rule(MatcherType::PodLabel, "k", "", TenantSource::Static, ""),
    ];
    assert_eq!(compile_rules(&rules, "n", "p"), Err(RuleError::LabelMatcherNeedsKey));
}

#[test]
fn compiles_regex_and_label_value_matchers() {
    let r = rule(MatcherType::NamespaceRegex, "", "^team-", TenantSource::Static, "teams");
    assert_eq!(
        r.compile("n", "p"),
        ("match(namespace, '^team-')".to_string(), "'teams'".to_string())
    );
    let r = rule(MatcherType::PodLabel, "app", "", TenantSource::LabelValue, "");
    assert_eq!(r.compile("n", "p"), ("mapContains(p, 'app')".to_string(), "p['app']".to_string()));
    let r = rule(MatcherType::NamespaceLabel, "t", "x", TenantSource::LabelValue, "");
    assert_eq!(r.compile("n", "p"), ("n['t'] = 'x'".to_string(), "n['t']".to_string()));
}

#[test]
fn quoting_round_trips() {
    assert_eq!(sql_quote("plain"), "'plain'");
    assert_eq!(sql_quote("a\\b'c"), "'a\\\\b\\'c'");
    assert_eq!(sql_quote(""), "''");
}
