//! Tests of rule validation, the enumeration literals, batch collection
//! and end-to-end translation.

use sigma_sentinel::sentinel::SentinelLogSource;
use sigma_sentinel::sigma::{
    collect_rules, FieldMatch, FilterValue, LogSource, Selection, SigmaDetecton, SigmaLevel,
    SigmaRule, SigmaStatus,
};
use sigma_sentinel::ParsingError;

const TEST_RULE: &str = "title: test rule
status: test
description: this rule is for test purpose
tags:
  - tag1
  - tag2
  - tag3
level: medium
logsource:
  product: windows
  category: dns_query
detection:
  condition: selection1 or selection1 or keywords
  keywords:
    - titi
    - tete
  selection1:
    process: toto
    file: tata
  selection2:
    image:
      - tutu
      - tyty
";

#[test]
fn parse_from_file() {
    let rule: SigmaRule = SigmaRule::parse_rule_from_str(TEST_RULE).unwrap();

    assert_eq!(rule.title, "test rule".to_string());
    assert_eq!(rule.status, SigmaStatus::Test);
    assert_eq!(
        rule.description,
        "this rule is for test purpose".to_string()
    );
    assert_eq!(
        rule.tags,
        vec!["tag1".to_string(), "tag2".to_string(), "tag3".to_string()]
    );
    assert_eq!(rule.level, SigmaLevel::Medium);
    assert_eq!(
        rule.logsource,
        LogSource {
            product: Some("windows".to_string()),
            category: Some("dns_query".to_string()),
            service: None
        }
    );

    let detection = SigmaDetecton {
        condition: "selection1 or selection1 or keywords".to_string(),
        keywords: Some(vec!["titi".to_string(), "tete".to_string()]),
        selections: Some(vec![
            Selection {
                name: "selection1".to_string(),
                fields: vec![
                    FieldMatch {
                        field: "process".to_string(),
                        value: FilterValue::Str("toto".to_string()),
                    },
                    FieldMatch {
                        field: "file".to_string(),
                        value: FilterValue::Str("tata".to_string()),
                    },
                ],
            },
            Selection {
                name: "selection2".to_string(),
                fields: vec![FieldMatch {
                    field: "image".to_string(),
                    value: FilterValue::List(vec![
                        FilterValue::Str("tutu".to_string()),
                        FilterValue::Str("tyty".to_string()),
                    ]),
                }],
            },
        ]),
    };
    assert_eq!(rule.detection, detection);
}

#[test]
fn status_literal_round_trip() {
    let all = [
        SigmaStatus::Stable,
        SigmaStatus::Test,
        SigmaStatus::Experimental,
        SigmaStatus::Deprecated,
        SigmaStatus::Unsupported,
    ];
    for s in all {
        assert_eq!(SigmaStatus::from_literal(s.literal().as_str()), Some(s));
    }
    assert_eq!(SigmaStatus::Stable.literal(), "stable".to_string());
    assert_eq!(SigmaStatus::Test.literal(), "test".to_string());
    assert_eq!(
        SigmaStatus::Experimental.literal(),
        "experimental".to_string()
    );
    assert_eq!(SigmaStatus::Deprecated.literal(), "deprecated".to_string());
    assert_eq!(
        SigmaStatus::Unsupported.literal(),
        "unsupported".to_string()
    );
    assert_eq!(SigmaStatus::from_literal("bogus"), None);
}

#[test]
fn level_literal_round_trip() {
    let all = [
        SigmaLevel::Critical,
        SigmaLevel::High,
        SigmaLevel::Medium,
        SigmaLevel::Low,
        SigmaLevel::Informational,
    ];
    for l in all {
        assert_eq!(SigmaLevel::from_literal(l.literal().as_str()), Some(l));
    }
    assert_eq!(SigmaLevel::Critical.literal(), "critical".to_string());
    assert_eq!(
        SigmaLevel::Informational.literal(),
        "informational".to_string()
    );
    assert_eq!(SigmaLevel::from_literal("bogus"), None);
}

#[test]
fn bogus_status_is_rejected() {
    let yaml = TEST_RULE.replace("status: test", "status: bogus");
    assert_eq!(
        SigmaRule::parse_rule_from_str(&yaml),
        Err(ParsingError::InvalidAttribute)
    );
}

#[test]
fn bogus_level_is_rejected() {
    let yaml = TEST_RULE.replace("level: medium", "level: bogus");
    assert_eq!(
        SigmaRule::parse_rule_from_str(&yaml),
        Err(ParsingError::InvalidAttribute)
    );
}

#[test]
fn missing_required_field_is_rejected() {
    let yaml = TEST_RULE.replace("title: test rule\n", "");
    assert_eq!(
        SigmaRule::parse_rule_from_str(&yaml),
        Err(ParsingError::InvalidAttribute)
    );
}

#[test]
fn empty_title_is_rejected() {
    let yaml = TEST_RULE.replace("title: test rule", "title: \"\"");
    assert_eq!(
        SigmaRule::parse_rule_from_str(&yaml),
        Err(ParsingError::InvalidAttribute)
    );
}

#[test]
fn unknown_top_level_key_is_rejected() {
    let mut yaml = TEST_RULE.to_string();
    yaml.push_str("author: somebody\n");
    assert_eq!(
        SigmaRule::parse_rule_from_str(&yaml),
        Err(ParsingError::InvalidAttribute)
    );
}

#[test]
fn non_list_keywords_are_rejected() {
    let yaml = TEST_RULE.replace("  keywords:\n    - titi\n    - tete\n", "  keywords: titi\n");
    assert!(yaml.contains("keywords: titi"));
    assert_eq!(
        SigmaRule::parse_rule_from_str(&yaml),
        Err(ParsingError::InvalidAttribute)
    );
}

#[test]
fn unknown_logsource_key_is_rejected() {
    let yaml = TEST_RULE.replace("  product: windows", "  products: windows");
    assert_eq!(
        SigmaRule::parse_rule_from_str(&yaml),
        Err(ParsingError::InvalidAttribute)
    );
}

#[test]
fn malformed_yaml_is_rejected() {
    assert_eq!(
        SigmaRule::parse_rule_from_str("title: [unclosed"),
        Err(ParsingError::InvalidAttribute)
    );
}

#[test]
fn numeric_selection_value_is_kept() {
    let yaml = TEST_RULE.replace("process: toto", "process: 443");
    let rule = SigmaRule::parse_rule_from_str(&yaml).unwrap();
    let sels = rule.detection.selections.unwrap();
    assert_eq!(sels[0].fields[0].value, FilterValue::Num(443));
}

#[test]
fn unsupported_selection_value_is_tolerated_at_parse() {
    let yaml = TEST_RULE.replace("process: toto", "process: true");
    let rule = SigmaRule::parse_rule_from_str(&yaml).unwrap();
    let sels = rule.detection.selections.unwrap();
    assert_eq!(sels[0].fields[0].value, FilterValue::Unsupported);
}

#[test]
fn batch_isolation() {
    let good = SigmaRule::parse_rule_from_str(TEST_RULE);
    let bad1 = SigmaRule::parse_rule_from_str("not a rule");
    let good2 = SigmaRule::parse_rule_from_str(TEST_RULE);
    let bad2: Result<SigmaRule, ParsingError> = Err(ParsingError::InvalidFile);
    assert!(good.is_ok());
    assert!(bad1.is_err());
    let (rules, failures) = collect_rules(vec![good, bad1, good2, bad2]);
    assert_eq!(rules.len(), 2);
    assert_eq!(failures, 2);
    assert_eq!(rules[0].title, "test rule".to_string());
}

#[test]
fn end_to_end_translation() {
    let rule = SigmaRule::parse_rule_from_str(
        "title: test rule
status: test
description: this rule is for test purpose
tags:
  - tag1
level: medium
logsource:
  product: windows
detection:
  condition: selection1
  selection1:
    process: toto
",
    )
    .unwrap();
    let catalog = vec![SentinelLogSource {
        value: "windowsEvent".to_string(),
        service: None,
        category: None,
        product: Some("windows".to_string()),
    }];
    let query = rule.to_sentinel_query(&catalog).unwrap();
    assert_eq!(
        query.query,
        "// this rule is for test purpose\nwindowsEvent\n| where process == 'toto'".to_string()
    );
}

#[test]
fn translation_without_matching_source_is_comment_only() {
    let rule = SigmaRule::parse_rule_from_str(TEST_RULE).unwrap();
    let catalog = vec![SentinelLogSource {
        value: "CommonSecurity".to_string(),
        service: None,
        category: None,
        product: Some("zscaler".to_string()),
    }];
    let query = rule.to_sentinel_query(&catalog).unwrap();
    assert_eq!(
        query.query,
        "// this rule is for test purpose\n".to_string()
    );
}

#[test]
fn translation_fans_out_over_matching_sources() {
    let rule = SigmaRule::parse_rule_from_str(
        "title: fan out
status: test
description: two sources
tags: []
level: low
logsource:
  product: windows
detection:
  condition: selection1
  selection1:
    process: toto
",
    )
    .unwrap();
    let catalog = vec![
        SentinelLogSource {
            value: "TableA".to_string(),
            service: None,
            category: None,
            product: Some("windows".to_string()),
        },
        SentinelLogSource {
            value: "TableB".to_string(),
            service: None,
            category: None,
            product: Some("windows".to_string()),
        },
    ];
    let query = rule.to_sentinel_query(&catalog).unwrap();
    assert_eq!(
        query.query,
        "// two sources\nTableA\n| where process == 'toto'\nTableB\n| where process == 'toto'"
            .to_string()
    );
}

#[test]
fn translation_reports_unsupported_value() {
    let yaml = TEST_RULE.replace("process: toto", "process: true");
    let rule = SigmaRule::parse_rule_from_str(&yaml).unwrap();
    let catalog = vec![SentinelLogSource {
        value: "windowsEvent".to_string(),
        service: None,
        category: Some("dns_query".to_string()),
        product: Some("windows".to_string()),
    }];
    assert_eq!(
        rule.to_sentinel_query(&catalog),
        Err(ParsingError::InvalidAttribute)
    );
}

#[test]
fn display_strings() {
    let rule = SigmaRule::parse_rule_from_str(TEST_RULE).unwrap();
    assert_eq!(rule.display_string(), "test rule".to_string());
    assert_eq!(
        rule.logsource.display_string(),
        "Category dns_query, Product windows, Service N/A".to_string()
    );
}
