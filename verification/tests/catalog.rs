//! Tests of the log-source catalog loader and the selector resolver.

use sigma_sentinel::sentinel::{merge_catalogs, SentinelLogSource};
use sigma_sentinel::ParsingError;

fn entry(
    value: &str,
    service: Option<&str>,
    category: Option<&str>,
    product: Option<&str>,
) -> SentinelLogSource {
    SentinelLogSource {
        value: value.to_string(),
        service: service.map(|s| s.to_string()),
        category: category.map(|s| s.to_string()),
        product: product.map(|s| s.to_string()),
    }
}

#[test]
fn test_load_source() {
    let yaml = "windows:
  value: windowsEvent
  product: windows
zscaler:
  value: \"CommonSecurity\\n Where DeviceVendor == 'Zscaler'\"
  category: firewall
  product: zscaler
";
    let sources = SentinelLogSource::parse_conf_str(yaml).unwrap();
    assert_eq!(
        sources,
        vec![
            SentinelLogSource {
                category: None,
                service: None,
                product: Some("windows".to_string()),
                value: "windowsEvent".to_string(),
            },
            SentinelLogSource {
                category: Some("firewall".to_string()),
                service: None,
                product: Some("zscaler".to_string()),
                value: "CommonSecurity\n Where DeviceVendor == 'Zscaler'".to_string(),
            }
        ]
    );

    assert_eq!(
        SentinelLogSource::get_sources(&sources, &None, &Some("windows".to_string()), &None),
        vec!["windowsEvent".to_string()]
    );
    assert_eq!(
        SentinelLogSource::get_sources(&sources, &None, &None, &None),
        vec![
            "windowsEvent".to_string(),
            "CommonSecurity\n Where DeviceVendor == 'Zscaler'".to_string()
        ]
    );
    assert_eq!(
        SentinelLogSource::get_sources(&sources, &Some("firewall".to_string()), &None, &None),
        vec!["CommonSecurity\n Where DeviceVendor == 'Zscaler'".to_string()]
    );
}

#[test]
fn resolver_filtering() {
    let catalog = vec![
        entry("A", None, None, Some("windows")),
        entry("B", None, Some("firewall"), Some("zscaler")),
    ];
    assert_eq!(
        SentinelLogSource::get_sources(&catalog, &None, &Some("windows".to_string()), &None),
        vec!["A".to_string()]
    );
    assert_eq!(
        SentinelLogSource::get_sources(&catalog, &None, &None, &None),
        vec!["A".to_string(), "B".to_string()]
    );
    assert_eq!(
        SentinelLogSource::get_sources(&catalog, &Some("firewall".to_string()), &None, &None),
        vec!["B".to_string()]
    );
}

#[test]
fn resolver_absent_field_never_matches_constrained_axis() {
    let catalog = vec![entry("A", None, None, None)];
    assert_eq!(
        SentinelLogSource::get_sources(&catalog, &None, &Some("windows".to_string()), &None),
        Vec::<String>::new()
    );
}

#[test]
fn resolver_keeps_duplicates_in_catalog_order() {
    let catalog = vec![
        entry("A", None, None, Some("windows")),
        entry("B", None, None, Some("windows")),
        entry("A", None, None, Some("windows")),
    ];
    assert_eq!(
        SentinelLogSource::get_sources(&catalog, &None, &Some("windows".to_string()), &None),
        vec!["A".to_string(), "B".to_string(), "A".to_string()]
    );
}

#[test]
fn merge_appends_custom_after_defaults_keeping_duplicates() {
    let defaults = vec![
        entry("A", None, None, Some("windows")),
        entry("B", None, Some("firewall"), None),
    ];
    let custom = vec![
        entry("A", None, None, Some("windows")),
        entry("C", Some("dns"), None, None),
    ];
    let merged = merge_catalogs(defaults.clone(), Some(custom.clone()));
    assert_eq!(merged.len(), 4);
    assert_eq!(merged[0], defaults[0]);
    assert_eq!(merged[1], defaults[1]);
    assert_eq!(merged[2], custom[0]);
    assert_eq!(merged[3], custom[1]);

    let alone = merge_catalogs(defaults.clone(), None);
    assert_eq!(alone, defaults);
}

#[test]
fn catalog_missing_value_is_rejected() {
    let yaml = "windows:
  product: windows
";
    assert_eq!(
        SentinelLogSource::parse_conf_str(yaml),
        Err(ParsingError::InvalidAttribute)
    );
}

#[test]
fn catalog_non_string_axis_is_rejected() {
    let yaml = "windows:
  value: windowsEvent
  product: 3
";
    assert_eq!(
        SentinelLogSource::parse_conf_str(yaml),
        Err(ParsingError::InvalidAttribute)
    );
}

#[test]
fn catalog_malformed_yaml_is_rejected() {
    assert_eq!(
        SentinelLogSource::parse_conf_str("a: [unclosed"),
        Err(ParsingError::InvalidAttribute)
    );
}

#[test]
fn catalog_non_mapping_document_is_empty() {
    let sources = SentinelLogSource::parse_conf_str("just a string").unwrap();
    assert_eq!(sources, Vec::<SentinelLogSource>::new());
}

#[test]
fn catalog_extra_entry_keys_are_tolerated() {
    let yaml = "windows:
  value: windowsEvent
  product: windows
  vendor: microsoft
";
    let sources = SentinelLogSource::parse_conf_str(yaml).unwrap();
    assert_eq!(
        sources,
        vec![entry("windowsEvent", None, None, Some("windows"))]
    );
}
