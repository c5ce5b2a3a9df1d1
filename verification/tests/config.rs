use embargo::config::{
    default_apex_available, default_true, is_default_apex_available, is_false, is_true, Config,
    PackageConfig, PackageVariantConfig, VariantConfig,
};
use embargo::error::ConfigError;
use embargo::json::Json;
use embargo::table::Table;
use vstd::prelude::DeepView;

fn table<V: DeepView>(entries: Vec<(&str, V)>) -> Table<V> {
    let mut table = Table::new();
    for (key, value) in entries {
        table.insert(key.to_string(), value);
    }
    table
}

fn malformed(description: &str) -> ConfigError {
    ConfigError::Malformed(description.to_string())
}

fn unknown(path: &str) -> ConfigError {
    ConfigError::UnknownField(path.to_string())
}

#[test]
fn variant_config() {
    let config = Config::from_json_str(
        r#"{
            "tests": true,
            "package": {
                "argh": {
                    "patch": "patches/Android.bp.patch"
                },
                "another": {
                    "add_toplevel_block": "block.bp",
                    "device_supported": false,
                    "force_rlib": true
                }
            },
            "variants": [
                {},
                {
                    "tests": false,
                    "features": ["feature"],
                    "vendor_available": false,
                    "package": {
                        "another": {
                            "alloc": false,
                            "force_rlib": false
                        },
                        "variant_package": {
                            "add_module_block": "variant_module_block.bp"
                        }
                    }
                }
            ]
        }"#,
    )
    .unwrap();

    assert_eq!(
        config,
        Config {
            variants: vec![
                VariantConfig {
                    tests: true,
                    features: None,
                    vendor_available: true,
                    package: table(vec![
                        ("argh", PackageVariantConfig { ..Default::default() }),
                        (
                            "another",
                            PackageVariantConfig {
                                device_supported: false,
                                force_rlib: true,
                                ..Default::default()
                            },
                        ),
                    ]),
                    ..Default::default()
                },
                VariantConfig {
                    tests: false,
                    features: Some(vec!["feature".to_string()]),
                    vendor_available: false,
                    package: table(vec![
                        ("argh", PackageVariantConfig { ..Default::default() }),
                        (
                            "another",
                            PackageVariantConfig {
                                alloc: false,
                                device_supported: false,
                                force_rlib: false,
                                ..Default::default()
                            },
                        ),
                        (
                            "variant_package",
                            PackageVariantConfig {
                                add_module_block: Some("variant_module_block.bp".into()),
                                ..Default::default()
                            },
                        ),
                    ]),
                    ..Default::default()
                },
            ],
            package: table(vec![
                (
                    "argh",
                    PackageConfig {
                        patch: Some("patches/Android.bp.patch".into()),
                        ..Default::default()
                    },
                ),
                (
                    "another",
                    PackageConfig {
                        add_toplevel_block: Some("block.bp".into()),
                        ..Default::default()
                    },
                ),
            ]),
        }
    );
}

#[test]
fn sibling_variants_do_not_affect_each_other() {
    let config = Config::from_json_str(
        r#"{"tests": true, "variants": [{}, {"tests": false, "features": ["f"]}]}"#,
    )
    .unwrap();
    assert_eq!(config.variants.len(), 2);
    assert_eq!(config.variants[0].tests, true);
    assert_eq!(config.variants[0].features, None);
    assert_eq!(
        config.variants[0].apex_available,
        vec!["//apex_available:platform".to_string(), "//apex_available:anyapex".to_string()]
    );
    assert_eq!(config.variants[1].tests, false);
    assert_eq!(config.variants[1].features, Some(vec!["f".to_string()]));
    assert_eq!(config.variants[1].apex_available, config.variants[0].apex_available);
    assert!(config.package.is_empty());
}

#[test]
fn empty_document_is_one_default_variant() {
    let config = Config::from_json_str("{}").unwrap();
    assert_eq!(
        config,
        Config { variants: vec![VariantConfig::default()], package: Table::new() }
    );
}

#[test]
fn default_variant_values() {
    let variant = VariantConfig::default();
    assert_eq!(variant.tests, false);
    assert_eq!(variant.features, None);
    assert_eq!(variant.workspace, false);
    assert!(variant.workspace_excludes.is_empty());
    assert_eq!(variant.global_defaults, None);
    assert_eq!(variant.apex_available, default_apex_available());
    assert_eq!(variant.product_available, true);
    assert_eq!(variant.vendor_available, true);
    assert_eq!(variant.min_sdk_version, None);
    assert!(variant.module_name_overrides.is_empty());
    assert!(variant.package.is_empty());
    assert!(variant.cfg_blocklist.is_empty());
    assert!(variant.module_blocklist.is_empty());
    assert!(variant.module_visibility.is_empty());
    assert_eq!(variant.run_cargo, true);
}

#[test]
fn default_package_variant_values() {
    let options = PackageVariantConfig::default();
    assert_eq!(options.alloc, false);
    assert_eq!(options.device_supported, true);
    assert_eq!(options.host_supported, true);
    assert_eq!(options.host_first_multilib, false);
    assert_eq!(options.force_rlib, false);
    assert_eq!(options.no_presubmit, false);
    assert_eq!(options.add_module_block, None);
    assert!(options.dep_blocklist.is_empty());
    assert_eq!(options.no_std, false);
    assert_eq!(options.copy_out, false);
    assert!(options.test_data.is_empty());
    assert_eq!(PackageConfig::default(), PackageConfig { add_toplevel_block: None, patch: None });
}

#[test]
fn apex_defaults() {
    let list = default_apex_available();
    assert_eq!(list, vec!["//apex_available:platform", "//apex_available:anyapex"]);
    assert!(is_default_apex_available(&list));
    assert!(!is_default_apex_available(&[]));
    assert!(!is_default_apex_available(&["//apex_available:platform".to_string()]));
    assert!(!is_default_apex_available(&[
        "//apex_available:anyapex".to_string(),
        "//apex_available:platform".to_string()
    ]));
}

#[test]
fn flag_helpers() {
    assert!(default_true());
    assert!(is_true(&true));
    assert!(!is_true(&false));
    assert!(is_false(&false));
    assert!(!is_false(&true));
}

#[test]
fn missing_variants_is_one_empty_variant() {
    let without = Config::from_json_str(r#"{"tests": true, "package": {"a": {"no_std": true}}}"#);
    let with = Config::from_json_str(
        r#"{"tests": true, "package": {"a": {"no_std": true}}, "variants": [{}]}"#,
    );
    assert_eq!(without, with);
    let config = without.unwrap();
    assert_eq!(config.variants.len(), 1);
    assert_eq!(config.variants[0].tests, true);
    assert_eq!(
        config.variants[0].package,
        table(vec![("a", PackageVariantConfig { no_std: true, ..Default::default() })])
    );
    assert_eq!(config.package, table(vec![("a", PackageConfig::default())]));
}

#[test]
fn empty_variants_array_gives_no_variants() {
    let config = Config::from_json_str(r#"{"tests": true, "variants": []}"#).unwrap();
    assert_eq!(config, Config { variants: vec![], package: Table::new() });
}

#[test]
fn unknown_top_field_passes_where_no_variant_takes_it() {
    let config = Config::from_json_str(r#"{"bogus": 1, "variants": []}"#).unwrap();
    assert_eq!(config, Config { variants: vec![], package: Table::new() });
}

#[test]
fn variant_value_wins_over_top_level() {
    let config = Config::from_json_str(
        r#"{
            "min_sdk_version": "29",
            "run_cargo": false,
            "cfg_blocklist": ["a"],
            "variants": [
                {"min_sdk_version": "31", "cfg_blocklist": []},
                {"run_cargo": true}
            ]
        }"#,
    )
    .unwrap();
    assert_eq!(config.variants[0].min_sdk_version, Some("31".to_string()));
    assert_eq!(config.variants[0].run_cargo, false);
    assert!(config.variants[0].cfg_blocklist.is_empty());
    assert_eq!(config.variants[1].min_sdk_version, Some("29".to_string()));
    assert_eq!(config.variants[1].run_cargo, true);
    assert_eq!(config.variants[1].cfg_blocklist, vec!["a".to_string()]);
}

#[test]
fn package_fields_stay_out_of_variants() {
    let config = Config::from_json_str(
        r#"{
            "package": {"p": {"patch": "p.patch", "add_toplevel_block": "top.bp"}},
            "variants": [{}, {"package": {"p": {"copy_out": true}}}]
        }"#,
    )
    .unwrap();
    assert_eq!(
        config.package,
        table(vec![(
            "p",
            PackageConfig {
                add_toplevel_block: Some("top.bp".to_string()),
                patch: Some("p.patch".to_string()),
            }
        )])
    );
    assert_eq!(config.variants[0].package, table(vec![("p", PackageVariantConfig::default())]));
    assert_eq!(
        config.variants[1].package,
        table(vec![("p", PackageVariantConfig { copy_out: true, ..Default::default() })])
    );
}

#[test]
fn package_field_in_a_variant_is_unknown() {
    let result = Config::from_json_str(r#"{"variants": [{"package": {"p": {"patch": "x"}}}]}"#);
    assert_eq!(result, Err(unknown("variants[0].package.p.patch")));
}

#[test]
fn variant_package_value_wins_over_package() {
    let config = Config::from_json_str(
        r#"{
            "package": {"p": {"force_rlib": true, "dep_blocklist": ["a"], "no_std": true}},
            "variants": [
                {"package": {"p": {"force_rlib": false}, "q": {"alloc": true}}},
                {"package": {"p": {"dep_blocklist": ["b", "c"]}}}
            ]
        }"#,
    )
    .unwrap();
    assert_eq!(
        config.variants[0].package,
        table(vec![
            (
                "p",
                PackageVariantConfig {
                    force_rlib: false,
                    dep_blocklist: vec!["a".to_string()],
                    no_std: true,
                    ..Default::default()
                }
            ),
            ("q", PackageVariantConfig { alloc: true, ..Default::default() }),
        ])
    );
    assert_eq!(
        config.variants[1].package,
        table(vec![(
            "p",
            PackageVariantConfig {
                force_rlib: true,
                dep_blocklist: vec!["b".to_string(), "c".to_string()],
                no_std: true,
                ..Default::default()
            }
        )])
    );
}

#[test]
fn all_fields_are_read() {
    let config = Config::from_json_str(
        r#"{
            "variants": [{
                "tests": true,
                "features": ["a", "b"],
                "workspace": true,
                "workspace_excludes": ["w"],
                "global_defaults": "defaults",
                "apex_available": ["x"],
                "product_available": false,
                "vendor_available": false,
                "min_sdk_version": "29",
                "module_name_overrides": {"libz": "liby", "liba": "libb"},
                "package": {"p": {
                    "alloc": true,
                    "device_supported": false,
                    "host_supported": false,
                    "host_first_multilib": true,
                    "force_rlib": true,
                    "no_presubmit": true,
                    "add_module_block": "block.bp",
                    "dep_blocklist": ["d"],
                    "no_std": true,
                    "copy_out": true,
                    "test_data": {"tests/t.rs": ["data/1", "data/2"]}
                }},
                "cfg_blocklist": ["c"],
                "module_blocklist": ["m"],
                "module_visibility": {"libm": ["//visibility:public"]},
                "run_cargo": false
            }]
        }"#,
    )
    .unwrap();
    assert_eq!(
        config,
        Config {
            variants: vec![VariantConfig {
                tests: true,
                features: Some(vec!["a".to_string(), "b".to_string()]),
                workspace: true,
                workspace_excludes: vec!["w".to_string()],
                global_defaults: Some("defaults".to_string()),
                apex_available: vec!["x".to_string()],
                product_available: false,
                vendor_available: false,
                min_sdk_version: Some("29".to_string()),
                module_name_overrides: table(vec![
                    ("liba", "libb".to_string()),
                    ("libz", "liby".to_string())
                ]),
                package: table(vec![(
                    "p",
                    PackageVariantConfig {
                        alloc: true,
                        device_supported: false,
                        host_supported: false,
                        host_first_multilib: true,
                        force_rlib: true,
                        no_presubmit: true,
                        add_module_block: Some("block.bp".to_string()),
                        dep_blocklist: vec!["d".to_string()],
                        no_std: true,
                        copy_out: true,
                        test_data: table(vec![(
                            "tests/t.rs",
                            vec!["data/1".to_string(), "data/2".to_string()]
                        )]),
                    }
                )]),
                cfg_blocklist: vec!["c".to_string()],
                module_blocklist: vec!["m".to_string()],
                module_visibility: table(vec![("libm", vec!["//visibility:public".to_string()])]),
                run_cargo: false,
            }],
            package: Table::new(),
        }
    );
}

#[test]
fn null_stands_for_no_value() {
    let config = Config::from_json_str(
        r#"{"variants": [{"features": null, "global_defaults": null, "min_sdk_version": null}]}"#,
    )
    .unwrap();
    assert_eq!(config.variants, vec![VariantConfig::default()]);
}

#[test]
fn unknown_field_at_the_top_level() {
    assert_eq!(Config::from_json_str(r#"{"bogus": 1}"#), Err(unknown("variants[0].bogus")));
    assert_eq!(
        Config::from_json_str(r#"{"bogus": 1, "variants": [{"tests": true}, {}]}"#),
        Err(unknown("variants[0].bogus"))
    );
}

#[test]
fn unknown_field_in_a_variant() {
    assert_eq!(
        Config::from_json_str(r#"{"variants": [{}, {"bogus": true}]}"#),
        Err(unknown("variants[1].bogus"))
    );
}

#[test]
fn unknown_field_in_a_package() {
    assert_eq!(
        Config::from_json_str(r#"{"package": {"p": {"bogus": true}}}"#),
        Err(unknown("variants[0].package.p.bogus"))
    );
}

#[test]
fn unknown_field_in_a_variant_package() {
    assert_eq!(
        Config::from_json_str(r#"{"variants": [{"package": {"p": {"bogus": true}}}]}"#),
        Err(unknown("variants[0].package.p.bogus"))
    );
}

#[test]
fn text_that_is_not_json() {
    assert_eq!(Config::from_json_str("{"), Err(malformed("config is not valid JSON")));
    assert_eq!(Config::from_json_str(""), Err(malformed("config is not valid JSON")));
}

#[test]
fn document_that_is_no_object() {
    assert_eq!(Config::from_json_str("[]"), Err(malformed("config is not an object")));
    assert_eq!(Config::from_json_str("3"), Err(malformed("config is not an object")));
}

#[test]
fn variants_that_are_no_array() {
    assert_eq!(
        Config::from_json_str(r#"{"variants": {}}"#),
        Err(malformed("variants is not an array"))
    );
}

#[test]
fn variant_that_is_no_object() {
    assert_eq!(
        Config::from_json_str(r#"{"variants": [{}, {}, 7]}"#),
        Err(malformed("variants[2] is not an object"))
    );
}

#[test]
fn packages_that_are_no_object() {
    assert_eq!(
        Config::from_json_str(r#"{"package": []}"#),
        Err(malformed("package is not an object"))
    );
    assert_eq!(
        Config::from_json_str(r#"{"package": [], "variants": []}"#),
        Err(malformed("package is not an object"))
    );
}

#[test]
fn package_that_is_no_object() {
    assert_eq!(
        Config::from_json_str(r#"{"package": {"p": true}}"#),
        Err(malformed("package.p is not an object"))
    );
    assert_eq!(
        Config::from_json_str(r#"{"package": {"p": true}, "variants": []}"#),
        Err(malformed("package.p is not an object"))
    );
}

#[test]
fn variant_packages_that_are_no_object() {
    assert_eq!(
        Config::from_json_str(r#"{"package": {"p": {}}, "variants": [{"package": 1}]}"#),
        Err(malformed("variants[0].package is not an object"))
    );
    assert_eq!(
        Config::from_json_str(r#"{"variants": [{"package": 1}]}"#),
        Err(malformed("variants[0].package is not an object"))
    );
}

#[test]
fn variant_package_that_is_no_object() {
    assert_eq!(
        Config::from_json_str(r#"{"package": {"p": {}}, "variants": [{"package": {"p": 1}}]}"#),
        Err(malformed("variants[0].package.p is not an object"))
    );
    assert_eq!(
        Config::from_json_str(r#"{"variants": [{"package": {"p": []}}]}"#),
        Err(malformed("variants[0].package.p is not an object"))
    );
}

#[test]
fn values_of_the_wrong_shape() {
    assert_eq!(
        Config::from_json_str(r#"{"variants": [{"tests": "yes"}]}"#),
        Err(malformed("variants[0].tests is not a boolean"))
    );
    assert_eq!(
        Config::from_json_str(r#"{"tests": null}"#),
        Err(malformed("variants[0].tests is not a boolean"))
    );
    assert_eq!(
        Config::from_json_str(r#"{"variants": [{"global_defaults": 1}]}"#),
        Err(malformed("variants[0].global_defaults is not a string"))
    );
    assert_eq!(
        Config::from_json_str(r#"{"variants": [{"features": ["a", 1]}]}"#),
        Err(malformed("variants[0].features is not a list of strings"))
    );
    assert_eq!(
        Config::from_json_str(r#"{"variants": [{"cfg_blocklist": null}]}"#),
        Err(malformed("variants[0].cfg_blocklist is not a list of strings"))
    );
    assert_eq!(
        Config::from_json_str(r#"{"variants": [{"module_name_overrides": {"a": 1}}]}"#),
        Err(malformed("variants[0].module_name_overrides is not a map of strings"))
    );
    assert_eq!(
        Config::from_json_str(r#"{"variants": [{"module_visibility": {"a": "b"}}]}"#),
        Err(malformed("variants[0].module_visibility is not a map of lists of strings"))
    );
    assert_eq!(
        Config::from_json_str(r#"{"variants": [{"package": {"p": {"test_data": []}}}]}"#),
        Err(malformed("variants[0].package.p.test_data is not a map of lists of strings"))
    );
    assert_eq!(
        Config::from_json_str(r#"{"package": {"p": {"patch": 1}}}"#),
        Err(malformed("package.p.patch is not a string"))
    );
}

#[test]
fn the_first_fault_is_reported() {
    assert_eq!(
        Config::from_json_str(r#"{"variants": [{"tests": 1, "bogus": 2}]}"#),
        Err(malformed("variants[0].tests is not a boolean"))
    );
    assert_eq!(
        Config::from_json_str(r#"{"variants": [{"bogus": 2, "tests": 1}]}"#),
        Err(unknown("variants[0].bogus"))
    );
    assert_eq!(
        Config::from_json_str(
            r#"{"variants": [{}, {}, {}, {}, {}, {}, {}, {}, {}, {}, {}, {}, {"bogus": 2}]}"#
        ),
        Err(unknown("variants[12].bogus"))
    );
}

fn object(members: Vec<(&str, Json)>) -> Json {
    Json::Object(members.into_iter().map(|(name, value)| (name.to_string(), value)).collect())
}

#[test]
fn decode_reads_a_full_document() {
    let document = object(vec![
        ("package", object(vec![("p", object(vec![("patch", Json::Text("x".to_string()))]))])),
        ("variants", Json::Array(vec![object(vec![("tests", Json::Bool(true))])])),
    ]);
    assert_eq!(
        Config::decode(&document),
        Ok(Config {
            variants: vec![VariantConfig { tests: true, ..Default::default() }],
            package: table(vec![(
                "p",
                PackageConfig { patch: Some("x".to_string()), ..Default::default() }
            )]),
        })
    );
}

#[test]
fn decode_refuses_what_is_not_filled_in() {
    assert_eq!(Config::decode(&object(vec![])), Err(malformed("variants is missing")));
    assert_eq!(
        Config::decode(&object(vec![("tests", Json::Bool(true)), ("variants", Json::Array(vec![]))])),
        Err(unknown("tests"))
    );
    assert_eq!(Config::decode(&Json::Null), Err(malformed("config is not an object")));
    assert_eq!(
        Config::decode(&object(vec![("variants", Json::Null)])),
        Err(malformed("variants is not an array"))
    );
    assert_eq!(
        Config::decode(&object(vec![
            ("variants", Json::Array(vec![])),
            ("package", object(vec![("p", object(vec![("alloc", Json::Bool(true))]))])),
        ])),
        Err(unknown("package.p.alloc"))
    );
}

#[test]
fn a_name_given_twice_is_a_fault() {
    let variant = object(vec![("tests", Json::Bool(true)), ("tests", Json::Bool(false))]);
    assert_eq!(
        Config::decode(&object(vec![("variants", Json::Array(vec![variant]))])),
        Err(malformed("variants[0].tests is given twice"))
    );
    assert_eq!(
        Config::decode(&object(vec![
            ("variants", Json::Array(vec![])),
            ("variants", Json::Array(vec![])),
        ])),
        Err(malformed("variants is given twice"))
    );
}

#[test]
fn resolve_takes_a_document() {
    let document = object(vec![
        ("workspace", Json::Bool(true)),
        ("variants", Json::Array(vec![object(vec![]), object(vec![("workspace", Json::Bool(false))])])),
    ]);
    let config = Config::resolve(&document).unwrap();
    assert_eq!(config.variants[0].workspace, true);
    assert_eq!(config.variants[1].workspace, false);
    let number = Json::Number(serde_json::Number::from(1u64));
    assert_eq!(
        Config::resolve(&object(vec![("tests", number)])),
        Err(malformed("variants[0].tests is not a boolean"))
    );
}

#[test]
fn error_messages() {
    assert_eq!(
        malformed("variants is not an array").message(),
        "malformed config: variants is not an array"
    );
    assert_eq!(unknown("variants[0].bogus").message(), "unknown field: variants[0].bogus");
}

#[test]
fn the_default_configuration_is_written_without_fields() {
    let config = Config { variants: vec![VariantConfig::default()], package: Table::new() };
    assert_eq!(config.to_json(), object(vec![("variants", Json::Array(vec![object(vec![])]))]));
    assert_eq!(config.to_json_string().unwrap(), "{\n  \"variants\": [\n    {}\n  ]\n}");
}

#[test]
fn fields_are_written_in_their_order() {
    let config = Config {
        variants: vec![VariantConfig {
            run_cargo: false,
            tests: true,
            features: Some(vec![]),
            apex_available: vec![],
            package: table(vec![
                ("z", PackageVariantConfig::default()),
                ("a", PackageVariantConfig { host_supported: false, ..Default::default() }),
            ]),
            ..Default::default()
        }],
        package: table(vec![("a", PackageConfig { patch: Some("a.patch".into()), ..Default::default() })]),
    };
    let expected = r#"{
  "variants": [
    {
      "tests": true,
      "features": [],
      "apex_available": [],
      "package": {
        "a": {
          "host_supported": false
        },
        "z": {}
      },
      "run_cargo": false
    }
  ],
  "package": {
    "a": {
      "patch": "a.patch"
    }
  }
}"#;
    assert_eq!(config.to_json_string().unwrap(), expected);
}

#[test]
fn what_is_written_resolves_to_the_same() {
    let config = Config::from_json_str(
        r#"{
            "tests": true,
            "features": ["x"],
            "module_visibility": {"libb": ["//b"], "liba": []},
            "package": {
                "argh": {"patch": "patches/Android.bp.patch"},
                "another": {"add_toplevel_block": "block.bp", "force_rlib": true}
            },
            "variants": [
                {},
                {"tests": false, "package": {"variant_package": {"test_data": {"t": ["d"]}}}}
            ]
        }"#,
    )
    .unwrap();
    let text = config.to_json_string().unwrap();
    assert_eq!(Config::from_json_str(&text), Ok(config.clone()));
    assert_eq!(Config::resolve(&config.to_json()), Ok(config));
}

#[test]
fn a_variant_without_a_package_of_the_configuration_gets_its_defaults() {
    let config = Config {
        variants: vec![VariantConfig::default()],
        package: table(vec![("p", PackageConfig::default())]),
    };
    let back = Config::resolve(&config.to_json()).unwrap();
    assert_eq!(back.package, config.package);
    assert_eq!(back.variants[0].package, table(vec![("p", PackageVariantConfig::default())]));
}
