use rustquty_core::cli::{choose_profile, detect_rust_edition, is_collector_enabled, member_manifest_edition, parse_edition_from_content};
use rustquty_core::collectors::{all_collectors, AnyCollector};
use rustquty_core::config::{
    loc_config_of, output_dir_name, Config, ConfigOutput, ConfigCollectors, ConfigGate, ConfigGateDefaults, ConfigProfile, LocConfig, SizeConfig,
};
use rustquty_core::gate::GateConfig;
use rustquty_core::context::{CollectorName, Context, Profile};
use std::path::PathBuf;

#[test]
fn edition_is_read_from_the_package_section() {
    let manifest = "[package]\nname = \"x\"\nedition = \"2024\"\n";
    assert_eq!(parse_edition_from_content(manifest), Some("2024".to_string()));
}

#[test]
fn edition_is_read_from_the_workspace_package_section() {
    let manifest = "[workspace]\nmembers = [\"a\"]\n\n[workspace.package]\n  edition=\"2021\",\n";
    assert_eq!(parse_edition_from_content(manifest), Some("2021".to_string()));
}

#[test]
fn edition_outside_the_package_sections_is_ignored() {
    let manifest = "[dependencies]\nedition = \"2018\"\n[package]\nname = \"x\"\n";
    assert_eq!(parse_edition_from_content(manifest), None);
    assert_eq!(parse_edition_from_content("[package]\nedition = \"\"\n"), None);
    assert_eq!(parse_edition_from_content(""), None);
}

#[test]
fn first_edition_found_wins() {
    let manifest = "[package]\nedition = \"2015\"\n[workspace.package]\nedition = \"2021\"\n";
    assert_eq!(parse_edition_from_content(manifest), Some("2015".to_string()));
}

#[test]
fn workspace_edition_comes_from_root_then_members() {
    let root = "[workspace]\nmembers = [\"core\"]\n";
    let members = vec![
        "[dependencies]\nserde = \"1\"\n".to_string(),
        "[package]\nname = \"core\"\nedition = \"2024\"\n".to_string(),
    ];
    assert_eq!(detect_rust_edition(Some(root), &members), "2024");
    assert_eq!(detect_rust_edition(Some("[package]\nedition = \"2018\"\n"), &members), "2018");
    assert_eq!(detect_rust_edition(None, &vec![]), "2021");
    assert_eq!(member_manifest_edition("[lib]\nedition = \"2024\"\n"), None);
}

#[test]
fn profiles_choose_their_collectors() {
    let fast = Context::new(PathBuf::from("/w")).with_profile(Profile::Fast);
    assert!(is_collector_enabled(&fast, "fmt"));
    assert!(is_collector_enabled(&fast, "clippy"));
    assert!(!is_collector_enabled(&fast, "tests"));
    let full = Context::new(PathBuf::from("/w"));
    assert!(is_collector_enabled(&full, "loc"));
    assert!(!is_collector_enabled(&full, "mutants"));
    let mut deep = Context::new(PathBuf::from("/w")).with_profile(Profile::Deep);
    assert!(is_collector_enabled(&deep, "mutants"));
    deep.disable_collector(CollectorName::Mutants);
    assert!(!is_collector_enabled(&deep, "mutants"));
    assert!(is_collector_enabled(&deep, "duplicates"));
}

#[test]
fn command_line_profile_comes_before_the_configured_one() {
    let config = Config { profile: ConfigProfile { default: "deep".to_string() }, ..Default::default() };
    assert_eq!(choose_profile("fast", Some(&config)), Profile::Fast);
    assert_eq!(choose_profile("bogus", Some(&config)), Profile::Deep);
    assert_eq!(choose_profile("bogus", None), Profile::Full);
    assert_eq!(ConfigProfile::default().default, "full");
}

#[test]
fn registry_lists_twelve_collectors_in_order() {
    let all = all_collectors(
        Some(SizeConfig { max_lines_per_file: Some(10), ..Default::default() }),
        None,
        Some(LocConfig { max_line_length: Some(100) }),
    );
    let names: Vec<&str> = all.iter().map(|c| c.name()).collect();
    assert_eq!(
        names,
        vec![
            "fmt", "clippy", "tests", "coverage", "deny", "audit", "hack", "mutants", "duplicates", "loc",
            "size", "complexity"
        ]
    );
    assert!(matches!(all[9], AnyCollector::Loc(c) if c.max_line_length == 100));
    assert!(matches!(all[10], AnyCollector::Size(c) if c.config.max_lines_per_file == Some(10)));
    assert!(matches!(all[11], AnyCollector::Complexity(c) if c.config.max_nesting_depth.is_none()));
}

#[test]
fn collectors_set_to_false_are_switched_off() {
    let section = ConfigCollectors {
        mutants: Some(false),
        hack: Some(true),
        coverage: None,
        deny: Some(false),
        audit: None,
    };
    assert_eq!(section.switched_off(), vec![CollectorName::Mutants, CollectorName::Deny]);
    assert!(ConfigCollectors::default().switched_off().is_empty());
}

#[test]
fn gate_defaults_become_absolute_thresholds() {
    assert!(GateConfig::configured(None).is_none());
    assert!(GateConfig::configured(Some(&Config::default())).is_none());
    let defaults = ConfigGateDefaults {
        max_cyclomatic_per_function: Some(15),
        max_line_length: Some(100),
        max_clippy_warnings: Some(0),
        ..Default::default()
    };
    let config = Config {
        gate: ConfigGate { defaults: Some(defaults), ..Default::default() },
        ..Default::default()
    };
    let gate = GateConfig::configured(Some(&config)).unwrap();
    assert_eq!(gate.max_cyclomatic_per_function, Some(15));
    assert_eq!(gate.max_line_length, Some(100));
    assert_eq!(gate.max_clippy_warnings, Some(0));
    assert_eq!(gate.max_nesting_depth, None);
    assert!(gate.min_coverage_percent.is_none());
}

#[test]
fn configuration_sets_line_length_and_output_dir() {
    assert_eq!(loc_config_of(None), None);
    assert_eq!(output_dir_name(None), "quality");
    let defaults = ConfigGateDefaults { max_line_length: Some(100), ..Default::default() };
    let config = Config {
        gate: ConfigGate { defaults: Some(defaults), ..Default::default() },
        output: ConfigOutput { dir: Some("reports".to_string()) },
        ..Default::default()
    };
    assert_eq!(loc_config_of(Some(&config)), Some(LocConfig { max_line_length: Some(100) }));
    assert_eq!(output_dir_name(Some(&config)), "reports");
    assert_eq!(output_dir_name(Some(&Config::default())), "quality");
    assert_eq!(loc_config_of(Some(&Config::default())), None);
}
