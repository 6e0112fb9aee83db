use rustquty_core::context::{CollectorName, Context, Profile};
use std::path::PathBuf;

#[test]
fn test_profile_parsing() {
    assert_eq!("fast".parse::<Profile>().unwrap(), Profile::Fast);
    assert_eq!("FULL".parse::<Profile>().unwrap(), Profile::Full);
    assert_eq!("Deep".parse::<Profile>().unwrap(), Profile::Deep);
    assert!("unknown".parse::<Profile>().is_err());
}

#[test]
fn test_context_disabled_collectors() {
    let mut ctx = Context::new(PathBuf::from("/tmp"));
    assert!(!ctx.is_collector_disabled(CollectorName::Clippy));
    ctx.disable_collector(CollectorName::Clippy);
    assert!(ctx.is_collector_disabled(CollectorName::Clippy));
    assert!(!ctx.is_collector_disabled(CollectorName::Tests));
}

#[test]
fn unknown_names_give_their_errors() {
    assert_eq!(Profile::parse("slow"), Err("unknown profile: slow".to_string()));
    assert_eq!(
        "linter".parse::<CollectorName>(),
        Err("unknown collector: linter".to_string())
    );
    assert_eq!("MUTANTS".parse::<CollectorName>(), Ok(CollectorName::Mutants));
}

#[test]
fn collector_names_read_back() {
    let all = [
        CollectorName::Fmt,
        CollectorName::Clippy,
        CollectorName::Tests,
        CollectorName::Coverage,
        CollectorName::Deny,
        CollectorName::Audit,
        CollectorName::Hack,
        CollectorName::Mutants,
    ];
    for n in all {
        assert_eq!(n.as_str().parse::<CollectorName>(), Ok(n));
    }
}

#[test]
fn new_context_defaults() {
    let ctx = Context::new(PathBuf::from("/w"))
        .with_profile(Profile::Deep)
        .with_output_dir(PathBuf::from("/out"));
    assert_eq!(ctx.profile, Profile::Deep);
    assert_eq!(ctx.output_dir, PathBuf::from("/out"));
    assert_eq!(Context::new(PathBuf::from("/w")).output_dir, PathBuf::from("quality"));
    assert_eq!(Profile::default(), Profile::Full);
}

#[test]
fn names_are_disabled_case_insensitively() {
    let mut ctx = Context::new(PathBuf::from("/tmp"));
    ctx.disable_collector(CollectorName::Audit);
    assert!(ctx.is_name_disabled("Audit"));
    assert!(!ctx.is_name_disabled("deny"));
}
