use nocta_core::deps::{
    check_project_requirements, declared_dependencies, get_installed_dependencies_at,
    missing_dependencies, yarn_declared_satisfies, InstalledModule, ProjectPackages,
    RequirementIssue, RequirementIssueReason,
};
use nocta_core::string_map::StringMap;
use nocta_core::versions::{
    extract_major, extract_version_from_spec, normalize_version_str, parse_version,
    range_accepts_version, version_candidate_of,
};

fn map(entries: &[(&str, &str)]) -> StringMap {
    StringMap {
        entries: entries.iter().map(|(k, v)| (k.to_string(), v.to_string())).collect(),
    }
}

fn project(declared: &[(&str, &str)], modules: &[(&str, Option<&str>)], pnp: bool) -> ProjectPackages {
    ProjectPackages {
        declared: map(declared),
        modules: modules
            .iter()
            .map(|(name, version)| InstalledModule {
                name: name.to_string(),
                version: version.map(|v| v.to_string()),
            })
            .collect(),
        uses_yarn_pnp: pnp,
    }
}

#[test]
fn higher_major_satisfies_a_caret_range() {
    let project = project(&[("react", "^2.3.0")], &[("react", Some("2.3.0"))], false);
    let issues = check_project_requirements(&project, &map(&[("react", "^1.0.0")]));
    assert!(issues.is_empty());
    assert!(!range_accepts_version("^1.0.0", "2.3.0"));
}

#[test]
fn equal_major_outside_the_range_is_outdated() {
    let project = project(&[("react", "^1.0.0")], &[("react", Some("1.2.0"))], false);
    let issues = check_project_requirements(&project, &map(&[("react", "^1.5.0")]));
    assert_eq!(
        issues,
        vec![RequirementIssue {
            name: "react".to_string(),
            required: "^1.5.0".to_string(),
            installed: Some("1.2.0".to_string()),
            declared: None,
            reason: RequirementIssueReason::Outdated,
        }]
    );
}

#[test]
fn version_in_range_is_satisfied() {
    let project = project(&[], &[("clsx", Some("v2.1.0"))], false);
    assert!(check_project_requirements(&project, &map(&[("clsx", "^2.0.0")])).is_empty());
}

#[test]
fn absent_package_is_missing() {
    let project = project(&[], &[], false);
    let issues = check_project_requirements(&project, &map(&[("clsx", "^2.0.0")]));
    assert_eq!(
        issues,
        vec![RequirementIssue {
            name: "clsx".to_string(),
            required: "^2.0.0".to_string(),
            installed: None,
            declared: None,
            reason: RequirementIssueReason::Missing,
        }]
    );
}

#[test]
fn declared_but_not_installed_is_outdated() {
    let project = project(&[("clsx", "^2.0.0")], &[], false);
    let issues = check_project_requirements(&project, &map(&[("clsx", "^2.0.0")]));
    assert_eq!(issues.len(), 1);
    assert_eq!(issues[0].reason, RequirementIssueReason::Outdated);
    assert_eq!(issues[0].declared, Some("^2.0.0".to_string()));
    assert_eq!(issues[0].installed, None);
}

#[test]
fn yarn_pnp_accepts_a_declared_range_that_agrees() {
    let project = project(&[("clsx", "^2.1.0")], &[], true);
    assert!(check_project_requirements(&project, &map(&[("clsx", "^2.0.0")])).is_empty());
    let project = project_with_pnp_mismatch();
    let issues = check_project_requirements(&project, &map(&[("clsx", "^2.0.0")]));
    assert_eq!(issues.len(), 1);
    assert_eq!(issues[0].reason, RequirementIssueReason::Outdated);
}

fn project_with_pnp_mismatch() -> ProjectPackages {
    project(&[("clsx", "^1.0.0")], &[], true)
}

#[test]
fn yarn_pnp_without_declaration_is_missing() {
    let project = project(&[], &[], true);
    let issues = check_project_requirements(&project, &map(&[("clsx", "^2.0.0")]));
    assert_eq!(issues.len(), 1);
    assert_eq!(issues[0].reason, RequirementIssueReason::Missing);
}

#[test]
fn unreadable_version_is_unknown() {
    let project = project(&[], &[("clsx", None)], false);
    let issues = check_project_requirements(&project, &map(&[("clsx", "^2.0.0")]));
    assert_eq!(
        issues,
        vec![RequirementIssue {
            name: "clsx".to_string(),
            required: "^2.0.0".to_string(),
            installed: None,
            declared: None,
            reason: RequirementIssueReason::Unknown,
        }]
    );
}

#[test]
fn unparsable_installed_version_is_unknown_and_kept_as_declared() {
    let project = project(&[], &[("clsx", Some("latest"))], false);
    let issues = check_project_requirements(&project, &map(&[("clsx", "^2.0.0")]));
    assert_eq!(issues.len(), 1);
    assert_eq!(issues[0].reason, RequirementIssueReason::Unknown);
    assert_eq!(issues[0].installed, None);
    assert_eq!(issues[0].declared, Some("latest".to_string()));
}

#[test]
fn installed_module_falls_back_to_the_declared_range() {
    let project = project(&[("clsx", "1.0.0")], &[("clsx", None)], false);
    let issues = check_project_requirements(&project, &map(&[("clsx", "^2.0.0")]));
    assert_eq!(issues.len(), 1);
    assert_eq!(issues[0].reason, RequirementIssueReason::Outdated);
    assert_eq!(issues[0].installed, Some("1.0.0".to_string()));
    assert_eq!(issues[0].declared, None);
}

#[test]
fn issues_follow_the_order_of_the_requirements() {
    let project = project(&[], &[("b", Some("1.0.0"))], false);
    let issues = check_project_requirements(
        &project,
        &map(&[("c", "^1.0.0"), ("b", "^1.0.0"), ("a", "^1.0.0")]),
    );
    let names: Vec<&str> = issues.iter().map(|i| i.name.as_str()).collect();
    assert_eq!(names, vec!["c", "a"]);
}

#[test]
fn major_is_the_first_run_of_digits() {
    assert_eq!(extract_major("^1.2.3"), Some(1));
    assert_eq!(extract_major("v18.0.0"), Some(18));
    assert_eq!(extract_major(">=007"), Some(7));
    assert_eq!(extract_major("latest"), None);
    assert_eq!(extract_major(""), None);
    assert_eq!(extract_major("18446744073709551615"), Some(u64::MAX));
    assert_eq!(extract_major("18446744073709551616"), None);
    assert_eq!(extract_major("vv2"), Some(2));
}

#[test]
fn version_text_is_normalized_and_parsed() {
    assert_eq!(normalize_version_str("v1.2.3"), "1.2.3");
    assert_eq!(normalize_version_str("1.2.3"), "1.2.3");
    assert_eq!(parse_version("v1.2.3"), Some("1.2.3".to_string()));
    assert_eq!(parse_version("1.2.3-beta.1+build"), Some("1.2.3-beta.1+build".to_string()));
    assert_eq!(parse_version("1.2"), None);
    assert_eq!(parse_version("^1.2.3"), None);
}

#[test]
fn ranges_accept_matching_versions_only() {
    assert!(range_accepts_version("^2.0.0", "2.3.1"));
    assert!(!range_accepts_version("^2.0.0", "3.0.0"));
    assert!(!range_accepts_version("not a range", "2.0.0"));
    assert!(!range_accepts_version("^2.0.0", "not a version"));
    assert!(range_accepts_version(">=1.0.0, <2.0.0", "1.9.9"));
}

#[test]
fn version_is_found_inside_a_specification() {
    assert_eq!(version_candidate_of("^2.1.0"), Some("2.1.0".to_string()));
    assert_eq!(version_candidate_of("npm:pkg@1.0.0-rc.1 || 2"), Some("1.0.0-".to_string()));
    assert_eq!(version_candidate_of("latest"), None);
    assert_eq!(extract_version_from_spec("~1.4.2"), Some("1.4.2".to_string()));
    assert_eq!(extract_version_from_spec(">=1.4"), None);
}

#[test]
fn declared_and_required_ranges_agree_either_way() {
    assert!(yarn_declared_satisfies("^2.0.0", "^2.1.0"));
    assert!(yarn_declared_satisfies("^2.1.0", "^2.0.0"));
    assert!(!yarn_declared_satisfies("^2.0.0", "^1.0.0"));
    assert!(!yarn_declared_satisfies("^2.0.0", "workspace:*"));
}

#[test]
fn missing_dependencies_are_those_not_installed() {
    let required = map(&[("c", "3"), ("b", "2"), ("a", "1")]);
    let installed = map(&[("b", "2.0.0")]);
    assert_eq!(missing_dependencies(&required, &installed), map(&[("a", "1"), ("c", "3")]));
}

#[test]
fn declared_dependencies_merge_with_dev_winning() {
    let merged = declared_dependencies(&map(&[("a", "1"), ("b", "2")]), &map(&[("b", "3"), ("c", "4")]));
    assert_eq!(merged, map(&[("a", "1"), ("b", "3"), ("c", "4")]));
}

#[test]
fn installed_versions_take_the_place_of_declared_ranges() {
    let project = project(&[("a", "^1.0.0"), ("b", "^2.0.0")], &[("b", Some("2.4.0")), ("a", None)], false);
    assert_eq!(
        get_installed_dependencies_at(&project),
        map(&[("a", "^1.0.0"), ("b", "2.4.0")])
    );
}
