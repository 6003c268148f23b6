use graph_gateway::project_ref::{ProjectRef, ProjectRefError};

#[test]
fn project_ref_ok() {
    let cases = [
        "microsoft/windows@main",
        "test/project@master",
        "__my__/_____project-with-things@branch-here",
        "1/2@3",
    ];

    for case in cases {
        assert_eq!(case, case.parse::<ProjectRef>().unwrap().to_string());
    }
}

#[test]
fn project_ref_parts_are_split_at_the_first_separators() {
    let parsed = ProjectRef::parse("acme/shop/api@feature@2").unwrap();
    assert_eq!(parsed.account(), "acme");
    assert_eq!(parsed.project(), "shop/api");
    assert_eq!(parsed.branch(), "feature@2");
}

#[test]
fn project_ref_without_slash_is_malformed() {
    assert_eq!(ProjectRef::parse("windows@main").err(), Some(ProjectRefError::Malformed));
    assert_eq!(
        "windows@main".parse::<ProjectRef>().err(),
        Some("Invalid project reference. The project reference argument must follow the format: \"account/project@branch\"")
    );
}

#[test]
fn project_ref_without_at_is_malformed() {
    assert_eq!(ProjectRef::parse("microsoft/windows").err(), Some(ProjectRefError::Malformed));
    assert_eq!(ProjectRef::parse("a@b/c").err(), Some(ProjectRefError::Malformed));
}

#[test]
fn project_ref_missing_account() {
    assert_eq!(ProjectRef::parse("/windows@main").err(), Some(ProjectRefError::MissingAccount));
    assert_eq!("/windows@main".parse::<ProjectRef>().err(), Some("The account name is missing before '/'."));
}

#[test]
fn project_ref_missing_project() {
    assert_eq!(ProjectRef::parse("microsoft/@main").err(), Some(ProjectRefError::MissingProject));
    assert_eq!("microsoft/@main".parse::<ProjectRef>().err(), Some("The project name is missing."));
}

#[test]
fn project_ref_missing_branch() {
    assert_eq!(ProjectRef::parse("microsoft/windows@").err(), Some(ProjectRefError::MissingBranch));
    assert_eq!(
        "microsoft/windows@".parse::<ProjectRef>().err(),
        Some("The branch name is missing after \"@\".")
    );
}
