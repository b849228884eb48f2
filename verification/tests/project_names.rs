use aiken_lang::project::{
    create_project, judge_name, package_name_from_str, starts_with, validate_name, Args,
    InvalidProjectName, InvalidProjectNameReason, PackageName, ProjectExists, Step,
};

fn refused(name: &str, reason: InvalidProjectNameReason) -> Result<(), InvalidProjectName> {
    Err(InvalidProjectName { name: name.to_string(), reason })
}

#[test]
fn an_owner_and_a_repository_make_a_project_name() {
    assert_eq!(validate_name("owner/repo"), Ok(()));
    assert_eq!(validate_name("my-org_1/my-project_2"), Ok(()));
    assert_eq!(validate_name("a/b"), Ok(()));
}

#[test]
fn a_name_that_starts_with_the_reserved_prefix_is_refused() {
    assert_eq!(
        validate_name("aiken_project"),
        refused("aiken_project", InvalidProjectNameReason::AikenPrefix)
    );
    assert_eq!(
        validate_name("aiken_owner/repo"),
        refused("aiken_owner/repo", InvalidProjectNameReason::AikenPrefix)
    );
}

#[test]
fn the_reserved_module_name_is_refused() {
    assert_eq!(validate_name("aiken"), refused("aiken", InvalidProjectNameReason::AikenReservedModule));
}

#[test]
fn a_name_of_another_shape_is_refused() {
    for name in ["project", "", "Owner/repo", "owner/Repo", "owner/repo/more", "/repo", "owner/", "own er/repo", "owner/repo\n"] {
        assert_eq!(validate_name(name), refused(name, InvalidProjectNameReason::Format));
    }
}

#[test]
fn the_verdict_follows_the_outcome_of_the_search() {
    assert_eq!(judge_name("owner/repo", Some(true)), Ok(()));
    assert_eq!(
        judge_name("owner/repo", Some(false)),
        refused("owner/repo", InvalidProjectNameReason::Format)
    );
    assert_eq!(judge_name("owner/repo", None), refused("owner/repo", InvalidProjectNameReason::Format));
    assert_eq!(
        judge_name("aiken_x/repo", Some(true)),
        refused("aiken_x/repo", InvalidProjectNameReason::AikenPrefix)
    );
    assert_eq!(
        judge_name("aiken", Some(true)),
        refused("aiken", InvalidProjectNameReason::AikenReservedModule)
    );
}

#[test]
fn a_prefix_is_found_at_the_start_only() {
    assert!(starts_with("aiken_x", "aiken_"));
    assert!(starts_with("aiken_", "aiken_"));
    assert!(starts_with("anything", ""));
    assert!(!starts_with("aiken", "aiken_"));
    assert!(!starts_with("my_aiken_x", "aiken_"));
}

#[test]
fn a_project_name_is_taken_apart_at_the_slash() {
    assert_eq!(
        package_name_from_str("owner/repo"),
        Ok(PackageName { owner: "owner".to_string(), repo: "repo".to_string() })
    );
    assert_eq!(
        package_name_from_str("/"),
        Ok(PackageName { owner: String::new(), repo: String::new() })
    );
}

#[test]
fn a_name_without_a_slash_has_no_parts() {
    assert_eq!(
        package_name_from_str("project"),
        Err(InvalidProjectName {
            name: "project".to_string(),
            reason: InvalidProjectNameReason::Format
        })
    );
}

fn package() -> PackageName {
    PackageName { owner: "owner".to_string(), repo: "repo".to_string() }
}

#[test]
fn a_package_is_written_with_a_slash() {
    assert_eq!(package().full_name(), "owner/repo");
}

#[test]
fn a_project_gets_folders_for_library_and_validators() {
    let args = Args { name: "owner/repo".to_string(), lib: false };
    assert_eq!(
        create_project(&args, &package(), false),
        Ok(vec![
            Step::LibFolder,
            Step::ValidatorsFolder,
            Step::AikenToml,
            Step::Readme,
            Step::GitIgnore
        ])
    );
}

#[test]
fn a_library_gets_no_folder_for_validators() {
    let args = Args { name: "owner/repo".to_string(), lib: true };
    assert_eq!(
        create_project(&args, &package(), false),
        Ok(vec![Step::LibFolder, Step::AikenToml, Step::Readme, Step::GitIgnore])
    );
}

#[test]
fn nothing_is_made_over_what_exists() {
    let args = Args { name: "owner/repo".to_string(), lib: false };
    assert_eq!(
        create_project(&args, &package(), true),
        Err(ProjectExists { name: "repo".to_string() })
    );
}
