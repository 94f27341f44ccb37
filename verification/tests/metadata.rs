use pyarr::github::{
    aggregate_metadata, contributors_from_response, labels_from_response, org_teams_path,
    repo_list_path, repo_parameter_query, reviewer_candidates, teams_from_response,
    user_teams_from_response, GithubEntity, RepoParameters,
};
use pyarr::model::MetadataError;

#[test]
fn labels_are_extracted_in_response_order() {
    let data = "[{\"name\":\"bug\"},{\"name\":\"needs-review\"}]";
    assert_eq!(labels_from_response(data).unwrap(), vec!["bug", "needs-review"]);
}

#[test]
fn labels_tolerate_extra_fields() {
    let data = "[{\"name\":\"bug\",\"color\":\"red\"}]";
    assert_eq!(labels_from_response(data).unwrap(), vec!["bug"]);
}

#[test]
fn malformed_label_responses_are_errors() {
    assert_eq!(
        labels_from_response("not json").unwrap_err(),
        MetadataError::MalformedResponse
    );
    assert_eq!(
        labels_from_response("{\"name\":\"bug\"}").unwrap_err(),
        MetadataError::MalformedResponse
    );
    assert_eq!(
        labels_from_response("[{\"label\":\"bug\"}]").unwrap_err(),
        MetadataError::MalformedResponse
    );
}

#[test]
fn team_names_are_qualified_by_organization() {
    let data = "[{\"name\":\"platform\"},{\"name\":\"infra\"}]";
    let teams = teams_from_response(&"org".to_string(), data).unwrap();
    assert_eq!(teams, vec!["org/platform", "org/infra"]);
}

#[test]
fn contributors_are_sorted_and_duplicate_free() {
    let data = "[{\"login\":\"bob\"},{\"login\":\"alice\"},{\"login\":\"bob\"},{\"login\":\"carol\"}]";
    assert_eq!(
        contributors_from_response(data).unwrap(),
        vec!["alice", "bob", "carol"]
    );
}

#[test]
fn user_teams_are_filtered_by_owner() {
    let data = "[{\"name\":\"platform\",\"organization\":{\"login\":\"acme\"}},\
                 {\"name\":\"design\",\"organization\":{\"login\":\"other\"}},\
                 {\"name\":\"infra\",\"organization\":{\"login\":\"acme\"}}]";
    let teams = user_teams_from_response(&"acme".to_string(), data).unwrap();
    assert_eq!(teams, vec!["platform", "infra"]);
}

#[test]
fn one_failed_fetch_leaves_the_other_two_intact() {
    let ms = aggregate_metadata(
        Err(MetadataError::FetchFailed),
        Ok(vec!["org/platform".to_string()]),
        Ok(vec!["alice".to_string(), "bob".to_string()]),
    );
    assert!(ms.labels.is_empty());
    assert_eq!(ms.teams, vec!["org/platform"]);
    assert_eq!(ms.contributors, vec!["alice", "bob"]);
}

#[test]
fn all_failed_fetches_degrade_to_empty_sets() {
    let ms = aggregate_metadata(
        Err(MetadataError::MalformedResponse),
        Err(MetadataError::FetchFailed),
        Err(MetadataError::FetchFailed),
    );
    assert!(ms.labels.is_empty());
    assert!(ms.teams.is_empty());
    assert!(ms.contributors.is_empty());
}

#[test]
fn reviewer_pool_unions_teams_and_contributors() {
    let ms = aggregate_metadata(
        Ok(vec!["bug".to_string()]),
        Ok(vec!["org/platform".to_string()]),
        Ok(vec!["alice".to_string(), "bob".to_string()]),
    );
    assert_eq!(
        reviewer_candidates(&ms),
        vec!["org/platform", "alice", "bob"]
    );
}

#[test]
fn entity_path_segments() {
    assert_eq!(GithubEntity::Teams.as_str(), "teams");
    assert_eq!(GithubEntity::Contributors.as_str(), "contributors");
    assert_eq!(GithubEntity::Labels.as_str(), "labels");
}

#[test]
fn api_paths() {
    assert_eq!(
        repo_list_path(&GithubEntity::Labels, &"acme".to_string(), &"widget".to_string()),
        "/repos/acme/widget/labels"
    );
    assert_eq!(org_teams_path(&"acme".to_string()), "/orgs/acme/teams");
}

#[test]
fn repo_parameter_queries() {
    assert_eq!(repo_parameter_query(&RepoParameters::Owner), ("owner", ".owner | .login"));
    assert_eq!(repo_parameter_query(&RepoParameters::Name), ("name", ".name"));
}
