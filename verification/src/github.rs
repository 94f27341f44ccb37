//! The hosting-service side of the workflow: API paths, decoding of the
//! JSON responses, per-kind response processing, and the aggregation of
//! the three metadata collections with partial-failure tolerance.

use vstd::prelude::*;

use crate::model::{MetadataError, MetadataSet};
use crate::text::{sorted, sorted_strict, sorted_dedup};

verus! {

/// A labels or teams listing entry: an object carrying a `name` field.
pub struct LabelOrTeam {
    pub name: String,
}

/// A contributors listing entry: an object carrying a `login` field.
pub struct Contributor {
    pub login: String,
}

/// A user-teams listing entry: a team name and its organization.
pub struct Team {
    pub name: String,
    pub organization: Contributor,
}

/// The `name` fields of a JSON array of objects, or nothing when the text
/// is not such an array.
pub uninterp spec fn name_records_of(data: Seq<char>) -> Option<Seq<Seq<char>>>;

/// The `login` fields of a JSON array of objects, or nothing when the
/// text is not such an array.
pub uninterp spec fn login_records_of(data: Seq<char>) -> Option<Seq<Seq<char>>>;

/// The (`name`, `organization.login`) field pairs of a JSON array of
/// objects, or nothing when the text is not such an array.
pub uninterp spec fn team_records_of(data: Seq<char>) -> Option<Seq<(Seq<char>, Seq<char>)>>;

/// Relies on serde_json::from_str and the Value accessors as_array, get
/// and as_str: decodes a JSON array of objects and extracts each object's
/// string field `name`. The result depends on the text alone.
#[verifier::external_body]
fn parse_name_records(data: &str) -> (r: Option<Vec<LabelOrTeam>>)
    ensures
        r is Some <==> name_records_of(data@) is Some,
        r matches Some(v) ==> {
            let f = name_records_of(data@)->Some_0;
            v@.len() == f.len() && forall|i: int| 0 <= i < f.len() ==> v@[i].name@ == f[i]
        },
{
    let parsed: serde_json::Value = serde_json::from_str(data).ok()?;
    let arr = parsed.as_array()?;
    arr.iter().map(
        |item| Some(LabelOrTeam { name: item.get("name")?.as_str()?.to_string() }),
    ).collect()
}

/// Relies on serde_json::from_str and the Value accessors as_array, get
/// and as_str: decodes a JSON array of objects and extracts each object's
/// string field `login`. The result depends on the text alone.
#[verifier::external_body]
fn parse_login_records(data: &str) -> (r: Option<Vec<Contributor>>)
    ensures
        r is Some <==> login_records_of(data@) is Some,
        r matches Some(v) ==> {
            let f = login_records_of(data@)->Some_0;
            v@.len() == f.len() && forall|i: int| 0 <= i < f.len() ==> v@[i].login@ == f[i]
        },
{
    let parsed: serde_json::Value = serde_json::from_str(data).ok()?;
    let arr = parsed.as_array()?;
    arr.iter().map(
        |item| Some(Contributor { login: item.get("login")?.as_str()?.to_string() }),
    ).collect()
}

/// Relies on serde_json::from_str and the Value accessors as_array, get
/// and as_str: decodes a JSON array of objects and extracts each object's
/// string field `name` together with the `login` string field of its
/// `organization` object field. The result depends on the text alone.
#[verifier::external_body]
fn parse_team_records(data: &str) -> (r: Option<Vec<Team>>)
    ensures
        r is Some <==> team_records_of(data@) is Some,
        r matches Some(v) ==> {
            let f = team_records_of(data@)->Some_0;
            v@.len() == f.len() && forall|i: int|
                0 <= i < f.len() ==> v@[i].name@ == f[i].0 && v@[i].organization.login@ == f[i].1
        },
{
    let parsed: serde_json::Value = serde_json::from_str(data).ok()?;
    let arr = parsed.as_array()?;
    arr.iter().map(
        |item| Some(Team {
            name: item.get("name")?.as_str()?.to_string(),
            organization: Contributor {
                login: item.get("organization")?.get("login")?.as_str()?.to_string(),
            },
        }),
    ).collect()
}

/// The label names carried by a labels response: exactly the `name`
/// fields, in response order; a malformed response is an error.
pub fn labels_from_response(data: &str) -> (r: Result<Vec<String>, MetadataError>)
    ensures
        r is Ok <==> name_records_of(data@) is Some,
        r matches Ok(v) ==> v.deep_view() == name_records_of(data@)->Some_0,
        r matches Err(e) ==> e == MetadataError::MalformedResponse,
{
    let recs = match parse_name_records(data) {
        Some(recs) => recs,
        None => {
            return Err(MetadataError::MalformedResponse);
        },
    };
    let ghost f = name_records_of(data@)->Some_0;
    let mut out: Vec<String> = Vec::new();
    let mut i: usize = 0;
    proof {
        assert(out.deep_view() =~= f.take(0));
    }
    while i < recs.len()
        invariant
            i <= recs.len(),
            recs@.len() == f.len(),
            forall|k: int| 0 <= k < f.len() ==> recs@[k].name@ == f[k],
            out.deep_view() == f.take(i as int),
        decreases recs.len() - i,
    {
        let ghost prev = out.deep_view();
        out.push(recs[i].name.clone());
        proof {
            assert(out.deep_view() =~= prev.push(f[i as int]));
            assert(f.take(i as int + 1) =~= f.take(i as int).push(f[i as int]));
        }
        i += 1;
    }
    proof {
        assert(f.take(f.len() as int) =~= f);
    }
    Ok(out)
}

/// A team name qualified by its organization.
pub open spec fn qualified_team(org: Seq<char>, name: Seq<char>) -> Seq<char> {
    org + "/"@ + name
}

/// The organization-qualified team names carried by an organization teams
/// response, in response order; a malformed response is an error.
pub fn teams_from_response(org: &String, data: &str) -> (r: Result<Vec<String>, MetadataError>)
    ensures
        r is Ok <==> name_records_of(data@) is Some,
        r matches Ok(v) ==> {
            let f = name_records_of(data@)->Some_0;
            v.deep_view().len() == f.len() && forall|i: int|
                0 <= i < f.len() ==> v.deep_view()[i] == qualified_team(org@, f[i])
        },
        r matches Err(e) ==> e == MetadataError::MalformedResponse,
{
    let recs = match parse_name_records(data) {
        Some(recs) => recs,
        None => {
            return Err(MetadataError::MalformedResponse);
        },
    };
    let ghost f = name_records_of(data@)->Some_0;
    let mut out: Vec<String> = Vec::new();
    let mut i: usize = 0;
    while i < recs.len()
        invariant
            i <= recs.len(),
            recs@.len() == f.len(),
            forall|k: int| 0 <= k < f.len() ==> recs@[k].name@ == f[k],
            out.deep_view().len() == i,
            forall|k: int| 0 <= k < i ==> out.deep_view()[k] == qualified_team(org@, f[k]),
        decreases recs.len() - i,
    {
        let ghost prev = out.deep_view();
        let mut q = String::new();
        q.append(org.as_str());
        q.append("/");
        q.append(recs[i].name.as_str());
        proof {
            assert(q@ =~= qualified_team(org@, f[i as int]));
        }
        out.push(q);
        proof {
            assert(out.deep_view() =~= prev.push(qualified_team(org@, f[i as int])));
        }
        i += 1;
    }
    Ok(out)
}

/// The contributor logins carried by a contributors response, sorted
/// ascending and with duplicates removed: the result is strictly sorted
/// and holds exactly the logins of the response.
pub fn contributors_from_response(data: &str) -> (r: Result<Vec<String>, MetadataError>)
    ensures
        r is Ok <==> login_records_of(data@) is Some,
        r matches Ok(v) ==> {
            let f = login_records_of(data@)->Some_0;
            sorted_strict(v.deep_view()) && sorted(v.deep_view())
                && v.deep_view().no_duplicates() && (forall|x: Seq<char>|
                v.deep_view().contains(x) <==> f.contains(x))
        },
        r matches Err(e) ==> e == MetadataError::MalformedResponse,
{
    let recs = match parse_login_records(data) {
        Some(recs) => recs,
        None => {
            return Err(MetadataError::MalformedResponse);
        },
    };
    let ghost f = login_records_of(data@)->Some_0;
    let mut logins: Vec<String> = Vec::new();
    let mut i: usize = 0;
    proof {
        assert(logins.deep_view() =~= f.take(0));
    }
    while i < recs.len()
        invariant
            i <= recs.len(),
            recs@.len() == f.len(),
            forall|k: int| 0 <= k < f.len() ==> recs@[k].login@ == f[k],
            logins.deep_view() == f.take(i as int),
        decreases recs.len() - i,
    {
        let ghost prev = logins.deep_view();
        logins.push(recs[i].login.clone());
        proof {
            assert(logins.deep_view() =~= prev.push(f[i as int]));
            assert(f.take(i as int + 1) =~= f.take(i as int).push(f[i as int]));
        }
        i += 1;
    }
    proof {
        assert(f.take(f.len() as int) =~= f);
    }
    Ok(sorted_dedup(&logins))
}

/// The team names of `pairs` whose organization login is `owner`.
pub open spec fn owned_team_names(pairs: Seq<(Seq<char>, Seq<char>)>, owner: Seq<char>) -> Seq<
    Seq<char>,
>
    decreases pairs.len(),
{
    if pairs.len() == 0 {
        Seq::empty()
    } else if pairs.last().1 == owner {
        owned_team_names(pairs.drop_last(), owner) + seq![pairs.last().0]
    } else {
        owned_team_names(pairs.drop_last(), owner)
    }
}

/// The names of the current user's teams that belong to the repository
/// owner's organization, filtered client-side from a user teams response.
pub fn user_teams_from_response(owner: &String, data: &str) -> (r: Result<
    Vec<String>,
    MetadataError,
>)
    ensures
        r is Ok <==> team_records_of(data@) is Some,
        r matches Ok(v) ==> v.deep_view() == owned_team_names(
            team_records_of(data@)->Some_0,
            owner@,
        ),
        r matches Err(e) ==> e == MetadataError::MalformedResponse,
{
    let recs = match parse_team_records(data) {
        Some(recs) => recs,
        None => {
            return Err(MetadataError::MalformedResponse);
        },
    };
    let ghost f = team_records_of(data@)->Some_0;
    let mut out: Vec<String> = Vec::new();
    let mut i: usize = 0;
    proof {
        assert(f.take(0) =~= Seq::<(Seq<char>, Seq<char>)>::empty());
        assert(out.deep_view() =~= owned_team_names(f.take(0), owner@));
    }
    while i < recs.len()
        invariant
            i <= recs.len(),
            recs@.len() == f.len(),
            forall|k: int|
                0 <= k < f.len() ==> recs@[k].name@ == f[k].0 && recs@[k].organization.login@
                    == f[k].1,
            out.deep_view() == owned_team_names(f.take(i as int), owner@),
        decreases recs.len() - i,
    {
        let ghost prev = out.deep_view();
        if recs[i].organization.login == *owner {
            out.push(recs[i].name.clone());
            proof {
                assert(out.deep_view() =~= prev.push(f[i as int].0));
            }
        }
        proof {
            assert(f.take(i as int + 1).drop_last() =~= f.take(i as int));
            assert(f.take(i as int + 1).last() == f[i as int]);
        }
        i += 1;
    }
    proof {
        assert(f.take(f.len() as int) =~= f);
    }
    Ok(out)
}

/// Merges the three per-kind fetch outcomes into one metadata set. Each
/// field depends on its own fetch alone: a failed fetch degrades to an
/// empty collection and never disturbs the other two.
pub fn aggregate_metadata(
    labels: Result<Vec<String>, MetadataError>,
    teams: Result<Vec<String>, MetadataError>,
    contributors: Result<Vec<String>, MetadataError>,
) -> (ms: MetadataSet)
    ensures
        ms.labels.deep_view() == match labels {
            Ok(v) => v.deep_view(),
            Err(_) => Seq::<Seq<char>>::empty(),
        },
        ms.teams.deep_view() == match teams {
            Ok(v) => v.deep_view(),
            Err(_) => Seq::<Seq<char>>::empty(),
        },
        ms.contributors.deep_view() == match contributors {
            Ok(v) => v.deep_view(),
            Err(_) => Seq::<Seq<char>>::empty(),
        },
{
    let ls = match labels {
        Ok(v) => v,
        Err(_) => empty_names(),
    };
    let ts = match teams {
        Ok(v) => v,
        Err(_) => empty_names(),
    };
    let cs = match contributors {
        Ok(v) => v,
        Err(_) => empty_names(),
    };
    MetadataSet { labels: ls, teams: ts, contributors: cs }
}

/// The empty collection substituted for a failed fetch.
fn empty_names() -> (r: Vec<String>)
    ensures
        r.deep_view() =~= Seq::<Seq<char>>::empty(),
{
    let r: Vec<String> = Vec::new();
    proof {
        assert(r.deep_view() =~= Seq::<Seq<char>>::empty());
    }
    r
}

/// The one pool of review candidates: teams then contributors, unioned
/// by concatenation with no canonicalization across the two.
pub fn reviewer_candidates(ms: &MetadataSet) -> (r: Vec<String>)
    ensures
        r.deep_view() == ms.teams.deep_view() + ms.contributors.deep_view(),
{
    let ghost ts = ms.teams.deep_view();
    let ghost cs = ms.contributors.deep_view();
    let mut r: Vec<String> = Vec::new();
    let mut i: usize = 0;
    proof {
        assert(r.deep_view() =~= ts.take(0));
    }
    while i < ms.teams.len()
        invariant
            i <= ms.teams.len(),
            ts == ms.teams.deep_view(),
            cs == ms.contributors.deep_view(),
            ts.len() == ms.teams.len(),
            r.deep_view() == ts.take(i as int),
        decreases ms.teams.len() - i,
    {
        let ghost prev = r.deep_view();
        r.push(ms.teams[i].clone());
        proof {
            assert(r.deep_view() =~= prev.push(ts[i as int]));
            assert(ts.take(i as int + 1) =~= ts.take(i as int).push(ts[i as int]));
        }
        i += 1;
    }
    let mut j: usize = 0;
    proof {
        assert(ts.take(ts.len() as int) =~= ts);
        assert(r.deep_view() =~= ts + cs.take(0));
    }
    while j < ms.contributors.len()
        invariant
            j <= ms.contributors.len(),
            ts == ms.teams.deep_view(),
            cs == ms.contributors.deep_view(),
            cs.len() == ms.contributors.len(),
            r.deep_view() == ts + cs.take(j as int),
        decreases ms.contributors.len() - j,
    {
        let ghost prev = r.deep_view();
        r.push(ms.contributors[j].clone());
        proof {
            assert(r.deep_view() =~= prev.push(cs[j as int]));
            assert(ts + cs.take(j as int + 1) =~= (ts + cs.take(j as int)).push(cs[j as int]));
        }
        j += 1;
    }
    proof {
        assert(cs.take(cs.len() as int) =~= cs);
    }
    r
}

/// The kinds of repository listings the aggregator requests.
pub enum GithubEntity {
    Teams,
    Contributors,
    Labels,
}

impl GithubEntity {
    pub open spec fn spec_str(&self) -> Seq<char> {
        match self {
            GithubEntity::Teams => "teams"@,
            GithubEntity::Contributors => "contributors"@,
            GithubEntity::Labels => "labels"@,
        }
    }

    /// The path segment naming this listing kind.
    pub fn as_str(&self) -> (r: &'static str)
        ensures
            r@ == self.spec_str(),
    {
        match self {
            GithubEntity::Teams => "teams",
            GithubEntity::Contributors => "contributors",
            GithubEntity::Labels => "labels",
        }
    }
}

/// The API path of a repository listing of the given kind.
pub fn repo_list_path(gh_entity: &GithubEntity, org: &String, repo: &String) -> (r: String)
    ensures
        r@ == "/repos/"@ + org@ + "/"@ + repo@ + "/"@ + gh_entity.spec_str(),
{
    let mut r = String::from_str("/repos/");
    r.append(org.as_str());
    r.append("/");
    r.append(repo.as_str());
    r.append("/");
    r.append(gh_entity.as_str());
    r
}

/// The API path of an organization's team listing.
pub fn org_teams_path(org: &String) -> (r: String)
    ensures
        r@ == "/orgs/"@ + org@ + "/teams"@,
{
    let mut r = String::from_str("/orgs/");
    r.append(org.as_str());
    r.append("/teams");
    r
}

/// The repository parameters the workflow resolves at startup.
pub enum RepoParameters {
    Name,
    Owner,
}

/// The field argument and query of the repository view that resolves the
/// given parameter.
pub fn repo_parameter_query(parameter: &RepoParameters) -> (r: (&'static str, &'static str))
    ensures
        parameter is Owner ==> r.0@ == "owner"@ && r.1@ == ".owner | .login"@,
        parameter is Name ==> r.0@ == "name"@ && r.1@ == ".name"@,
{
    match parameter {
        RepoParameters::Owner => ("owner", ".owner | .login"),
        RepoParameters::Name => ("name", ".name"),
    }
}

} // verus!
