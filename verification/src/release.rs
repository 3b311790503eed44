//! Release orchestration decisions: which webhook events start a release,
//! which builds must finish before a group is triggered, how build
//! artifacts are kept, and the texts of the release and its replies.
use vstd::prelude::*;
use crate::build_monitor::BuildStatus;
use crate::codec::{hex_encode, hex_encode_spec, sha256, sha256_spec};
use crate::dependency::{deps_of, DependencyGraph};
use crate::error::GovernanceError;
use crate::strings::{contains_str, nat_digits, str_eq, u64_to_decimal};

verus! {

broadcast use vstd::string::group_string_axioms;

/// A build artifact of a workflow run.
#[derive(Debug, Clone)]
pub struct Artifact {
    pub name: String,
    pub size: u64,
    pub download_url: String,
    pub content_type: String,
    /// Downloaded data.
    pub data: Option<Vec<u8>>,
    /// Hex SHA-256 of the data, once downloaded.
    pub sha256: Option<String>,
    /// Expiry time in milliseconds since the Unix epoch, when known.
    pub expires_at_ms: Option<i64>,
}

/// An artifact is downloaded when it has a download URL and has not expired.
pub fn should_download(artifact: &Artifact, now_ms: i64) -> (res: bool)
    ensures
        res == (artifact.download_url@.len() > 0 && match artifact.expires_at_ms {
            Some(e) => now_ms <= e,
            None => true,
        }),
{
    if artifact.download_url.as_str().unicode_len() == 0 {
        return false;
    }
    match artifact.expires_at_ms {
        Some(e) => now_ms <= e,
        None => true,
    }
}

/// Keep downloaded data with its hex SHA-256.
pub fn record_download(artifact: &mut Artifact, data: Vec<u8>)
    ensures
        final(artifact).data == Some(data),
        final(artifact).sha256 matches Some(h) && h@ == hex_encode_spec(sha256_spec(data@)),
        final(artifact).name == old(artifact).name,
        final(artifact).size == old(artifact).size,
        final(artifact).download_url == old(artifact).download_url,
        final(artifact).content_type == old(artifact).content_type,
        final(artifact).expires_at_ms == old(artifact).expires_at_ms,
{
    let digest = sha256(data.as_slice());
    let hex = hex_encode(&digest);
    artifact.data = Some(data);
    artifact.sha256 = Some(hex);
}

/// The `Debug` name of a build status.
pub open spec fn status_name(s: BuildStatus) -> Seq<char> {
    match s {
        BuildStatus::Pending => "Pending"@,
        BuildStatus::InProgress => "InProgress"@,
        BuildStatus::Success => "Success"@,
        BuildStatus::Failure => "Failure"@,
        BuildStatus::Cancelled => "Cancelled"@,
        BuildStatus::TimedOut => "TimedOut"@,
    }
}

/// The `Debug` name of a build status.
pub fn build_status_name(s: BuildStatus) -> (res: &'static str)
    ensures
        res@ == status_name(s),
{
    match s {
        BuildStatus::Pending => "Pending",
        BuildStatus::InProgress => "InProgress",
        BuildStatus::Success => "Success",
        BuildStatus::Failure => "Failure",
        BuildStatus::Cancelled => "Cancelled",
        BuildStatus::TimedOut => "TimedOut",
    }
}

/// The repository_dispatch event that triggers a repository's build.
pub fn dispatch_event_type(repo: &str) -> (res: &'static str)
    ensures
        res@ == if repo@ == "bllvm-commons"@ { "build-request"@ } else { "build-chain"@ },
{
    if str_eq(repo, "bllvm-commons") { "build-request" } else { "build-chain" }
}

/// The organization part of an "org/repo" name: the text before the first
/// '/', or the whole name.
pub open spec fn organization_spec(repo: Seq<char>) -> Seq<char> {
    if exists|i: int| 0 <= i < repo.len() && repo[i] == '/' {
        repo.take(choose|i: int| 0 <= i < repo.len() && repo[i] == '/' && forall|j: int| 0 <= j < i ==> repo[j] != '/')
    } else {
        repo
    }
}

/// The organization part of an "org/repo" name.
pub fn organization_from_repo(governance_repo: &str) -> (res: String)
    ensures
        res@ == organization_spec(governance_repo@),
{
    let cs = crate::strings::chars_of(governance_repo);
    let mut i: usize = 0;
    while i < cs.len() && cs[i] != '/'
        invariant
            i <= cs@.len(),
            cs@ == governance_repo@,
            forall|j: int| 0 <= j < i ==> cs@[j] != '/',
        decreases cs@.len() - i,
    {
        i = i + 1;
    }
    let mut out: Vec<char> = Vec::new();
    let mut k: usize = 0;
    while k < i
        invariant
            k <= i <= cs@.len(),
            out@ == cs@.take(k as int),
        decreases i - k,
    {
        out.push(cs[k]);
        k = k + 1;
        assert(out@ =~= cs@.take(k as int));
    }
    proof {
        if i < cs@.len() {
            let c = choose|c: int| 0 <= c < cs@.len() && cs@[c] == '/' && forall|j: int| 0 <= j < c ==> cs@[j] != '/';
            assert(cs@[i as int] == '/');
            assert(c == i) by {
                if c < i {
                    assert(cs@[c] != '/');
                } else if c > i {
                    assert(cs@[i as int] != '/');
                }
            }
        } else {
            assert(out@ =~= cs@);
        }
    }
    crate::strings::string_from_chars(&out)
}

/// The release title.
pub fn release_title(version: &str) -> (res: String)
    ensures
        res@ == "Bitcoin Commons "@ + version@,
{
    let mut t = String::from_str("Bitcoin Commons ");
    t.append(version);
    t
}

/// The name an artifact is uploaded under: the repository, '-', and the artifact name.
pub fn asset_name(repo: &str, artifact_name: &str) -> (res: String)
    ensures
        res@ == repo@ + "-"@ + artifact_name@,
{
    let mut t = String::from_str(repo);
    t.append("-");
    t.append(artifact_name);
    t
}

/// The lines listing one repository's artifacts.
pub open spec fn artifact_lines(arts: Seq<Artifact>) -> Seq<char>
    decreases arts.len(),
{
    if arts.len() == 0 {
        Seq::empty()
    } else {
        artifact_lines(arts.drop_last()) + "- "@ + arts.last().name@ + " ("@ + nat_digits(arts.last().size as nat)
            + " bytes)\n"@
    }
}

/// The sections of the release body, one per repository.
pub open spec fn artifact_sections(all: Seq<(String, Vec<Artifact>)>) -> Seq<char>
    decreases all.len(),
{
    if all.len() == 0 {
        Seq::empty()
    } else {
        artifact_sections(all.drop_last()) + "### "@ + all.last().0@ + "\n\n"@ + artifact_lines(all.last().1@)
            + "\n"@
    }
}

/// The release body: a heading for the version, then for each repository
/// its artifacts with their sizes.
pub open spec fn release_body_spec(version: Seq<char>, all: Seq<(String, Vec<Artifact>)>) -> Seq<char> {
    "Bitcoin Commons Release "@ + version
        + "\n\nThis release was orchestrated by bllvm-commons.\n\n## Artifacts\n\n"@ + artifact_sections(all)
}

/// The release body listing the artifacts of each repository.
pub fn release_body(version: &str, artifacts: &Vec<(String, Vec<Artifact>)>) -> (res: String)
    ensures
        res@ == release_body_spec(version@, artifacts@),
{
    let mut body = String::from_str("Bitcoin Commons Release ");
    body.append(version);
    body.append("\n\nThis release was orchestrated by bllvm-commons.\n\n## Artifacts\n\n");
    let ghost head = body@;
    let mut i: usize = 0;
    while i < artifacts.len()
        invariant
            i <= artifacts@.len(),
            body@ == head + artifact_sections(artifacts@.take(i as int)),
        decreases artifacts@.len() - i,
    {
        assert(artifacts@.take(i + 1).drop_last() =~= artifacts@.take(i as int));
        let (repo, arts) = (&artifacts[i].0, &artifacts[i].1);
        let ghost before = body@;
        body.append("### ");
        body.append(repo.as_str());
        body.append("\n\n");
        let ghost mid = body@;
        let mut k: usize = 0;
        while k < arts.len()
            invariant
                k <= arts@.len(),
                body@ == mid + artifact_lines(arts@.take(k as int)),
            decreases arts@.len() - k,
        {
            assert(arts@.take(k + 1).drop_last() =~= arts@.take(k as int));
            body.append("- ");
            body.append(arts[k].name.as_str());
            body.append(" (");
            let size = u64_to_decimal(arts[k].size);
            body.append(size.as_str());
            body.append(" bytes)\n");
            k = k + 1;
        }
        assert(arts@.take(arts@.len() as int) =~= arts@);
        body.append("\n");
        i = i + 1;
    }
    assert(artifacts@.take(artifacts@.len() as int) =~= artifacts@);
    body
}

/// What a release event asks for.
#[derive(Debug, Clone)]
pub enum ReleaseAction {
    /// Orchestrate builds for this tag.
    Orchestrate { tag_name: String, prerelease: bool },
    /// Not a published release; the reply gives the reason.
    Ignore { reason: String },
}

/// The parts of a release webhook payload that matter: the action (when it
/// is text), and, when the payload has a release, its tag name (when it is
/// text) and prerelease flag.
#[derive(Debug, Clone)]
pub struct ReleaseEvent {
    pub action: Option<String>,
    pub release: Option<(Option<String>, Option<bool>)>,
}

/// Decide what to do with a release event: it needs a release with a tag
/// name; only the "published" action (a missing action counts as
/// "unknown") starts orchestration, whose prerelease flag defaults to false.
pub fn decide_release_event(event: &ReleaseEvent) -> (res: Result<ReleaseAction, GovernanceError>)
    ensures
        match event.release {
            None => res matches Err(e) && e is GitHubError && e.message() == "Missing release in payload"@,
            Some((None, _)) => res matches Err(e) && e is GitHubError && e.message() == "Missing tag_name in release"@,
            Some((Some(tag), pre)) => {
                let action = match event.action { Some(a) => a@, None => "unknown"@ };
                if action == "published"@ {
                    res matches Ok(ReleaseAction::Orchestrate { tag_name, prerelease })
                        && tag_name@ == tag@ && prerelease == match pre { Some(p) => p, None => false }
                } else {
                    res matches Ok(ReleaseAction::Ignore { reason }) && reason@ == "Action "@ + action + " not handled"@
                }
            },
        },
{
    let (tag, pre) = match &event.release {
        None => {
            return Err(GovernanceError::GitHubError(String::from_str("Missing release in payload")));
        },
        Some((None, _)) => {
            return Err(GovernanceError::GitHubError(String::from_str("Missing tag_name in release")));
        },
        Some((Some(t), p)) => (t, p),
    };
    let action: String = match &event.action {
        Some(a) => a.clone(),
        None => String::from_str("unknown"),
    };
    if str_eq(action.as_str(), "published") {
        let prerelease = match pre {
            Some(p) => *p,
            None => false,
        };
        Ok(ReleaseAction::Orchestrate { tag_name: tag.clone(), prerelease })
    } else {
        let mut reason = String::from_str("Action ");
        reason.append(action.as_str());
        reason.append(" not handled");
        Ok(ReleaseAction::Ignore { reason })
    }
}

/// The reply message after orchestration: success names the tag, failure
/// gives the error message.
pub fn orchestration_reply(tag_name: &str, outcome: &Result<(), String>) -> (res: (bool, String))
    ensures
        match outcome {
            Ok(_) => res.0 && res.1@ == "Build orchestration started for "@ + tag_name@,
            Err(e) => !res.0 && res.1@ == "Failed to orchestrate builds: "@ + e@,
        },
{
    match outcome {
        Ok(_) => {
            let mut m = String::from_str("Build orchestration started for ");
            m.append(tag_name);
            (true, m)
        },
        Err(e) => {
            let mut m = String::from_str("Failed to orchestrate builds: ");
            m.append(e.as_str());
            (false, m)
        },
    }
}

/// The repositories (with their run ids) whose builds must finish before
/// the builds of `group` start: each dependency of a group member that was
/// triggered and has not completed, in order, each once.
pub open spec fn awaited_spec(g: crate::dependency::GraphView, group: Seq<Seq<char>>, triggered: Seq<(Seq<char>, u64)>, completed: Seq<Seq<char>>) -> Seq<(Seq<char>, u64)>
    decreases group.len(),
{
    if group.len() == 0 {
        Seq::empty()
    } else {
        let prev = awaited_spec(g, group.drop_last(), triggered, completed);
        awaited_for(deps_of(g, group.last()), triggered, completed, prev)
    }
}

/// Add the awaited dependencies from `deps` to `acc`.
pub open spec fn awaited_for(deps: Seq<Seq<char>>, triggered: Seq<(Seq<char>, u64)>, completed: Seq<Seq<char>>, acc: Seq<(Seq<char>, u64)>) -> Seq<(Seq<char>, u64)>
    decreases deps.len(),
{
    if deps.len() == 0 {
        acc
    } else {
        let prev = awaited_for(deps.drop_last(), triggered, completed, acc);
        let d = deps.last();
        if completed.contains(d) || (exists|k: int| 0 <= k < prev.len() && prev[k].0 == d) {
            prev
        } else {
            match run_of(triggered, d) {
                Some(id) => prev.push((d, id)),
                None => prev,
            }
        }
    }
}

/// The run id recorded for a repository (the first record), if any.
pub open spec fn run_of(triggered: Seq<(Seq<char>, u64)>, repo: Seq<char>) -> Option<u64>
    decreases triggered.len(),
{
    if triggered.len() == 0 {
        None
    } else if triggered[0].0 == repo {
        Some(triggered[0].1)
    } else {
        run_of(triggered.drop_first(), repo)
    }
}

/// The text view of (repository, run id) records.
pub open spec fn runs_view(r: Seq<(String, u64)>) -> Seq<(Seq<char>, u64)> {
    Seq::new(r.len(), |i: int| (r[i].0@, r[i].1))
}

/// The run id recorded for a repository.
fn find_run(triggered: &Vec<(String, u64)>, repo: &str) -> (res: Option<u64>)
    ensures
        res == run_of(runs_view(triggered@), repo@),
{
    let ghost tv = runs_view(triggered@);
    let mut i: usize = 0;
    assert(tv.skip(0) =~= tv);
    while i < triggered.len()
        invariant
            i <= triggered@.len(),
            tv == runs_view(triggered@),
            run_of(tv, repo@) == run_of(tv.skip(i as int), repo@),
        decreases triggered@.len() - i,
    {
        assert(tv.skip(i as int).drop_first() =~= tv.skip(i + 1));
        assert(tv.skip(i as int)[0] == (triggered@[i as int].0@, triggered@[i as int].1));
        if str_eq(triggered[i].0.as_str(), repo) {
            return Some(triggered[i].1);
        }
        i = i + 1;
    }
    None
}

/// Whether a (repository, run id) list holds the repository.
fn listed(acc: &Vec<(String, u64)>, repo: &str) -> (res: bool)
    ensures
        res == exists|k: int| 0 <= k < acc@.len() && runs_view(acc@)[k].0 == repo@,
{
    let mut i: usize = 0;
    while i < acc.len()
        invariant
            i <= acc@.len(),
            forall|k: int| 0 <= k < i ==> runs_view(acc@)[k].0 != repo@,
        decreases acc@.len() - i,
    {
        if str_eq(acc[i].0.as_str(), repo) {
            assert(runs_view(acc@)[i as int].0 == repo@);
            return true;
        }
        i = i + 1;
    }
    false
}

impl DependencyGraph {
    /// The dependency builds to wait for before triggering `group`.
    pub fn dependencies_to_await(&self, group: &Vec<String>, triggered: &Vec<(String, u64)>, completed: &Vec<String>) -> (res: Vec<(String, u64)>)
        ensures
            runs_view(res@) == awaited_spec(self@, group.deep_view(), runs_view(triggered@), completed.deep_view()),
    {
        let ghost gv = group.deep_view();
        let mut acc: Vec<(String, u64)> = Vec::new();
        let mut i: usize = 0;
        while i < group.len()
            invariant
                i <= group@.len(),
                gv == group.deep_view(),
                runs_view(acc@) == awaited_spec(self@, gv.take(i as int), runs_view(triggered@), completed.deep_view()),
            decreases group@.len() - i,
        {
            assert(gv.take(i + 1).drop_last() =~= gv.take(i as int));
            assert(gv.take(i + 1).last() == group@[i as int]@);
            let deps = self.get_dependencies(group[i].as_str());
            let ghost dv = deps.deep_view();
            let ghost start = runs_view(acc@);
            let mut k: usize = 0;
            while k < deps.len()
                invariant
                    k <= deps@.len(),
                    dv == deps.deep_view(),
                    runs_view(acc@) == awaited_for(dv.take(k as int), runs_view(triggered@), completed.deep_view(), start),
                decreases deps@.len() - k,
            {
                assert(dv.take(k + 1).drop_last() =~= dv.take(k as int));
                assert(dv.take(k + 1).last() == deps@[k as int]@);
                let d = deps[k].as_str();
                if !contains_str(completed, d) && !listed(&acc, d) {
                    match find_run(triggered, d) {
                        Some(id) => {
                            let ghost a0 = acc@;
                            acc.push((String::from_str(d), id));
                            assert(runs_view(acc@) =~= runs_view(a0).push((d@, id)));
                        },
                        None => {},
                    }
                }
                k = k + 1;
            }
            assert(dv.take(dv.len() as int) =~= dv);
            i = i + 1;
        }
        assert(gv.take(gv.len() as int) =~= gv);
        acc
    }
}

/// The error for a dependency build that did not succeed.
pub fn dependency_failed_error(dep: &str, status: BuildStatus) -> (res: GovernanceError)
    ensures
        res is BuildError,
        res.message() == "Dependency "@ + dep@ + " failed with status: "@ + status_name(status),
{
    let mut m = String::from_str("Dependency ");
    m.append(dep);
    m.append(" failed with status: ");
    m.append(build_status_name(status));
    GovernanceError::BuildError(m)
}

/// The first build result that is not a success, as an error.
pub fn first_failed_build(results: &Vec<(String, BuildStatus)>) -> (res: Result<(), GovernanceError>)
    ensures
        res is Ok <==> forall|i: int| 0 <= i < results@.len() ==> (#[trigger] results@[i]).1 == BuildStatus::Success,
        res matches Err(e) ==> e is BuildError && exists|i: int| 0 <= i < results@.len()
            && results@[i].1 != BuildStatus::Success
            && (forall|j: int| 0 <= j < i ==> (#[trigger] results@[j]).1 == BuildStatus::Success)
            && e.message() == "Build failed for "@ + results@[i].0@ + ": "@ + status_name(results@[i].1),
{
    let mut i: usize = 0;
    while i < results.len()
        invariant
            i <= results@.len(),
            forall|j: int| 0 <= j < i ==> (#[trigger] results@[j]).1 == BuildStatus::Success,
        decreases results@.len() - i,
    {
        if results[i].1 != BuildStatus::Success {
            let mut m = String::from_str("Build failed for ");
            m.append(results[i].0.as_str());
            m.append(": ");
            m.append(build_status_name(results[i].1));
            return Err(GovernanceError::BuildError(m));
        }
        i = i + 1;
    }
    Ok(())
}

} // verus!
