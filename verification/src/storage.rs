use crate::types::TrackerError;
use std::path::PathBuf;
use vstd::prelude::*;

verus! {

#[verifier::external_type_specification]
#[verifier::external_body]
pub struct ExPathBuf(PathBuf);

/// Calls `dirs::home_dir`. What it returns depends on the environment (`$HOME`, the
/// user database, the platform), so nothing is stated of the result.
#[verifier::external_body]
fn home_dir() -> (home: Option<PathBuf>) {
    dirs::home_dir()
}

/// A location under the user's home directory: `home` joined, one after the other,
/// with each of `parts` (as `PathBuf::join` does when the path is made).
pub struct StoragePath {
    pub home: PathBuf,
    pub parts: Vec<String>,
}

impl StoragePath {
    /// The components joined to the home directory, in order.
    pub open spec fn parts_view(&self) -> Seq<Seq<char>> {
        self.parts@.map_values(|p: String| p@)
    }

    /// This location joined with one more component.
    pub fn join(self, part: String) -> (r: StoragePath)
        ensures
            r.home == self.home,
            r.parts_view() == self.parts_view().push(part@),
    {
        let StoragePath { home, mut parts } = self;
        let ghost old_parts = parts@;
        parts.push(part);
        let r = StoragePath { home, parts };
        assert(r.parts_view() =~= old_parts.map_values(|p: String| p@).push(part@));
        r
    }
}

/// `~/.ptracker`, relative to the home directory.
pub open spec fn ptracker_parts() -> Seq<Seq<char>> {
    seq![".ptracker"@]
}

/// `~/.ptracker/projects.json`
pub open spec fn config_parts() -> Seq<Seq<char>> {
    ptracker_parts().push("projects.json"@)
}

/// `~/.ptracker/projects/{slug}`
pub open spec fn project_dir_parts(slug: Seq<char>) -> Seq<Seq<char>> {
    ptracker_parts().push("projects"@).push(slug)
}

/// `~/.ptracker/projects/{slug}/project.json`
pub open spec fn project_file_parts(slug: Seq<char>) -> Seq<Seq<char>> {
    project_dir_parts(slug).push("project.json"@)
}

/// `~/.ptracker/projects/{slug}/sessions`
pub open spec fn sessions_dir_parts(slug: Seq<char>) -> Seq<Seq<char>> {
    project_dir_parts(slug).push("sessions"@)
}

/// `~/.ptracker/projects/{slug}/sessions/{date}.json`
pub open spec fn session_file_parts(slug: Seq<char>, date: Seq<char>) -> Seq<Seq<char>> {
    sessions_dir_parts(slug).push(date + ".json"@)
}

/// `~/.ptracker/projects/{slug}/logs`
pub open spec fn logs_dir_parts(slug: Seq<char>) -> Seq<Seq<char>> {
    project_dir_parts(slug).push("logs"@)
}

/// `~/.ptracker/projects/{slug}/logs/{date}.log`
pub open spec fn log_file_parts(slug: Seq<char>, date: Seq<char>) -> Seq<Seq<char>> {
    logs_dir_parts(slug).push(date + ".log"@)
}

/// What a path function gives for a home directory that was or was not found.
pub open spec fn located(r: Result<StoragePath, TrackerError>, parts: Seq<Seq<char>>) -> bool {
    match r {
        Ok(p) => p.parts_view() == parts,
        Err(e) => e == TrackerError::NoHomeDirectory,
    }
}

/// What a path function gives for the home directory `home`: the location `parts`
/// under it, or an error when there is none.
pub open spec fn located_in(
    home: Option<PathBuf>,
    r: Result<StoragePath, TrackerError>,
    parts: Seq<Seq<char>>,
) -> bool {
    match home {
        None => r == Err::<StoragePath, TrackerError>(TrackerError::NoHomeDirectory),
        Some(h) => r matches Ok(p) && p.home == h && p.parts_view() == parts,
    }
}

/// `~/.ptracker` for the home directory `home` (as `dirs::home_dir` reports it):
/// an error when there is none.
pub fn ptracker_dir_in(home: Option<PathBuf>) -> (r: Result<StoragePath, TrackerError>)
    ensures
        located_in(home, r, ptracker_parts()),
{
    match home {
        None => Err(TrackerError::NoHomeDirectory),
        Some(h) => {
            let mut parts: Vec<String> = Vec::new();
            parts.push(String::from_str(".ptracker"));
            let p = StoragePath { home: h, parts };
            assert(p.parts_view() =~= ptracker_parts());
            Ok(p)
        },
    }
}

/// `~/.ptracker/projects.json` for the home directory `home`.
pub fn config_path_in(home: Option<PathBuf>) -> (r: Result<StoragePath, TrackerError>)
    ensures
        located_in(home, r, config_parts()),
{
    let dir = ptracker_dir_in(home)?;
    Ok(dir.join(String::from_str("projects.json")))
}

/// `~/.ptracker/projects/{slug}` for the home directory `home`.
pub fn project_dir_in(home: Option<PathBuf>, slug: &str) -> (r: Result<StoragePath, TrackerError>)
    ensures
        located_in(home, r, project_dir_parts(slug@)),
{
    let dir = ptracker_dir_in(home)?;
    Ok(dir.join(String::from_str("projects")).join(String::from_str(slug)))
}

/// `~/.ptracker/projects/{slug}/project.json` for the home directory `home`.
pub fn project_path_in(home: Option<PathBuf>, slug: &str) -> (r: Result<StoragePath, TrackerError>)
    ensures
        located_in(home, r, project_file_parts(slug@)),
{
    let dir = project_dir_in(home, slug)?;
    Ok(dir.join(String::from_str("project.json")))
}

/// `~/.ptracker/projects/{slug}/sessions` for the home directory `home`.
pub fn sessions_dir_in(home: Option<PathBuf>, slug: &str) -> (r: Result<StoragePath, TrackerError>)
    ensures
        located_in(home, r, sessions_dir_parts(slug@)),
{
    let dir = project_dir_in(home, slug)?;
    Ok(dir.join(String::from_str("sessions")))
}

/// `{name}{extension}`, as `format!("{}{}", name, extension)` writes it.
fn with_extension(name: &str, extension: &str) -> (r: String)
    ensures
        r@ == name@ + extension@,
{
    let mut r = String::from_str(name);
    r.append(extension);
    r
}

/// `~/.ptracker/projects/{slug}/sessions/{date}.json` for the home directory `home`.
pub fn session_path_in(home: Option<PathBuf>, slug: &str, date: &str) -> (r: Result<
    StoragePath,
    TrackerError,
>)
    ensures
        located_in(home, r, session_file_parts(slug@, date@)),
{
    let dir = sessions_dir_in(home, slug)?;
    Ok(dir.join(with_extension(date, ".json")))
}

/// `~/.ptracker/projects/{slug}/logs` for the home directory `home`.
pub fn logs_dir_in(home: Option<PathBuf>, slug: &str) -> (r: Result<StoragePath, TrackerError>)
    ensures
        located_in(home, r, logs_dir_parts(slug@)),
{
    let dir = project_dir_in(home, slug)?;
    Ok(dir.join(String::from_str("logs")))
}

/// `~/.ptracker/projects/{slug}/logs/{date}.log` for the home directory `home`.
pub fn log_path_in(home: Option<PathBuf>, slug: &str, date: &str) -> (r: Result<
    StoragePath,
    TrackerError,
>)
    ensures
        located_in(home, r, log_file_parts(slug@, date@)),
{
    let dir = logs_dir_in(home, slug)?;
    Ok(dir.join(with_extension(date, ".log")))
}

/// Returns ~/.ptracker
pub fn ptracker_dir() -> (r: Result<StoragePath, TrackerError>)
    ensures
        located(r, ptracker_parts()),
{
    ptracker_dir_in(home_dir())
}

/// Returns ~/.ptracker/projects.json
pub fn config_path() -> (r: Result<StoragePath, TrackerError>)
    ensures
        located(r, config_parts()),
{
    config_path_in(home_dir())
}

/// Returns ~/.ptracker/projects/{slug}
pub fn project_dir(slug: &str) -> (r: Result<StoragePath, TrackerError>)
    ensures
        located(r, project_dir_parts(slug@)),
{
    project_dir_in(home_dir(), slug)
}

/// Returns ~/.ptracker/projects/{slug}/project.json
pub fn project_path(slug: &str) -> (r: Result<StoragePath, TrackerError>)
    ensures
        located(r, project_file_parts(slug@)),
{
    project_path_in(home_dir(), slug)
}

/// Returns ~/.ptracker/projects/{slug}/sessions
pub fn sessions_dir(slug: &str) -> (r: Result<StoragePath, TrackerError>)
    ensures
        located(r, sessions_dir_parts(slug@)),
{
    sessions_dir_in(home_dir(), slug)
}

/// Returns ~/.ptracker/projects/{slug}/sessions/{date}.json
pub fn session_path(slug: &str, date: &str) -> (r: Result<StoragePath, TrackerError>)
    ensures
        located(r, session_file_parts(slug@, date@)),
{
    session_path_in(home_dir(), slug, date)
}

/// Returns ~/.ptracker/projects/{slug}/logs
pub fn logs_dir(slug: &str) -> (r: Result<StoragePath, TrackerError>)
    ensures
        located(r, logs_dir_parts(slug@)),
{
    logs_dir_in(home_dir(), slug)
}

/// Returns ~/.ptracker/projects/{slug}/logs/{date}.log
pub fn log_path(slug: &str, date: &str) -> (r: Result<StoragePath, TrackerError>)
    ensures
        located(r, log_file_parts(slug@, date@)),
{
    log_path_in(home_dir(), slug, date)
}

/// `path` lies strictly inside the directory `dir`.
pub open spec fn inside(dir: Seq<Seq<char>>, path: Seq<Seq<char>>) -> bool {
    dir.len() < path.len() && path.take(dir.len() as int) == dir
}

/// As lists of components joined to the home directory, everything ptracker keeps
/// for a project lies inside the project's own directory, and the project
/// directories lie inside `~/.ptracker`, beside the registry file. (This is a law of
/// the components: when the path is made on disk, a slug that is itself a path, such
/// as one that starts with `/` or is `..`, leads elsewhere; slugs are not checked.)
pub proof fn project_files_inside_project_dir(slug: Seq<char>, date: Seq<char>)
    ensures
        inside(ptracker_parts(), config_parts()),
        inside(ptracker_parts(), project_dir_parts(slug)),
        inside(project_dir_parts(slug), project_file_parts(slug)),
        inside(project_dir_parts(slug), sessions_dir_parts(slug)),
        inside(project_dir_parts(slug), logs_dir_parts(slug)),
        inside(sessions_dir_parts(slug), session_file_parts(slug, date)),
        inside(logs_dir_parts(slug), log_file_parts(slug, date)),
        inside(project_dir_parts(slug), session_file_parts(slug, date)),
        inside(project_dir_parts(slug), log_file_parts(slug, date)),
{
    let d = project_dir_parts(slug);
    assert(config_parts().take(1) =~= ptracker_parts());
    assert(d.take(1) =~= ptracker_parts());
    assert(project_file_parts(slug).take(3) =~= d);
    assert(sessions_dir_parts(slug).take(3) =~= d);
    assert(logs_dir_parts(slug).take(3) =~= d);
    assert(session_file_parts(slug, date).take(4) =~= sessions_dir_parts(slug));
    assert(log_file_parts(slug, date).take(4) =~= logs_dir_parts(slug));
    assert(session_file_parts(slug, date).take(3) =~= d);
    assert(log_file_parts(slug, date).take(3) =~= d);
}

/// As lists of components, projects with different slugs get different directories
/// and the registry file is no project's directory. (On disk, slugs that name the
/// same place, such as `x` and `x/`, share a directory; slugs are not checked.)
pub proof fn project_dirs_distinct(a: Seq<char>, b: Seq<char>)
    ensures
        a != b ==> project_dir_parts(a) != project_dir_parts(b),
        project_dir_parts(a) != config_parts(),
{
    if project_dir_parts(a) == project_dir_parts(b) {
        assert(project_dir_parts(a)[2] == a);
        assert(project_dir_parts(b)[2] == b);
    }
    assert(project_dir_parts(a).len() != config_parts().len());
}

} // verus!
