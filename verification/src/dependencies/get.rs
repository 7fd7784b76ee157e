use vstd::prelude::*;
use vstd::string::*;
use crate::dependencies::toml_to_struct::{
    Dependency, DependencyLocation, DependencyView, LocationView,
};

verus! {

/// Why fetching a dependency failed.
#[derive(Debug)]
pub enum DependencyFail {
    FailedToGet(String),
    ModuleDoesNotExist(String),
    PathDoesNotExist(String),
    RepoDoesNotExist(String),
    BuildDirFail(String),
}

/// A `DependencyFail` by its message.
pub enum DependencyFailView {
    FailedToGet(Seq<char>),
    ModuleDoesNotExist(Seq<char>),
    PathDoesNotExist(Seq<char>),
    RepoDoesNotExist(Seq<char>),
    BuildDirFail(Seq<char>),
}

impl View for DependencyFail {
    type V = DependencyFailView;

    open spec fn view(&self) -> DependencyFailView {
        match self {
            DependencyFail::FailedToGet(m) => DependencyFailView::FailedToGet(m@),
            DependencyFail::ModuleDoesNotExist(m) => DependencyFailView::ModuleDoesNotExist(m@),
            DependencyFail::PathDoesNotExist(m) => DependencyFailView::PathDoesNotExist(m@),
            DependencyFail::RepoDoesNotExist(m) => DependencyFailView::RepoDoesNotExist(m@),
            DependencyFail::BuildDirFail(m) => DependencyFailView::BuildDirFail(m@),
        }
    }
}

pub open spec fn fail_report(e: DependencyFailView) -> Seq<char> {
    match e {
        DependencyFailView::FailedToGet(m) => "Failed to get dependency:\n"@ + m,
        DependencyFailView::ModuleDoesNotExist(m) => "Module does not exist:\n"@ + m,
        DependencyFailView::PathDoesNotExist(m) => "Path does not exist:\n"@ + m,
        DependencyFailView::RepoDoesNotExist(m) => "Repository does not exist:\n"@ + m,
        DependencyFailView::BuildDirFail(m) => "Failed to create directory:\n"@ + m,
    }
}

impl DependencyFail {
    /// The line that reports this failure to the user.
    pub fn report(&self) -> (r: String)
        ensures
            r@ == fail_report(self@),
    {
        let (mut s, m) = match self {
            DependencyFail::FailedToGet(m) => (String::from_str("Failed to get dependency:\n"), m),
            DependencyFail::ModuleDoesNotExist(m) => (String::from_str("Module does not exist:\n"), m),
            DependencyFail::PathDoesNotExist(m) => (String::from_str("Path does not exist:\n"), m),
            DependencyFail::RepoDoesNotExist(m) => (
                String::from_str("Repository does not exist:\n"),
                m,
            ),
            DependencyFail::BuildDirFail(m) => (String::from_str("Failed to create directory:\n"), m),
        };
        s.append(m.as_str());
        s
    }
}

pub open spec fn repository_message(repo: Seq<char>, path: Seq<char>) -> Seq<char> {
    "Path "@ + path + " in repo at "@ + repo
}

/// The line that reports the repository of a dependency and the path in it.
pub fn repository_report(repo_location: &(String, String)) -> (r: String)
    ensures
        r@ == repository_message(repo_location.0@, repo_location.1@),
{
    let mut s = String::from_str("Path ");
    s.append(repo_location.1.as_str());
    s.append(" in repo at ");
    s.append(repo_location.0.as_str());
    s
}

/// The outside work that fetching asks for, one piece at a time.
pub enum FetchAction {
    /// Create the directory `build/<name>` (the fetch runs inside `build`).
    CreateDirectory(String),
    /// Tell whether this path exists.
    CheckPath(String),
    /// Tell whether this directory holds a `comb.toml`.
    CheckModuleFile(String),
    /// Copy the contents of directory `from` into directory `into`.
    CopyContents { from: String, into: String },
    /// Report the repository and the path inside it that the dependency names.
    ReportRepository((String, String)),
    /// Fetching is over, with this result.
    Finish(Result<(), DependencyFail>),
}

/// A `FetchAction` by its text.
pub enum FetchActionView {
    CreateDirectory(Seq<char>),
    CheckPath(Seq<char>),
    CheckModuleFile(Seq<char>),
    CopyContents(Seq<char>, Seq<char>),
    ReportRepository(Seq<char>, Seq<char>),
    Finish(Result<(), DependencyFailView>),
}

pub open spec fn result_view(r: Result<(), DependencyFail>) -> Result<(), DependencyFailView> {
    match r {
        Ok(()) => Ok(()),
        Err(e) => Err(e@),
    }
}

impl View for FetchAction {
    type V = FetchActionView;

    open spec fn view(&self) -> FetchActionView {
        match self {
            FetchAction::CreateDirectory(n) => FetchActionView::CreateDirectory(n@),
            FetchAction::CheckPath(p) => FetchActionView::CheckPath(p@),
            FetchAction::CheckModuleFile(d) => FetchActionView::CheckModuleFile(d@),
            FetchAction::CopyContents { from, into } => FetchActionView::CopyContents(from@, into@),
            FetchAction::ReportRepository((repo, path)) => FetchActionView::ReportRepository(
                repo@,
                path@,
            ),
            FetchAction::Finish(r) => FetchActionView::Finish(result_view(*r)),
        }
    }
}

/// Which check of a local dependency has just been made.
#[derive(Clone, Copy)]
pub enum LocalFsStage {
    CheckPath,
    CheckModule,
    Copy,
}

/// What follows a check of a local dependency: the next check and the work it
/// asks for, or the end of this dependency with its result.
pub enum LocalFsStep {
    Next(LocalFsStage, FetchAction),
    Done(Result<(), DependencyFail>),
}

pub enum LocalFsStepView {
    Next(LocalFsStage, FetchActionView),
    Done(Result<(), DependencyFailView>),
}

impl View for LocalFsStep {
    type V = LocalFsStepView;

    open spec fn view(&self) -> LocalFsStepView {
        match self {
            LocalFsStep::Next(s, a) => LocalFsStepView::Next(*s, a@),
            LocalFsStep::Done(r) => LocalFsStepView::Done(result_view(*r)),
        }
    }
}

pub open spec fn path_missing_message(path: Seq<char>, name: Seq<char>) -> Seq<char> {
    "path "@ + path + " (module "@ + name + ") does not exist"@
}

pub open spec fn module_missing_message(name: Seq<char>, path: Seq<char>) -> Seq<char> {
    "module "@ + name + " does not exist at "@ + path
}

pub open spec fn copy_failed_message(path: Seq<char>, name: Seq<char>) -> Seq<char> {
    "failed to copy contents of dir '"@ + path + "' into path 'build/"@ + name + "'"@
}

pub open spec fn build_dir_message(name: Seq<char>) -> Seq<char> {
    "failed to create directory build/"@ + name
}

/// The directory that a local dependency's `path` names: itself where it has
/// a root, else taken from the parent of the build directory.
pub open spec fn source_dir_of(path: Seq<char>, has_root: bool) -> Seq<char> {
    if has_root {
        path
    } else {
        "../"@ + path
    }
}

/// What follows the check `stage` of the local dependency `dep` at `path`,
/// whose directory is `source_dir`, given whether the check succeeded.
pub open spec fn local_fs_step(
    dep: DependencyView,
    path: Seq<char>,
    source_dir: Seq<char>,
    stage: LocalFsStage,
    succeeded: bool,
) -> LocalFsStepView {
    match stage {
        LocalFsStage::CheckPath => if succeeded {
            LocalFsStepView::Next(
                LocalFsStage::CheckModule,
                FetchActionView::CheckModuleFile(source_dir),
            )
        } else {
            LocalFsStepView::Done(
                Err(DependencyFailView::PathDoesNotExist(path_missing_message(path, dep.name))),
            )
        },
        LocalFsStage::CheckModule => if succeeded {
            LocalFsStepView::Next(
                LocalFsStage::Copy,
                FetchActionView::CopyContents(source_dir, dep.name),
            )
        } else {
            LocalFsStepView::Done(
                Err(DependencyFailView::ModuleDoesNotExist(module_missing_message(dep.name, path))),
            )
        },
        LocalFsStage::Copy => if succeeded {
            LocalFsStepView::Done(Ok(()))
        } else {
            LocalFsStepView::Done(
                Err(DependencyFailView::FailedToGet(copy_failed_message(path, dep.name))),
            )
        },
    }
}

/// What tilde expansion makes of `path`, with `home` as the home directory:
/// where `path` is `~` alone or starts with `~/`, and the home directory is
/// known, the `~` is replaced by it; any other path stays as it is. Of a path
/// that starts with `~\` the platform decides: it is expanded on Windows only.
pub open spec fn tilde_expansion(path: Seq<char>, home: Option<Seq<char>>, r: Seq<char>) -> bool {
    if path.len() > 0 && path[0] == '~' && home is Some {
        let rest = path.drop_first();
        if rest.len() == 0 || rest[0] == '/' {
            r == home->0 + rest
        } else if rest[0] == '\\' {
            r == home->0 + rest || r == path
        } else {
            r == path
        }
    } else {
        r == path
    }
}

pub open spec fn home_view(home: Option<String>) -> Option<Seq<char>> {
    match home {
        Some(h) => Some(h@),
        None => None,
    }
}

/// `shellexpand::tilde_with_context` on `path`, with `home` as what the home
/// directory lookup gives: the `~` of `~` alone or of a leading `~/` is
/// replaced by the home directory, if there is one (so is that of a leading
/// `~\`, on Windows only); anything else comes back as it was.
#[verifier::external_body]
fn expand_tilde(path: &str, home: &Option<String>) -> (r: String)
    ensures
        tilde_expansion(path@, home_view(*home), r@),
{
    shellexpand::tilde_with_context(path, || home.clone()).into_owned()
}

/// Whether a path starts with neither separator and with no drive prefix
/// (a second character `:`): on no platform has such a path a root.
pub open spec fn plainly_relative(path: Seq<char>) -> bool {
    &&& path.len() > 0 ==> path[0] != '/' && path[0] != '\\'
    &&& path.len() > 1 ==> path[1] != ':'
}

/// `std::path::Path::has_root` on `path`: a path that starts with `/` has a
/// root; one that starts with no separator and has no drive prefix (the
/// empty path among them) has none. Of the paths in between (`\x`, `C:\x`)
/// the platform decides, so of them nothing is said.
#[verifier::external_body]
fn path_has_root(path: &str) -> (r: bool)
    ensures
        path@.len() > 0 && path@[0] == '/' ==> r,
        plainly_relative(path@) ==> !r,
{
    std::path::Path::new(path).has_root()
}

/// The directory that a local dependency's `path` names.
pub fn local_source_dir(path: &str) -> (r: String)
    ensures
        exists|has_root: bool|
            #![trigger source_dir_of(path@, has_root)]
            (path@.len() > 0 && path@[0] == '/' ==> has_root) && (plainly_relative(path@)
                ==> !has_root) && r@ == source_dir_of(path@, has_root),
{
    let has_root = path_has_root(path);
    let r = if has_root {
        String::from_str(path)
    } else {
        let mut s = String::from_str("../");
        s.append(path);
        s
    };
    proof {
        assert(r@ == source_dir_of(path@, has_root));
    }
    r
}

/// One step of fetching the local dependency `dep` at `path`, whose
/// directory is `source_dir`: the check `stage` has just been made, and
/// `succeeded` tells its outcome. The first check, whether `source_dir`
/// exists, is asked for by `FetchAction::CheckPath`.
pub fn get_dependency_local_fs(
    dep: &Dependency,
    path: &str,
    source_dir: &str,
    stage: LocalFsStage,
    succeeded: bool,
) -> (r: LocalFsStep)
    ensures
        r@ == local_fs_step(dep@, path@, source_dir@, stage, succeeded),
{
    match stage {
        LocalFsStage::CheckPath => if succeeded {
            LocalFsStep::Next(
                LocalFsStage::CheckModule,
                FetchAction::CheckModuleFile(String::from_str(source_dir)),
            )
        } else {
            let mut m = String::from_str("path ");
            m.append(path);
            m.append(" (module ");
            m.append(dep.name.as_str());
            m.append(") does not exist");
            LocalFsStep::Done(Err(DependencyFail::PathDoesNotExist(m)))
        },
        LocalFsStage::CheckModule => if succeeded {
            LocalFsStep::Next(
                LocalFsStage::Copy,
                FetchAction::CopyContents {
                    from: String::from_str(source_dir),
                    into: dep.name.clone(),
                },
            )
        } else {
            let mut m = String::from_str("module ");
            m.append(dep.name.as_str());
            m.append(" does not exist at ");
            m.append(path);
            LocalFsStep::Done(Err(DependencyFail::ModuleDoesNotExist(m)))
        },
        LocalFsStage::Copy => if succeeded {
            LocalFsStep::Done(Ok(()))
        } else {
            let mut m = String::from_str("failed to copy contents of dir '");
            m.append(path);
            m.append("' into path 'build/");
            m.append(dep.name.as_str());
            m.append("'");
            LocalFsStep::Done(Err(DependencyFail::FailedToGet(m)))
        },
    }
}

/// Where fetching stands.
pub enum FetchStage {
    /// The directory of the current dependency is being created.
    CreatingDirectory,
    /// The current dependency is local, at `path`, in directory `source_dir`;
    /// check `stage` is being made.
    Local { path: String, source_dir: String, stage: LocalFsStage },
    /// The repository of the current dependency is being reported.
    Reporting,
    /// Fetching is over.
    Finished,
}

pub enum FetchStageView {
    CreatingDirectory,
    Local(Seq<char>, Seq<char>, LocalFsStage),
    Reporting,
    Finished,
}

impl View for FetchStage {
    type V = FetchStageView;

    open spec fn view(&self) -> FetchStageView {
        match self {
            FetchStage::CreatingDirectory => FetchStageView::CreatingDirectory,
            FetchStage::Local { path, source_dir, stage } => FetchStageView::Local(
                path@,
                source_dir@,
                *stage,
            ),
            FetchStage::Reporting => FetchStageView::Reporting,
            FetchStage::Finished => FetchStageView::Finished,
        }
    }
}

/// Fetching the dependencies of a module into the build directory, one
/// piece of outside work at a time: each step takes the outcome of the work
/// last asked for and says what to do next.
pub struct DependencyFetch {
    dependencies: Vec<Dependency>,
    home: Option<String>,
    position: (usize, FetchStage),
}

/// A `DependencyFetch`: the dependencies, the home directory that a leading
/// `~` of a path stands for, the index of the current dependency, and where
/// fetching stands.
pub struct FetchView {
    pub dependencies: Seq<DependencyView>,
    pub home: Option<Seq<char>>,
    pub current: int,
    pub stage: FetchStageView,
}

pub open spec fn dependency_views(deps: Seq<Dependency>) -> Seq<DependencyView> {
    Seq::new(deps.len(), |i: int| deps[i]@)
}

impl View for DependencyFetch {
    type V = FetchView;

    closed spec fn view(&self) -> FetchView {
        FetchView {
            dependencies: dependency_views(self.dependencies@),
            home: home_view(self.home),
            current: self.position.0 as int,
            stage: self.position.1@,
        }
    }
}

/// Moving on from the dependency at `current`: to the next one, or to the end.
pub open spec fn advance(deps: Seq<DependencyView>, current: int) -> (
    int,
    FetchStageView,
    FetchActionView,
) {
    if current + 1 < deps.len() {
        (
            current + 1,
            FetchStageView::CreatingDirectory,
            FetchActionView::CreateDirectory(deps[current + 1].name),
        )
    } else {
        (current + 1, FetchStageView::Finished, FetchActionView::Finish(Ok(())))
    }
}

/// Fetching may go from `s` to `t`, asking for `a`, when the outside work
/// last asked for had outcome `ok`.
pub open spec fn fetch_step(s: FetchView, ok: bool, t: FetchView, a: FetchActionView) -> bool {
    let dep = s.dependencies[s.current];
    &&& t.dependencies == s.dependencies
    &&& t.home == s.home
    &&& match s.stage {
        FetchStageView::CreatingDirectory => if !ok {
            &&& t.current == s.current
            &&& t.stage is Finished
            &&& a == FetchActionView::Finish(
                Err(DependencyFailView::BuildDirFail(build_dir_message(dep.name))),
            )
        } else {
            match dep.location {
                LocationView::LocalFS(p) => {
                    &&& t.current == s.current
                    &&& exists|expanded: Seq<char>, has_root: bool|
                        #![trigger source_dir_of(expanded, has_root)]
                        {
                            &&& tilde_expansion(p, s.home, expanded)
                            &&& expanded.len() > 0 && expanded[0] == '/' ==> has_root
                            &&& plainly_relative(expanded) ==> !has_root
                            &&& t.stage == FetchStageView::Local(
                                expanded,
                                source_dir_of(expanded, has_root),
                                LocalFsStage::CheckPath,
                            )
                            &&& a == FetchActionView::CheckPath(source_dir_of(expanded, has_root))
                        }
                },
                LocationView::Repository(repo, path) => {
                    &&& t.current == s.current
                    &&& t.stage is Reporting
                    &&& a == FetchActionView::ReportRepository(repo, path)
                },
            }
        },
        FetchStageView::Local(path, dir, stage) => match local_fs_step(dep, path, dir, stage, ok) {
            LocalFsStepView::Next(next, act) => {
                &&& t.current == s.current
                &&& t.stage == FetchStageView::Local(path, dir, next)
                &&& a == act
            },
            LocalFsStepView::Done(Err(e)) => {
                &&& t.current == s.current
                &&& t.stage is Finished
                &&& a == FetchActionView::Finish(Err(e))
            },
            LocalFsStepView::Done(Ok(())) => (t.current, t.stage, a) == advance(
                s.dependencies,
                s.current,
            ),
        },
        FetchStageView::Reporting => (t.current, t.stage, a) == advance(s.dependencies, s.current),
        FetchStageView::Finished => false,
    }
}

impl DependencyFetch {
    #[verifier::type_invariant]
    closed spec fn current_in_range(self) -> bool {
        !(self.position.1 is Finished) ==> self.position.0 < self.dependencies@.len()
    }

    /// Whether fetching is over.
    pub fn is_finished(&self) -> (r: bool)
        ensures
            r == self@.stage is Finished,
    {
        match self.position.1 {
            FetchStage::Finished => true,
            _ => false,
        }
    }

    /// The dependencies being fetched.
    pub fn dependencies(&self) -> (r: &Vec<Dependency>)
        ensures
            dependency_views(r@) == self@.dependencies,
    {
        &self.dependencies
    }

    /// Takes the outcome of the outside work last asked for, and asks for
    /// the next.
    pub fn step(&mut self, succeeded: bool) -> (a: FetchAction)
        requires
            !(old(self)@.stage is Finished),
        ensures
            fetch_step(old(self)@, succeeded, final(self)@, a@),
            a is Finish <==> final(self)@.stage is Finished,
    {
        proof {
            use_type_invariant(&*self);
        }
        let current = self.position.0;
        let (next, action) = match &self.position.1 {
            FetchStage::CreatingDirectory => {
                let dep = &self.dependencies[current];
                if !succeeded {
                    let mut m = String::from_str("failed to create directory build/");
                    m.append(dep.name.as_str());
                    (
                        (current, FetchStage::Finished),
                        FetchAction::Finish(Err(DependencyFail::BuildDirFail(m))),
                    )
                } else {
                    match &dep.location {
                        DependencyLocation::LocalFS(p) => {
                            let expanded = expand_tilde(p.as_str(), &self.home);
                            let source_dir = local_source_dir(expanded.as_str());
                            let check = FetchAction::CheckPath(source_dir.clone());
                            (
                                (
                                    current,
                                    FetchStage::Local {
                                        path: expanded,
                                        source_dir,
                                        stage: LocalFsStage::CheckPath,
                                    },
                                ),
                                check,
                            )
                        },
                        DependencyLocation::Repository((repo, path)) => (
                            (current, FetchStage::Reporting),
                            FetchAction::ReportRepository((repo.clone(), path.clone())),
                        ),
                    }
                }
            },
            FetchStage::Local { path, source_dir, stage } => {
                let dep = &self.dependencies[current];
                match get_dependency_local_fs(
                    dep,
                    path.as_str(),
                    source_dir.as_str(),
                    *stage,
                    succeeded,
                ) {
                    LocalFsStep::Next(next_stage, act) => (
                        (
                            current,
                            FetchStage::Local {
                                path: path.clone(),
                                source_dir: source_dir.clone(),
                                stage: next_stage,
                            },
                        ),
                        act,
                    ),
                    LocalFsStep::Done(Err(e)) => (
                        (current, FetchStage::Finished),
                        FetchAction::Finish(Err(e)),
                    ),
                    LocalFsStep::Done(Ok(())) => self.advance_from(current),
                }
            },
            FetchStage::Reporting => self.advance_from(current),
            FetchStage::Finished => {
                proof {
                    assert(false);
                }
                ((current, FetchStage::Finished), FetchAction::Finish(Ok(())))
            },
        };
        self.position = next;
        action
    }

    /// Where fetching goes once the dependency at `current` is fetched.
    fn advance_from(&self, current: usize) -> (r: ((usize, FetchStage), FetchAction))
        requires
            current < self.dependencies@.len(),
        ensures
            (r.0.0 as int, r.0.1@, r.1@) == advance(self@.dependencies, current as int),
            !(r.0.1 is Finished) ==> r.0.0 < self.dependencies@.len(),
    {
        let n = self.dependencies.len();
        if current + 1 < n {
            let name = self.dependencies[current + 1].name.clone();
            ((current + 1, FetchStage::CreatingDirectory), FetchAction::CreateDirectory(name))
        } else {
            ((current + 1, FetchStage::Finished), FetchAction::Finish(Ok(())))
        }
    }
}

/// Starts fetching `dependencies`, in their order, into the build
/// directory, with `home` as the home directory that a leading `~` of a
/// local path stands for: asks for the directory of the first, or ends at
/// once where there is none.
pub fn get_dependencies(dependencies: Vec<Dependency>, home: Option<String>) -> (r: (
    DependencyFetch,
    FetchAction,
))
    ensures
        r.0@.dependencies == dependency_views(dependencies@),
        r.0@.home == home_view(home),
        r.0@.current == 0,
        dependencies@.len() == 0 ==> r.0@.stage is Finished && r.1@ == FetchActionView::Finish(
            Ok(()),
        ),
        dependencies@.len() > 0 ==> r.0@.stage is CreatingDirectory && r.1@
            == FetchActionView::CreateDirectory(dependencies@[0].name@),
{
    if dependencies.len() == 0 {
        (
            DependencyFetch { dependencies, home, position: (0, FetchStage::Finished) },
            FetchAction::Finish(Ok(())),
        )
    } else {
        let name = dependencies[0].name.clone();
        (
            DependencyFetch { dependencies, home, position: (0, FetchStage::CreatingDirectory) },
            FetchAction::CreateDirectory(name),
        )
    }
}

/// A failed directory creation, path check, module check or copy ends the
/// fetch at once, with an error.
pub proof fn law_failure_ends_fetch(s: FetchView, t: FetchView, a: FetchActionView)
    requires
        fetch_step(s, false, t, a),
        !(s.stage is Reporting),
    ensures
        t.stage is Finished,
        a matches FetchActionView::Finish(Err(_)),
{
}

/// Fetching takes the dependencies in their order: it moves from one to
/// the next only after the last piece of work on it succeeded (a report
/// always does), and it ends with success only past the last dependency.
pub proof fn law_fetch_moves_forward(s: FetchView, ok: bool, t: FetchView, a: FetchActionView)
    requires
        fetch_step(s, ok, t, a),
        0 <= s.current < s.dependencies.len(),
    ensures
        t.current == s.current || (t.current == s.current + 1 && (ok || s.stage is Reporting)),
        a == FetchActionView::Finish(Ok(())) ==> t.current == s.dependencies.len() && (ok
            || s.stage is Reporting),
{
}

/// Where the directory of a local dependency is looked for: a leading `~`
/// alone or `~/` stands for the home directory, where there is one; a path
/// then starting with `/` is looked for as it is, and one that starts with
/// no separator and no drive prefix is taken from the parent of the build
/// directory. A path that does not start with `~` is kept as it is.
pub proof fn law_local_path_checked(s: FetchView, t: FetchView, a: FetchActionView)
    requires
        fetch_step(s, true, t, a),
        s.stage is CreatingDirectory,
        0 <= s.current < s.dependencies.len(),
        s.dependencies[s.current].location is LocalFS,
    ensures
        ({
            let p = s.dependencies[s.current].location->LocalFS_0;
            let expanded = t.stage->Local_0;
            &&& t.stage is Local && t.stage->Local_2 == LocalFsStage::CheckPath
            &&& a == FetchActionView::CheckPath(t.stage->Local_1)
            &&& (p.len() > 0 && p[0] == '~' && (p.len() == 1 || p[1] == '/')
                && s.home is Some) ==> expanded == s.home->0 + p.drop_first()
            &&& (p.len() == 0 || p[0] != '~' || s.home is None) ==> expanded == p
            &&& (expanded.len() > 0 && expanded[0] == '/') ==> a == FetchActionView::CheckPath(
                expanded,
            )
            &&& (expanded.len() > 0 ==> expanded[0] != '/' && expanded[0] != '\\') && (
            expanded.len() > 1 ==> expanded[1] != ':') ==> a == FetchActionView::CheckPath(
                "../"@ + expanded,
            )
        }),
{
}

/// The messages of a failed fetch: a directory not created, a path that
/// does not exist, a directory without a module, a copy that failed, each
/// naming the dependency and its path; after each check that succeeds the
/// next is asked for, and a repository dependency is reported by its
/// repository and the path in it.
pub proof fn law_fetch_messages(s: FetchView, ok: bool, t: FetchView, a: FetchActionView)
    requires
        fetch_step(s, ok, t, a),
        0 <= s.current < s.dependencies.len(),
    ensures
        ({
            let dep = s.dependencies[s.current];
            let path = s.stage->Local_0;
            let dir = s.stage->Local_1;
            &&& (s.stage is CreatingDirectory && !ok) ==> a == FetchActionView::Finish(
                Err(DependencyFailView::BuildDirFail("failed to create directory build/"@ + dep.name)),
            )
            &&& (s.stage is CreatingDirectory && ok && dep.location is Repository) ==> a
                == FetchActionView::ReportRepository(
                dep.location->Repository_0,
                dep.location->Repository_1,
            )
            &&& (s.stage is Local && s.stage->Local_2 == LocalFsStage::CheckPath) ==> (
            if ok {
                a == FetchActionView::CheckModuleFile(dir)
            } else {
                a == FetchActionView::Finish(
                    Err(
                        DependencyFailView::PathDoesNotExist(
                            "path "@ + path + " (module "@ + dep.name + ") does not exist"@,
                        ),
                    ),
                )
            })
            &&& (s.stage is Local && s.stage->Local_2 == LocalFsStage::CheckModule) ==> (
            if ok {
                a == FetchActionView::CopyContents(dir, dep.name)
            } else {
                a == FetchActionView::Finish(
                    Err(
                        DependencyFailView::ModuleDoesNotExist(
                            "module "@ + dep.name + " does not exist at "@ + path,
                        ),
                    ),
                )
            })
            &&& (s.stage is Local && s.stage->Local_2 == LocalFsStage::Copy && !ok) ==> a
                == FetchActionView::Finish(
                Err(
                    DependencyFailView::FailedToGet(
                        "failed to copy contents of dir '"@ + path + "' into path 'build/"@
                            + dep.name + "'"@,
                    ),
                ),
            )
        }),
{
}

/// The directory of a local dependency: a path with a root is taken as it
/// is, any other from the parent of the build directory.
pub proof fn law_source_dir(path: Seq<char>)
    ensures
        source_dir_of(path, true) == path,
        source_dir_of(path, false) == "../"@ + path,
{
}

/// The reports of a failed fetch, each with the failure's own message, and
/// the report of a repository dependency, naming the path and the repository.
pub proof fn law_fetch_reports(m: Seq<char>, repo: Seq<char>, path: Seq<char>)
    ensures
        fail_report(DependencyFailView::FailedToGet(m)) == "Failed to get dependency:\n"@ + m,
        fail_report(DependencyFailView::ModuleDoesNotExist(m)) == "Module does not exist:\n"@ + m,
        fail_report(DependencyFailView::PathDoesNotExist(m)) == "Path does not exist:\n"@ + m,
        fail_report(DependencyFailView::RepoDoesNotExist(m)) == "Repository does not exist:\n"@ + m,
        fail_report(DependencyFailView::BuildDirFail(m)) == "Failed to create directory:\n"@ + m,
        repository_message(repo, path) == "Path "@ + path + " in repo at "@ + repo,
{
}

/// Moving on to the next dependency: the directory created next is that of
/// the dependency fetching has moved to, and fetching stays on one dependency
/// until it moves on.
pub proof fn law_next_directory(s: FetchView, ok: bool, t: FetchView, a: FetchActionView)
    requires
        fetch_step(s, ok, t, a),
        0 <= s.current < s.dependencies.len(),
    ensures
        a matches FetchActionView::CreateDirectory(n) ==> (t.current == s.current + 1
            && t.current < s.dependencies.len() && n == s.dependencies[t.current].name
            && t.stage is CreatingDirectory),
        t.stage is Local ==> t.current == s.current,
{
}

} // verus!
