use vstd::prelude::*;

verus! {

/// The artifacts to ship, by category, in copy order.
#[derive(Debug)]
pub struct DeployPaths {
    pub execs: Vec<String>,
    pub libs: Vec<String>,
    pub config_files: Vec<String>,
    pub user_files: Vec<String>,
}

impl Default for DeployPaths {
    fn default() -> (r: DeployPaths)
        ensures
            r.execs@.len() == 0,
            r.libs@.len() == 0,
            r.config_files@.len() == 0,
            r.user_files@.len() == 0,
    {
        DeployPaths {
            execs: Vec::new(),
            libs: Vec::new(),
            config_files: Vec::new(),
            user_files: Vec::new(),
        }
    }
}

/// The remote destination directory of each category; fixed for the whole
/// deployment.
#[derive(Debug)]
pub struct DeployConfig {
    pub execs_path: String,
    pub libs_path: String,
    pub config_path: String,
    pub user_path: String,
}

impl Default for DeployConfig {
    fn default() -> (r: DeployConfig)
        ensures
            r.execs_path@.len() == 0,
            r.libs_path@.len() == 0,
            r.config_path@.len() == 0,
            r.user_path@.len() == 0,
    {
        DeployConfig {
            execs_path: String::new(),
            libs_path: String::new(),
            config_path: String::new(),
            user_path: String::new(),
        }
    }
}

/// The operation a deployment error arose from.
#[derive(Debug, Clone, Copy)]
pub enum ErrorKind {
    CopyFiles,
}

/// A deployment failure: the operation and the underlying cause's text.
#[derive(Debug)]
pub struct DeployError {
    kind: ErrorKind,
    cause: String,
}

impl DeployError {
    pub closed spec fn spec_kind(&self) -> ErrorKind {
        self.kind
    }

    pub closed spec fn spec_cause(&self) -> Seq<char> {
        self.cause@
    }

    pub fn new(kind: ErrorKind, cause: String) -> (r: DeployError)
        ensures
            r.spec_kind() == kind,
            r.spec_cause() == cause@,
    {
        DeployError { kind, cause }
    }

    pub fn new_copy_err(cause: String) -> (r: DeployError)
        ensures
            r.spec_kind() matches ErrorKind::CopyFiles,
            r.spec_cause() == cause@,
    {
        DeployError { kind: ErrorKind::CopyFiles, cause }
    }

    /// The underlying cause's text, for reporting.
    pub fn cause(&self) -> (r: &String)
        ensures
            r@ == self.spec_cause(),
    {
        &self.cause
    }
}

pub type DeployResult<T> = Result<T, DeployError>;

/// The transport's postcondition for one completed copy of `src` into the
/// directory `dst`, realized as `out`.
pub open spec fn copied<F: Fn(&String, &String) -> Result<String, DeployError>>(
    f: F,
    src: String,
    dst: String,
    out: String,
) -> bool {
    call_ensures(f, (&src, &dst), Ok(out))
}

/// The error `e` arose from copying one of the planned files of `src` into
/// its category's directory.
pub open spec fn copy_failed_on<F: Fn(&String, &String) -> Result<String, DeployError>>(
    f: F,
    src: DeployPaths,
    conf: DeployConfig,
    e: DeployError,
) -> bool {
    ||| exists|i: int|
        0 <= i < src.execs@.len() && call_ensures(
            f,
            (&src.execs@[i], &conf.execs_path),
            Err(e),
        )
    ||| exists|i: int|
        0 <= i < src.libs@.len() && call_ensures(f, (&src.libs@[i], &conf.libs_path), Err(e))
    ||| exists|i: int|
        0 <= i < src.config_files@.len() && call_ensures(
            f,
            (&src.config_files@[i], &conf.config_path),
            Err(e),
        )
    ||| exists|i: int|
        0 <= i < src.user_files@.len() && call_ensures(
            f,
            (&src.user_files@[i], &conf.user_path),
            Err(e),
        )
}

impl DeployConfig {
    /// Copies every file of every category, in category order — executables,
    /// libraries, configuration files, user files — into that category's
    /// directory through `f`, and returns the realized remote paths in the
    /// same shape. Fail-fast: the first failed copy aborts the rest and
    /// surfaces that copy's error; nothing already copied is rolled back.
    #[verifier::loop_isolation(false)]
    pub fn copy_files<F: Fn(&String, &String) -> Result<String, DeployError>>(
        self,
        src: DeployPaths,
        f: &F,
    ) -> (r: DeployResult<DeployPaths>)
        requires
            forall|a: &String, b: &String| #[trigger] call_requires(*f, (a, b)),
        ensures
            match r {
                Ok(out) => {
                    &&& out.execs@.len() == src.execs@.len()
                    &&& forall|i: int|
                        0 <= i < src.execs@.len() ==> copied(
                            *f,
                            src.execs@[i],
                            self.execs_path,
                            #[trigger] out.execs@[i],
                        )
                    &&& out.libs@.len() == src.libs@.len()
                    &&& forall|i: int|
                        0 <= i < src.libs@.len() ==> copied(
                            *f,
                            src.libs@[i],
                            self.libs_path,
                            #[trigger] out.libs@[i],
                        )
                    &&& out.config_files@.len() == src.config_files@.len()
                    &&& forall|i: int|
                        0 <= i < src.config_files@.len() ==> copied(
                            *f,
                            src.config_files@[i],
                            self.config_path,
                            #[trigger] out.config_files@[i],
                        )
                    &&& out.user_files@.len() == src.user_files@.len()
                    &&& forall|i: int|
                        0 <= i < src.user_files@.len() ==> copied(
                            *f,
                            src.user_files@[i],
                            self.user_path,
                            #[trigger] out.user_files@[i],
                        )
                },
                Err(e) => copy_failed_on(*f, src, self, e),
            },
    {
        let mut out_execs: Vec<String> = Vec::new();
        let mut i: usize = 0;
        while i < src.execs.len()
            invariant
                i <= src.execs@.len(),
                out_execs@.len() == i,
                forall|j: int|
                    0 <= j < i ==> copied(
                        *f,
                        src.execs@[j],
                        self.execs_path,
                        #[trigger] out_execs@[j],
                    ),
            decreases src.execs@.len() - i,
        {
            match f(&src.execs[i], &self.execs_path) {
                Ok(p) => out_execs.push(p),
                Err(e) => {
                    return Err(e);
                },
            }
            i = i + 1;
        }
        let mut out_libs: Vec<String> = Vec::new();
        let mut i2: usize = 0;
        while i2 < src.libs.len()
            invariant
                i2 <= src.libs@.len(),
                out_libs@.len() == i2,
                forall|j: int|
                    0 <= j < i2 ==> copied(
                        *f,
                        src.libs@[j],
                        self.libs_path,
                        #[trigger] out_libs@[j],
                    ),
            decreases src.libs@.len() - i2,
        {
            match f(&src.libs[i2], &self.libs_path) {
                Ok(p) => out_libs.push(p),
                Err(e) => {
                    return Err(e);
                },
            }
            i2 = i2 + 1;
        }
        let mut out_config: Vec<String> = Vec::new();
        let mut i3: usize = 0;
        while i3 < src.config_files.len()
            invariant
                i3 <= src.config_files@.len(),
                out_config@.len() == i3,
                forall|j: int|
                    0 <= j < i3 ==> copied(
                        *f,
                        src.config_files@[j],
                        self.config_path,
                        #[trigger] out_config@[j],
                    ),
            decreases src.config_files@.len() - i3,
        {
            match f(&src.config_files[i3], &self.config_path) {
                Ok(p) => out_config.push(p),
                Err(e) => {
                    return Err(e);
                },
            }
            i3 = i3 + 1;
        }
        let mut out_user: Vec<String> = Vec::new();
        let mut i4: usize = 0;
        while i4 < src.user_files.len()
            invariant
                i4 <= src.user_files@.len(),
                out_user@.len() == i4,
                forall|j: int|
                    0 <= j < i4 ==> copied(
                        *f,
                        src.user_files@[j],
                        self.user_path,
                        #[trigger] out_user@[j],
                    ),
            decreases src.user_files@.len() - i4,
        {
            match f(&src.user_files[i4], &self.user_path) {
                Ok(p) => out_user.push(p),
                Err(e) => {
                    return Err(e);
                },
            }
            i4 = i4 + 1;
        }
        Ok(
            DeployPaths {
                execs: out_execs,
                libs: out_libs,
                config_files: out_config,
                user_files: out_user,
            },
        )
    }
}

/// A deployment transport: ships categorized files to their remote
/// directories. Implemented outside the library by the real transports.
pub trait Deploy {
    fn deploy(&mut self, src: DeployPaths, conf: DeployConfig) -> DeployResult<DeployPaths>;
}

/// A remote command channel: runs one command per call and hands back the
/// captured standard output; a non-zero remote exit status is not by itself
/// distinguished from success.
pub trait CallRemote {
    fn call_remote(&mut self, cmd: &[u8]) -> DeployResult<Vec<u8>>;
}

/// The transport used when no deployment method was chosen: every operation
/// reports a copy failure instead of doing anything.
pub struct Noop {}

impl Deploy for Noop {
    fn deploy(&mut self, _src: DeployPaths, _conf: DeployConfig) -> (r: DeployResult<
        DeployPaths,
    >) {
        Err(DeployError::new_copy_err(String::from_str("no deployment method selected")))
    }
}

impl CallRemote for Noop {
    fn call_remote(&mut self, _cmd: &[u8]) -> (r: DeployResult<Vec<u8>>) {
        Err(DeployError::new_copy_err(String::from_str("no deployment method selected")))
    }
}

/// The connection identity of the deployment target.
#[derive(Debug, Clone)]
pub struct SSHUserAndHost {
    pub user: String,
    pub host: String,
}

/// The built artifact's path under the target directory: the release build
/// when it exists, else the debug build.
pub open spec fn artifact_path(
    target: Option<Seq<char>>,
    profile_dir: Seq<char>,
    name: Seq<char>,
) -> Seq<char> {
    "target/"@ + (match target {
        Some(t) => t + "/"@,
        None => Seq::<char>::empty(),
    }) + profile_dir + "/"@ + name
}

/// Picks the artifact to deploy: the release build when it exists, else the
/// debug build; nothing when neither location holds a file.
pub fn select_artifact(
    target: &Option<String>,
    name: &String,
    release_exists: bool,
    debug_exists: bool,
) -> (r: Option<String>)
    ensures
        ({
            let tgt = match target {
                Some(t) => Some(t@),
                None => None,
            };
            if release_exists {
                r matches Some(p) && p@ == artifact_path(tgt, "release"@, name@)
            } else if debug_exists {
                r matches Some(p) && p@ == artifact_path(tgt, "debug"@, name@)
            } else {
                r is None
            }
        }),
{
    if !release_exists && !debug_exists {
        return None;
    }
    let mut path = String::from_str("target/");
    match target {
        Some(t) => {
            path.append(t.as_str());
            path.append("/");
        },
        None => {},
    }
    if release_exists {
        path.append("release");
    } else {
        path.append("debug");
    }
    path.append("/");
    path.append(name.as_str());
    proof {
        let tgt = match target {
            Some(t) => Some(t@),
            None => None,
        };
        if release_exists {
            assert(path@ =~= artifact_path(tgt, "release"@, name@));
        } else {
            assert(path@ =~= artifact_path(tgt, "debug"@, name@));
        }
    }
    Some(path)
}

} // verus!
