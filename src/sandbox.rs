use vstd::prelude::*;
use crate::cache::{host_dir_of, CacheDest, CacheName, NamedCaches};
use crate::outputs::{PathView, dirs_to_create, dirs_to_create_of, path_views};
use crate::path::{RelativePath, DOT};

verus! {

/// A process to run in a fresh sandbox.
#[derive(Debug)]
pub struct Process {
    /// The command and its arguments.
    pub argv: Vec<String>,
    /// The environment, as name and value; nothing else is passed on.
    pub env: Vec<(String, String)>,
    /// Files to capture after the run.
    pub output_files: Vec<RelativePath>,
    /// Directories whose whole contents are captured after the run.
    pub output_directories: Vec<RelativePath>,
    /// Where the process starts, below the sandbox root.
    pub working_directory: Option<RelativePath>,
    /// The time limit, in milliseconds.
    pub timeout_millis: Option<u64>,
    /// Names the process in diagnostics.
    pub description: String,
    /// A host directory to expose at `.jdk` inside the sandbox.
    pub jdk_home: Option<Vec<u8>>,
    /// Append-only caches and where each appears inside the sandbox.
    pub append_only_caches: Vec<(CacheName, CacheDest)>,
}

/// One second, as a time limit in milliseconds.
pub fn one_second() -> (r: Option<u64>)
    ensures
        r == Some(1000u64),
{
    Some(1000)
}

impl Process {
    /// A process running `argv` with nothing else declared.
    pub fn new(argv: Vec<String>) -> (r: Process)
        ensures
            r.argv@ == argv@,
            r.env@.len() == 0,
            r.output_files@.len() == 0,
            r.output_directories@.len() == 0,
            r.working_directory is None,
            r.timeout_millis is None,
            r.description@.len() == 0,
            r.jdk_home is None,
            r.append_only_caches@.len() == 0,
    {
        Process {
            argv,
            env: Vec::new(),
            output_files: Vec::new(),
            output_directories: Vec::new(),
            working_directory: None,
            timeout_millis: None,
            description: String::new(),
            jdk_home: None,
            append_only_caches: Vec::new(),
        }
    }

    /// Replaces the environment.
    pub fn env(self, env: Vec<(String, String)>) -> (r: Process)
        ensures
            r.env@ == env@,
            r.argv@ == self.argv@,
            r.output_files@ == self.output_files@,
            r.output_directories@ == self.output_directories@,
            r.append_only_caches@ == self.append_only_caches@,
            r.working_directory == self.working_directory,
            r.timeout_millis == self.timeout_millis,
            r.description == self.description,
            r.jdk_home == self.jdk_home,
    {
        Process { env, ..self }
    }

    /// Replaces the declared output files.
    pub fn output_files(self, output_files: Vec<RelativePath>) -> (r: Process)
        ensures
            r.output_files@ == output_files@,
            r.argv@ == self.argv@,
            r.env@ == self.env@,
            r.output_directories@ == self.output_directories@,
            r.append_only_caches@ == self.append_only_caches@,
            r.working_directory == self.working_directory,
            r.timeout_millis == self.timeout_millis,
            r.description == self.description,
            r.jdk_home == self.jdk_home,
    {
        Process { output_files, ..self }
    }

    /// Replaces the declared output directories.
    pub fn output_directories(self, output_directories: Vec<RelativePath>) -> (r: Process)
        ensures
            r.output_directories@ == output_directories@,
            r.argv@ == self.argv@,
            r.env@ == self.env@,
            r.output_files@ == self.output_files@,
            r.append_only_caches@ == self.append_only_caches@,
            r.working_directory == self.working_directory,
            r.timeout_millis == self.timeout_millis,
            r.description == self.description,
            r.jdk_home == self.jdk_home,
    {
        Process { output_directories, ..self }
    }

    /// Replaces the append-only caches.
    pub fn append_only_caches(self, caches: Vec<(CacheName, CacheDest)>) -> (r: Process)
        ensures
            r.append_only_caches@ == caches@,
            r.argv@ == self.argv@,
            r.env@ == self.env@,
            r.output_files@ == self.output_files@,
            r.output_directories@ == self.output_directories@,
            r.working_directory == self.working_directory,
            r.timeout_millis == self.timeout_millis,
            r.description == self.description,
            r.jdk_home == self.jdk_home,
    {
        Process { append_only_caches: caches, ..self }
    }

    /// The directories to create in the sandbox before the process starts.
    pub fn dirs_to_create(&self) -> (r: Vec<RelativePath>)
        ensures
            path_views(r@) == dirs_to_create_of(
                path_views(self.output_files@) + path_views(self.output_directories@),
            ),
    {
        dirs_to_create(&self.output_files, &self.output_directories)
    }

    /// The symlinks that expose host directories inside the sandbox.
    pub fn symlinks(&self, caches: &NamedCaches) -> (r: Vec<Symlink>)
        ensures
            symlink_views(r@) == symlinks_of(
                match self.jdk_home {
                    Some(h) => Some(h@),
                    None => None,
                },
                cache_views(self.append_only_caches@),
                caches.root@,
            ),
    {
        let mut out: Vec<Symlink> = Vec::new();
        match &self.jdk_home {
            Some(home) => {
                out.push(Symlink { host: home.clone(), mount: jdk_mount() });
            },
            None => {},
        }
        let ghost first = symlink_views(out@);
        let ghost cs = cache_views(self.append_only_caches@);
        let mut k: usize = 0;
        while k < self.append_only_caches.len()
            invariant
                k <= self.append_only_caches@.len(),
                cs == cache_views(self.append_only_caches@),
                symlink_views(out@) == first + cs.take(k as int).map_values(
                    |c: (Seq<u8>, PathView)| (host_dir_of(caches.root@, c.0), c.1),
                ),
            decreases self.append_only_caches.len() - k,
        {
            let ghost before = symlink_views(out@);
            let (name, dest) = &self.append_only_caches[k];
            let host = caches.host_dir(name);
            let mount = dest.path().duplicate();
            out.push(Symlink { host, mount });
            assert(symlink_views(out@) =~= before.push((host_dir_of(caches.root@, name@), dest@)));
            assert(cs.take(k + 1) =~= cs.take(k as int).push(cs[k as int]));
            assert(cs.take(k + 1).map_values(
                |c: (Seq<u8>, PathView)| (host_dir_of(caches.root@, c.0), c.1),
            ) =~= cs.take(k as int).map_values(
                |c: (Seq<u8>, PathView)| (host_dir_of(caches.root@, c.0), c.1),
            ).push((host_dir_of(caches.root@, name@), dest@)));
            k = k + 1;
        }
        assert(cs.take(self.append_only_caches@.len() as int) =~= cs);
        out
    }
}

/// A link at `mount` inside the sandbox to the host directory `host`.
#[derive(Debug)]
pub struct Symlink {
    pub host: Vec<u8>,
    pub mount: RelativePath,
}

/// The views of a list of symlinks.
pub open spec fn symlink_views(links: Seq<Symlink>) -> Seq<(Seq<u8>, PathView)> {
    links.map_values(|l: Symlink| (l.host@, l.mount@))
}

/// The views of the caches a process declares.
pub open spec fn cache_views(caches: Seq<(CacheName, CacheDest)>) -> Seq<(Seq<u8>, PathView)> {
    caches.map_values(|c: (CacheName, CacheDest)| (c.0@, c.1@))
}

/// The path `.jdk`, where a JDK home appears.
pub open spec fn jdk_mount_of() -> PathView {
    seq![seq![DOT, 106u8, 100u8, 107u8]]
}

fn jdk_mount() -> (r: RelativePath)
    ensures
        r@ == jdk_mount_of(),
{
    let mut c: Vec<u8> = Vec::new();
    c.push(DOT);
    c.push(106);
    c.push(100);
    c.push(107);
    let mut components: Vec<Vec<u8>> = Vec::new();
    let ghost cv = c@;
    components.push(c);
    assert(cv =~= seq![DOT, 106u8, 100u8, 107u8]);
    let r = RelativePath { components };
    assert(r@[0] == cv);
    assert(r@ =~= jdk_mount_of());
    r
}

/// The symlinks a sandbox gets: the JDK home at `.jdk` if there is one, then
/// each cache's host directory at its mount point.
pub open spec fn symlinks_of(
    jdk_home: Option<Seq<u8>>,
    caches: Seq<(Seq<u8>, PathView)>,
    root: Seq<u8>,
) -> Seq<(Seq<u8>, PathView)> {
    let jdk: Seq<(Seq<u8>, PathView)> = match jdk_home {
        Some(h) => seq![(h, jdk_mount_of())],
        None => seq![],
    };
    jdk + caches.map_values(|c: (Seq<u8>, PathView)| (host_dir_of(root, c.0), c.1))
}

/// A cache mounted by an earlier process is mounted from the same host
/// directory for a later one, so what the first left there the second sees.
pub proof fn lemma_cache_shared_across_runs(
    root: Seq<u8>,
    jdk1: Option<Seq<u8>>,
    caches1: Seq<(Seq<u8>, PathView)>,
    i: int,
    jdk2: Option<Seq<u8>>,
    caches2: Seq<(Seq<u8>, PathView)>,
    j: int,
)
    requires
        0 <= i < caches1.len(),
        0 <= j < caches2.len(),
        caches1[i].0 == caches2[j].0,
    ensures
        symlinks_of(jdk1, caches1, root).contains((host_dir_of(root, caches1[i].0), caches1[i].1)),
        symlinks_of(jdk2, caches2, root).contains((host_dir_of(root, caches2[j].0), caches2[j].1)),
        host_dir_of(root, caches1[i].0) == host_dir_of(root, caches2[j].0),
{
    let s1 = symlinks_of(jdk1, caches1, root);
    let n1: int = if jdk1 is Some { 1 } else { 0 };
    assert(s1[n1 + i] == (host_dir_of(root, caches1[i].0), caches1[i].1));
    let s2 = symlinks_of(jdk2, caches2, root);
    let n2: int = if jdk2 is Some { 1 } else { 0 };
    assert(s2[n2 + j] == (host_dir_of(root, caches2[j].0), caches2[j].1));
}

/// What becomes of a sandbox once its process has ended.
#[derive(Clone, Copy, Debug, PartialEq, Eq, Structural)]
pub enum Disposition {
    /// The sandbox is removed.
    Delete,
    /// The sandbox is kept, with a script that reruns the process in it.
    Preserve,
}

/// Removes the sandbox when cleaning up, keeps it otherwise, whether or not
/// the process started or succeeded.
pub fn disposition(cleanup: bool) -> (r: Disposition)
    ensures
        r == (if cleanup { Disposition::Delete } else { Disposition::Preserve }),
{
    if cleanup {
        Disposition::Delete
    } else {
        Disposition::Preserve
    }
}

} // verus!
