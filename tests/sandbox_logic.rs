use process_execution::cache::{CacheDest, CacheError, CacheName, NamedCaches};
use process_execution::outputs::{capture_outputs, has_prefix, same_path, OutputEntry};
use process_execution::path::{PathError, RelativePath};
use process_execution::sandbox::{disposition, one_second, Disposition, Process};
use process_execution::script::{render_run_script, run_script};
use process_execution::supervisor::{
    exit_code, next_action, recorded_stdout, timeout_message, ChildOutcome, SupervisorAction,
    WaitStatus, TERMINATION_SIGNAL,
};

fn rp(s: &str) -> RelativePath {
    RelativePath::new(s).unwrap()
}

fn comps(p: &RelativePath) -> Vec<String> {
    p.components
        .iter()
        .map(|c| String::from_utf8(c.clone()).unwrap())
        .collect()
}

fn file(s: &str) -> OutputEntry {
    OutputEntry { path: rp(s), is_dir: false }
}

fn dir(s: &str) -> OutputEntry {
    OutputEntry { path: rp(s), is_dir: true }
}

fn paths_of(entries: &[OutputEntry]) -> Vec<(Vec<u8>, bool)> {
    entries.iter().map(|e| (e.path.to_bytes(), e.is_dir)).collect()
}

#[test]
fn one_second_is_a_thousand_millis() {
    assert_eq!(one_second(), Some(1000));
}

#[test]
fn relative_path_normalizes() {
    assert_eq!(comps(&rp("cats/roland")), vec!["cats", "roland"]);
    assert_eq!(comps(&rp("./cats//roland/")), vec!["cats", "roland"]);
    assert_eq!(comps(&rp("birds/../cats")), vec!["cats"]);
    assert_eq!(comps(&rp("")), Vec::<String>::new());
    assert_eq!(rp("birds/falcons").to_bytes(), b"birds/falcons".to_vec());
}

#[test]
fn relative_path_rejects_escapes() {
    assert_eq!(RelativePath::new("/etc/passwd").unwrap_err(), PathError::Absolute);
    assert_eq!(RelativePath::new("..").unwrap_err(), PathError::EscapesRoot);
    assert_eq!(RelativePath::new("cats/../../x").unwrap_err(), PathError::EscapesRoot);
}

#[test]
fn containing_dir_of_nested_path() {
    assert_eq!(comps(&rp("birds/falcons").containing_dir().unwrap()), vec!["birds"]);
    assert!(rp("roland").containing_dir().is_none());
}

#[test]
fn prefix_and_equality() {
    assert!(has_prefix(&rp("cats/roland"), &rp("cats")));
    assert!(has_prefix(&rp("cats"), &rp("cats")));
    assert!(!has_prefix(&rp("catsup"), &rp("cats")));
    assert!(!has_prefix(&rp("cats"), &rp("cats/roland")));
    assert!(same_path(&rp("a/./b"), &rp("a/b")));
    assert!(!same_path(&rp("a/b"), &rp("a/c")));
}

#[test]
fn parent_dirs_of_outputs_are_created() {
    let p = Process::new(vec!["/bin/bash".to_string()])
        .output_files(vec![rp("cats/roland")])
        .output_directories(vec![rp("birds/falcons")]);
    let dirs: Vec<Vec<u8>> = p.dirs_to_create().iter().map(|d| d.to_bytes()).collect();
    assert_eq!(dirs, vec![b"cats".to_vec(), b"birds".to_vec()]);
}

#[test]
fn top_level_outputs_need_no_dirs() {
    let p = Process::new(vec!["/bin/bash".to_string()])
        .output_files(vec![rp("roland")])
        .output_directories(vec![rp("falcons")]);
    assert!(p.dirs_to_create().is_empty());
}

#[test]
fn nothing_declared_captures_nothing() {
    let existing = vec![file("roland"), dir("cats"), file("cats/roland")];
    let r = capture_outputs(&existing, &vec![], &vec![]);
    assert!(r.is_empty());
}

#[test]
fn missing_output_file_is_omitted() {
    let existing = vec![file("roland")];
    let r = capture_outputs(&existing, &vec![rp("roland"), rp("susannah")], &vec![]);
    assert_eq!(paths_of(&r), vec![(b"roland".to_vec(), false)]);
}

#[test]
fn overlapping_file_and_dir_captured_once() {
    let existing = vec![dir("cats"), file("cats/roland"), file("treats")];
    let r = capture_outputs(&existing, &vec![rp("cats/roland")], &vec![rp("cats")]);
    assert_eq!(
        paths_of(&r),
        vec![(b"cats".to_vec(), true), (b"cats/roland".to_vec(), false)]
    );
}

#[test]
fn output_dir_captures_its_contents() {
    let existing = vec![
        dir("cats"),
        file("cats/roland"),
        file("treats"),
        dir("falcons"),
        file("other"),
    ];
    let r = capture_outputs(&existing, &vec![rp("treats")], &vec![rp("cats"), rp("falcons")]);
    assert_eq!(
        paths_of(&r),
        vec![
            (b"cats".to_vec(), true),
            (b"cats/roland".to_vec(), false),
            (b"treats".to_vec(), false),
            (b"falcons".to_vec(), true),
        ]
    );
}

#[test]
fn directory_at_declared_file_path_is_not_a_file_output() {
    let existing = vec![dir("roland")];
    let r = capture_outputs(&existing, &vec![rp("roland")], &vec![]);
    assert!(r.is_empty());
}

#[test]
fn exit_codes() {
    assert_eq!(exit_code(ChildOutcome::Exited(0)), 0);
    assert_eq!(exit_code(ChildOutcome::Exited(1)), 1);
    assert_eq!(exit_code(ChildOutcome::Signaled(15)), -15);
    assert_eq!(exit_code(ChildOutcome::Signaled(9)), -9);
    assert_eq!(exit_code(ChildOutcome::TimedOut), -15);
    assert_eq!(TERMINATION_SIGNAL, 15);
}

#[test]
fn timeout_replaces_stdout() {
    let out = recorded_stdout(ChildOutcome::TimedOut, b"European".to_vec(), "sleepy-cat");
    let text = String::from_utf8(out).unwrap();
    assert!(text.contains("Exceeded timeout"));
    assert!(text.contains("sleepy-cat"));
    assert!(!text.contains("European"));
    assert_eq!(
        timeout_message("sleepy-cat"),
        "Exceeded timeout when executing local process: sleepy-cat"
    );
}

#[test]
fn signal_keeps_stdout() {
    assert_eq!(recorded_stdout(ChildOutcome::Signaled(15), vec![], "x"), Vec::<u8>::new());
    assert_eq!(recorded_stdout(ChildOutcome::Exited(1), b"foo".to_vec(), "x"), b"foo".to_vec());
}

#[test]
fn cache_names() {
    assert_eq!(CacheName::new("geo".to_string()).unwrap().as_bytes(), &b"geo".to_vec());
    assert_eq!(CacheName::new("a_1".to_string()).unwrap().as_bytes(), &b"a_1".to_vec());
    assert_eq!(CacheName::new("".to_string()).unwrap_err(), CacheError::InvalidCacheName);
    assert_eq!(CacheName::new("Geo".to_string()).unwrap_err(), CacheError::InvalidCacheName);
    assert_eq!(CacheName::new("a/b".to_string()).unwrap_err(), CacheError::InvalidCacheName);
    assert_eq!(CacheName::new("é".to_string()).unwrap_err(), CacheError::InvalidCacheName);
}

#[test]
fn cache_destinations() {
    let d = CacheDest::new(".cache/geo".to_string()).unwrap();
    assert_eq!(d.path().to_bytes(), b".cache/geo".to_vec());
    assert_eq!(
        CacheDest::new("/abs".to_string()).unwrap_err(),
        CacheError::InvalidCacheDestination
    );
    assert_eq!(
        CacheDest::new("../up".to_string()).unwrap_err(),
        CacheError::InvalidCacheDestination
    );
    assert_eq!(
        CacheDest::new(".".to_string()).unwrap_err(),
        CacheError::InvalidCacheDestination
    );
}

#[test]
fn cache_host_dir_is_stable() {
    let caches = NamedCaches::new(b"/caches".to_vec());
    let geo = CacheName::new("geo".to_string()).unwrap();
    assert_eq!(caches.host_dir(&geo), b"/caches/geo".to_vec());
    assert_eq!(caches.host_dir(&geo), caches.host_dir(&CacheName::new("geo".to_string()).unwrap()));
}

#[test]
fn symlinks_for_jdk_and_caches() {
    let caches = NamedCaches::new(b"/caches".to_vec());
    let mut p = Process::new(vec!["/bin/ls".to_string(), ".cache/geo".to_string()])
        .append_only_caches(vec![(
            CacheName::new("geo".to_string()).unwrap(),
            CacheDest::new(".cache/geo".to_string()).unwrap(),
        )]);
    p.jdk_home = Some(b"/opt/jdk".to_vec());
    let links: Vec<(Vec<u8>, Vec<u8>)> = p
        .symlinks(&caches)
        .iter()
        .map(|l| (l.host.clone(), l.mount.to_bytes()))
        .collect();
    assert_eq!(
        links,
        vec![
            (b"/opt/jdk".to_vec(), b".jdk".to_vec()),
            (b"/caches/geo".to_vec(), b".cache/geo".to_vec()),
        ]
    );
}

#[test]
fn no_mounts_no_symlinks() {
    let caches = NamedCaches::new(b"/caches".to_vec());
    assert!(Process::new(vec!["true".to_string()]).symlinks(&caches).is_empty());
}

#[test]
fn render_script_layout() {
    let s = render_run_script(
        &vec![b"FOO=foo".to_vec(), b"BAR=$'not foo'".to_vec()],
        &b"/tmp/sb/cats".to_vec(),
        &vec![b"/bin/bash".to_vec(), b"-c".to_vec(), b"$'echo hi'".to_vec()],
    );
    assert_eq!(
        String::from_utf8(s).unwrap(),
        "#!/bin/bash\n# Runs the same process again, in its preserved sandbox.\nexport FOO=foo BAR=$'not foo'\n\ncd /tmp/sb/cats\n\n/bin/bash -c $'echo hi'\n"
    );
}

#[test]
fn run_script_quotes_command_line() {
    let contents = "echo $PWD && /bin/cp roland ..";
    let argv = vec!["/bin/bash".to_string(), "-c".to_string(), contents.to_string()];
    let env = vec![
        ("BAR".to_string(), "not foo".to_string()),
        ("FOO".to_string(), "foo".to_string()),
    ];
    let script = String::from_utf8(run_script(&argv, &env, "/tmp/sb dir/cats")).unwrap();
    let quoted = String::from_utf8(shell_quote::bash::escape(contents)).unwrap();
    assert!(quoted != contents);
    assert!(script.contains(&quoted));
    assert!(script.contains(&format!("/bin/bash -c {}\n", quoted)));
    assert!(script.contains("export BAR=$'not foo' FOO=foo\n"));
    assert!(script.contains("cd $'/tmp/sb dir/cats'\n"));
    assert!(script.starts_with("#!/bin/bash\n"));
}

#[test]
fn disposition_follows_cleanup() {
    assert_eq!(disposition(true), Disposition::Delete);
    assert_eq!(disposition(false), Disposition::Preserve);
}

#[test]
fn single_output_file_captured_alone() {
    let existing = vec![file("roland"), file("susannah"), dir("cats")];
    let r = capture_outputs(&existing, &vec![rp("roland")], &vec![]);
    assert_eq!(paths_of(&r), vec![(b"roland".to_vec(), false)]);
}

#[test]
fn supervisor_decisions() {
    assert_eq!(
        next_action(WaitStatus::Exited(3), 50, Some(100)),
        SupervisorAction::Finish(ChildOutcome::Exited(3))
    );
    assert_eq!(
        next_action(WaitStatus::Signaled(15), 500, Some(100)),
        SupervisorAction::Finish(ChildOutcome::Signaled(15))
    );
    assert_eq!(next_action(WaitStatus::Running, 99, Some(100)), SupervisorAction::KeepWaiting);
    assert_eq!(next_action(WaitStatus::Running, 100, Some(100)), SupervisorAction::TerminateGroup);
    assert_eq!(next_action(WaitStatus::Running, 200, Some(100)), SupervisorAction::TerminateGroup);
    assert_eq!(next_action(WaitStatus::Running, u64::MAX, None), SupervisorAction::KeepWaiting);
}
