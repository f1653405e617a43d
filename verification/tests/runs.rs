use std::collections::BTreeMap;
use std::sync::Arc;

use antares::fs_path::FsPath;
use antares::manager::AntaresManager;
use antares::mount::MountRun;
use antares::outcome::{Action, AntaresError, ErrorKind, Fault, Reply};
use antares::probe::{
    kept_fs_path, probe_action, probe_next, ready_fs_path, ProbeNext, ProbeStep,
};
use antares::save::{load_state, StateRead};
use antares::umount::{fusermount_report, FusermountReport, UmountRun};
use antares::{AntaresConfig, AntaresPaths, AntaresState};

type Manager = AntaresManager<&'static str, u32>;
type MountResult = Result<AntaresConfig, AntaresError<i32>>;
type UmountResult = Result<Option<AntaresConfig>, AntaresError<i32>>;

fn path(text: &str) -> FsPath {
    FsPath::from_text(text)
}

fn text(path: &FsPath) -> String {
    String::from_utf8(path.as_bytes().to_vec()).unwrap()
}

fn paths() -> AntaresPaths {
    AntaresPaths::new(path("/u"), path("/c/"), path("/m"), path("/s/state.toml"))
}

fn manager() -> Manager {
    AntaresManager::new_with_dicfuse(paths(), Arc::new("dic"), StateRead::<i32>::Missing)
}

fn config(job: &str, upper: &str) -> AntaresConfig {
    AntaresConfig {
        job_id: job.to_string(),
        source_path: "/".to_string(),
        mountpoint: path("/m").join(job),
        upper_id: upper.to_string(),
        upper_dir: path("/u").join(upper),
        cl_dir: None,
        cl_id: None,
    }
}

/// An action, written down in a line.
fn line(action: &Action) -> String {
    match action {
        Action::CreateDirAll(p) => format!("mkdir {}", text(p)),
        Action::RemoveDirAll(p) => format!("rmdir {}", text(p)),
        Action::EncodeState(state) => {
            let mut jobs: Vec<String> = state.mounts.iter().map(|c| c.job_id.clone()).collect();
            jobs.sort();
            format!("encode {}", jobs.join(","))
        }
        Action::WriteFile { path, data } => format!("write {} {}", text(path), data),
        Action::AwaitStore { source_path, ready_path, timeout_millis, poll_millis } => format!(
            "await {} {} {} {}",
            source_path, ready_path, timeout_millis, poll_millis
        ),
        Action::BuildFuse { source_path, mountpoint, upper_dir, cl_dir } => format!(
            "build {} {} {} {}",
            source_path,
            text(mountpoint),
            text(upper_dir),
            cl_dir.as_ref().map_or("-".to_string(), text)
        ),
        Action::MountFuse => "mount".to_string(),
        Action::UnmountFuse => "unmount".to_string(),
        Action::Stat(p) => format!("stat {}", text(p)),
        Action::ReadFirstEntry(p) => format!("list {}", text(p)),
        Action::EntryType => "type".to_string(),
        Action::OpenFile(p) => format!("open {}", text(p)),
        Action::RunFusermount(p) => format!("fusermount {}", text(p)),
        Action::Finish => "finish".to_string(),
    }
}

/// A world in which every action is done, but for those told otherwise.
struct World {
    log: Vec<String>,
    told: BTreeMap<String, Vec<&'static str>>,
}

impl World {
    fn new() -> World {
        World { log: Vec::new(), told: BTreeMap::new() }
    }

    fn tell(mut self, action: &str, how: &'static str) -> World {
        self.told.entry(action.to_string()).or_insert_with(Vec::new).push(how);
        self
    }

    fn reply(&mut self, action: &Action) -> Reply<u32, i32> {
        let line = line(action);
        let how = match self.told.get_mut(&line) {
            Some(hows) if !hows.is_empty() => hows.remove(0),
            _ => "",
        };
        self.log.push(line.clone());
        if how == "fail" {
            return Reply::Failed(Fault { source: 7, text: format!("no {}", line) });
        }
        match action {
            Action::EncodeState(_) => Reply::Encoded("DATA".to_string()),
            Action::BuildFuse { .. } => Reply::Built(41),
            Action::Stat(_) => Reply::Stat { is_dir: how != "file" },
            Action::ReadFirstEntry(_) => Reply::FirstEntry { present: how == "entry" },
            Action::RunFusermount(_) => Reply::Exited {
                success: how == "",
                stderr: how.as_bytes().to_vec(),
            },
            _ => Reply::Done,
        }
    }

    fn mount(&mut self, manager: &mut Manager, run: MountRun<u32, i32>) -> MountResult {
        let mut run = run;
        for _ in 0..30 {
            let action = manager.mount_action(&run);
            if let Action::Finish = action {
                return run.into_result().unwrap();
            }
            if let Action::MountFuse = action {
                *run.fuse_mut().unwrap() += 1;
            }
            let reply = self.reply(&action);
            run = manager.advance_mount(run, reply);
        }
        panic!("the run does not end");
    }

    fn umount(&mut self, manager: &mut Manager, job: &str) -> UmountResult {
        let mut run: UmountRun<u32, i32> = manager.umount_job(job);
        for _ in 0..10 {
            let action = manager.umount_action(&run);
            if let Action::Finish = action {
                return run.into_result().unwrap();
            }
            let reply = self.reply(&action);
            run = manager.advance_umount(run, reply);
        }
        panic!("the run does not end");
    }
}

fn jobs(manager: &Manager) -> Vec<String> {
    let mut jobs: Vec<String> = manager.list().into_iter().map(|c| c.job_id).collect();
    jobs.sort();
    jobs
}

fn alive(manager: &Manager, job: &str) -> Option<u32> {
    let seen = std::cell::Cell::new(None);
    let alive = manager.is_job_alive(job, |fuse: &u32| {
        seen.set(Some(*fuse));
        true
    });
    assert_eq!(alive, seen.get().is_some());
    seen.get()
}

fn plan(manager: &Manager, job: &str, ready: Option<&str>, cl: Option<&str>) -> MountRun<u32, i32> {
    manager.plan_mount(
        job,
        path("/m").join(job),
        " /project/foo/ ",
        ready,
        "up".to_string(),
        cl.map(|c| c.to_string()),
    )
}

fn message(error: &AntaresError<i32>) -> (Option<ErrorKind>, String) {
    match error {
        AntaresError::Io(fault) => {
            assert_eq!(fault.source, 7);
            (None, error.text().to_string())
        }
        AntaresError::Raised { kind, message: _ } => (Some(*kind), error.text().to_string()),
    }
}

#[test]
fn paths_come_from_the_configuration() {
    let paths = AntaresPaths::from_global_config("/u", "/c", "/m", "/s");
    assert_eq!(text(&paths.upper_root), "/u");
    assert_eq!(text(&paths.cl_root), "/c");
    assert_eq!(text(&paths.mount_root), "/m");
    assert_eq!(text(&paths.state_file), "/s");
    let copy = paths.clone();
    assert_eq!(copy.state_file, paths.state_file);
}

#[test]
fn requests_are_planned() {
    let manager = manager();
    let run: MountRun<u32, i32> = manager.mount_job("j", None);
    assert_eq!(run.config().job_id, "j");
    assert_eq!(run.config().source_path, "/");
    assert_eq!(text(&run.config().mountpoint), "/m/j");
    assert_eq!(run.ready_path(), None);
    assert!(run.config().cl_id.is_none() && run.config().cl_dir.is_none());

    let run: MountRun<u32, i32> = manager.mount_job("/abs", None);
    assert_eq!(text(&run.config().mountpoint), "/abs");

    let run: MountRun<u32, i32> = manager.mount_job_for_path("j", "project/foo/", Some("cl-1"));
    assert_eq!(run.config().source_path, "/project/foo");
    let id = run.config().cl_id.clone().unwrap();
    assert_eq!(text(run.config().cl_dir.as_ref().unwrap()), format!("/c/{}", id));

    let run: MountRun<u32, i32> =
        manager.mount_job_for_path_with_ready_path("j", "/p", None, Some(".buckconfig"));
    assert_eq!(run.ready_path(), Some("/.buckconfig"));
    assert_eq!(text(&run.config().mountpoint), "/m/j");

    let run: MountRun<u32, i32> = manager.mount_job_at("j", path("/home/ws"), None);
    assert_eq!(text(&run.config().mountpoint), "/home/ws");
    assert_eq!(run.config().source_path, "/");

    let run: MountRun<u32, i32> = manager.mount_job_at_for_path("j", path("/home/ws"), "p", None);
    assert_eq!(run.config().source_path, "/p");
    assert_eq!(run.ready_path(), None);
}

#[test]
fn layer_identifiers_are_random_uuids() {
    let manager = manager();
    let mut seen: Vec<String> = Vec::new();
    for _ in 0..100 {
        let run: MountRun<u32, i32> = manager.mount_job("j", Some("cl"));
        let config = run.config();
        assert_eq!(text(&config.upper_dir), format!("/u/{}", config.upper_id));
        for id in vec![config.upper_id.clone(), config.cl_id.clone().unwrap()] {
            let parsed = uuid::Uuid::parse_str(&id).unwrap();
            assert_eq!(parsed.get_version_num(), 4);
            assert_eq!(parsed.get_variant(), uuid::Variant::RFC4122);
            assert_eq!(parsed.to_string(), id);
            assert!(!seen.contains(&id));
            seen.push(id);
        }
    }
}

#[test]
fn a_mount_does_its_steps_in_order() {
    let mut manager = manager();
    let run = plan(&manager, "j", Some("/.buckconfig"), Some("cl"));
    let mut world = World::new().tell("stat /m/j/.buckconfig", "file").tell("list /m/j", "entry");
    let config = world.mount(&mut manager, run).unwrap();
    assert_eq!(
        world.log,
        vec![
            "mkdir /u/up",
            "mkdir /c/cl",
            "mkdir /m/j",
            "encode j",
            "mkdir /s",
            "write /s/state.toml DATA",
            "await /project/foo /.buckconfig 15000 100",
            "build /project/foo /m/j /u/up /c/cl",
            "mount",
            "stat /m/j",
            "list /m/j",
            "type",
            "stat /m/j/.buckconfig",
            "open /m/j/.buckconfig",
        ]
    );
    assert_eq!(config.job_id, "j");
    assert_eq!(config.source_path, "/project/foo");
    assert_eq!(config.upper_id, "up");
    assert_eq!(config.cl_id.as_deref(), Some("cl"));
    assert_eq!(jobs(&manager), vec!["j"]);
    assert_eq!(alive(&manager, "j"), Some(42));
    assert_eq!(alive(&manager, "k"), None);
    assert!(!manager.is_job_alive("j", |_: &u32| false));
}

#[test]
fn three_builds_come_and_go() {
    let mut manager = manager();
    let run: MountRun<u32, i32> = manager.mount_job("build-42", Some("cl-123"));
    let config = World::new().mount(&mut manager, run).unwrap();
    assert_eq!(text(&config.mountpoint), "/m/build-42");
    assert!(config.cl_dir.is_some());
    let run: MountRun<u32, i32> =
        manager.mount_job_for_path("build-43", "/project/foo/bar", None);
    let scoped = World::new().mount(&mut manager, run).unwrap();
    assert_eq!(text(&scoped.mountpoint), "/m/build-43");
    assert_eq!(scoped.source_path, "/project/foo/bar");
    let run: MountRun<u32, i32> = manager.mount_job_at_for_path(
        "build-44",
        path("/home/user/my-workspace"),
        "/project/foo/bar",
        None,
    );
    let custom = World::new().mount(&mut manager, run).unwrap();
    assert_eq!(text(&custom.mountpoint), "/home/user/my-workspace");
    assert_eq!(jobs(&manager), vec!["build-42", "build-43", "build-44"]);
    assert!(config.upper_dir != scoped.upper_dir && scoped.upper_dir != custom.upper_dir);
    for job in vec!["build-42", "build-43", "build-44"] {
        let removed = World::new().umount(&mut manager, job).unwrap().unwrap();
        assert_eq!(removed.job_id, job);
    }
    assert!(jobs(&manager).is_empty());
}

#[test]
fn runs_of_different_jobs_can_be_interleaved() {
    let mut manager = manager();
    let mut a = plan(&manager, "a", None, None);
    let mut b = plan(&manager, "b", Some("r"), Some("cl"));
    let mut world = World::new().tell("stat /m/b", "file");
    for _ in 0..30 {
        let action = manager.mount_action(&a);
        let reply = world.reply(&action);
        a = manager.advance_mount(a, reply);
        let action = manager.mount_action(&b);
        let reply = world.reply(&action);
        b = manager.advance_mount(b, reply);
    }
    assert_eq!(a.into_result().unwrap().unwrap().job_id, "a");
    assert_eq!(
        b.into_result().unwrap().unwrap_err().text(),
        "mount probe failed on /m/b: /m/b is not a directory"
    );
    assert_eq!(jobs(&manager), vec!["a"]);
    assert_eq!(alive(&manager, "a"), Some(41));
}

#[test]
fn a_mount_without_ready_path_waits_for_the_root() {
    let mut manager = manager();
    let run = plan(&manager, "j", None, None);
    let mut world = World::new();
    world.mount(&mut manager, run).unwrap();
    assert_eq!(
        world.log,
        vec![
            "mkdir /u/up",
            "mkdir /m/j",
            "encode j",
            "mkdir /s",
            "write /s/state.toml DATA",
            "await /project/foo / 15000 100",
            "build /project/foo /m/j /u/up -",
            "mount",
            "stat /m/j",
            "list /m/j",
        ]
    );
}

#[test]
fn a_directory_can_be_the_ready_path() {
    for how in vec!["", "entry"] {
        let mut manager = manager();
        let run = plan(&manager, "j", Some("a/b"), None);
        let mut world = World::new().tell("list /m/j/a/b", how);
        world.mount(&mut manager, run).unwrap();
        let tail: Vec<String> = world.log.iter().skip(8).cloned().collect();
        let mut expected = vec!["stat /m/j", "list /m/j", "stat /m/j/a/b", "list /m/j/a/b"];
        if how == "entry" {
            expected.push("type");
        }
        assert_eq!(tail, expected);
    }
}

#[test]
fn a_state_file_without_directory_is_just_written() {
    let paths = AntaresPaths::new(path("/u"), path("/c"), path("/m"), path("/"));
    let mut manager: Manager =
        AntaresManager::with_dicfuse(paths, Arc::new("dic"), StateRead::<i32>::Missing);
    let run = plan(&manager, "j", None, None);
    let mut world = World::new();
    world.mount(&mut manager, run).unwrap();
    assert_eq!(world.log[2..4].to_vec(), vec!["encode j", "write / DATA"]);
}

#[test]
fn a_directory_that_cannot_be_made_ends_the_mount() {
    for dir in vec!["mkdir /u/up", "mkdir /c/cl", "mkdir /m/j"] {
        let mut manager = manager();
        let run = plan(&manager, "j", None, Some("cl"));
        let mut world = World::new().tell(dir, "fail");
        let error = world.mount(&mut manager, run).unwrap_err();
        assert_eq!(message(&error), (None, format!("no {}", dir)));
        assert_eq!(world.log.last().unwrap(), dir);
        assert!(jobs(&manager).is_empty());
    }
}

#[test]
fn a_failure_before_the_session_leaves_the_job_tracked() {
    for (step, kind, text) in vec![
        ("encode j", Some(ErrorKind::Other), "encode state: no encode j"),
        ("mkdir /s", None, "no mkdir /s"),
        ("write /s/state.toml DATA", None, "no write /s/state.toml DATA"),
        ("await /project/foo / 15000 100", None, "no await /project/foo / 15000 100"),
        ("build /project/foo /m/j /u/up -", None, "no build /project/foo /m/j /u/up -"),
    ] {
        let mut manager = manager();
        let run = plan(&manager, "j", None, None);
        let mut world = World::new().tell(step, "fail");
        let error = world.mount(&mut manager, run).unwrap_err();
        assert_eq!(message(&error), (kind, text.to_string()));
        assert_eq!(world.log.last().unwrap(), step);
        assert_eq!(jobs(&manager), vec!["j"]);
        assert_eq!(alive(&manager, "j"), None);
    }
}

#[test]
fn a_session_that_does_not_start_is_rolled_back() {
    for cl in vec![None, Some("cl")] {
        let mut manager = manager();
        let run = plan(&manager, "j", None, cl);
        let mut world = World::new().tell("mount", "fail");
        let error = world.mount(&mut manager, run).unwrap_err();
        assert_eq!(message(&error), (None, "no mount".to_string()));
        let at = world.log.iter().position(|l| l == "mount").unwrap();
        let mut expected = vec!["unmount", "rmdir /m/j", "rmdir /u/up"];
        if cl.is_some() {
            expected.push("rmdir /c/cl");
        }
        expected.extend(vec!["encode ", "mkdir /s", "write /s/state.toml DATA"]);
        assert_eq!(world.log[at + 1..].to_vec(), expected);
        assert!(jobs(&manager).is_empty());
        assert_eq!(alive(&manager, "j"), None);
    }
}

#[test]
fn a_failed_probe_is_rolled_back_whatever_happens() {
    for (step, how, cause) in vec![
        ("stat /m/j", "fail", "no stat /m/j"),
        ("stat /m/j", "file", "/m/j is not a directory"),
        ("list /m/j", "fail", "no list /m/j"),
        ("type", "fail", "no type"),
        ("stat /m/j/r", "fail", "no stat /m/j/r"),
        ("list /m/j/r", "fail", "no list /m/j/r"),
        ("open /m/j/r", "fail", "no open /m/j/r"),
    ] {
        let mut manager = manager();
        let run = plan(&manager, "j", Some("r"), Some("cl"));
        let mut world = World::new().tell(step, how);
        if step == "open /m/j/r" {
            world = world.tell("stat /m/j/r", "file");
        }
        if step == "type" {
            world = world.tell("list /m/j", "entry");
        }
        // The encoding of the state fails the second time only.
        world = world
            .tell("unmount", "fail")
            .tell("rmdir /m/j", "fail")
            .tell("rmdir /u/up", "fail")
            .tell("rmdir /c/cl", "fail")
            .tell("encode ", "fail");
        let error = world.mount(&mut manager, run).unwrap_err();
        assert_eq!(
            message(&error),
            (Some(ErrorKind::Other), format!("mount probe failed on /m/j: {}", cause))
        );
        let expected = vec!["unmount", "rmdir /m/j", "rmdir /u/up", "rmdir /c/cl", "encode "];
        assert_eq!(world.log[world.log.len() - 5..].to_vec(), expected);
        assert!(jobs(&manager).is_empty());
    }
}

#[test]
fn a_rollback_takes_the_earlier_instance_of_the_job_too() {
    let mut manager = manager();
    let run = plan(&manager, "j", None, None);
    World::new().mount(&mut manager, run).unwrap();
    let run = plan(&manager, "other", None, None);
    World::new().mount(&mut manager, run).unwrap();
    let run = plan(&manager, "j", None, None);
    World::new().tell("mount", "fail").mount(&mut manager, run).unwrap_err();
    assert_eq!(jobs(&manager), vec!["other"]);
    assert_eq!(alive(&manager, "j"), None);
    assert_eq!(alive(&manager, "other"), Some(42));
}

#[test]
fn a_reply_that_is_no_answer_changes_nothing() {
    let mut manager = manager();
    let run = plan(&manager, "j", None, None);
    let run = manager.advance_mount(run, Reply::Built(1));
    let run = manager.advance_mount(run, Reply::Stat { is_dir: true });
    let run = manager.advance_mount(run, Reply::Encoded("x".to_string()));
    assert_eq!(line(&manager.mount_action(&run)), "mkdir /u/up");
    assert!(run.into_result().is_none());
    let run = plan(&manager, "j", None, None);
    World::new().mount(&mut manager, run).unwrap();
    let run: UmountRun<u32, i32> = manager.umount_job("j");
    let run = manager.advance_umount(run, Reply::Built(1));
    assert_eq!(line(&manager.umount_action(&run)), "unmount");
    assert!(run.into_result().is_none());
}

#[test]
fn mounting_again_replaces_the_instance() {
    let mut manager = manager();
    let run = plan(&manager, "j", None, None);
    World::new().mount(&mut manager, run).unwrap();
    let run: MountRun<u32, i32> = manager.plan_mount(
        "j",
        path("/elsewhere"),
        "/",
        None,
        "up2".to_string(),
        None,
    );
    World::new().mount(&mut manager, run).unwrap();
    let list = manager.list();
    assert_eq!(list.len(), 1);
    assert_eq!(text(&list[0].mountpoint), "/elsewhere");
    assert_eq!(list[0].upper_id, "up2");
}

#[test]
fn an_untracked_job_is_not_unmounted() {
    let mut manager = manager();
    let mut world = World::new();
    assert!(world.umount(&mut manager, "j").unwrap().is_none());
    assert!(world.log.is_empty());
}

#[test]
fn unmounting_undoes_mounting() {
    let mut manager = manager();
    for job in vec!["a", "b", "c"] {
        let run = plan(&manager, job, None, None);
        World::new().mount(&mut manager, run).unwrap();
    }
    let mut world = World::new();
    let removed = world.umount(&mut manager, "b").unwrap().unwrap();
    assert_eq!(removed.job_id, "b");
    assert_eq!(text(&removed.mountpoint), "/m/b");
    assert_eq!(
        world.log,
        vec!["unmount", "encode a,c", "mkdir /s", "write /s/state.toml DATA"]
    );
    assert_eq!(jobs(&manager), vec!["a", "c"]);
    assert_eq!(alive(&manager, "b"), None);
    assert_eq!(alive(&manager, "a"), Some(42));
}

#[test]
fn fusermount_takes_over_from_a_session_that_fails() {
    for (said, report) in vec![
        ("", FusermountReport::Unmounted),
        ("fusermount: entry for /m/j not mounted", FusermountReport::NotMounted),
        ("umount: Invalid argument", FusermountReport::NotMounted),
        ("device busy", FusermountReport::Failed),
    ] {
        let mut manager = manager();
        let run = plan(&manager, "j", None, None);
        World::new().mount(&mut manager, run).unwrap();
        let mut world = World::new().tell("unmount", "fail").tell("fusermount /m/j", said);
        let removed = world.umount(&mut manager, "j").unwrap().unwrap();
        assert_eq!(removed.job_id, "j");
        assert_eq!(world.log[0..2].to_vec(), vec!["unmount", "fusermount /m/j"]);
        assert!(jobs(&manager).is_empty());
        assert_eq!(fusermount_report(said == "", said.as_bytes()), report);
    }
    assert_eq!(
        fusermount_report(false, &[0xff, b'n', b'o', b't', b' ', b'm', b'o', b'u', b'n', b't', b'e', b'd']),
        FusermountReport::NotMounted
    );
}

#[test]
fn the_report_of_fusermount_is_kept() {
    let read = StateRead::<i32>::Parsed(AntaresState { mounts: vec![config("j", "up")] });
    let mut manager: Manager = AntaresManager::with_dicfuse(paths(), Arc::new("dic"), read);
    let mut run: UmountRun<u32, i32> = manager.umount_job("j");
    assert!(run.fuse_mut().is_none());
    assert_eq!(run.report(), None);
    assert_eq!(line(&manager.umount_action(&run)), "fusermount /m/j");
    let reply = Reply::Exited { success: false, stderr: b"not mounted".to_vec() };
    let run = manager.advance_umount(run, reply);
    assert_eq!(run.report(), Some(FusermountReport::NotMounted));
}

#[test]
fn a_program_that_cannot_be_run_leaves_the_job_tracked() {
    let mut manager = manager();
    let run = plan(&manager, "j", None, None);
    World::new().mount(&mut manager, run).unwrap();
    let mut world = World::new().tell("unmount", "fail").tell("fusermount /m/j", "fail");
    let error = world.umount(&mut manager, "j").unwrap_err();
    assert_eq!(message(&error), (None, "no fusermount /m/j".to_string()));
    assert_eq!(jobs(&manager), vec!["j"]);
    assert_eq!(alive(&manager, "j"), None);
    // The next try goes to the program at once.
    let mut world = World::new();
    assert!(world.umount(&mut manager, "j").unwrap().is_some());
    assert_eq!(world.log[0], "fusermount /m/j");
}

#[test]
fn a_state_that_cannot_be_saved_fails_the_unmounting() {
    for (step, kind, text) in vec![
        ("encode ", Some(ErrorKind::Other), "encode state: no encode "),
        ("mkdir /s", None, "no mkdir /s"),
        ("write /s/state.toml DATA", None, "no write /s/state.toml DATA"),
    ] {
        let mut manager = manager();
        let run = plan(&manager, "j", None, None);
        World::new().mount(&mut manager, run).unwrap();
        let mut world = World::new().tell(step, "fail");
        let error = world.umount(&mut manager, "j").unwrap_err();
        assert_eq!(message(&error), (kind, text.to_string()));
        assert!(jobs(&manager).is_empty());
    }
}

#[test]
fn the_state_is_loaded() {
    let table = load_state(StateRead::<i32>::Missing).unwrap();
    assert!(table.get("a").is_none());

    let unreadable = StateRead::Unreadable(Fault { source: 7, text: "denied".to_string() });
    let error = load_state(unreadable).unwrap_err();
    assert_eq!(message(&error), (None, "denied".to_string()));

    let error = load_state(StateRead::<i32>::Malformed("line 1".to_string())).unwrap_err();
    assert_eq!(
        message(&error),
        (Some(ErrorKind::InvalidData), "parse state: line 1".to_string())
    );

    // Of two instances of a job the later one counts.
    let mounts = vec![config("a", "1"), config("b", "2"), config("a", "3")];
    let table = load_state(StateRead::<i32>::Parsed(AntaresState { mounts })).unwrap();
    assert_eq!(table.get("a").unwrap().upper_id, "3");
    assert_eq!(table.get("b").unwrap().upper_id, "2");
    assert!(table.get("c").is_none());
    assert_eq!(table.values().len(), 2);
}

#[test]
fn a_state_that_cannot_be_had_counts_as_empty() {
    for read in vec![
        StateRead::Missing,
        StateRead::Unreadable(Fault { source: 7, text: "denied".to_string() }),
        StateRead::Malformed("line 1".to_string()),
        StateRead::Parsed(AntaresState::default()),
    ] {
        let manager: Manager = AntaresManager::with_dicfuse(paths(), Arc::new("dic"), read);
        assert!(manager.list().is_empty());
        assert_eq!(*manager.dicfuse(), "dic");
    }
}

#[test]
fn what_is_listed_is_loaded_again() {
    let mounts = vec![config("a", "1"), config("b", "2"), config("c", "3")];
    let read = StateRead::<i32>::Parsed(AntaresState { mounts });
    let manager: Manager = AntaresManager::with_dicfuse(paths(), Arc::new("dic"), read);
    let read = StateRead::<i32>::Parsed(AntaresState { mounts: manager.list() });
    let again: Manager = AntaresManager::with_dicfuse(paths(), Arc::new("dic"), read);
    assert_eq!(jobs(&again), vec!["a", "b", "c"]);
    for config in again.list() {
        assert_eq!(text(&config.mountpoint), format!("/m/{}", config.job_id));
    }
}

#[test]
fn the_probe_stands_alone() {
    let mountpoint = path("/mnt");
    assert!(ready_fs_path(&mountpoint, None).is_none());
    assert!(ready_fs_path(&mountpoint, Some("/")).is_none());
    assert_eq!(text(&ready_fs_path(&mountpoint, Some(" a/b/ ")).unwrap()), "/mnt/a/b");
    assert_eq!(text(&ready_fs_path(&mountpoint, Some("//")).unwrap()), "/mnt/");
    assert_eq!(text(&ready_fs_path(&mountpoint, Some("foo /")).unwrap()), "/mnt/foo ");
    let action = probe_action(ProbeStep::StatRoot, &mountpoint, &None);
    assert_eq!(line(&action), "stat /mnt");
    let action = probe_action(ProbeStep::StatReady, &mountpoint, &Some(path("/mnt/a")));
    assert_eq!(line(&action), "stat /mnt/a");
    let next: ProbeNext<i32> = probe_next(
        ProbeStep::StatRoot,
        &mountpoint,
        &None,
        Reply::<u32, i32>::Stat { is_dir: false },
    );
    match next {
        ProbeNext::Refused(AntaresError::Raised { kind, message }) => {
            assert_eq!(kind, ErrorKind::NotADirectory);
            assert_eq!(message, "/mnt is not a directory");
        }
        _ => panic!("the probe went on"),
    }
}

#[test]
fn the_probe_looks_for_the_path_that_was_awaited() {
    for (ready, awaited, found) in vec![
        ("foo /", "/foo ", "/m/j/foo "),
        ("/a/ /", "/a/ ", "/m/j/a/ "),
        ("/ /", "/ ", "/m/j/ "),
        (" /a b/ ", "/a b", "/m/j/a b"),
    ] {
        let mut manager = manager();
        let run = plan(&manager, "j", Some(ready), None);
        let stat = format!("stat {}", found);
        let mut world = World::new().tell(&stat, "file");
        world.mount(&mut manager, run).unwrap();
        assert_eq!(world.log[5], format!("await /project/foo {} 15000 100", awaited));
        let tail: Vec<String> = world.log.iter().skip(8).cloned().collect();
        let open = format!("open {}", found);
        assert_eq!(tail, vec!["stat /m/j", "list /m/j", stat.as_str(), open.as_str()]);

        let run = plan(&manager, "j", Some(ready), None);
        let error = World::new().tell(&stat, "fail").mount(&mut manager, run).unwrap_err();
        assert_eq!(error.text(), format!("mount probe failed on /m/j: no {}", stat));
    }
}

#[test]
fn slashes_alone_ask_for_the_root() {
    let mut manager = manager();
    let run = plan(&manager, "j", Some("//"), None);
    let mut world = World::new();
    world.mount(&mut manager, run).unwrap();
    assert_eq!(world.log[5], "await /project/foo / 15000 100");
    assert_eq!(world.log[8..].to_vec(), vec!["stat /m/j", "list /m/j"]);
    assert!(kept_fs_path(&path("/mnt"), None).is_none());
    assert!(kept_fs_path(&path("/mnt"), Some("/")).is_none());
    assert_eq!(text(&kept_fs_path(&path("/mnt"), Some("/foo ")).unwrap()), "/mnt/foo ");
}

#[test]
fn the_types_of_both_first_entries_are_asked() {
    for failing in 0..3 {
        let mut manager = manager();
        let run = plan(&manager, "j", Some("r"), None);
        let mut world = World::new().tell("list /m/j", "entry").tell("list /m/j/r", "entry");
        for i in 0..2 {
            world = world.tell("type", if i == failing { "fail" } else { "" });
        }
        let result = world.mount(&mut manager, run);
        let asked = world.log.iter().filter(|l| *l == "type").count();
        if failing < 2 {
            assert_eq!(result.unwrap_err().text(), "mount probe failed on /m/j: no type");
            assert_eq!(asked, failing + 1);
        } else {
            assert_eq!(result.unwrap().job_id, "j");
            assert_eq!(asked, 2);
            assert_eq!(world.log.last().unwrap(), "type");
        }
    }
}

#[test]
fn the_text_of_the_tracked_instances_is_written() {
    let read = StateRead::<i32>::Parsed(AntaresState { mounts: vec![config("a", "1")] });
    let mut manager: Manager = AntaresManager::with_dicfuse(paths(), Arc::new("dic"), read);
    let mut run = plan(&manager, "j", None, None);
    let mut world = World::new();
    let mut written: Vec<String> = Vec::new();
    loop {
        let action = manager.mount_action(&run);
        let reply = match &action {
            Action::Finish => break,
            Action::EncodeState(_) => Reply::Encoded(format!("<{}>", line(&action))),
            other => world.reply(other),
        };
        if let Action::WriteFile { path, data } = &action {
            written.push(format!("{} {}", text(path), data));
        }
        run = manager.advance_mount(run, reply);
    }
    assert!(run.into_result().unwrap().is_ok());
    assert_eq!(written, vec!["/s/state.toml <encode a,j>"]);
}

#[test]
fn a_mountpoint_need_not_be_utf8() {
    let mut manager = manager();
    let mountpoint = FsPath::from_bytes(vec![b'/', 0xfe]);
    let run: MountRun<u32, i32> =
        manager.plan_mount("j", mountpoint, "/", None, "up".to_string(), None);
    let mut run = run;
    let mut world = World::new();
    let error = loop {
        let action = manager.mount_action(&run);
        let reply = match &action {
            Action::Finish => break run.into_result().unwrap().unwrap_err(),
            Action::CreateDirAll(_) => Reply::Done,
            Action::BuildFuse { .. } => Reply::Built(1),
            Action::Stat(_) => Reply::Stat { is_dir: false },
            Action::RemoveDirAll(_) => Reply::Done,
            other => world.reply(other),
        };
        run = manager.advance_mount(run, reply);
    };
    assert_eq!(
        error.text(),
        "mount probe failed on /\u{fffd}: /\u{fffd} is not a directory"
    );
}
