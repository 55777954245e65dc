use diaryx_sync_extism::host::{HostCall, HostReply};
use diaryx_sync_extism::host_fs::{
    create_new, is_dir, list_files, list_md_files, move_file, FsErrorKind, FsOutcome, FsRun,
};
use std::collections::BTreeMap;

struct Disk {
    files: BTreeMap<String, String>,
    broken: bool,
    log: Vec<String>,
}

impl Disk {
    fn new(files: &[(&str, &str)]) -> Disk {
        Disk {
            files: files
                .iter()
                .map(|(k, v)| (k.to_string(), v.to_string()))
                .collect(),
            broken: false,
            log: Vec::new(),
        }
    }

    fn answer(&mut self, call: HostCall) -> HostReply {
        self.log.push(format!("{call:?}"));
        let broken = if self.broken {
            Err("broken".to_string())
        } else {
            Ok(())
        };
        match call {
            HostCall::FileExists(p) => HostReply::Exists(broken.map(|_| {
                self.files.keys().any(|k| *k == p || k.starts_with(&format!("{p}/")))
            })),
            HostCall::ReadText(p) => {
                HostReply::Text(broken.and_then(|_| self.files.get(&p).cloned().ok_or("gone".to_string())))
            }
            HostCall::WriteText(p, c) => {
                self.files.insert(p, c);
                HostReply::Done(broken)
            }
            HostCall::DeleteFile(p) => {
                self.files.remove(&p);
                HostReply::Done(broken)
            }
            HostCall::ListFiles(p) => HostReply::Files(broken.map(|_| {
                self.files.keys().filter(|k| k.starts_with(&p)).cloned().collect()
            })),
            other => panic!("{other:?}"),
        }
    }

    fn run(&mut self, mut run: FsRun) -> FsOutcome {
        while let Some(call) = run.call() {
            let reply = self.answer(call);
            run = run.step(reply);
        }
        run.into_outcome().unwrap()
    }
}

fn done(outcome: FsOutcome) -> Result<(), (FsErrorKind, String)> {
    match outcome {
        FsOutcome::Done(r) => r.map_err(|e| (e.kind, e.message)),
        other => panic!("{other:?}"),
    }
}

fn answer(outcome: FsOutcome) -> bool {
    match outcome {
        FsOutcome::Answer(b) => b,
        other => panic!("{other:?}"),
    }
}

#[test]
fn creating() {
    let mut disk = Disk::new(&[("a", "1")]);
    assert_eq!(
        done(disk.run(create_new("a", "2"))),
        Err((FsErrorKind::AlreadyExists, "File already exists".to_string()))
    );
    assert_eq!(disk.files["a"], "1");
    assert_eq!(done(disk.run(create_new("b", "2"))), Ok(()));
    assert_eq!(disk.files["b"], "2");
    disk.broken = true;
    assert_eq!(
        done(disk.run(create_new("c", "2"))),
        Err((FsErrorKind::Other, "broken".to_string()))
    );
}

#[test]
fn moving() {
    let mut disk = Disk::new(&[("a", "1"), ("b", "2")]);
    assert_eq!(
        done(disk.run(move_file("x", "y"))),
        Err((FsErrorKind::NotFound, "Source file not found: x".to_string()))
    );
    assert_eq!(
        done(disk.run(move_file("a", "b"))),
        Err((
            FsErrorKind::AlreadyExists,
            "Destination already exists: b".to_string()
        ))
    );
    disk.log.clear();
    assert_eq!(done(disk.run(move_file("a", "c"))), Ok(()));
    assert_eq!(disk.files.get("a"), None);
    assert_eq!(disk.files["c"], "1");
    assert_eq!(disk.log.len(), 5);
    assert_eq!(disk.log[4], "DeleteFile(\"a\")");
    disk.broken = true;
    assert_eq!(
        done(disk.run(move_file("b", "d"))),
        Err((FsErrorKind::Other, "broken".to_string()))
    );
    assert_eq!(disk.files["b"], "2");
}

#[test]
fn directories() {
    let mut disk = Disk::new(&[("dir.d/a", "1"), ("file", "2"), ("file.md", "3")]);
    assert!(answer(disk.run(is_dir("", true))));
    assert!(answer(disk.run(is_dir("//", true))));
    assert!(answer(disk.run(is_dir(".", true))));
    assert!(disk.log.is_empty());
    assert!(answer(disk.run(is_dir("dir.d/", true))));
    assert!(!answer(disk.run(is_dir("file.md", true))));
    assert!(answer(disk.run(is_dir("file", false))));
    assert!(!answer(disk.run(is_dir("absent.md", true))));
    assert!(answer(disk.run(is_dir("absent", false))));
    disk.broken = true;
    assert!(!answer(disk.run(is_dir("dir.d", true))));
}

#[test]
fn listing() {
    let mut disk = Disk::new(&[("d/a.md", ""), ("d/b.png", ""), ("d/c.md", "")]);
    match disk.run(list_md_files("d")) {
        FsOutcome::Paths(Ok(files)) => assert_eq!(files, vec!["d/a.md", "d/c.md"]),
        other => panic!("{other:?}"),
    }
    match disk.run(list_files("d")) {
        FsOutcome::Paths(Ok(files)) => assert_eq!(files.len(), 3),
        other => panic!("{other:?}"),
    }
    disk.broken = true;
    match disk.run(list_files("d")) {
        FsOutcome::Paths(Err(e)) => assert_eq!(e.message, "broken"),
        other => panic!("{other:?}"),
    }
}

#[test]
fn stray_replies_change_nothing() {
    let run = create_new("a", "b").step(HostReply::Saved);
    assert!(!run.is_over());
    assert!(matches!(run.call(), Some(HostCall::FileExists(p)) if p == "a"));
    assert!(run.into_outcome().is_none());
}
