use std::collections::BTreeSet;

use odjk_sv::action::Action;
use odjk_sv::app::{App, Screen};
use odjk_sv::command::{Command, Outcome};
use odjk_sv::loader::{Loader, Query, Reply};

/// A disk that holds paths and knows the programs that the window runs.
struct Disk {
    files: BTreeSet<String>,
}

impl Disk {
    fn ran(out: String) -> Outcome {
        Outcome::Ran { success: true, stdout: out.into_bytes(), stderr: Vec::new() }
    }

    fn run(&mut self, c: &Command) -> Outcome {
        let mut args: Vec<&str> = vec![c.program.as_str()];
        args.extend(c.args.iter().map(|a| a.as_str()));
        match args.as_slice() {
            ["ls", dir] => {
                let prefix = format!("{}/", dir);
                let names: Vec<&str> =
                    self.files.iter().filter_map(|f| f.strip_prefix(prefix.as_str())).collect();
                Disk::ran(names.iter().map(|n| format!("{}\n", n)).collect())
            }
            ["sudo", "-S", "touch", path] => {
                self.files.insert(path.to_string());
                Disk::ran(String::new())
            }
            ["sudo", "-S", "rm", "-f", path] => {
                self.files.remove(*path);
                Disk::ran(String::new())
            }
            ["sudo", "-S", "ln", "-s", _, dst] => {
                self.files.insert(dst.to_string());
                Disk::ran(String::new())
            }
            ["sudo", "-S", "sv", "status", path] => Disk::ran(format!("run: {}: (pid 7) 8s\n", path)),
            _ => Outcome::NotRun("unknown".to_string()),
        }
    }

    fn answer(&mut self, q: Query) -> Reply {
        match q {
            Query::Run(c) => Reply::Ran(self.run(&c)),
            Query::Exists(path) => Reply::Exists(self.files.contains(&path)),
        }
    }

    fn load(&mut self, mut l: Loader, a: &mut App) {
        while let Some(q) = l.query() {
            l = l.answer(&self.answer(q));
        }
        a.loaded(l.finish());
    }

    fn act(&mut self, a: &mut App, action: Action) {
        let job = a.request(action);
        let c = a.begin_job(&job);
        self.run(&c);
        let l = a.end_job(&job);
        self.load(l, a);
    }
}

fn setting() -> (Disk, App) {
    let mut disk = Disk { files: BTreeSet::new() };
    disk.files.insert("/var/service/b".to_string());
    disk.files.insert("/var/service/a".to_string());
    let mut a = App::new(&vec![], 0);
    a.password = "pw".to_string();
    a.screen = Screen::Main;
    let l = a.reload(1).unwrap();
    disk.load(l, &mut a);
    (disk, a)
}

fn shown(a: &App) -> Vec<(&str, bool)> {
    a.svcs.iter().map(|s| (s.name.as_str(), s.enabled)).collect()
}

fn name() -> String {
    "b".to_string()
}

#[test]
fn enabling_undoes_disabling() {
    let (mut disk, mut a) = setting();
    assert_eq!(shown(&a), [("a", true), ("b", true)]);
    disk.act(&mut a, Action::Disable(name()));
    assert_eq!(shown(&a), [("a", true), ("b", false)]);
    assert!(disk.files.contains("/etc/sv/b/down") && disk.files.contains("/var/service/b"));
    disk.act(&mut a, Action::Enable(name()));
    assert_eq!(shown(&a), [("a", true), ("b", true)]);
    assert!(!disk.files.contains("/etc/sv/b/down") && disk.files.contains("/var/service/b"));
}

#[test]
fn switching_autostart_twice_is_switching_it_once() {
    let (mut disk, mut a) = setting();
    disk.act(&mut a, Action::Enable(name()));
    assert_eq!(shown(&a), [("a", true), ("b", true)]);
    disk.act(&mut a, Action::Disable(name()));
    let once = disk.files.clone();
    disk.act(&mut a, Action::Disable(name()));
    assert_eq!(disk.files, once);
    assert_eq!(shown(&a), [("a", true), ("b", false)]);
}

#[test]
fn removed_service_goes_and_added_service_comes() {
    let (mut disk, mut a) = setting();
    disk.act(&mut a, Action::Remove(name()));
    assert_eq!(shown(&a), [("a", true)]);
    disk.act(&mut a, Action::Add("/etc/sv/b".to_string(), "/var/service/b".to_string()));
    assert_eq!(shown(&a), [("a", true), ("b", true)]);
    assert_eq!(a.svcs[1].state, "run");
}
