use odjk_sv::action::Action;
use odjk_sv::app::{App, Job, Screen};
use odjk_sv::command::{Command, Outcome};
use odjk_sv::dialog::AddDialog;
use odjk_sv::loader::{Loader, Query};
use odjk_sv::names::NameSet;
use odjk_sv::rows::{Button, Contents, Rgb};
use odjk_sv::services::Svc;

const SECOND: u64 = 1_000_000_000;

fn parts(c: &Command) -> Vec<String> {
    let mut v = vec![c.program.clone()];
    v.extend(c.args.iter().cloned());
    v
}

fn app() -> App {
    App::new(&vec![None, None, None, None], 0)
}

fn opened() -> App {
    let mut a = app();
    a.password = "pw".to_string();
    a.screen = Screen::Main;
    a.loading = true;
    a.loaded(vec![svc("a", "run", true), svc("b", "down", false)]);
    a.last_load = 0;
    a
}

fn svc(name: &str, state: &str, enabled: bool) -> Svc {
    Svc {
        name: name.to_string(),
        state: state.to_string(),
        enabled,
        pid: if state == "run" { "12".to_string() } else { "-".to_string() },
        command: "prog".to_string(),
        time: "5s".to_string(),
    }
}

fn outcome(success: bool) -> Outcome {
    Outcome::Ran { success, stdout: Vec::new(), stderr: Vec::new() }
}

fn asks_for_listing(l: &Loader) -> bool {
    matches!(l.query(), Some(Query::Run(c)) if c.program == "ls")
}

#[test]
fn window_opens_on_the_password() {
    let a = App::new(&vec![Some("ru_RU".to_string())], 7);
    assert_eq!(a.screen, Screen::Auth);
    assert_eq!(a.lang.title, "Сервисный менеджер");
    assert!(a.svcs.is_empty() && !a.loading && a.password.is_empty());
    assert!(a.sudo_error.is_none() && a.auth_pending.is_none() && a.add_dlg.is_none());
    assert_eq!(a.last_load, 7 - 999_000_000_000);
    assert!(!a.is_checking());
}

#[test]
fn empty_password_is_not_checked() {
    let mut a = app();
    assert!(a.submit_password().is_none());
    assert_eq!(a.sudo_error.as_deref(), Some("Enter password"));
    assert!(!a.is_checking());
}

#[test]
fn password_is_checked_and_accepted() {
    let mut a = app();
    a.password = "pw".to_string();
    let c = a.submit_password().unwrap();
    assert_eq!(parts(&c), ["sudo", "-S", "true"]);
    assert_eq!(c.input.as_deref(), Some("pw\n"));
    assert_eq!(a.sudo_error.as_deref(), Some(" "));
    assert!(!a.is_checking());
    assert!(a.update(SECOND).is_none());
    a.password_checked(&outcome(true));
    let l = a.update(SECOND).unwrap();
    assert!(asks_for_listing(&l));
    assert_eq!(a.screen, Screen::Main);
    assert!(a.loading && a.sudo_error.is_none() && a.auth_pending.is_none());
    assert_eq!(a.password, "pw");
    assert_eq!(a.last_load, SECOND as i128);
}

#[test]
fn password_is_refused() {
    let mut a = app();
    a.password = "pw".to_string();
    a.submit_password();
    a.password_checked(&Outcome::NotRun("no sudo".to_string()));
    assert!(a.poll_auth(SECOND).is_none());
    assert_eq!(a.screen, Screen::Auth);
    assert_eq!(a.sudo_error.as_deref(), Some("Wrong password"));
    assert!(a.password.is_empty() && a.auth_pending.is_none() && !a.loading);
}

#[test]
fn check_results_wait_for_the_password_screen() {
    let mut a = opened();
    a.auth_pending = Some(false);
    assert!(a.poll_auth(SECOND).is_none());
    assert_eq!(a.auth_pending, Some(false));
    assert_eq!(a.password, "pw");
}

#[test]
fn checking_is_an_error_without_text() {
    let mut a = app();
    a.sudo_error = Some(String::new());
    assert!(a.is_checking());
    a.auth_pending = Some(true);
    assert!(!a.is_checking());
}

#[test]
fn list_is_refreshed_after_five_seconds() {
    let mut a = opened();
    assert!(a.update(5 * SECOND).is_none());
    assert!(!a.loading);
    assert!(a.update(5 * SECOND + 1).is_some());
    assert!(a.loading);
    assert!(a.update(100 * SECOND).is_none());
    assert!(a.reload(100 * SECOND).is_none());
    assert_eq!(a.last_load, (5 * SECOND + 1) as i128);
    a.loaded(Vec::new());
    assert!(!a.loading && a.svcs.is_empty());
    assert!(a.refresh(6 * SECOND).is_none());
    assert!(a.refresh(11 * SECOND).is_some());
    assert!(app().refresh(11 * SECOND).is_none());
}

#[test]
fn actions_run_their_commands() {
    let n = || "x".to_string();
    let cases = [
        (Action::Start(n()), vec!["sudo", "-S", "sv", "up", "x"], "x"),
        (Action::Stop(n()), vec!["sudo", "-S", "sv", "down", "x"], "x"),
        (Action::Enable(n()), vec!["sudo", "-S", "rm", "-f", "/etc/sv/x/down"], "x"),
        (Action::Disable(n()), vec!["sudo", "-S", "touch", "/etc/sv/x/down"], "x"),
        (Action::Remove(n()), vec!["sudo", "-S", "rm", "-f", "/var/service/x"], "x"),
        (
            Action::Add("/etc/sv/x".to_string(), "/var/service/x".to_string()),
            vec!["sudo", "-S", "ln", "-s", "/etc/sv/x", "/var/service/x"],
            "/var/service/x",
        ),
    ];
    for (action, command, subject) in cases {
        let mut a = opened();
        assert_eq!(action.subject(), subject);
        let job = a.request(action);
        assert!(!a.busy.contains(subject));
        let c = a.begin_job(&job);
        assert_eq!(parts(&c), command);
        assert_eq!(c.input.as_deref(), Some("pw\n"));
        assert!(a.busy.contains(subject));
        assert!(!a.loading);
        let l = a.end_job(&job);
        assert!(asks_for_listing(&l));
        assert!(!a.busy.contains(subject));
        assert!(a.loading);
    }
}

#[test]
fn name_set_holds_names_once() {
    let mut s = NameSet::new();
    s.insert("a");
    s.insert("b");
    s.insert("a");
    assert!(s.contains("a") && s.contains("b") && !s.contains("c"));
    s.remove("a");
    assert!(!s.contains("a") && s.contains("b"));
    s.remove("c");
    s.remove("b");
    assert!(!s.contains("b"));
}

#[test]
fn dialog_follows_the_name() {
    let mut d = AddDialog::open();
    assert_eq!((d.src_line.as_str(), d.dst_line.as_str()), ("/etc/sv/", "/var/service/"));
    assert!(d.shown());
    assert!(!d.shown());
    assert!(!d.can_add());
    d.set_name("ss".to_string());
    d.set_name("sshd".to_string());
    assert_eq!((d.src_line.as_str(), d.dst_line.as_str()), ("/etc/sv/sshd", "/var/service/sshd"));
    assert!(d.can_add());
    d.set_src("/opt/sshd".to_string());
    d.set_name("x".to_string());
    assert_eq!((d.src_line.as_str(), d.dst_line.as_str()), ("/opt/sshd", "/var/service/x"));
    d.set_dst("here".to_string());
    d.set_name("y".to_string());
    assert_eq!((d.src_line.as_str(), d.dst_line.as_str()), ("/opt/sshd", "here"));
    d.set_name(" \t".to_string());
    assert!(!d.can_add());
}

#[test]
fn dialog_with_odd_paths() {
    let mut d = AddDialog::open();
    d.src_line = "noslash".to_string();
    d.dst_line = "/run/sv/z".to_string();
    d.set_name(String::new());
    assert_eq!(d.src_line, "noslash");
    d.set_name("n".to_string());
    assert_eq!((d.src_line.as_str(), d.dst_line.as_str()), ("/etc/sv/n", "/run/sv/n"));
    d.set_name("a/b".to_string());
    d.set_name("a/c".to_string());
    assert_eq!(d.src_line, "/etc/sv/a/a/c");
}

fn added(job: &Job) -> (String, String) {
    match &job.action {
        Action::Add(src, dst) => (src.clone(), dst.clone()),
        _ => panic!("an addition was expected"),
    }
}

#[test]
fn dialog_adds_when_confirmed() {
    let mut a = opened();
    assert!(a.end_dialog(true, true).is_none());
    a.open_dialog();
    assert!(a.end_dialog(true, false).is_none());
    assert!(a.add_dlg.is_some());
    a.add_dlg.as_mut().unwrap().set_name("x".to_string());
    assert!(a.end_dialog(false, false).is_none());
    assert!(a.add_dlg.is_some());
    let job = a.end_dialog(true, false).unwrap();
    assert_eq!(added(&job), ("/etc/sv/x".to_string(), "/var/service/x".to_string()));
    assert_eq!(job.password, "pw");
    assert!(a.add_dlg.is_none());
    a.open_dialog();
    assert!(a.end_dialog(false, true).is_none());
    assert!(a.add_dlg.is_none());
    a.open_dialog();
    a.add_dlg.as_mut().unwrap().set_name("y".to_string());
    a.open_dialog();
    assert_eq!(a.add_dlg.as_ref().unwrap().svc_name, "");
    a.add_dlg.as_mut().unwrap().set_name("y".to_string());
    assert!(a.end_dialog(true, true).is_some());
}

#[test]
fn nothing_can_be_asked_for_before_the_list() {
    let mut a = app();
    a.password = "pw".to_string();
    a.loaded(vec![svc("a", "run", true)]);
    assert_eq!(asked(&mut a, 0, Button::Remove), "nothing");
    assert_eq!(asked(&mut a, 0, Button::Power), "nothing");
    assert_eq!(asked(&mut a, 0, Button::Autostart), "nothing");
    a.open_dialog();
    assert!(a.add_dlg.is_none());
    let mut dlg = AddDialog::open();
    dlg.set_name("x".to_string());
    a.add_dlg = Some(dlg);
    assert!(a.end_dialog(true, true).is_none());
    assert!(a.add_dlg.is_some());
}

#[test]
fn contents_of_the_list() {
    let mut a = app();
    assert!(matches!(a.contents(), Contents::Nothing("No services found")));
    a.loading = true;
    assert!(matches!(a.contents(), Contents::Waiting));
    assert!(matches!(opened().contents(), Contents::Rows));
}

#[test]
fn rows_show_their_services() {
    let a = opened();
    let r = a.row(0);
    assert_eq!((r.name.as_str(), r.running, r.pid.as_str()), ("a", true, "12"));
    assert_eq!((r.command.as_str(), r.time.as_str()), ("prog", "5s"));
    assert_eq!(r.mark, Rgb { r: 80, g: 210, b: 80 });
    assert_eq!((r.remove.label, r.remove.color), ("remove", Rgb { r: 220, g: 80, b: 80 }));
    let (power, autostart) = r.switches.unwrap();
    assert_eq!((power.label, power.color), ("stop", Rgb { r: 220, g: 80, b: 80 }));
    assert_eq!((autostart.label, autostart.color), ("disable", Rgb { r: 200, g: 160, b: 40 }));
    let r = a.row(1);
    assert_eq!((r.name.as_str(), r.running, r.pid.as_str()), ("b", false, ""));
    assert_eq!(r.mark, Rgb { r: 200, g: 70, b: 70 });
    let (power, autostart) = r.switches.unwrap();
    assert_eq!((power.label, power.hint), ("start", "sv up — start service"));
    assert_eq!(power.color, Rgb { r: 80, g: 210, b: 80 });
    assert_eq!((autostart.label, autostart.color), ("enable", Rgb { r: 100, g: 180, b: 255 }));
}

fn asked(a: &mut App, i: usize, button: Button) -> String {
    match a.press(i, button) {
        Some(job) => format!("{:?}", job.action),
        None => "nothing".to_string(),
    }
}

#[test]
fn buttons_ask_for_their_actions() {
    let mut a = opened();
    assert_eq!(asked(&mut a, 0, Button::Power), "Stop(\"a\")");
    assert_eq!(asked(&mut a, 1, Button::Power), "Start(\"b\")");
    assert_eq!(asked(&mut a, 0, Button::Autostart), "Disable(\"a\")");
    assert_eq!(asked(&mut a, 1, Button::Autostart), "Enable(\"b\")");
    assert_eq!(asked(&mut a, 1, Button::Remove), "Remove(\"b\")");
    let job = a.press(0, Button::Power).unwrap();
    a.begin_job(&job);
    assert!(a.row(0).switches.is_none());
    assert_eq!(asked(&mut a, 0, Button::Power), "nothing");
    assert_eq!(asked(&mut a, 0, Button::Autostart), "nothing");
    assert_eq!(asked(&mut a, 0, Button::Remove), "Remove(\"a\")");
    assert_eq!(asked(&mut a, 1, Button::Power), "Start(\"b\")");
    a.open_dialog();
    assert_eq!(asked(&mut a, 1, Button::Power), "nothing");
    assert_eq!(asked(&mut a, 1, Button::Autostart), "nothing");
    assert_eq!(asked(&mut a, 1, Button::Remove), "nothing");
}

fn asked_for(jobs: &[Job]) -> Vec<String> {
    jobs.iter().map(|j| format!("{:?}", j.action)).collect()
}

#[test]
fn input_of_a_drawing_is_taken_in_order() {
    let mut a = opened();
    let jobs = a.frame(None, false, &vec![(0, Button::Power), (1, Button::Remove)]);
    assert_eq!(asked_for(&jobs), ["Stop(\"a\")", "Remove(\"b\")"]);
    assert!(jobs.iter().all(|j| j.password == "pw"));

    let jobs = a.frame(None, true, &vec![(0, Button::Power)]);
    assert!(jobs.is_empty());
    assert!(a.add_dlg.is_some());

    let jobs = a.frame(Some((true, false)), false, &vec![(0, Button::Power)]);
    assert!(jobs.is_empty());
    assert!(a.add_dlg.is_some());

    let jobs = a.frame(Some((false, true)), false, &vec![(0, Button::Power)]);
    assert_eq!(asked_for(&jobs), ["Stop(\"a\")"]);
    assert!(a.add_dlg.is_none());

    a.open_dialog();
    a.add_dlg.as_mut().unwrap().set_name("x".to_string());
    let jobs = a.frame(Some((true, false)), false, &vec![(1, Button::Power)]);
    assert_eq!(asked_for(&jobs), ["Add(\"/etc/sv/x\", \"/var/service/x\")", "Start(\"b\")"]);
    assert!(a.add_dlg.is_none());

    a.open_dialog();
    a.add_dlg.as_mut().unwrap().set_name("y".to_string());
    let jobs = a.frame(Some((true, true)), true, &vec![(1, Button::Remove)]);
    assert_eq!(asked_for(&jobs), ["Add(\"/etc/sv/y\", \"/var/service/y\")"]);
    assert_eq!(a.add_dlg.as_ref().unwrap().svc_name, "");

    let mut a = app();
    a.loaded(vec![svc("a", "run", true)]);
    assert!(a.frame(Some((true, true)), true, &vec![(0, Button::Remove)]).is_empty());
    assert!(a.add_dlg.is_none());
}
