use odjk_sv::command::{self, Command, Outcome};
use odjk_sv::loader::{Loader, Query, Reply};
use odjk_sv::services::{self, Report, Svc};
use odjk_sv::status;

fn cs(s: &str) -> Vec<char> {
    s.chars().collect()
}

fn status_of(raw: &str) -> (String, String, String) {
    let st = status::clean_status(raw);
    (status::status_state(&st), status::status_pid(&st), status::status_time(&st))
}

fn ran(out: &str) -> Outcome {
    Outcome::Ran { success: true, stdout: out.as_bytes().to_vec(), stderr: Vec::new() }
}

fn report(status: &str, script: &str, down: bool) -> Report {
    Report { status: status.to_string(), script: script.to_string(), down_file_exists: down }
}

fn parts(c: &Command) -> Vec<String> {
    let mut v = vec![c.program.clone()];
    v.extend(c.args.iter().cloned());
    v
}

#[test]
fn running_status_is_read() {
    let (state, pid, time) = status_of("run: /var/service/sshd: (pid 812) 45s; run: log: (pid 8) 50s\n");
    assert_eq!((state.as_str(), pid.as_str(), time.as_str()), ("run", "812", "45s"));
    let (state, pid, time) = status_of("\x1b[32mrun: /var/service/5s: (pid 1) 90061s\x1b[0m\n");
    assert_eq!((state.as_str(), pid.as_str(), time.as_str()), ("run", "1", "1d1h"));
}

#[test]
fn stopped_status_is_read() {
    let (state, pid, time) = status_of("down: /var/service/x: 3600s, normally up\n");
    assert_eq!((state.as_str(), pid.as_str(), time.as_str()), ("down", "-", "1h"));
    let (_, pid, _) = status_of("down: /var/service/x: 3s; run: log: (pid 17) 4s");
    assert_eq!(pid, "17");
}

#[test]
fn other_statuses_are_read() {
    let (state, pid, time) = status_of("  fail : /var/service/x: unable to open\n");
    assert_eq!((state.as_str(), pid.as_str(), time.as_str()), ("fail", "-", ""));
    let (state, pid, time) = status_of("");
    assert_eq!((state.as_str(), pid.as_str(), time.as_str()), ("", "-", ""));
    assert_eq!(status_of("no colon").0, "no colon");
    assert_eq!(status_of("running").0, "run");
    assert_eq!(status_of("x (pid 12").1, "-");
    assert_eq!(status_of("x (pid  12 )").1, "12");
    assert_eq!(status_of("x (pid ) (pid 3)").1, "");
}

#[test]
fn odd_times_are_read() {
    assert_eq!(status_of("x: 12s—").2, "12s");
    assert_eq!(status_of("x: 12sж 5s").2, "5s");
    assert_eq!(status_of("x: s 5s").2, "");
    assert_eq!(status_of("x: 99999999999999999999s 5s").2, "");
    assert_eq!(status_of("x: 1as 5s").2, "5s");
    assert_eq!(status_of("x: 00s").2, "0s");
    assert_eq!(status_of("run: /var/service/x y: (pid 1) 7s").2, "7s");
    assert_eq!(status_of("run: /var/service/x 5s: (pid 1) 7s").2, "5s");
}

#[test]
fn words_give_seconds() {
    assert_eq!(status::kept_len(&cs("45s;")), 3);
    assert_eq!(status::kept_len(&cs("45sж;")), 4);
    assert_eq!(status::kept_len(&cs("--")), 0);
    assert_eq!(status::word_seconds(&cs("45s;"), 3), Some(Some(45)));
    assert_eq!(status::word_seconds(&cs("45s;"), 2), None);
    assert_eq!(status::word_seconds(&cs("s"), 1), Some(None));
    assert_eq!(status::word_seconds(&cs("s"), 0), None);
    assert_eq!(status::word_seconds(&cs("4xs"), 3), None);
}

#[test]
fn times_are_shown_in_two_units() {
    let cases = [
        (0, "0s"),
        (59, "59s"),
        (60, "1m"),
        (61, "1m1s"),
        (3599, "59m59s"),
        (3600, "1h"),
        (3659, "1h"),
        (3660, "1h1m"),
        (86399, "23h59m"),
        (86400, "1d"),
        (89999, "1d"),
        (90000, "1d1h"),
        (u64::MAX, "213503982334601d7h"),
    ];
    for (secs, text) in cases {
        assert_eq!(status::format_uptime(secs), text);
    }
}

#[test]
fn names_are_listed() {
    assert_eq!(services::service_names("sshd\n dbus \r\n\n\t\nudevd"), ["sshd", "dbus", "udevd"]);
    assert!(services::service_names("").is_empty());
    assert!(services::service_names("\n \n").is_empty());
}

#[test]
fn script_command_is_found() {
    assert_eq!(services::script_program("#!/bin/sh\nexec 2>&1\n/usr/bin/sshd -D\n# end\n\n"), "sshd");
    assert_eq!(services::script_program("#!/bin/sh\nexec dbus-daemon"), "exec");
    assert_eq!(services::script_program("  # only\n\n"), "");
    assert_eq!(services::script_program(""), "");
    assert_eq!(services::script_program("a\n  ./b/ c"), "");
}

#[test]
fn services_are_described_and_sorted() {
    let reports = vec![
        report("run: z: (pid 5) 61s", "exec z", false),
        report("down: a: 1s", "/sbin/a", true),
        report("fail: m", "", false),
        report("run: a: (pid 6) 2s", "", false),
    ];
    let svcs = services::load_services("z\na\nm\n a\n", &reports);
    let got: Vec<(&str, &str, &str, bool)> = svcs
        .iter()
        .map(|s| (s.name.as_str(), s.state.as_str(), s.pid.as_str(), s.enabled))
        .collect();
    assert_eq!(
        got,
        [("a", "down", "-", false), ("a", "run", "6", true), ("m", "fail", "-", true), ("z", "run", "5", true)]
    );
    assert_eq!(svcs[3].time, "1m1s");
    assert_eq!(svcs[3].command, "exec");
    assert_eq!(svcs[0].command, "a");
}

#[test]
fn sorting_agrees_with_std() {
    let names = ["b", "a", "B", "ж", "ab", "", "a", "c1", "c", "b"];
    let listing: String = names.iter().map(|n| format!("{}\n", n)).collect();
    let kept: Vec<&str> = names.iter().copied().filter(|n| !n.is_empty()).collect();
    let reports: Vec<Report> = (0..kept.len()).map(|i| report(&format!("{}", i), "", false)).collect();
    let got: Vec<(String, String)> =
        services::load_services(&listing, &reports).into_iter().map(|s| (s.name, s.state)).collect();
    let mut want: Vec<(String, String)> =
        kept.iter().enumerate().map(|(i, n)| (n.to_string(), i.to_string())).collect();
    want.sort_by(|a, b| a.0.cmp(&b.0));
    assert_eq!(got, want);
}

#[test]
fn commands_are_framed() {
    let c = command::sudo("secret", vec!["sv".to_string(), "up".to_string(), "x".to_string()]);
    assert_eq!(parts(&c), ["sudo", "-S", "sv", "up", "x"]);
    assert_eq!(c.input.as_deref(), Some("secret\n"));
    let c = command::run(vec!["ls".to_string(), "/var/service".to_string()]);
    assert_eq!(parts(&c), ["ls", "/var/service"]);
    assert!(c.input.is_none());
}

#[test]
fn replies_are_read() {
    let o = Outcome::Ran { success: false, stdout: b"out".to_vec(), stderr: b"err".to_vec() };
    assert_eq!(command::sudo_reply(&o), (false, "outerr".to_string()));
    assert_eq!(command::run_reply(&o), "out");
    let o = Outcome::NotRun("no such file".to_string());
    assert_eq!(command::sudo_reply(&o), (false, "no such file".to_string()));
    assert_eq!(command::run_reply(&o), "");
    let o = Outcome::Ran { success: true, stdout: vec![b'a', 0xff, b'b'], stderr: "ж".as_bytes().to_vec() };
    assert_eq!(command::sudo_reply(&o), (true, "a\u{fffd}bж".to_string()));
    assert_eq!(command::run_reply(&o), "a\u{fffd}b");
}

fn run_query(l: &Loader) -> Vec<String> {
    match l.query() {
        Some(Query::Run(c)) => parts(&c),
        _ => panic!("a command was expected"),
    }
}

#[test]
fn load_asks_and_reports() {
    let l = Loader::start("pw");
    assert_eq!(run_query(&l), ["ls", "/var/service"]);
    let mut l = l.answer(&Reply::Ran(ran("b\na\n")));
    for name in ["b", "a"] {
        assert_eq!(run_query(&l), ["sudo", "-S", "sv", "status", &format!("/var/service/{}", name)]);
        l = l.answer(&Reply::Ran(ran(&format!("run: {}: (pid 3) 4s", name))));
        assert_eq!(run_query(&l), ["cat", &format!("/etc/sv/{}/run", name)]);
        l = l.answer(&Reply::Ran(ran("/bin/prog")));
        match l.query() {
            Some(Query::Exists(path)) => assert_eq!(path, format!("/etc/sv/{}/down", name)),
            _ => panic!("a file was expected"),
        }
        l = l.answer(&Reply::Exists(name == "a"));
    }
    assert!(l.query().is_none());
    let svcs: Vec<Svc> = l.finish();
    let got: Vec<(&str, bool, &str)> =
        svcs.iter().map(|s| (s.name.as_str(), s.enabled, s.command.as_str())).collect();
    assert_eq!(got, [("a", false, "prog"), ("b", true, "prog")]);
}

#[test]
fn load_of_nothing_is_done_at_once() {
    let l = Loader::start("pw").answer(&Reply::Ran(Outcome::NotRun("no ls".to_string())));
    assert!(l.query().is_none());
    assert!(l.finish().is_empty());
}

#[test]
fn unasked_answers_change_nothing() {
    let l = Loader::start("pw").answer(&Reply::Exists(true));
    assert_eq!(run_query(&l), ["ls", "/var/service"]);
    let l = l.answer(&Reply::Ran(ran("x"))).answer(&Reply::Exists(true));
    assert_eq!(run_query(&l), ["sudo", "-S", "sv", "status", "/var/service/x"]);
}
