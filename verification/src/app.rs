//! The state of the window and what changes it.

use vstd::prelude::*;

use crate::action;
use crate::action::Action;
use crate::command;
use crate::command::{Command, Outcome};
use crate::dialog;
use crate::dialog::AddDialog;
use crate::lang;
use crate::lang::Lang;
use crate::loader;
use crate::loader::Loader;
use crate::names::NameSet;
use crate::services;
use crate::services::Svc;
use crate::text;

verus! {

/// How old the list may get before it is loaded again, in nanoseconds.
pub const REFRESH_AFTER: i128 = 5_000_000_000;

/// How old the list counts as when the window opens, in nanoseconds.
pub const INITIAL_AGE: i128 = 999_000_000_000;

/// What the window shows: the question for the password, or the list.
#[derive(Clone, Copy, Debug, PartialEq, Eq, Structural)]
pub enum Screen {
    Auth,
    Main,
}

/// The state of the window. Times are nanoseconds of a clock that never goes back.
#[derive(Debug)]
pub struct App {
    pub lang: Lang,
    pub screen: Screen,
    pub svcs: Vec<Svc>,
    pub loading: bool,
    pub busy: NameSet,
    pub last_load: i128,
    pub password: String,
    pub sudo_error: Option<String>,
    /// The result of the password check, until it is taken note of.
    pub auth_pending: Option<bool>,
    pub add_dlg: Option<AddDialog>,
}

/// The texts and sets of the state of the window.
#[verifier::ext_equal]
pub struct AppView {
    pub lang: Lang,
    pub screen: Screen,
    pub svcs: Seq<services::SvcView>,
    pub loading: bool,
    pub busy: Set<Seq<char>>,
    pub last_load: int,
    pub password: Seq<char>,
    pub sudo_error: Option<Seq<char>>,
    pub auth_pending: Option<bool>,
    pub add_dlg: Option<dialog::AddDialogView>,
}

impl View for App {
    type V = AppView;

    open spec fn view(&self) -> AppView {
        AppView {
            lang: self.lang,
            screen: self.screen,
            svcs: services::svc_views(self.svcs@),
            loading: self.loading,
            busy: self.busy@,
            last_load: self.last_load as int,
            password: self.password@,
            sudo_error: match self.sudo_error {
                Some(s) => Some(s@),
                None => None,
            },
            auth_pending: self.auth_pending,
            add_dlg: match self.add_dlg {
                Some(d) => Some(d@),
                None => None,
            },
        }
    }
}

/// An action on its way, with the password that it was asked for with.
#[derive(Debug)]
pub struct Job {
    pub action: Action,
    pub password: String,
}

/// The texts of a job.
#[verifier::ext_equal]
pub struct JobView {
    pub action: action::ActionView,
    pub password: Seq<char>,
}

impl View for Job {
    type V = JobView;

    open spec fn view(&self) -> JobView {
        JobView { action: self.action@, password: self.password@ }
    }
}

impl AppView {
    /// The window as it opens at the time `now`.
    pub open spec fn opened(lang: Lang, now: int) -> AppView {
        AppView {
            lang,
            screen: Screen::Auth,
            svcs: Seq::empty(),
            loading: false,
            busy: Set::empty(),
            last_load: now - INITIAL_AGE,
            password: Seq::empty(),
            sudo_error: None,
            auth_pending: None,
            add_dlg: None,
        }
    }

    /// Whether the texts are those of a language and the time is one that a clock can have
    /// shown.
    pub open spec fn valid(self) -> bool {
        &&& self.lang == lang::russian_texts() || self.lang == lang::english_texts()
        &&& -INITIAL_AGE <= self.last_load <= u64::MAX
    }

    /// The window once a load has begun at the time `now`; as it is if one is under way.
    pub open spec fn reloading(self, now: int) -> AppView {
        if self.loading {
            self
        } else {
            AppView { loading: true, last_load: now, ..self }
        }
    }

    /// The window once a load has found these services.
    pub open spec fn loaded(self, svcs: Seq<services::SvcView>) -> AppView {
        AppView { svcs, loading: false, ..self }
    }

    /// The window once a job has begun.
    pub open spec fn job_begun(self, job: JobView) -> AppView {
        AppView { busy: self.busy.insert(job.action.subject()), ..self }
    }

    /// The window once the command of a job has run, and a load has begun.
    pub open spec fn job_ended(self, job: JobView) -> AppView {
        AppView { busy: self.busy.remove(job.action.subject()), loading: true, ..self }
    }

    /// Whether the list is shown, too old at the time `now`, and no load is under way.
    pub open spec fn refresh_due(self, now: int) -> bool {
        self.screen is Main && now - self.last_load > REFRESH_AFTER && !self.loading
    }

    /// The window once the password was accepted or refused.
    pub open spec fn authenticated(self, ok: bool, now: int) -> AppView {
        if ok {
            AppView {
                screen: Screen::Main,
                sudo_error: None,
                auth_pending: None,
                ..self
            }.reloading(now)
        } else {
            AppView {
                sudo_error: Some(self.lang.wrong_password@),
                password: Seq::empty(),
                auth_pending: None,
                ..self
            }
        }
    }

    /// The window after it was drawn at the time `now`.
    pub open spec fn updated(self, now: int) -> AppView {
        match self.screen {
            Screen::Auth => match self.auth_pending {
                Some(ok) => self.authenticated(ok, now),
                None => self,
            },
            Screen::Main => if self.refresh_due(now) {
                self.reloading(now)
            } else {
                self
            },
        }
    }

    /// Whether drawing the window at the time `now` begins a load.
    pub open spec fn update_loads(self, now: int) -> bool {
        match self.screen {
            Screen::Auth => self.auth_pending == Some(true) && !self.loading,
            Screen::Main => self.refresh_due(now),
        }
    }

    /// Whether the window shows a password check as under way.
    pub open spec fn is_checking(self) -> bool {
        self.auth_pending is None && self.sudo_error == Some(""@)
    }

    /// The window once the dialog was asked for: with the dialog as it opens, if the list is
    /// shown; as it is where the password is asked for, since the dialog is not on offer
    /// there.
    pub open spec fn dialog_opened(self) -> AppView {
        if self.screen is Main {
            AppView { add_dlg: Some(dialog::AddDialogView::opened()), ..self }
        } else {
            self
        }
    }

    /// The window after the dialog was shown: without the dialog if it was confirmed or
    /// closed. Where the password is asked for there is no dialog to end.
    pub open spec fn after_dialog(self, confirmed: bool, closed: bool) -> AppView {
        if self.screen is Main && (closed || self.adds(confirmed)) {
            AppView { add_dlg: None, ..self }
        } else {
            self
        }
    }

    /// The job that makes the link of the dialog.
    pub open spec fn addition(self) -> JobView {
        JobView {
            action: action::ActionView::Add(
                self.add_dlg->0.src_line,
                self.add_dlg->0.dst_line,
            ),
            password: self.password,
        }
    }

    /// Whether confirming the dialog adds a service.
    pub open spec fn adds(self, confirmed: bool) -> bool {
        self.screen is Main && confirmed && self.add_dlg is Some && self.add_dlg->0.can_add()
    }
}

/// Whether what is handed out is a new load with the password `password`, if and only if
/// `wanted`.
pub open spec fn load_begins(r: Option<Loader>, wanted: bool, password: Seq<char>) -> bool {
    match r {
        Some(l) => wanted && l.wf() && l@ == loader::LoaderView::start(password),
        None => !wanted,
    }
}

impl App {
    /// Whether the state is in order.
    pub open spec fn wf(&self) -> bool {
        self@.valid() && self.busy.wf()
    }

    /// The window as it opens at the time `now`, in the language that the values of the
    /// environment variables choose.
    pub fn new(values: &Vec<Option<String>>, now: u64) -> (r: App)
        ensures
            r.wf(),
            r@ == AppView::opened(
                if lang::any_russian(values@) {
                    lang::russian_texts()
                } else {
                    lang::english_texts()
                },
                now as int,
            ),
    {
        let r = App {
            lang: lang::detect_lang(values),
            screen: Screen::Auth,
            svcs: Vec::new(),
            loading: false,
            busy: NameSet::new(),
            last_load: now as i128 - INITIAL_AGE,
            password: String::new(),
            sudo_error: None,
            auth_pending: None,
            add_dlg: None,
        };
        assert(r@.svcs =~= Seq::empty());
        r
    }

    /// Begins a load of the list, unless one is under way.
    pub fn reload(&mut self, now: u64) -> (r: Option<Loader>)
        requires
            old(self).wf(),
        ensures
            final(self).wf(),
            final(self)@ == old(self)@.reloading(now as int),
            load_begins(r, !old(self)@.loading, old(self)@.password),
    {
        if self.loading {
            return None;
        }
        self.loading = true;
        self.last_load = now as i128;
        Some(Loader::start(self.password.as_str()))
    }

    /// Takes the list that a load has found.
    pub fn loaded(&mut self, svcs: Vec<Svc>)
        requires
            old(self).wf(),
        ensures
            final(self).wf(),
            final(self)@ == old(self)@.loaded(services::svc_views(svcs@)),
    {
        self.svcs = svcs;
        self.loading = false;
    }

    /// Loads the list again if it is shown, too old, and no load is under way.
    pub fn refresh(&mut self, now: u64) -> (r: Option<Loader>)
        requires
            old(self).wf(),
        ensures
            final(self).wf(),
            final(self)@ == (if old(self)@.refresh_due(now as int) {
                old(self)@.reloading(now as int)
            } else {
                old(self)@
            }),
            load_begins(r, old(self)@.refresh_due(now as int), old(self)@.password),
    {
        if self.screen == Screen::Main && now as i128 - self.last_load > REFRESH_AFTER
            && !self.loading {
            self.reload(now)
        } else {
            None
        }
    }

    /// Makes a job of an action.
    pub fn dispatch(&mut self, action: Action) -> (r: Job)
        ensures
            *final(self) == *old(self),
            r@ == (JobView { action: action@, password: old(self)@.password }),
    {
        Job { action, password: self.password.clone() }
    }

    /// Asks for an action.
    pub fn request(&mut self, action: Action) -> (r: Job)
        ensures
            *final(self) == *old(self),
            r@ == (JobView { action: action@, password: old(self)@.password }),
    {
        self.dispatch(action)
    }

    /// Begins a job: what it is about becomes busy. The result is the command to run.
    pub fn begin_job(&mut self, job: &Job) -> (r: Command)
        requires
            old(self).wf(),
        ensures
            final(self).wf(),
            final(self)@ == old(self)@.job_begun(job@),
            r@ == command::as_root(job@.password, job@.action.args()),
    {
        let subject = job.action.subject();
        self.busy.insert(subject.as_str());
        job.action.command(job.password.as_str())
    }

    /// Ends a job whose command has run: what it was about is no longer busy, and the list
    /// is loaded again, even if a load is under way.
    pub fn end_job(&mut self, job: &Job) -> (r: Loader)
        requires
            old(self).wf(),
        ensures
            final(self).wf(),
            final(self)@ == old(self)@.job_ended(job@),
            r.wf(),
            r@ == loader::LoaderView::start(job@.password),
    {
        let subject = job.action.subject();
        self.busy.remove(subject.as_str());
        self.loading = true;
        Loader::start(job.password.as_str())
    }

    /// Asks for the password to be checked. Without a password there is nothing to check.
    pub fn submit_password(&mut self) -> (r: Option<Command>)
        requires
            old(self).wf(),
        ensures
            final(self).wf(),
            final(self)@ == (AppView {
                sudo_error: Some(
                    if old(self)@.password.len() == 0 {
                        old(self)@.lang.enter_password@
                    } else {
                        " "@
                    },
                ),
                ..old(self)@
            }),
            match r {
                Some(c) => old(self)@.password.len() > 0 && c@ == command::as_root(
                    old(self)@.password,
                    seq!["true"@],
                ),
                None => old(self)@.password.len() == 0,
            },
    {
        if self.password.as_str().is_empty() {
            self.sudo_error = Some(self.lang.enter_password.to_owned());
            return None;
        }
        self.sudo_error = Some(" ".to_owned());
        let mut args: Vec<String> = Vec::new();
        args.push("true".to_owned());
        assert(text::strings(args@) =~= seq!["true"@]);
        Some(command::sudo(self.password.as_str(), args))
    }

    /// Takes what came of checking the password.
    pub fn password_checked(&mut self, outcome: &Outcome)
        requires
            old(self).wf(),
        ensures
            final(self).wf(),
            final(self)@ == (AppView {
                auth_pending: Some(command::root_reply(*outcome).0),
                ..old(self)@
            }),
    {
        let (ok, _) = command::sudo_reply(outcome);
        self.auth_pending = Some(ok);
    }

    /// Takes note of the result of a password check, if the password is being asked for and
    /// there is a result. An accepted password opens the list and begins a load.
    pub fn poll_auth(&mut self, now: u64) -> (r: Option<Loader>)
        requires
            old(self).wf(),
        ensures
            final(self).wf(),
            final(self)@ == (if old(self)@.screen is Auth && old(self)@.auth_pending is Some {
                old(self)@.authenticated(old(self)@.auth_pending->0, now as int)
            } else {
                old(self)@
            }),
            load_begins(
                r,
                old(self)@.screen is Auth && old(self)@.auth_pending == Some(true)
                    && !old(self)@.loading,
                old(self)@.password,
            ),
    {
        if self.screen != Screen::Auth {
            return None;
        }
        match self.auth_pending {
            None => None,
            Some(ok) => {
                self.auth_pending = None;
                if ok {
                    self.screen = Screen::Main;
                    self.sudo_error = None;
                    self.reload(now)
                } else {
                    self.sudo_error = Some(self.lang.wrong_password.to_owned());
                    self.password = String::new();
                    None
                }
            },
        }
    }

    /// What the window does by itself each time that it is drawn: where the password is asked
    /// for it takes note of the result of a check, where the list is shown it loads the list
    /// again if that is due.
    pub fn update(&mut self, now: u64) -> (r: Option<Loader>)
        requires
            old(self).wf(),
        ensures
            final(self).wf(),
            final(self)@ == old(self)@.updated(now as int),
            load_begins(r, old(self)@.update_loads(now as int), old(self)@.password),
    {
        match self.screen {
            Screen::Auth => self.poll_auth(now),
            Screen::Main => self.refresh(now),
        }
    }

    /// Whether the window shows a password check as under way.
    pub fn is_checking(&self) -> (r: bool)
        ensures
            r == self@.is_checking(),
    {
        if self.auth_pending.is_some() {
            return false;
        }
        match &self.sudo_error {
            Some(error) => {
                proof {
                    reveal_strlit("");
                    assert(error@.len() == 0 ==> error@ =~= ""@);
                }
                error.as_str().is_empty()
            },
            None => false,
        }
    }

    /// Opens the dialog that adds a service, anew if it is open. Where the password is asked
    /// for it stays closed.
    pub fn open_dialog(&mut self)
        requires
            old(self).wf(),
        ensures
            final(self).wf(),
            final(self)@ == old(self)@.dialog_opened(),
    {
        if self.screen == Screen::Main {
            self.add_dlg = Some(AddDialog::open());
        }
    }

    /// Ends one showing of the dialog: it was confirmed, or closed, or neither, or both. A
    /// confirmed dialog asks for its link, even if it was closed too. Where the password is
    /// asked for nothing happens.
    pub fn end_dialog(&mut self, confirmed: bool, closed: bool) -> (r: Option<Job>)
        requires
            old(self).wf(),
        ensures
            final(self).wf(),
            final(self)@ == old(self)@.after_dialog(confirmed, closed),
            match r {
                Some(job) => old(self)@.adds(confirmed) && job@ == old(self)@.addition(),
                None => !old(self)@.adds(confirmed),
            },
    {
        if self.screen != Screen::Main {
            return None;
        }
        let added: Option<Action> = match &self.add_dlg {
            Some(dlg) => if confirmed && dlg.can_add() {
                Some(Action::Add(dlg.src_line.clone(), dlg.dst_line.clone()))
            } else {
                None
            },
            None => None,
        };
        if closed {
            self.add_dlg = None;
        }
        match added {
            Some(action) => {
                self.add_dlg = None;
                Some(self.request(action))
            },
            None => None,
        }
    }
}

} // verus!
