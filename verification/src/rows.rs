//! What the list shows, and what its buttons ask for.

use vstd::prelude::*;

use crate::action;
use crate::action::Action;
use crate::app;
use crate::app::{App, Job, Screen};
use crate::lang::Lang;
use crate::services;
use crate::services::Svc;

verus! {

/// A colour.
#[derive(Clone, Copy, Debug, PartialEq, Eq, Structural)]
pub struct Rgb {
    pub r: u8,
    pub g: u8,
    pub b: u8,
}

/// A button as it is drawn.
#[derive(Clone, Copy, Debug)]
pub struct Face {
    pub label: &'static str,
    pub hint: &'static str,
    pub color: Rgb,
}

/// What stands in place of the list or in it.
#[derive(Clone, Copy, Debug)]
pub enum Contents {
    /// Nothing yet; a load is under way.
    Waiting,
    /// There are no services; this text says so.
    Nothing(&'static str),
    /// The rows.
    Rows,
}

/// A row of the list.
#[derive(Debug)]
pub struct Row {
    pub name: String,
    pub running: bool,
    /// The colour of the mark before the name.
    pub mark: Rgb,
    pub pid: String,
    pub command: String,
    pub time: String,
    pub remove: Face,
    /// The buttons that start or stop and enable or disable; none while the row is busy.
    pub switches: Option<(Face, Face)>,
}

/// The texts of a row.
#[verifier::ext_equal]
pub struct RowView {
    pub name: Seq<char>,
    pub running: bool,
    pub mark: Rgb,
    pub pid: Seq<char>,
    pub command: Seq<char>,
    pub time: Seq<char>,
    pub remove: Face,
    pub switches: Option<(Face, Face)>,
}

impl View for Row {
    type V = RowView;

    open spec fn view(&self) -> RowView {
        RowView {
            name: self.name@,
            running: self.running,
            mark: self.mark,
            pid: self.pid@,
            command: self.command@,
            time: self.time@,
            remove: self.remove,
            switches: self.switches,
        }
    }
}

/// A button of a row.
#[derive(Clone, Copy, Debug, PartialEq, Eq, Structural)]
pub enum Button {
    /// Starts or stops.
    Power,
    /// Enables or disables.
    Autostart,
    Remove,
}

/// Whether a service is running.
pub open spec fn running(svc: services::SvcView) -> bool {
    svc.state == "run"@
}

/// The process number as it is shown: nothing where there is none.
pub open spec fn shown_pid(pid: Seq<char>) -> Seq<char> {
    if pid == "-"@ {
        Seq::empty()
    } else {
        pid
    }
}

/// The button that stops a running service or starts another.
pub open spec fn power_face(l: Lang, on: bool) -> Face {
    if on {
        Face { label: l.btn_stop, hint: l.hint_stop, color: Rgb { r: 220, g: 80, b: 80 } }
    } else {
        Face { label: l.btn_start, hint: l.hint_start, color: Rgb { r: 80, g: 210, b: 80 } }
    }
}

/// The button that disables an enabled service or enables another.
pub open spec fn autostart_face(l: Lang, enabled: bool) -> Face {
    if enabled {
        Face { label: l.btn_disable, hint: l.hint_disable, color: Rgb { r: 200, g: 160, b: 40 } }
    } else {
        Face { label: l.btn_enable, hint: l.hint_enable, color: Rgb { r: 100, g: 180, b: 255 } }
    }
}

/// The button that removes a service.
pub open spec fn remove_face(l: Lang) -> Face {
    Face { label: l.btn_remove, hint: l.hint_remove, color: Rgb { r: 220, g: 80, b: 80 } }
}

/// The row of a service.
pub open spec fn row_of(l: Lang, busy: Set<Seq<char>>, svc: services::SvcView) -> RowView {
    RowView {
        name: svc.name,
        running: running(svc),
        mark: if running(svc) {
            Rgb { r: 80, g: 210, b: 80 }
        } else {
            Rgb { r: 200, g: 70, b: 70 }
        },
        pid: shown_pid(svc.pid),
        command: svc.command,
        time: svc.time,
        remove: remove_face(l),
        switches: if busy.contains(svc.name) {
            None
        } else {
            Some((power_face(l, running(svc)), autostart_face(l, svc.enabled)))
        },
    }
}

/// What a button of the row of a service asks for. While the dialog is open no button asks
/// for anything, and while the row is busy it has only the button that removes.
pub open spec fn pressed(
    busy: Set<Seq<char>>,
    dialog_open: bool,
    svc: services::SvcView,
    button: Button,
) -> Option<action::ActionView> {
    if dialog_open {
        None
    } else {
        match button {
            Button::Remove => Some(action::ActionView::Remove(svc.name)),
            Button::Power => if busy.contains(svc.name) {
                None
            } else if running(svc) {
                Some(action::ActionView::Stop(svc.name))
            } else {
                Some(action::ActionView::Start(svc.name))
            },
            Button::Autostart => if busy.contains(svc.name) {
                None
            } else if svc.enabled {
                Some(action::ActionView::Disable(svc.name))
            } else {
                Some(action::ActionView::Enable(svc.name))
            },
        }
    }
}

/// What a button of the row at the index `i` of the window asks for. Where the password is
/// asked for there are no rows, so nothing is asked for.
pub open spec fn pressed_in(
    a: app::AppView,
    i: int,
    button: Button,
) -> Option<action::ActionView> {
    if a.screen is Main {
        pressed(a.busy, a.add_dlg is Some, a.svcs[i], button)
    } else {
        None
    }
}

/// The texts of a sequence of jobs.
pub open spec fn job_views(jobs: Seq<Job>) -> Seq<app::JobView> {
    Seq::new(jobs.len(), |i: int| jobs[i]@)
}

/// The window after the input of one drawing. The dialog, if it was shown, ends first: it was
/// confirmed, and closed, or not. The toolbar, if it asked for the dialog, opens it then.
pub open spec fn after_input(
    a: app::AppView,
    dialog: Option<(bool, bool)>,
    add: bool,
) -> app::AppView {
    let ended = match dialog {
        Some((confirmed, closed)) => a.after_dialog(confirmed, closed),
        None => a,
    };
    if add {
        ended.dialog_opened()
    } else {
        ended
    }
}

/// The job that the dialog gives, if it was shown and adds.
pub open spec fn dialog_jobs(
    a: app::AppView,
    dialog: Option<(bool, bool)>,
) -> Seq<app::JobView> {
    match dialog {
        Some((confirmed, _)) => if a.adds(confirmed) {
            seq![a.addition()]
        } else {
            Seq::empty()
        },
        None => Seq::empty(),
    }
}

/// The jobs that clicks on buttons of rows give, in the order of the clicks.
pub open spec fn click_jobs(a: app::AppView, clicks: Seq<(usize, Button)>) -> Seq<app::JobView>
    decreases clicks.len(),
{
    if clicks.len() == 0 {
        Seq::empty()
    } else {
        let jobs = click_jobs(a, clicks.drop_last());
        let (i, button) = clicks.last();
        match pressed_in(a, i as int, button) {
            Some(action) => jobs.push(app::JobView { action, password: a.password }),
            None => jobs,
        }
    }
}

/// What stands in place of the list or in it.
pub open spec fn contents_of(a: app::AppView) -> Contents {
    if a.svcs.len() > 0 {
        Contents::Rows
    } else if a.loading {
        Contents::Waiting
    } else {
        Contents::Nothing(a.lang.no_services)
    }
}

/// Whether a service is running.
pub fn is_running(svc: &Svc) -> (r: bool)
    ensures
        r == running(svc@),
{
    svc.state == "run".to_owned()
}

/// The button that stops a running service or starts another.
fn power_button(l: Lang, on: bool) -> (r: Face)
    ensures
        r == power_face(l, on),
{
    if on {
        Face { label: l.btn_stop, hint: l.hint_stop, color: Rgb { r: 220, g: 80, b: 80 } }
    } else {
        Face { label: l.btn_start, hint: l.hint_start, color: Rgb { r: 80, g: 210, b: 80 } }
    }
}

/// The button that disables an enabled service or enables another.
fn autostart_button(l: Lang, enabled: bool) -> (r: Face)
    ensures
        r == autostart_face(l, enabled),
{
    if enabled {
        Face { label: l.btn_disable, hint: l.hint_disable, color: Rgb { r: 200, g: 160, b: 40 } }
    } else {
        Face { label: l.btn_enable, hint: l.hint_enable, color: Rgb { r: 100, g: 180, b: 255 } }
    }
}

/// The button that removes a service.
fn remove_button(l: Lang) -> (r: Face)
    ensures
        r == remove_face(l),
{
    Face { label: l.btn_remove, hint: l.hint_remove, color: Rgb { r: 220, g: 80, b: 80 } }
}

impl App {
    /// What stands in place of the list or in it.
    pub fn contents(&self) -> (r: Contents)
        ensures
            r == contents_of(self@),
    {
        if self.svcs.len() > 0 {
            Contents::Rows
        } else if self.loading {
            Contents::Waiting
        } else {
            Contents::Nothing(self.lang.no_services)
        }
    }

    /// The row at the index `i`.
    pub fn row(&self, i: usize) -> (r: Row)
        requires
            i < self@.svcs.len(),
        ensures
            r@ == row_of(self@.lang, self@.busy, self@.svcs[i as int]),
    {
        let svc = &self.svcs[i];
        let l = self.lang;
        let on = is_running(svc);
        Row {
            name: svc.name.clone(),
            running: on,
            mark: if on {
                Rgb { r: 80, g: 210, b: 80 }
            } else {
                Rgb { r: 200, g: 70, b: 70 }
            },
            pid: if svc.pid == "-".to_owned() {
                String::new()
            } else {
                svc.pid.clone()
            },
            command: svc.command.clone(),
            time: svc.time.clone(),
            remove: remove_button(l),
            switches: if self.busy.contains(svc.name.as_str()) {
                None
            } else {
                Some((power_button(l, on), autostart_button(l, svc.enabled)))
            },
        }
    }

    /// Presses a button of the row at the index `i`.
    pub fn press(&mut self, i: usize, button: Button) -> (r: Option<Job>)
        requires
            i < old(self)@.svcs.len(),
        ensures
            *final(self) == *old(self),
            match r {
                Some(job) => pressed_in(old(self)@, i as int, button) == Some(job@.action)
                    && job@.password == old(self)@.password,
                None => pressed_in(old(self)@, i as int, button) is None,
            },
    {
        if self.screen != Screen::Main || self.add_dlg.is_some() {
            return None;
        }
        let svc = &self.svcs[i];
        let name = svc.name.clone();
        let on = is_running(svc);
        let enabled = svc.enabled;
        match button {
            Button::Remove => Some(self.request(Action::Remove(name))),
            Button::Power => if self.busy.contains(name.as_str()) {
                None
            } else if on {
                Some(self.request(Action::Stop(name)))
            } else {
                Some(self.request(Action::Start(name)))
            },
            Button::Autostart => if self.busy.contains(name.as_str()) {
                None
            } else if enabled {
                Some(self.request(Action::Disable(name)))
            } else {
                Some(self.request(Action::Enable(name)))
            },
        }
    }

    /// Takes the input of one drawing of the list: how the dialog was ended, if it was shown;
    /// whether the toolbar asked for the dialog; and which buttons of which rows were
    /// clicked. The clicks count for the window as the dialog and the toolbar leave it.
    pub fn frame(
        &mut self,
        dialog: Option<(bool, bool)>,
        add: bool,
        clicks: &Vec<(usize, Button)>,
    ) -> (r: Vec<Job>)
        requires
            old(self).wf(),
            forall|k: int|
                0 <= k < clicks@.len() ==> (#[trigger] clicks@[k]).0 < old(self)@.svcs.len(),
        ensures
            final(self).wf(),
            final(self)@ == after_input(old(self)@, dialog, add),
            job_views(r@) == dialog_jobs(old(self)@, dialog) + click_jobs(
                after_input(old(self)@, dialog, add),
                clicks@,
            ),
    {
        let ghost first = dialog_jobs(self@, dialog);
        let mut r: Vec<Job> = Vec::new();
        if let Some((confirmed, closed)) = dialog {
            if let Some(job) = self.end_dialog(confirmed, closed) {
                r.push(job);
            }
        }
        if add {
            self.open_dialog();
        }
        let ghost after = self@;
        assert(job_views(r@) =~= first + click_jobs(after, clicks@.take(0)));
        for k in 0..clicks.len()
            invariant
                self.wf(),
                self@ == after,
                forall|k: int|
                    0 <= k < clicks@.len() ==> (#[trigger] clicks@[k]).0 < after.svcs.len(),
                job_views(r@) == first + click_jobs(after, clicks@.take(k as int)),
        {
            let (i, button) = clicks[k];
            let ghost before = job_views(r@);
            assert(clicks@[k as int].0 < after.svcs.len());
            assert(clicks@.take(k + 1).drop_last() =~= clicks@.take(k as int));
            match self.press(i, button) {
                Some(job) => {
                    r.push(job);
                    assert(job_views(r@) =~= before.push(job@));
                },
                None => {},
            }
            assert(job_views(r@) =~= first + click_jobs(after, clicks@.take(k + 1)));
        }
        assert(clicks@.take(clicks@.len() as int) =~= clicks@);
        r
    }
}

} // verus!
