//! What the window shows and how it changes, field by field.

use vstd::prelude::*;

use crate::action;
use crate::app;
use crate::chars;
use crate::command;
use crate::dialog;
use crate::lang::Lang;
use crate::loader;
use crate::pieces;
use crate::reading;
use crate::rows;
use crate::runit;
use crate::services;
use crate::status;
use crate::text;
use crate::wording;

verus! {

/// Whether two states of the window have the same list, and the same rows busy.
pub open spec fn same_list(a: app::AppView, b: app::AppView) -> bool {
    a.svcs == b.svcs && a.busy == b.busy
}

/// Whether two states of the window are the same in what concerns the password.
pub open spec fn same_password(a: app::AppView, b: app::AppView) -> bool {
    a.password == b.password && a.sudo_error == b.sudo_error && a.auth_pending == b.auth_pending
}

/// Whether two states of the window are the same in what concerns loads.
pub open spec fn same_loads(a: app::AppView, b: app::AppView) -> bool {
    a.loading == b.loading && a.last_load == b.last_load
}

/// Whether two states of the window show the same screen in the same language, with the same
/// dialog or none.
pub open spec fn same_screen(a: app::AppView, b: app::AppView) -> bool {
    a.screen == b.screen && a.lang == b.lang && a.add_dlg == b.add_dlg
}

/// A window opens in its language on the question for the password, with nothing entered, asked,
/// listed, busy or under way, and its list counts as 999 seconds old.
pub proof fn law_window_opens_empty(l: Lang, now: int)
    ensures
        ({
            let a = app::AppView::opened(l, now);
            &&& a.lang == l
            &&& a.screen is Auth
            &&& a.svcs.len() == 0
            &&& a.busy == Set::<Seq<char>>::empty()
            &&& !a.loading
            &&& now - a.last_load == 999 * 1_000_000_000
            &&& a.password.len() == 0
            &&& a.sudo_error is None
            &&& a.auth_pending is None
            &&& a.add_dlg is None
        }),
{
}

/// Beginning a load notes the time, and changes nothing else; while one is under way it changes
/// nothing at all.
pub proof fn law_beginning_a_load(a: app::AppView, now: int)
    ensures
        ({
            let b = a.reloading(now);
            &&& b.loading
            &&& b.last_load == (if a.loading {
                a.last_load
            } else {
                now
            })
            &&& same_list(a, b) && same_password(a, b) && same_screen(a, b)
        }),
{
}

/// The end of a load replaces the list, and changes nothing else but that no load is under way.
pub proof fn law_ending_a_load(a: app::AppView, svcs: Seq<services::SvcView>)
    ensures
        ({
            let b = a.loaded(svcs);
            &&& b.svcs == svcs
            &&& !b.loading
            &&& b.busy == a.busy && b.last_load == a.last_load
            &&& same_password(a, b) && same_screen(a, b)
        }),
{
}

/// A job that begins makes its subject busy, and changes nothing else.
pub proof fn law_beginning_a_job(a: app::AppView, job: app::JobView, name: Seq<char>)
    ensures
        ({
            let b = a.job_begun(job);
            &&& b.busy.contains(name) <==> a.busy.contains(name) || name == job.action.subject()
            &&& b.svcs == a.svcs
            &&& same_loads(a, b) && same_password(a, b) && same_screen(a, b)
        }),
{
}

/// A job that ends frees its subject, and changes nothing else but that a load is under way. The
/// time of the last load stays as it was.
pub proof fn law_ending_a_job(a: app::AppView, job: app::JobView, name: Seq<char>)
    ensures
        ({
            let b = a.job_ended(job);
            &&& b.busy.contains(name) <==> a.busy.contains(name) && name != job.action.subject()
            &&& b.loading
            &&& b.svcs == a.svcs && b.last_load == a.last_load
            &&& same_password(a, b) && same_screen(a, b)
        }),
{
}

/// A load begins by itself if and only if the list is shown, none is under way, and the last one
/// began more than five seconds ago.
pub proof fn law_list_is_loaded_after_five_seconds(a: app::AppView, now: int)
    ensures
        a.refresh_due(now) <==> a.screen is Main && !a.loading && now - a.last_load > 5
            * 1_000_000_000,
        a.screen is Main ==> a.update_loads(now) == a.refresh_due(now),
        a.screen is Main && !a.refresh_due(now) ==> a.updated(now) == a,
        a.refresh_due(now) ==> a.updated(now).loading && a.updated(now).last_load == now,
        a.screen is Main ==> same_list(a, a.updated(now)) && same_password(a, a.updated(now))
            && same_screen(a, a.updated(now)),
{
}

/// While the password is asked for and no check has ended, drawing the window changes nothing
/// and begins no load.
pub proof fn law_waiting_for_a_check_changes_nothing(a: app::AppView, now: int)
    requires
        a.screen is Auth,
        a.auth_pending is None,
    ensures
        a.updated(now) == a,
        !a.update_loads(now),
{
}

/// A password opens the list if and only if the command that checks it ran and ended with
/// success, whatever that command wrote. It is kept then, and the list is loaded unless that is
/// under way.
pub proof fn law_password_opens_list_if_check_succeeds(
    a: app::AppView,
    o: command::Outcome,
    now: int,
)
    requires
        a.screen is Auth,
    ensures
        ({
            let noted = app::AppView { auth_pending: Some(command::root_reply(o).0), ..a };
            let b = noted.updated(now);
            let succeeded = o matches command::Outcome::Ran { success, .. } && success;
            &&& b == noted.authenticated(succeeded, now)
            &&& b.screen is Main <==> succeeded
            &&& succeeded ==> {
                &&& b.password == a.password
                &&& b.sudo_error is None
                &&& b.loading
                &&& !a.loading ==> b.last_load == now
                &&& noted.update_loads(now) == !a.loading
            }
            &&& !succeeded ==> {
                &&& b.password.len() == 0
                &&& b.sudo_error == Some(a.lang.wrong_password@)
                &&& same_loads(a, b)
                &&& !noted.update_loads(now)
            }
            &&& b.auth_pending is None
            &&& same_list(a, b) && b.lang == a.lang && b.add_dlg == a.add_dlg
        }),
{
}

/// A load that is handed out is one that was wanted; it is in order, has the password, and asks
/// for the listing. If none is handed out, none was wanted.
pub proof fn law_wanted_load_is_handed_out(
    r: Option<loader::Loader>,
    wanted: bool,
    password: Seq<char>,
)
    requires
        app::load_begins(r, wanted, password),
    ensures
        r is Some <==> wanted,
        r matches Some(l) ==> {
            &&& l.wf()
            &&& l@.password == password
            &&& l@.stage is Listing
            &&& l@.reports.len() == 0
            &&& l@.query() == Some(loader::QueryView::Run(runit::listing()))
        },
{
}

/// A check is shown as under way if and only if none has ended and the error is an empty text.
pub proof fn law_check_is_shown_by_empty_error(a: app::AppView)
    ensures
        a.is_checking() <==> a.auth_pending is None && (a.sudo_error matches Some(error)
            && error.len() == 0),
{
    reveal_strlit("");
    if let Some(error) = a.sudo_error {
        assert(error.len() == 0 ==> error =~= ""@);
    }
}

/// The dialog opens without a name, on the two directories, with nothing edited by hand.
pub proof fn law_dialog_opens_on_directories(d: dialog::AddDialogView)
    ensures
        dialog::AddDialogView::opened() == d <==> {
            &&& d.svc_name.len() == 0
            &&& d.src_line == "/etc/sv/"@
            &&& d.dst_line == "/var/service/"@
            &&& !d.src_edited && !d.dst_edited
            &&& d.just_opened
        },
{
    if d.svc_name.len() == 0 {
        assert(d.svc_name =~= Seq::<char>::empty());
    }
}

/// The toolbar opens the dialog anew, over the list only, and changes nothing else.
pub proof fn law_toolbar_opens_dialog(a: app::AppView)
    ensures
        ({
            let b = a.dialog_opened();
            &&& a.screen is Main ==> b.add_dlg == Some(dialog::AddDialogView::opened())
            &&& a.screen is Auth ==> b.add_dlg == a.add_dlg
            &&& b.screen == a.screen && b.lang == a.lang
            &&& same_list(a, b) && same_password(a, b) && same_loads(a, b)
        }),
{
}

/// A directory is what precedes the last part of a path, its slash included; a path without a
/// slash has the directory that is given for that.
pub proof fn law_directory_precedes_last_part(
    dir: Seq<char>,
    last: Seq<char>,
    default: Seq<char>,
)
    requires
        dialog::slash_free(last),
    ensures
        dialog::directory(dir.push('/') + last, default) == dir.push('/'),
        dialog::directory(last, default) == default,
{
    dialog::law_directory_of_path(dir.push('/'), last, default);
    assert forall|j: int| 0 <= j < last.len() implies text::other_than('/')(
        #[trigger] last[j],
    ) by {}
    text::lemma_trailing_is(last, text::other_than('/'), last.len() as int);
}

/// Another name takes the place of the last part of each path that was not edited by hand; where
/// such a path has no slash, the name stands in the usual directory.
pub proof fn law_name_replaces_last_parts(
    d: dialog::AddDialogView,
    dir: Seq<char>,
    last: Seq<char>,
    name: Seq<char>,
)
    requires
        dialog::slash_free(last),
        name != d.svc_name,
    ensures
        ({
            let e = d.with_name(name);
            let path = dir.push('/') + last;
            let renamed = dir.push('/') + name;
            &&& !d.src_edited && d.src_line == path ==> e.src_line == renamed
            &&& !d.src_edited && d.src_line == last ==> e.src_line == "/etc/sv/"@ + name
            &&& !d.dst_edited && d.dst_line == path ==> e.dst_line == renamed
            &&& !d.dst_edited && d.dst_line == last ==> e.dst_line == "/var/service/"@ + name
        }),
{
    law_directory_precedes_last_part(dir, last, "/etc/sv/"@);
    law_directory_precedes_last_part(dir, last, "/var/service/"@);
}

/// Another name is taken as it is. It leaves the paths that were edited by hand alone, and which
/// ones were; the name that the dialog has already leaves both paths alone.
pub proof fn law_name_leaves_edited_paths(d: dialog::AddDialogView, name: Seq<char>)
    ensures
        ({
            let e = d.with_name(name);
            &&& e.svc_name == name
            &&& d.src_edited || name == d.svc_name ==> e.src_line == d.src_line
            &&& d.dst_edited || name == d.svc_name ==> e.dst_line == d.dst_line
            &&& e.src_edited == d.src_edited && e.dst_edited == d.dst_edited
            &&& e.just_opened == d.just_opened
        }),
{
}

/// Editing a path by hand marks it as edited, and leaves the name and the other path alone.
pub proof fn law_editing_a_path(d: dialog::AddDialogView, line: Seq<char>)
    ensures
        ({
            let e = d.with_src(line);
            &&& e.src_line == line && e.src_edited
            &&& e.svc_name == d.svc_name
            &&& e.dst_line == d.dst_line && e.dst_edited == d.dst_edited
            &&& e.just_opened == d.just_opened
        }),
        ({
            let e = d.with_dst(line);
            &&& e.dst_line == line && e.dst_edited
            &&& e.svc_name == d.svc_name
            &&& e.src_line == d.src_line && e.src_edited == d.src_edited
            &&& e.just_opened == d.just_opened
        }),
{
}

/// A dialog may add if and only if its name holds something else than white space, whatever the
/// paths are and whether or not they were edited by hand.
pub proof fn law_dialog_adds_if_name_has_ink(d: dialog::AddDialogView)
    ensures
        d.can_add() <==> exists|i: int|
            0 <= i < d.svc_name.len() && !chars::white_space(#[trigger] d.svc_name[i]),
{
    let name = d.svc_name;
    let (pre, post) = pieces::law_text_is_trimmed_text_between_blanks(name);
    let core = text::trim(name);
    if core.len() > 0 {
        assert(name[pre.len() as int] == core[0]);
    } else {
        assert forall|i: int| 0 <= i < name.len() implies chars::white_space(
            #[trigger] name[i],
        ) by {
            if i < pre.len() {
                assert(name[i] == pre[i]);
            } else {
                assert(name[i] == post[i - pre.len()]);
            }
        }
    }
}

/// Over the list, a confirmed dialog whose name holds something else than white space gives the
/// job that links its two paths, whether or not they were edited by hand and whether or not the
/// dialog was closed too. The dialog is gone then, and nothing else has changed.
pub proof fn law_confirmed_dialog_gives_its_link(
    a: app::AppView,
    d: dialog::AddDialogView,
    i: int,
    closed: bool,
)
    requires
        a.screen is Main,
        a.add_dlg == Some(d),
        0 <= i < d.svc_name.len(),
        !chars::white_space(d.svc_name[i]),
    ensures
        a.adds(true),
        a.addition().action == action::ActionView::Add(d.src_line, d.dst_line),
        a.addition().password == a.password,
        rows::dialog_jobs(a, Some((true, closed))) == seq![
            app::JobView {
                action: action::ActionView::Add(d.src_line, d.dst_line),
                password: a.password,
            },
        ],
        ({
            let b = a.after_dialog(true, closed);
            &&& b.add_dlg is None
            &&& b.screen == a.screen && b.lang == a.lang
            &&& same_list(a, b) && same_password(a, b) && same_loads(a, b)
        }),
{
    law_dialog_adds_if_name_has_ink(d);
}

/// A dialog that was not confirmed, or whose name is blank, gives no job. It stays as it is
/// unless it was closed; nothing else changes.
pub proof fn law_other_dialog_gives_nothing(
    a: app::AppView,
    d: dialog::AddDialogView,
    confirmed: bool,
    closed: bool,
)
    requires
        a.screen is Main,
        a.add_dlg == Some(d),
        !confirmed || pieces::all_blank(d.svc_name),
    ensures
        !a.adds(confirmed),
        rows::dialog_jobs(a, Some((confirmed, closed))) == Seq::<app::JobView>::empty(),
        ({
            let b = a.after_dialog(confirmed, closed);
            &&& b.add_dlg == (if closed {
                None
            } else {
                Some(d)
            })
            &&& b.screen == a.screen && b.lang == a.lang
            &&& same_list(a, b) && same_password(a, b) && same_loads(a, b)
        }),
{
    law_dialog_adds_if_name_has_ink(d);
}

/// Where there is no dialog, none ends and none gives a job.
pub proof fn law_no_dialog_gives_nothing(
    a: app::AppView,
    dialog: Option<(bool, bool)>,
    confirmed: bool,
    closed: bool,
)
    requires
        a.add_dlg is None,
    ensures
        !a.adds(confirmed),
        a.after_dialog(confirmed, closed) == a,
        rows::dialog_jobs(a, dialog) == Seq::<app::JobView>::empty(),
{
}

/// The input of one drawing ends the dialog, if it was shown, and then opens it, if the toolbar
/// asked for that.
pub proof fn law_dialog_ends_before_toolbar_opens_it(
    a: app::AppView,
    confirmed: bool,
    closed: bool,
)
    ensures
        rows::after_input(a, None, false) == a,
        rows::after_input(a, None, true) == a.dialog_opened(),
        rows::after_input(a, Some((confirmed, closed)), false) == a.after_dialog(
            confirmed,
            closed,
        ),
        rows::after_input(a, Some((confirmed, closed)), true) == a.after_dialog(
            confirmed,
            closed,
        ).dialog_opened(),
        rows::dialog_jobs(a, None) == Seq::<app::JobView>::empty(),
{
}

/// A click gives the job of what its button asks for, with the password, or none if it asks for
/// nothing.
pub proof fn law_click_gives_its_job(a: app::AppView, i: usize, button: rows::Button)
    ensures
        rows::click_jobs(a, seq![(i, button)]) == match rows::pressed_in(a, i as int, button) {
            Some(action) => seq![app::JobView { action, password: a.password }],
            None => Seq::empty(),
        },
{
    let none = Seq::<(usize, rows::Button)>::empty();
    assert(seq![(i, button)].drop_last() =~= none);
    assert(rows::click_jobs(a, none) =~= Seq::empty());
    assert(rows::click_jobs(a, seq![(i, button)]) =~= match rows::pressed_in(
        a,
        i as int,
        button,
    ) {
        Some(action) => seq![app::JobView { action, password: a.password }],
        None => Seq::empty(),
    });
}

/// Clicks give their jobs one after the other, in the order of the clicks.
pub proof fn law_clicks_give_jobs_in_order(
    a: app::AppView,
    first: Seq<(usize, rows::Button)>,
    second: Seq<(usize, rows::Button)>,
)
    ensures
        rows::click_jobs(a, first + second) == rows::click_jobs(a, first) + rows::click_jobs(
            a,
            second,
        ),
        rows::click_jobs(a, Seq::empty()) == Seq::<app::JobView>::empty(),
    decreases second.len(),
{
    if second.len() == 0 {
        assert(first + second =~= first);
        assert(rows::click_jobs(a, first + second) =~= rows::click_jobs(a, first)
            + rows::click_jobs(a, second));
    } else {
        law_clicks_give_jobs_in_order(a, first, second.drop_last());
        assert((first + second).drop_last() =~= first + second.drop_last());
        assert((first + second).last() == second.last());
        assert(rows::click_jobs(a, first + second) =~= rows::click_jobs(a, first)
            + rows::click_jobs(a, second));
    }
}

/// Over the list and without a dialog, a button is about the service of its own row. The button
/// that removes always asks; the others ask unless that service is busy, for what its state and
/// its autostart call for.
pub proof fn law_button_is_about_its_row(a: app::AppView, i: int)
    requires
        a.screen is Main,
        a.add_dlg is None,
    ensures
        ({
            let svc = a.svcs[i];
            let free = !a.busy.contains(svc.name);
            let on = svc.state == "run"@;
            let power = rows::pressed_in(a, i, rows::Button::Power);
            let autostart = rows::pressed_in(a, i, rows::Button::Autostart);
            &&& rows::pressed_in(a, i, rows::Button::Remove) == Some(
                action::ActionView::Remove(svc.name),
            )
            &&& power is Some <==> free
            &&& autostart is Some <==> free
            &&& free && on ==> power == Some(action::ActionView::Stop(svc.name))
            &&& free && !on ==> power == Some(action::ActionView::Start(svc.name))
            &&& free && svc.enabled ==> autostart == Some(action::ActionView::Disable(svc.name))
            &&& free && !svc.enabled ==> autostart == Some(action::ActionView::Enable(svc.name))
        }),
{
}

/// What a button of a row asks for makes that row busy while it is done.
pub proof fn law_pressed_button_makes_its_row_busy(
    a: app::AppView,
    i: int,
    button: rows::Button,
    job: app::JobView,
)
    requires
        rows::pressed_in(a, i, button) == Some(job.action),
    ensures
        job.action.subject() == a.svcs[i].name,
        a.job_begun(job).busy.contains(a.svcs[i].name),
{
}

/// Each switch of a row is labelled, hinted at and coloured for what pressing it asks for: the
/// first stops or starts, by whether the service runs; the second disables or enables, by whether
/// the service is enabled, whatever its state. A busy row has none.
pub proof fn law_switches_say_what_they_ask_for(
    l: Lang,
    busy: Set<Seq<char>>,
    svc: services::SvcView,
)
    ensures
        ({
            let row = rows::row_of(l, busy, svc);
            let power = rows::pressed(busy, false, svc, rows::Button::Power);
            let autostart = rows::pressed(busy, false, svc, rows::Button::Autostart);
            &&& row.switches is Some <==> !busy.contains(svc.name)
            &&& row.switches matches Some((first, second)) ==> {
                &&& svc.state == "run"@ ==> {
                    &&& power == Some(action::ActionView::Stop(svc.name))
                    &&& first.label == l.btn_stop && first.hint == l.hint_stop
                    &&& first.color == (rows::Rgb { r: 220, g: 80, b: 80 })
                }
                &&& svc.state != "run"@ ==> {
                    &&& power == Some(action::ActionView::Start(svc.name))
                    &&& first.label == l.btn_start && first.hint == l.hint_start
                    &&& first.color == (rows::Rgb { r: 80, g: 210, b: 80 })
                }
                &&& svc.enabled ==> {
                    &&& autostart == Some(action::ActionView::Disable(svc.name))
                    &&& second.label == l.btn_disable && second.hint == l.hint_disable
                    &&& second.color == (rows::Rgb { r: 200, g: 160, b: 40 })
                }
                &&& !svc.enabled ==> {
                    &&& autostart == Some(action::ActionView::Enable(svc.name))
                    &&& second.label == l.btn_enable && second.hint == l.hint_enable
                    &&& second.color == (rows::Rgb { r: 100, g: 180, b: 255 })
                }
            }
        }),
{
}

/// In either language, the second switch of a row that is not busy says `disable` if and only if
/// the service is enabled, and the first says `stop` if and only if it runs.
pub proof fn law_labels_tell_state(
    russian: bool,
    busy: Set<Seq<char>>,
    svc: services::SvcView,
)
    requires
        !busy.contains(svc.name),
    ensures
        ({
            let l = wording::spoken(russian);
            let (first, second) = rows::row_of(l, busy, svc).switches->0;
            &&& second.label@ == wording::said(russian, "отключить"@, "disable"@) <==> svc.enabled
            &&& second.label@ == wording::said(russian, "включить"@, "enable"@) <==> !svc.enabled
            &&& first.label@ == wording::said(russian, "остановить"@, "stop"@) <==> svc.state
                == "run"@
            &&& first.label@ == wording::said(russian, "запустить"@, "start"@) <==> svc.state
                != "run"@
        }),
{
    reveal_strlit("отключить");
    reveal_strlit("включить");
    reveal_strlit("остановить");
    reveal_strlit("запустить");
    reveal_strlit("disable");
    reveal_strlit("enable");
    reveal_strlit("stop");
    reveal_strlit("start");
    assert("отключить"@.len() != "включить"@.len());
    assert("остановить"@.len() != "запустить"@.len());
    assert("disable"@.len() != "enable"@.len());
    assert("stop"@.len() != "start"@.len());
    law_switches_say_what_they_ask_for(wording::spoken(russian), busy, svc);
    wording::law_words_of_the_buttons(russian);
}

/// A row shows its service: the name, the command and the time as they are, the process number
/// unless it is a dash, a green mark if the service runs and a red one if not, and the button
/// that removes, busy or not.
pub proof fn law_row_shows_its_service(l: Lang, busy: Set<Seq<char>>, svc: services::SvcView)
    ensures
        ({
            let row = rows::row_of(l, busy, svc);
            &&& row.name == svc.name
            &&& row.command == svc.command
            &&& row.time == svc.time
            &&& svc.pid == "-"@ ==> row.pid.len() == 0
            &&& svc.pid != "-"@ ==> row.pid == svc.pid
            &&& row.running <==> svc.state == "run"@
            &&& rows::running(svc) == row.running
            &&& row.running ==> row.mark == (rows::Rgb { r: 80, g: 210, b: 80 })
            &&& !row.running ==> row.mark == (rows::Rgb { r: 200, g: 70, b: 70 })
            &&& row.remove.label == l.btn_remove && row.remove.hint == l.hint_remove
            &&& row.remove.color == (rows::Rgb { r: 220, g: 80, b: 80 })
        }),
{
}

/// The row of a service shows it as running if and only if its status, once cleaned, starts with
/// `run`; only then does its first switch stop it.
pub proof fn law_row_runs_if_status_starts_so(
    l: Lang,
    busy: Set<Seq<char>>,
    name: Seq<char>,
    report: services::ReportView,
)
    ensures
        ({
            let svc = services::described(name, report);
            let row = rows::row_of(l, busy, svc);
            let power = rows::pressed(busy, false, svc, rows::Button::Power);
            let runs = "run"@.is_prefix_of(status::clean(report.status));
            &&& row.running <==> runs
            &&& power is Some ==> (power == Some(action::ActionView::Stop(name)) <==> runs)
        }),
{
    reading::law_state_is_how_status_starts(name, report);
}

/// In place of an empty list stands a sign that it is being loaded, or else a text that says
/// that there are no services.
pub proof fn law_empty_list_says_why(a: app::AppView)
    ensures
        rows::contents_of(a) is Rows <==> a.svcs.len() > 0,
        a.svcs.len() == 0 ==> (rows::contents_of(a) is Waiting <==> a.loading),
        a.svcs.len() == 0 && !a.loading ==> rows::contents_of(a) == rows::Contents::Nothing(
            a.lang.no_services,
        ),
{
}

/// What is said of a service, a report, a job and a row is said of their fields.
pub proof fn law_views_are_of_the_fields(
    svc: services::Svc,
    report: services::Report,
    job: app::Job,
    row: rows::Row,
)
    ensures
        svc@.name == svc.name@ && svc@.state == svc.state@ && svc@.enabled == svc.enabled,
        svc@.pid == svc.pid@ && svc@.command == svc.command@ && svc@.time == svc.time@,
        report@.status == report.status@ && report@.script == report.script@,
        report@.down_file_exists == report.down_file_exists,
        job@.action == job.action@ && job@.password == job.password@,
        row@.name == row.name@ && row@.running == row.running && row@.mark == row.mark,
        row@.pid == row.pid@ && row@.command == row.command@ && row@.time == row.time@,
        row@.remove == row.remove && row@.switches == row.switches,
{
}

/// What is said of a command, a question, an action and a dialog is said of their fields.
pub proof fn law_views_are_of_the_parts(
    c: command::Command,
    q: loader::Query,
    act: action::Action,
    d: dialog::AddDialog,
)
    ensures
        c@.program == c.program@ && c@.args == text::strings(c.args@),
        c@.input is Some <==> c.input is Some,
        c.input matches Some(input) ==> c@.input == Some(input@),
        q@ == match q {
            loader::Query::Run(run) => loader::QueryView::Run(run@),
            loader::Query::Exists(path) => loader::QueryView::Exists(path@),
        },
        act@ == match act {
            action::Action::Start(n) => action::ActionView::Start(n@),
            action::Action::Stop(n) => action::ActionView::Stop(n@),
            action::Action::Enable(n) => action::ActionView::Enable(n@),
            action::Action::Disable(n) => action::ActionView::Disable(n@),
            action::Action::Remove(n) => action::ActionView::Remove(n@),
            action::Action::Add(src, dst) => action::ActionView::Add(src@, dst@),
        },
        d@.svc_name == d.svc_name@ && d@.src_line == d.src_line@ && d@.dst_line == d.dst_line@,
        d@.src_edited == d.src_edited && d@.dst_edited == d.dst_edited,
        d@.just_opened == d.just_opened,
{
}

/// What is said of the window is said of its fields.
pub proof fn law_view_of_the_window(a: app::App)
    ensures
        a@.lang == a.lang && a@.screen == a.screen,
        a@.svcs == services::svc_views(a.svcs@),
        a@.busy == a.busy@,
        a@.loading == a.loading && a@.last_load == a.last_load,
        a@.password == a.password@,
        a@.sudo_error is Some <==> a.sudo_error is Some,
        a.sudo_error matches Some(error) ==> a@.sudo_error == Some(error@),
        a@.auth_pending == a.auth_pending,
        a@.add_dlg is Some <==> a.add_dlg is Some,
        a.add_dlg matches Some(d) ==> a@.add_dlg == Some(d@),
{
}

/// Sequences of services, reports and jobs have the texts of their items, in their order.
pub proof fn law_sequences_have_their_texts(
    svcs: Seq<services::Svc>,
    reports: Seq<services::Report>,
    jobs: Seq<app::Job>,
    list: Seq<services::SvcView>,
    i: int,
)
    ensures
        services::svc_views(svcs).len() == svcs.len(),
        services::report_views(reports).len() == reports.len(),
        rows::job_views(jobs).len() == jobs.len(),
        services::names_of(list).len() == list.len(),
        0 <= i < svcs.len() ==> services::svc_views(svcs)[i] == svcs[i]@,
        0 <= i < reports.len() ==> services::report_views(reports)[i] == reports[i]@,
        0 <= i < jobs.len() ==> rows::job_views(jobs)[i] == jobs[i]@,
        0 <= i < list.len() ==> services::names_of(list)[i] == list[i].name,
{
}

} // verus!
