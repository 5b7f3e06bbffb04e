//! What holds across the window, its buttons and its loads.

use vstd::prelude::*;

use crate::action;
use crate::ansi;
use crate::app;
use crate::chars;
use crate::decimal;
use crate::dialog;
use crate::lang::Lang;
use crate::loader;
use crate::printed;
use crate::rows;
use crate::runit;
use crate::services;
use crate::status;
use crate::text;

verus! {

/// While the password is asked for, no action can be: no button of a row and no dialog
/// gives one, and the dialog cannot be opened or closed.
pub proof fn law_no_action_before_the_list(
    a: app::AppView,
    i: int,
    button: rows::Button,
    confirmed: bool,
    closed: bool,
)
    requires
        a.screen is Auth,
    ensures
        rows::pressed_in(a, i, button) is None,
        !a.adds(confirmed),
        a.after_dialog(confirmed, closed) == a,
        a.dialog_opened() == a,
{
}

/// A window keeps asking for the password, without services and without the dialog, until a
/// check has accepted one: asking for the dialog, ending it, drawing the window and a
/// refused check do not change that.
pub proof fn law_opened_window_offers_nothing(
    a: app::AppView,
    confirmed: bool,
    closed: bool,
    now: int,
)
    requires
        a.screen is Auth,
        a.svcs.len() == 0,
        a.add_dlg is None,
    ensures
        ({
            let drawn = a.updated(now);
            &&& a.auth_pending != Some(true) ==> drawn.screen is Auth
            &&& drawn.svcs.len() == 0
            &&& drawn.add_dlg is None
            &&& a.dialog_opened() == a
            &&& a.after_dialog(confirmed, closed) == a
        }),
{
}

/// In the drawing in which the toolbar opens the dialog, no click on a row asks for anything.
pub proof fn law_opening_dialog_blocks_clicks(
    a: app::AppView,
    dialog: Option<(bool, bool)>,
    clicks: Seq<(usize, rows::Button)>,
)
    ensures
        rows::click_jobs(rows::after_input(a, dialog, true), clicks) == Seq::<
            app::JobView,
        >::empty(),
    decreases clicks.len(),
{
    if clicks.len() > 0 {
        law_opening_dialog_blocks_clicks(a, dialog, clicks.drop_last());
    }
}

/// In the drawing in which the dialog ends, a click on a row asks for what it does without a
/// dialog.
pub proof fn law_ended_dialog_frees_clicks(
    a: app::AppView,
    confirmed: bool,
    closed: bool,
    i: int,
    button: rows::Button,
)
    requires
        a.screen is Main,
        closed || a.adds(confirmed),
    ensures
        rows::pressed_in(rows::after_input(a, Some((confirmed, closed)), false), i, button)
            == rows::pressed(a.busy, false, a.svcs[i], button),
{
}

/// While the dialog is neither ended nor opened anew, it blocks the rows in every drawing.
pub proof fn law_open_dialog_blocks_clicks(
    a: app::AppView,
    confirmed: bool,
    clicks: Seq<(usize, rows::Button)>,
)
    requires
        a.add_dlg is Some,
        !a.adds(confirmed),
    ensures
        rows::after_input(a, Some((confirmed, false)), false) == a,
        rows::click_jobs(a, clicks) == Seq::<app::JobView>::empty(),
    decreases clicks.len(),
{
    if clicks.len() > 0 {
        law_open_dialog_blocks_clicks(a, confirmed, clicks.drop_last());
    }
}

/// The list is reached only with a password that was accepted.
pub proof fn law_list_needs_accepted_password(a: app::AppView, now: int)
    requires
        a.screen is Auth,
        a.updated(now).screen is Main,
    ensures
        a.auth_pending == Some(true),
{
}

/// A refused password is forgotten and said to be wrong, and the list stays closed.
pub proof fn law_refused_password_is_forgotten(a: app::AppView, now: int)
    requires
        a.screen is Auth,
        a.auth_pending == Some(false),
    ensures
        a.updated(now).screen is Auth,
        a.updated(now).password.len() == 0,
        a.updated(now).sudo_error == Some(a.lang.wrong_password@),
        !a.update_loads(now),
{
}

/// The result of a check is taken note of once.
pub proof fn law_check_is_noted_once(a: app::AppView, now: int)
    requires
        a.screen is Auth,
    ensures
        a.updated(now).auth_pending is None,
{
}

/// An accepted password shows the list, and has it loaded unless that is under way.
pub proof fn law_accepted_password_opens_list(a: app::AppView, now: int)
    requires
        a.screen is Auth,
        a.auth_pending == Some(true),
    ensures
        a.updated(now).screen is Main,
        a.updated(now).sudo_error is None,
        a.updated(now).password == a.password,
        a.updated(now).loading,
        a.update_loads(now) == !a.loading,
{
}

/// The window does not begin a load while one is under way.
pub proof fn law_one_load_at_a_time(a: app::AppView, now: int)
    requires
        a.loading,
    ensures
        !a.update_loads(now),
        a.reloading(now) == a,
{
}

/// After a load has begun, none follows by itself before the list is too old again, whether
/// the load is done or not.
pub proof fn law_loads_are_spaced(
    a: app::AppView,
    begun: int,
    svcs: Seq<services::SvcView>,
    now: int,
)
    requires
        !a.loading,
        now <= begun + app::REFRESH_AFTER,
    ensures
        !a.reloading(begun).refresh_due(now),
        !a.reloading(begun).loaded(svcs).refresh_due(now),
{
}

/// A job that has begun and ended leaves its own name free and every other name as it was,
/// and changes nothing else but that a load is under way.
pub proof fn law_job_leaves_names_as_they_were(
    a: app::AppView,
    job: app::JobView,
    name: Seq<char>,
)
    ensures
        ({
            let after = a.job_begun(job).job_ended(job);
            let subject = job.action.subject();
            &&& a.job_begun(job).busy.contains(subject)
            &&& !after.busy.contains(subject)
            &&& name != subject ==> after.busy.contains(name) == a.busy.contains(name)
            &&& !a.busy.contains(subject) ==> after == (app::AppView { loading: true, ..a })
        }),
{
    let subject = job.action.subject();
    if !a.busy.contains(subject) {
        assert(a.busy.insert(subject).remove(subject) =~= a.busy);
    }
}

/// While a job on a service is under way, the row of the service has no switches and only
/// the button that removes asks for anything.
pub proof fn law_busy_row_has_no_switches(
    a: app::AppView,
    job: app::JobView,
    svc: services::SvcView,
    dialog_open: bool,
)
    requires
        job.action.subject() == svc.name,
    ensures
        ({
            let busy = a.job_begun(job).busy;
            &&& rows::row_of(a.lang, busy, svc).switches is None
            &&& rows::pressed(busy, dialog_open, svc, rows::Button::Power) is None
            &&& rows::pressed(busy, dialog_open, svc, rows::Button::Autostart) is None
        }),
{
}

/// While the dialog is open, no button of a row asks for anything.
pub proof fn law_dialog_blocks_rows(
    busy: Set<Seq<char>>,
    svc: services::SvcView,
    button: rows::Button,
)
    ensures
        rows::pressed(busy, true, svc, button) is None,
{
}

/// The button that starts or stops runs `sv down` on a running service and `sv up` on any
/// other.
pub proof fn law_power_button_runs_sv(busy: Set<Seq<char>>, svc: services::SvcView)
    requires
        !busy.contains(svc.name),
    ensures
        ({
            let asked = rows::pressed(busy, false, svc, rows::Button::Power);
            &&& asked is Some
            &&& asked->0.args() == seq![
                "sv"@,
                if svc.state == "run"@ {
                    "down"@
                } else {
                    "up"@
                },
                svc.name,
            ]
        }),
{
}

/// The button that enables or disables creates the file that keeps a service from being
/// started if the service is enabled, and removes it otherwise.
pub proof fn law_autostart_button_switches_file(busy: Set<Seq<char>>, svc: services::SvcView)
    requires
        !busy.contains(svc.name),
    ensures
        ({
            let asked = rows::pressed(busy, false, svc, rows::Button::Autostart);
            &&& asked is Some
            &&& asked->0.args() == (if svc.enabled {
                seq!["touch"@, runit::down_path(svc.name)]
            } else {
                seq!["rm"@, "-f"@, runit::down_path(svc.name)]
            })
        }),
{
}

/// The button that removes deletes the link of the service.
pub proof fn law_remove_button_deletes_link(busy: Set<Seq<char>>, svc: services::SvcView)
    ensures
        ({
            let asked = rows::pressed(busy, false, svc, rows::Button::Remove);
            &&& asked is Some
            &&& asked->0.args() == seq!["rm"@, "-f"@, runit::link_path(svc.name)]
        }),
{
}

/// Disabling and enabling change exactly what a load takes a service to be enabled by: both
/// are about the file whose existence the load asks for, and the service is listed as
/// enabled if and only if that file is missing.
pub proof fn law_load_sees_what_autostart_changes(l: loader::LoaderView, exists: bool)
    requires
        l.stage is DownFile,
    ensures
        ({
            let disable = action::ActionView::Disable(l.name()).args();
            let enable = action::ActionView::Enable(l.name()).args();
            let report = l.next(loader::Reply::Exists(exists)).reports.last();
            &&& l.query() == Some(loader::QueryView::Exists(disable.last()))
            &&& disable.last() == enable.last()
            &&& services::described(l.name(), report).enabled == !exists
        }),
{
}

/// Enabling and disabling leave every link alone.
pub proof fn law_autostart_keeps_links(name: Seq<char>, other: Seq<char>)
    ensures
        runit::down_path(name) != runit::link_path(other),
{
    reveal_strlit("/etc/sv/");
    reveal_strlit("/down");
    reveal_strlit("/var/service/");
    assert(runit::down_path(name)[1] == 'e');
    assert(runit::link_path(other)[1] == 'v');
}

/// A link that the dialog adds under a name that holds no slash is the one that the service
/// of that name is asked about and removed by.
pub proof fn law_removal_undoes_adding(d: dialog::AddDialogView, name: Seq<char>)
    requires
        dialog::follows_name(d),
        dialog::slash_free(name),
        !d.src_edited,
        !d.dst_edited,
    ensures
        ({
            let typed = d.with_name(name);
            let added = action::ActionView::Add(typed.src_line, typed.dst_line);
            &&& added.args() == seq!["ln"@, "-s"@, "/etc/sv/"@ + name, runit::link_path(name)]
            &&& action::ActionView::Remove(name).args().last() == added.args().last()
        }),
{
    dialog::law_dialog_follows_name(d, name, name);
}

/// The list holds all services: one for each name of the listing, one under the text of
/// each line of the listing that is not blank, and none under another name.
pub proof fn law_list_holds_all_services(
    l: loader::LoaderView,
    list: Seq<services::SvcView>,
)
    requires
        l.valid(),
        l.stage is Done,
        services::sorted_by_name(l.found(), list),
    ensures
        list.len() == l.names().len(),
        forall|i: int|
            0 <= i < text::lines(l.listing).len() && text::trim(
                #[trigger] text::lines(l.listing)[i],
            ).len() > 0 ==> services::names_of(list).contains(
                text::trim(text::lines(l.listing)[i]),
            ),
        forall|j: int| 0 <= j < list.len() ==> l.names().contains((#[trigger] list[j]).name),
{
    let found = l.found();
    services::law_sorted_list_holds_what_was_found(found, list);
    assert forall|i: int|
        0 <= i < text::lines(l.listing).len() && text::trim(
            #[trigger] text::lines(l.listing)[i],
        ).len() > 0 implies services::names_of(list).contains(
        text::trim(text::lines(l.listing)[i]),
    ) by {
        let name = text::trim(text::lines(l.listing)[i]);
        services::law_every_line_is_listed(l.listing, i);
        let k = choose|k: int| 0 <= k < l.names().len() && l.names()[k] == name;
        let j = services::lemma_listed_somewhere(found, list, k);
        assert(services::names_of(list)[j] == name);
    }
    let order = choose|order: Seq<int>| services::sorted_as(found, list, order);
    assert forall|j: int| 0 <= j < list.len() implies l.names().contains(
        (#[trigger] list[j]).name,
    ) by {
        assert(list[j] == found[order[j]]);
        assert(l.names()[order[j]] == list[j].name);
    }
}

/// A service that `sv status` calls running is in the list with its name, and its row shows
/// it as running, with its process number and its time.
pub proof fn law_running_service_is_shown(
    l: loader::LoaderView,
    list: Seq<services::SvcView>,
    i: int,
    pid: nat,
    secs: u64,
    tail: Seq<char>,
    texts: Lang,
    busy: Set<Seq<char>>,
) -> (j: int)
    requires
        l.valid(),
        l.stage is Done,
        services::sorted_by_name(l.found(), list),
        0 <= i < l.names().len(),
        printed::harmless(l.names()[i]),
        printed::ends_word(tail),
        ansi::stripped(l.reports[i].status) == printed::run_line(l.names()[i], pid, secs, tail),
    ensures
        0 <= j < list.len(),
        ({
            let row = rows::row_of(texts, busy, list[j]);
            &&& row.name == l.names()[i]
            &&& row.running
            &&& row.pid == decimal::decimal(pid)
            &&& row.time == status::uptime_text(secs as nat)
        }),
{
    printed::law_run_line_is_read(l.reports[i].status, l.names()[i], pid, secs, tail);
    let j = services::lemma_listed_somewhere(l.found(), list, i);
    decimal::law_decimal_is_digits(pid);
    reveal_strlit("-");
    assert(decimal::decimal(pid) != "-"@) by {
        assert(chars::ascii_digit(decimal::decimal(pid)[0]));
    }
    j
}

/// A service that `sv status` calls down is in the list with its name, and its row shows it
/// as not running, with its time, and without a process number unless one is named further
/// on.
pub proof fn law_stopped_service_is_shown(
    l: loader::LoaderView,
    list: Seq<services::SvcView>,
    i: int,
    secs: u64,
    tail: Seq<char>,
    texts: Lang,
    busy: Set<Seq<char>>,
) -> (j: int)
    requires
        l.valid(),
        l.stage is Done,
        services::sorted_by_name(l.found(), list),
        0 <= i < l.names().len(),
        printed::harmless(l.names()[i]),
        printed::ends_word(tail),
        ansi::stripped(l.reports[i].status) == printed::down_line(l.names()[i], secs, tail),
    ensures
        0 <= j < list.len(),
        ({
            let row = rows::row_of(texts, busy, list[j]);
            &&& row.name == l.names()[i]
            &&& !row.running
            &&& text::find(tail, "(pid "@) is None ==> row.pid == Seq::<char>::empty()
            &&& row.time == status::uptime_text(secs as nat)
        }),
{
    printed::law_down_line_is_read(l.reports[i].status, l.names()[i], secs, tail);
    let j = services::lemma_listed_somewhere(l.found(), list, i);
    reveal_strlit("run");
    reveal_strlit("down");
    assert("down"@ != "run"@) by {
        assert("down"@.len() != "run"@.len());
    }
    j
}

} // verus!
