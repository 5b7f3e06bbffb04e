//! What the jobs do to the files, and that the next load shows it.
//!
//! The files are modelled as the set of their paths. Of the programs that the jobs run, the
//! model takes `touch` to make a file exist, `rm -f` to make it not exist, `ln -s` to make a
//! link where there was nothing, and `sv` to leave the files alone.

use vstd::prelude::*;

use crate::action;
use crate::app;
use crate::chars;
use crate::command;
use crate::laws;
use crate::loader;
use crate::runit;
use crate::services;

verus! {

/// The files after these arguments were run as root and succeeded.
pub open spec fn after_args(files: Set<Seq<char>>, args: Seq<Seq<char>>) -> Set<Seq<char>> {
    if args.len() == 2 && args[0] == "touch"@ {
        files.insert(args[1])
    } else if args.len() == 3 && args[0] == "rm"@ && args[1] == "-f"@ {
        files.remove(args[2])
    } else if args.len() == 4 && args[0] == "ln"@ && args[1] == "-s"@ {
        files.insert(args[3])
    } else {
        files
    }
}

/// The files after a command has run and succeeded: those that its arguments leave, if it
/// runs them as root; else as they were.
pub open spec fn after_command(
    files: Set<Seq<char>>,
    c: command::CommandView,
) -> Set<Seq<char>> {
    if c.program == "sudo"@ && c.args.len() > 0 && c.args[0] == "-S"@ {
        after_args(files, c.args.drop_first())
    } else {
        files
    }
}

/// The files after a job whose command has run and succeeded.
pub open spec fn after_job(files: Set<Seq<char>>, job: app::JobView) -> Set<Seq<char>> {
    after_command(files, command::as_root(job.password, job.action.args()))
}

/// Whether a text can be the name of a service in a listing: a file name on one line, without
/// white space at its ends.
pub open spec fn is_entry(name: Seq<char>) -> bool {
    &&& name.len() > 0
    &&& !chars::white_space(name[0])
    &&& !chars::white_space(name.last())
    &&& !name.contains('\n')
    &&& !name.contains('/')
}

/// Whether two states of the files agree on what concerns the service `name`: its link and
/// the file that keeps it from being started.
pub open spec fn agree_on(a: Set<Seq<char>>, b: Set<Seq<char>>, name: Seq<char>) -> bool {
    &&& a.contains(runit::link_path(name)) == b.contains(runit::link_path(name))
    &&& a.contains(runit::down_path(name)) == b.contains(runit::down_path(name))
}

/// Whether these are the answers to a whole load with the password `password`, and those
/// about files are true of `files`: a service is listed if and only if its link exists, and
/// each question for a file is answered by whether it exists.
pub open spec fn true_answers(
    files: Set<Seq<char>>,
    password: Seq<char>,
    replies: Seq<loader::Reply>,
) -> bool {
    let names = services::listed_names(command::user_reply(replies[0]->Ran_0));
    &&& loader::LoaderView::start(password).awaits_all(replies)
    &&& replies.len() == 1 + 3 * names.len()
    &&& forall|name: Seq<char>|
        is_entry(name) ==> (#[trigger] names.contains(name) <==> files.contains(
            runit::link_path(name),
        ))
    &&& forall|i: int|
        0 <= i < names.len() ==> #[trigger] loader::reported(replies, i).down_file_exists
            == files.contains(runit::down_path(names[i]))
}

/// Whether `list` is what a load with these answers gives.
pub open spec fn load_gives(
    password: Seq<char>,
    replies: Seq<loader::Reply>,
    list: Seq<services::SvcView>,
) -> bool {
    services::sorted_by_name(loader::LoaderView::start(password).after(replies).found(), list)
}

/// Whether a service of this name is listed.
pub open spec fn listed(list: Seq<services::SvcView>, name: Seq<char>) -> bool {
    services::names_of(list).contains(name)
}

/// Whether everything that is listed under this name is shown as enabled, or all of it as
/// disabled.
pub open spec fn shown_enabled(
    list: Seq<services::SvcView>,
    name: Seq<char>,
    enabled: bool,
) -> bool {
    forall|j: int|
        0 <= j < list.len() && (#[trigger] list[j]).name == name ==> list[j].enabled == enabled
}

/// The window after a job has run, and the load that follows it has found these services.
pub open spec fn after_job_and_load(
    a: app::AppView,
    job: app::JobView,
    list: Seq<services::SvcView>,
) -> app::AppView {
    a.job_begun(job).job_ended(job).loaded(list)
}

/// A load whose answers are true shows the files as they are: a service is listed if and only
/// if its link exists, and as enabled if and only if the file that keeps it from being
/// started does not exist.
pub proof fn law_load_shows_files(
    files: Set<Seq<char>>,
    password: Seq<char>,
    replies: Seq<loader::Reply>,
    list: Seq<services::SvcView>,
    name: Seq<char>,
)
    requires
        is_entry(name),
        true_answers(files, password, replies),
        load_gives(password, replies, list),
    ensures
        listed(list, name) == files.contains(runit::link_path(name)),
        shown_enabled(list, name, !files.contains(runit::down_path(name))),
{
    let l = loader::LoaderView::start(password).after(replies);
    let found = l.found();
    loader::law_load_reports_on_each_name(password, replies);
    services::law_sorted_list_holds_what_was_found(found, list);
    let order = choose|order: Seq<int>| services::sorted_as(found, list, order);
    assert forall|j: int| 0 <= j < list.len() && (#[trigger] list[j]).name == name implies
        list[j].enabled == !files.contains(runit::down_path(name)) && l.names().contains(name) by {
        let i = order[j];
        assert(list[j] == found[i]);
        assert(l.names()[i] == name);
        assert(l.reports[i] == loader::reported(replies, i));
    }
    if l.names().contains(name) {
        let i = choose|i: int| 0 <= i < l.names().len() && l.names()[i] == name;
        let j = services::lemma_listed_somewhere(found, list, i);
        assert(services::names_of(list)[j] == name);
    }
    if listed(list, name) {
        let j = choose|j: int|
            0 <= j < services::names_of(list).len() && services::names_of(list)[j] == name;
        assert(list[j].name == name);
    }
}

/// What a job does to the files, told by its action.
proof fn lemma_job_effect(files: Set<Seq<char>>, job: app::JobView)
    ensures
        after_job(files, job) == (match job.action {
            action::ActionView::Start(_) => files,
            action::ActionView::Stop(_) => files,
            action::ActionView::Enable(n) => files.remove(runit::down_path(n)),
            action::ActionView::Disable(n) => files.insert(runit::down_path(n)),
            action::ActionView::Remove(n) => files.remove(runit::link_path(n)),
            action::ActionView::Add(_, dst) => files.insert(dst),
        }),
{
    reveal_strlit("sv");
    reveal_strlit("rm");
    reveal_strlit("touch");
    reveal_strlit("ln");
    let args = job.action.args();
    assert((seq!["-S"@] + args).drop_first() =~= args);
    assert("sv"@[0] == 's');
    assert("rm"@[0] == 'r');
    assert("ln"@[0] == 'l');
}

/// After a service was enabled or disabled, and the list loaded, it is listed as before, its
/// link being as it was, and shown as enabled or disabled as was asked. The file that keeps it
/// from being started exists if and only if it was disabled.
pub proof fn law_autostart_job_is_shown(
    a: app::AppView,
    files: Set<Seq<char>>,
    job: app::JobView,
    name: Seq<char>,
    after: Set<Seq<char>>,
    replies: Seq<loader::Reply>,
    list: Seq<services::SvcView>,
)
    requires
        is_entry(name),
        job.action == action::ActionView::Enable(name) || job.action
            == action::ActionView::Disable(name),
        agree_on(after, after_job(files, job), name),
        true_answers(after, job.password, replies),
        load_gives(job.password, replies, list),
    ensures
        after.contains(runit::link_path(name)) == files.contains(runit::link_path(name)),
        after.contains(runit::down_path(name)) == (job.action is Disable),
        ({
            let svcs = after_job_and_load(a, job, list).svcs;
            &&& listed(svcs, name) == files.contains(runit::link_path(name))
            &&& shown_enabled(svcs, name, job.action is Enable)
        }),
{
    lemma_job_effect(files, job);
    laws::law_autostart_keeps_links(name, name);
    law_load_shows_files(after, job.password, replies, list, name);
}

/// A listed service that is disabled, and then enabled, with nothing else acting on it, is
/// listed after both, its link being kept; it is shown as disabled after the first and as
/// enabled after the second, when the file that keeps it from being started is gone.
pub proof fn law_enabling_undoes_disabling(
    a: app::AppView,
    files: Set<Seq<char>>,
    name: Seq<char>,
    disable: app::JobView,
    disabled: Set<Seq<char>>,
    replies1: Seq<loader::Reply>,
    list1: Seq<services::SvcView>,
    enable: app::JobView,
    enabled: Set<Seq<char>>,
    replies2: Seq<loader::Reply>,
    list2: Seq<services::SvcView>,
)
    requires
        is_entry(name),
        files.contains(runit::link_path(name)),
        disable.action == action::ActionView::Disable(name),
        agree_on(disabled, after_job(files, disable), name),
        true_answers(disabled, disable.password, replies1),
        load_gives(disable.password, replies1, list1),
        enable.action == action::ActionView::Enable(name),
        agree_on(enabled, after_job(disabled, enable), name),
        true_answers(enabled, enable.password, replies2),
        load_gives(enable.password, replies2, list2),
    ensures
        ({
            let first = after_job_and_load(a, disable, list1);
            let second = after_job_and_load(first, enable, list2);
            &&& listed(first.svcs, name)
            &&& shown_enabled(first.svcs, name, false)
            &&& listed(second.svcs, name)
            &&& shown_enabled(second.svcs, name, true)
        }),
        disabled.contains(runit::link_path(name)),
        enabled.contains(runit::link_path(name)),
        !enabled.contains(runit::down_path(name)),
{
    law_autostart_job_is_shown(a, files, disable, name, disabled, replies1, list1);
    law_autostart_job_is_shown(
        after_job_and_load(a, disable, list1),
        disabled,
        enable,
        name,
        enabled,
        replies2,
        list2,
    );
}

/// Enabling or disabling a service a second time, with nothing else acting on it, changes
/// nothing about it: neither its files nor how it is listed.
pub proof fn law_autostart_job_twice_is_once(
    a: app::AppView,
    files: Set<Seq<char>>,
    name: Seq<char>,
    job1: app::JobView,
    once: Set<Seq<char>>,
    replies1: Seq<loader::Reply>,
    list1: Seq<services::SvcView>,
    job2: app::JobView,
    twice: Set<Seq<char>>,
    replies2: Seq<loader::Reply>,
    list2: Seq<services::SvcView>,
)
    requires
        is_entry(name),
        job1.action == action::ActionView::Enable(name) || job1.action
            == action::ActionView::Disable(name),
        agree_on(once, after_job(files, job1), name),
        true_answers(once, job1.password, replies1),
        load_gives(job1.password, replies1, list1),
        job2.action == job1.action,
        agree_on(twice, after_job(once, job2), name),
        true_answers(twice, job2.password, replies2),
        load_gives(job2.password, replies2, list2),
    ensures
        agree_on(twice, once, name),
        ({
            let first = after_job_and_load(a, job1, list1);
            let second = after_job_and_load(first, job2, list2);
            &&& listed(second.svcs, name) == listed(first.svcs, name)
            &&& shown_enabled(first.svcs, name, job1.action is Enable)
            &&& shown_enabled(second.svcs, name, job1.action is Enable)
        }),
{
    law_autostart_job_is_shown(a, files, job1, name, once, replies1, list1);
    law_autostart_job_is_shown(
        after_job_and_load(a, job1, list1),
        once,
        job2,
        name,
        twice,
        replies2,
        list2,
    );
}

/// A service that was removed is no longer listed, and the file that keeps it from being
/// started is as it was.
pub proof fn law_removed_service_is_not_listed(
    a: app::AppView,
    files: Set<Seq<char>>,
    job: app::JobView,
    name: Seq<char>,
    after: Set<Seq<char>>,
    replies: Seq<loader::Reply>,
    list: Seq<services::SvcView>,
)
    requires
        is_entry(name),
        job.action == action::ActionView::Remove(name),
        agree_on(after, after_job(files, job), name),
        true_answers(after, job.password, replies),
        load_gives(job.password, replies, list),
    ensures
        !after.contains(runit::link_path(name)),
        after.contains(runit::down_path(name)) == files.contains(runit::down_path(name)),
        !listed(after_job_and_load(a, job, list).svcs, name),
{
    lemma_job_effect(files, job);
    laws::law_autostart_keeps_links(name, name);
    law_load_shows_files(after, job.password, replies, list, name);
}

/// A service whose link was added is listed, and shown as enabled unless the file that keeps
/// it from being started exists.
pub proof fn law_added_service_is_listed(
    a: app::AppView,
    files: Set<Seq<char>>,
    job: app::JobView,
    src: Seq<char>,
    name: Seq<char>,
    after: Set<Seq<char>>,
    replies: Seq<loader::Reply>,
    list: Seq<services::SvcView>,
)
    requires
        is_entry(name),
        job.action == action::ActionView::Add(src, runit::link_path(name)),
        !files.contains(runit::link_path(name)),
        agree_on(after, after_job(files, job), name),
        true_answers(after, job.password, replies),
        load_gives(job.password, replies, list),
    ensures
        after.contains(runit::link_path(name)),
        ({
            let svcs = after_job_and_load(a, job, list).svcs;
            &&& listed(svcs, name)
            &&& shown_enabled(svcs, name, !files.contains(runit::down_path(name)))
        }),
{
    lemma_job_effect(files, job);
    laws::law_autostart_keeps_links(name, name);
    law_load_shows_files(after, job.password, replies, list, name);
}

} // verus!
