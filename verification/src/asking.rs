//! What is asked of the system, and what is taken from its answers.

use vstd::prelude::*;

use crate::action;
use crate::command;
use crate::dialog;
use crate::loader;
use crate::pieces;
use crate::runit;
use crate::services;
use crate::text;

verus! {

/// Root's commands go through `sudo -S`, with the arguments as they are, and `sudo` is given the
/// password as one line.
pub proof fn law_root_runs_through_sudo(pw: Seq<char>, args: Seq<Seq<char>>, i: int)
    ensures
        ({
            let c = command::as_root(pw, args);
            &&& c.program == "sudo"@
            &&& c.args.len() == args.len() + 1
            &&& c.args[0] == "-S"@
            &&& 0 <= i < args.len() ==> c.args[i + 1] == args[i]
            &&& c.input == Some(pw.push('\n'))
        }),
{
    reveal_strlit("\n");
    assert(pw + "\n"@ =~= pw.push('\n'));
}

/// The user's commands run the program that comes first with the arguments behind it, and are
/// given no input.
pub proof fn law_user_runs_program_itself(program: Seq<char>, args: Seq<Seq<char>>)
    ensures
        ({
            let c = command::as_user(seq![program] + args);
            &&& c.program == program
            &&& c.args == args
            &&& c.input is None
        }),
{
    assert((seq![program] + args).drop_first() =~= args);
}

/// A command of root's is taken to have succeeded if and only if it ran and ended with success,
/// whatever it wrote.
pub proof fn law_success_is_how_it_ended(o: command::Outcome)
    ensures
        command::root_reply(o).0 <==> (o matches command::Outcome::Ran { success, .. } && success),
{
}

/// Of what a command of root's wrote, the output is read first and the error output behind it,
/// whether it succeeded or not. If it did not run, the reason is read.
pub proof fn law_root_is_read_whole(
    success: bool,
    stdout: Vec<u8>,
    stderr: Vec<u8>,
    reason: String,
)
    ensures
        command::root_reply(command::Outcome::Ran { success, stdout, stderr }).1
            == command::written(stdout@) + command::written(stderr@),
        command::root_reply(command::Outcome::NotRun(reason)).1 == reason@,
{
}

/// Of what a command of the user's wrote, only the output is read, whether it succeeded or not.
/// If it did not run, nothing is.
pub proof fn law_of_user_only_output_is_read(
    success: bool,
    stdout: Vec<u8>,
    stderr: Vec<u8>,
    reason: String,
)
    ensures
        command::user_reply(command::Outcome::Ran { success, stdout, stderr })
            == command::written(stdout@),
        command::user_reply(command::Outcome::NotRun(reason)) == Seq::<char>::empty(),
{
}

/// Bytes that encode a text are read as that text; others as the standard library reads them.
pub proof fn law_encoded_text_is_read(s: Seq<char>, bytes: Seq<u8>)
    ensures
        command::written(vstd::utf8::encode_utf8(s)) == s,
        !vstd::utf8::valid_utf8(bytes) ==> command::written(bytes) == command::lossy_text(bytes),
{
    vstd::utf8::encode_utf8_valid_utf8(s);
    vstd::utf8::encode_utf8_decode_utf8(s);
}

/// The script of a service is called `run`, and the file that keeps it from being started
/// `down`. Both lie in the directory that has the name of the service below `/etc/sv/`.
pub proof fn law_files_lie_in_directory_of_service(name: Seq<char>, default: Seq<char>)
    ensures
        text::after_last(runit::script_path(name), '/') == "run"@,
        text::after_last(runit::down_path(name), '/') == "down"@,
        dialog::directory(runit::script_path(name), default) == ("/etc/sv/"@ + name).push('/'),
        dialog::directory(runit::down_path(name), default) == ("/etc/sv/"@ + name).push('/'),
{
    reveal_strlit("/run");
    reveal_strlit("/down");
    reveal_strlit("run");
    reveal_strlit("down");
    let base = "/etc/sv/"@ + name;
    pieces::law_after_last_starts_behind_last(base, '/', "run"@);
    pieces::law_after_last_starts_behind_last(base, '/', "down"@);
    dialog::law_directory_of_path(base.push('/'), "run"@, default);
    dialog::law_directory_of_path(base.push('/'), "down"@, default);
    assert(runit::script_path(name) =~= base + seq!['/'] + "run"@);
    assert(runit::down_path(name) =~= base + seq!['/'] + "down"@);
    assert(runit::script_path(name) =~= base.push('/') + "run"@);
    assert(runit::down_path(name) =~= base.push('/') + "down"@);
}

/// The link of a service is its name behind `/var/service/`.
pub proof fn law_link_is_name_in_directory(name: Seq<char>, default: Seq<char>)
    ensures
        "/var/service/"@.is_prefix_of(runit::link_path(name)),
        runit::link_path(name).len() == "/var/service/"@.len() + name.len(),
        name.is_suffix_of(runit::link_path(name)),
        dialog::slash_free(name) ==> dialog::directory(runit::link_path(name), default)
            == "/var/service/"@,
{
    reveal_strlit("/var/service/");
    let link = runit::link_path(name);
    assert(link.take(13) =~= "/var/service/"@);
    assert(link.subrange(13, link.len() as int) =~= name);
    if dialog::slash_free(name) {
        dialog::law_directory_of_path("/var/service/"@, name, default);
    }
}

/// The three commands of a load: the listing and the script are asked for as the user, the
/// status as root.
pub proof fn law_commands_of_a_load(pw: Seq<char>, name: Seq<char>)
    ensures
        ({
            let c = runit::listing();
            &&& c.program == "ls"@
            &&& c.args == seq!["/var/service"@]
            &&& c.input is None
        }),
        ({
            let c = runit::status(pw, name);
            &&& c.program == "sudo"@
            &&& c.args == seq!["-S"@, "sv"@, "status"@, runit::link_path(name)]
            &&& c.input == Some(pw.push('\n'))
        }),
        ({
            let c = runit::script(name);
            &&& c.program == "cat"@
            &&& c.args == seq![runit::script_path(name)]
            &&& c.input is None
        }),
{
    law_root_runs_through_sudo(pw, seq!["sv"@, "status"@, runit::link_path(name)], 0);
    assert(runit::listing().args =~= seq!["/var/service"@]);
    assert(runit::status(pw, name).args =~= seq![
        "-S"@,
        "sv"@,
        "status"@,
        runit::link_path(name),
    ]);
    assert(runit::script(name).args =~= seq![runit::script_path(name)]);
}

/// What each action runs as root, and what becomes busy by it.
pub proof fn law_actions_run_their_programs(n: Seq<char>, src: Seq<char>, dst: Seq<char>)
    ensures
        action::ActionView::Start(n).args() == seq!["sv"@, "up"@, n],
        action::ActionView::Stop(n).args() == seq!["sv"@, "down"@, n],
        action::ActionView::Enable(n).args() == seq!["rm"@, "-f"@, runit::down_path(n)],
        action::ActionView::Disable(n).args() == seq!["touch"@, runit::down_path(n)],
        action::ActionView::Remove(n).args() == seq!["rm"@, "-f"@, runit::link_path(n)],
        action::ActionView::Add(src, dst).args() == seq!["ln"@, "-s"@, src, dst],
        action::ActionView::Start(n).subject() == n,
        action::ActionView::Stop(n).subject() == n,
        action::ActionView::Enable(n).subject() == n,
        action::ActionView::Disable(n).subject() == n,
        action::ActionView::Remove(n).subject() == n,
        action::ActionView::Add(src, dst).subject() == dst,
{
}

/// A load that begins has its password and nothing else, and asks for the listing.
pub proof fn law_load_begins_with_listing(password: Seq<char>)
    ensures
        ({
            let l = loader::LoaderView::start(password);
            &&& l.password == password
            &&& l.listing.len() == 0
            &&& l.reports.len() == 0
            &&& l.stage is Listing
            &&& l.valid()
            &&& l.query() == Some(loader::QueryView::Run(runit::listing()))
        }),
{
}

/// What a load asks: first for the listing, then, about the first name that it has no report on,
/// for the status, the script and the file that keeps it from being started; nothing if it is
/// done.
pub proof fn law_load_asks_by_its_stage(l: loader::LoaderView)
    ensures
        ({
            let name = services::listed_names(l.listing)[l.reports.len() as int];
            &&& l.stage is Listing ==> l.query() == Some(
                loader::QueryView::Run(runit::listing()),
            )
            &&& l.stage is Status ==> l.query() == Some(
                loader::QueryView::Run(runit::status(l.password, name)),
            )
            &&& l.stage is Script ==> l.query() == Some(
                loader::QueryView::Run(runit::script(name)),
            )
            &&& l.stage is DownFile ==> l.query() == Some(
                loader::QueryView::Exists(runit::down_path(name)),
            )
            &&& l.stage is Done ==> l.query() is None
        }),
{
}

/// A load waits for what comes of a command while it asks for one, for whether a file exists
/// while it asks for that, and for nothing when it is done. Other answers change nothing.
pub proof fn law_load_waits_for_what_it_asks(l: loader::LoaderView, reply: loader::Reply)
    ensures
        l.awaits(reply) <==> match l.stage {
            loader::StageView::DownFile(_, _) => reply is Exists,
            loader::StageView::Done => false,
            _ => reply is Ran,
        },
        !l.awaits(reply) ==> l.next(reply) == l,
{
}

/// With the listing a load has its names; it asks about the first one, or is done if there is
/// none.
pub proof fn law_load_takes_listing(l: loader::LoaderView, o: command::Outcome)
    requires
        l.stage is Listing,
    ensures
        ({
            let after = l.next(loader::Reply::Ran(o));
            let names = services::listed_names(command::user_reply(o));
            &&& after.password == l.password
            &&& after.listing == command::user_reply(o)
            &&& after.reports.len() == 0
            &&& names.len() > 0 ==> after.stage is Status
            &&& names.len() == 0 ==> after.stage is Done
        }),
{
}

/// A load keeps the status and the script of the name at hand until it knows of the file that
/// keeps the service from being started. Then it has a report of the three, behind those that it
/// had, and goes on to the next name, or is done after the last.
pub proof fn law_load_makes_report(
    l: loader::LoaderView,
    status: command::Outcome,
    script: command::Outcome,
    exists: bool,
)
    requires
        l.stage is Status,
    ensures
        ({
            let asked = l.next(loader::Reply::Ran(status));
            let read = asked.next(loader::Reply::Ran(script));
            let after = read.next(loader::Reply::Exists(exists));
            &&& asked.stage is Script
            &&& asked.password == l.password && asked.listing == l.listing && asked.reports
                == l.reports
            &&& read.stage is DownFile
            &&& read.password == l.password && read.listing == l.listing && read.reports
                == l.reports
            &&& after.password == l.password && after.listing == l.listing
            &&& after.reports == l.reports.push(
                (services::ReportView {
                    status: command::root_reply(status).1,
                    script: command::user_reply(script),
                    down_file_exists: exists,
                }),
            )
            &&& l.reports.len() + 1 < services::listed_names(l.listing).len()
                ==> after.stage is Status
            &&& l.reports.len() + 1 >= services::listed_names(l.listing).len()
                ==> after.stage is Done
        }),
{
}

/// A load goes through its answers one by one, and waits for all of them if it waits for each at
/// its point.
pub proof fn law_load_goes_answer_by_answer(
    l: loader::LoaderView,
    replies: Seq<loader::Reply>,
    reply: loader::Reply,
)
    ensures
        l.after(Seq::empty()) == l,
        l.after(replies.push(reply)) == l.after(replies).next(reply),
        l.awaits_all(Seq::empty()),
        l.awaits_all(replies.push(reply)) <==> l.awaits_all(replies) && l.after(replies).awaits(
            reply,
        ),
{
    let more = replies.push(reply);
    assert(more.drop_last() =~= replies);
    assert(more.take(replies.len() as int) =~= replies);
    if l.awaits_all(more) {
        assert(l.after(more.take(replies.len() as int)).awaits(more[replies.len() as int]));
        assert forall|i: int| 0 <= i < replies.len() implies l.after(replies.take(i)).awaits(
            #[trigger] replies[i],
        ) by {
            assert(more.take(i) =~= replies.take(i));
            assert(l.after(more.take(i)).awaits(more[i]));
        }
    }
    if l.awaits_all(replies) && l.after(replies).awaits(reply) {
        assert forall|i: int| 0 <= i < more.len() implies l.after(more.take(i)).awaits(
            #[trigger] more[i],
        ) by {
            if i < replies.len() {
                assert(more.take(i) =~= replies.take(i));
                assert(l.after(replies.take(i)).awaits(replies[i]));
            }
        }
    }
}

/// A load that is done has found each name of its listing, as the report on it describes it.
pub proof fn law_load_finds_each_name(l: loader::LoaderView, i: int)
    ensures
        l.names() == services::listed_names(l.listing),
        l.found().len() == services::listed_names(l.listing).len(),
        0 <= i < l.found().len() ==> l.found()[i] == services::described(
            services::listed_names(l.listing)[i],
            l.reports[i],
        ),
{
}

} // verus!
