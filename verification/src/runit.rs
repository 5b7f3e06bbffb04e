//! Where runit keeps its services, and the commands that ask about them.

use vstd::prelude::*;

use crate::command;
use crate::command::Command;
use crate::text;

verus! {

/// The entry of a service in the directory of supervised services.
pub open spec fn link_path(name: Seq<char>) -> Seq<char> {
    "/var/service/"@ + name
}

/// The script that runs a service.
pub open spec fn script_path(name: Seq<char>) -> Seq<char> {
    "/etc/sv/"@ + name + "/run"@
}

/// The file whose presence keeps a service from being started.
pub open spec fn down_path(name: Seq<char>) -> Seq<char> {
    "/etc/sv/"@ + name + "/down"@
}

/// The command that lists the supervised services.
pub open spec fn listing() -> command::CommandView {
    command::as_user(seq!["ls"@, "/var/service"@])
}

/// The command that asks for the status of a service.
pub open spec fn status(pw: Seq<char>, name: Seq<char>) -> command::CommandView {
    command::as_root(pw, seq!["sv"@, "status"@, link_path(name)])
}

/// The command that prints the script of a service.
pub open spec fn script(name: Seq<char>) -> command::CommandView {
    command::as_user(seq!["cat"@, script_path(name)])
}

/// A prefix, a name and a suffix in one string.
fn joined(prefix: &str, name: &str, suffix: &str) -> (r: String)
    ensures
        r@ == prefix@ + name@ + suffix@,
{
    let mut r = prefix.to_owned();
    r.append(name);
    r.append(suffix);
    r
}

/// The entry of a service in the directory of supervised services.
pub fn link_file(name: &str) -> (r: String)
    ensures
        r@ == link_path(name@),
{
    let mut r = "/var/service/".to_owned();
    r.append(name);
    r
}

/// The script that runs a service.
pub fn script_file(name: &str) -> (r: String)
    ensures
        r@ == script_path(name@),
{
    joined("/etc/sv/", name, "/run")
}

/// The file whose presence keeps a service from being started.
pub fn down_file(name: &str) -> (r: String)
    ensures
        r@ == down_path(name@),
{
    joined("/etc/sv/", name, "/down")
}

/// The command that lists the supervised services.
pub fn listing_command() -> (r: Command)
    ensures
        r@ == listing(),
{
    let mut args: Vec<String> = Vec::new();
    args.push("ls".to_owned());
    args.push("/var/service".to_owned());
    assert(text::strings(args@) =~= seq!["ls"@, "/var/service"@]);
    command::run(args)
}

/// The command that asks for the status of a service.
pub fn status_command(pw: &str, name: &str) -> (r: Command)
    ensures
        r@ == status(pw@, name@),
{
    let mut args: Vec<String> = Vec::new();
    args.push("sv".to_owned());
    args.push("status".to_owned());
    args.push(link_file(name));
    assert(text::strings(args@) =~= seq!["sv"@, "status"@, link_path(name@)]);
    command::sudo(pw, args)
}

/// The command that prints the script of a service.
pub fn script_command(name: &str) -> (r: Command)
    ensures
        r@ == script(name@),
{
    let mut args: Vec<String> = Vec::new();
    args.push("cat".to_owned());
    args.push(script_file(name));
    assert(text::strings(args@) =~= seq!["cat"@, script_path(name@)]);
    command::run(args)
}

} // verus!
