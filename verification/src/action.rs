//! What the buttons of the window ask for.

use vstd::prelude::*;

use crate::command;
use crate::command::Command;
use crate::runit;
use crate::text;

verus! {

/// Something to do with a service.
#[derive(Debug)]
pub enum Action {
    Start(String),
    Stop(String),
    Enable(String),
    Disable(String),
    Remove(String),
    /// The link's target and the link, as full paths.
    Add(String, String),
}

/// The texts of an action.
pub enum ActionView {
    Start(Seq<char>),
    Stop(Seq<char>),
    Enable(Seq<char>),
    Disable(Seq<char>),
    Remove(Seq<char>),
    Add(Seq<char>, Seq<char>),
}

impl View for Action {
    type V = ActionView;

    open spec fn view(&self) -> ActionView {
        match self {
            Action::Start(n) => ActionView::Start(n@),
            Action::Stop(n) => ActionView::Stop(n@),
            Action::Enable(n) => ActionView::Enable(n@),
            Action::Disable(n) => ActionView::Disable(n@),
            Action::Remove(n) => ActionView::Remove(n@),
            Action::Add(src, dst) => ActionView::Add(src@, dst@),
        }
    }
}

impl ActionView {
    /// The name under which the action is busy: the service, or the link to be made.
    pub open spec fn subject(self) -> Seq<char> {
        match self {
            ActionView::Start(n) => n,
            ActionView::Stop(n) => n,
            ActionView::Enable(n) => n,
            ActionView::Disable(n) => n,
            ActionView::Remove(n) => n,
            ActionView::Add(_, dst) => dst,
        }
    }

    /// What is run as root for the action.
    pub open spec fn args(self) -> Seq<Seq<char>> {
        match self {
            ActionView::Start(n) => seq!["sv"@, "up"@, n],
            ActionView::Stop(n) => seq!["sv"@, "down"@, n],
            ActionView::Enable(n) => seq!["rm"@, "-f"@, runit::down_path(n)],
            ActionView::Disable(n) => seq!["touch"@, runit::down_path(n)],
            ActionView::Remove(n) => seq!["rm"@, "-f"@, runit::link_path(n)],
            ActionView::Add(src, dst) => seq!["ln"@, "-s"@, src, dst],
        }
    }
}

impl Action {
    /// The name under which the action is busy.
    pub fn subject(&self) -> (r: String)
        ensures
            r@ == self@.subject(),
    {
        match self {
            Action::Start(n) => n.clone(),
            Action::Stop(n) => n.clone(),
            Action::Enable(n) => n.clone(),
            Action::Disable(n) => n.clone(),
            Action::Remove(n) => n.clone(),
            Action::Add(_, dst) => dst.clone(),
        }
    }

    /// What is run as root for the action.
    fn args(&self) -> (r: Vec<String>)
        ensures
            text::strings(r@) == self@.args(),
    {
        let mut r: Vec<String> = Vec::new();
        match self {
            Action::Start(n) => {
                r.push("sv".to_owned());
                r.push("up".to_owned());
                r.push(n.clone());
            },
            Action::Stop(n) => {
                r.push("sv".to_owned());
                r.push("down".to_owned());
                r.push(n.clone());
            },
            Action::Enable(n) => {
                r.push("rm".to_owned());
                r.push("-f".to_owned());
                r.push(runit::down_file(n.as_str()));
            },
            Action::Disable(n) => {
                r.push("touch".to_owned());
                r.push(runit::down_file(n.as_str()));
            },
            Action::Remove(n) => {
                r.push("rm".to_owned());
                r.push("-f".to_owned());
                r.push(runit::link_file(n.as_str()));
            },
            Action::Add(src, dst) => {
                r.push("ln".to_owned());
                r.push("-s".to_owned());
                r.push(src.clone());
                r.push(dst.clone());
            },
        }
        assert(text::strings(r@) =~= self@.args());
        r
    }

    /// The command that does the action with the password `pw`.
    pub fn command(&self, pw: &str) -> (r: Command)
        ensures
            r@ == command::as_root(pw@, self@.args()),
    {
        command::sudo(pw, self.args())
    }
}

} // verus!
