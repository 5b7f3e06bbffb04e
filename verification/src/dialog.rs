//! The dialog that adds a service.

use vstd::prelude::*;
use vstd::slice::*;

use crate::text;

verus! {

/// The dialog: the name of the service, the target of the link and the link, and which of
/// the two paths were edited by hand.
#[derive(Debug)]
pub struct AddDialog {
    pub svc_name: String,
    pub src_line: String,
    pub dst_line: String,
    pub src_edited: bool,
    pub dst_edited: bool,
    /// Whether the dialog has not been shown yet; the name gets the focus then.
    pub just_opened: bool,
}

/// The texts of a dialog.
#[verifier::ext_equal]
pub struct AddDialogView {
    pub svc_name: Seq<char>,
    pub src_line: Seq<char>,
    pub dst_line: Seq<char>,
    pub src_edited: bool,
    pub dst_edited: bool,
    pub just_opened: bool,
}

impl View for AddDialog {
    type V = AddDialogView;

    open spec fn view(&self) -> AddDialogView {
        AddDialogView {
            svc_name: self.svc_name@,
            src_line: self.src_line@,
            dst_line: self.dst_line@,
            src_edited: self.src_edited,
            dst_edited: self.dst_edited,
            just_opened: self.just_opened,
        }
    }
}

/// The part of a path up to its last slash, that slash included; `default` if it has none.
pub open spec fn directory(path: Seq<char>, default: Seq<char>) -> Seq<char> {
    let n = path.len() - text::trailing(path, text::other_than('/'));
    if n > 0 {
        path.take(n)
    } else {
        default
    }
}

impl AddDialogView {
    /// The dialog as it opens.
    pub open spec fn opened() -> AddDialogView {
        AddDialogView {
            svc_name: Seq::empty(),
            src_line: "/etc/sv/"@,
            dst_line: "/var/service/"@,
            src_edited: false,
            dst_edited: false,
            just_opened: true,
        }
    }

    /// The dialog with another name. The paths that were not edited by hand get the new
    /// name behind their directory.
    pub open spec fn with_name(self, name: Seq<char>) -> AddDialogView {
        if name == self.svc_name {
            self
        } else {
            AddDialogView {
                svc_name: name,
                src_line: if self.src_edited {
                    self.src_line
                } else {
                    directory(self.src_line, "/etc/sv/"@) + name
                },
                dst_line: if self.dst_edited {
                    self.dst_line
                } else {
                    directory(self.dst_line, "/var/service/"@) + name
                },
                ..self
            }
        }
    }

    /// The dialog with a link target edited by hand.
    pub open spec fn with_src(self, line: Seq<char>) -> AddDialogView {
        AddDialogView { src_line: line, src_edited: true, ..self }
    }

    /// The dialog with a link edited by hand.
    pub open spec fn with_dst(self, line: Seq<char>) -> AddDialogView {
        AddDialogView { dst_line: line, dst_edited: true, ..self }
    }

    /// Whether the dialog may add: the name is not blank.
    pub open spec fn can_add(self) -> bool {
        text::trim(self.svc_name).len() > 0
    }
}

/// The directory of a path, as `directory` says, with a name behind it.
fn beside(path: &str, default: &str, name: &str) -> (r: String)
    ensures
        r@ == directory(path@, default@) + name@,
{
    let cs = text::chars_of(path);
    let n: usize = text::end_of_last(cs.as_slice(), '/');
    let mut r = if n > 0 {
        let dir = slice_subrange(cs.as_slice(), 0, n);
        assert(dir@ =~= path@.take(n as int));
        text::string_of(dir)
    } else {
        default.to_owned()
    };
    r.append(name);
    r
}

impl AddDialog {
    /// The dialog as it opens.
    pub fn open() -> (r: AddDialog)
        ensures
            r@ == AddDialogView::opened(),
    {
        AddDialog {
            svc_name: String::new(),
            src_line: "/etc/sv/".to_owned(),
            dst_line: "/var/service/".to_owned(),
            src_edited: false,
            dst_edited: false,
            just_opened: true,
        }
    }

    /// Whether this is the first time that the dialog is shown.
    pub fn shown(&mut self) -> (first: bool)
        ensures
            first == old(self)@.just_opened,
            final(self)@ == (AddDialogView { just_opened: false, ..old(self)@ }),
    {
        let first = self.just_opened;
        self.just_opened = false;
        first
    }

    /// Takes another name.
    pub fn set_name(&mut self, name: String)
        ensures
            final(self)@ == old(self)@.with_name(name@),
    {
        if name == self.svc_name {
            return;
        }
        if !self.src_edited {
            self.src_line = beside(self.src_line.as_str(), "/etc/sv/", name.as_str());
        }
        if !self.dst_edited {
            self.dst_line = beside(self.dst_line.as_str(), "/var/service/", name.as_str());
        }
        self.svc_name = name;
    }

    /// Takes a link target edited by hand.
    pub fn set_src(&mut self, line: String)
        ensures
            final(self)@ == old(self)@.with_src(line@),
    {
        self.src_line = line;
        self.src_edited = true;
    }

    /// Takes a link edited by hand.
    pub fn set_dst(&mut self, line: String)
        ensures
            final(self)@ == old(self)@.with_dst(line@),
    {
        self.dst_line = line;
        self.dst_edited = true;
    }

    /// Whether the dialog may add.
    pub fn can_add(&self) -> (r: bool)
        ensures
            r == self@.can_add(),
    {
        let cs = text::chars_of(self.svc_name.as_str());
        text::trimmed(cs.as_slice()).len() > 0
    }
}

/// Whether a text holds no slash.
pub open spec fn slash_free(s: Seq<char>) -> bool {
    forall|i: int| 0 <= i < s.len() ==> #[trigger] s[i] != '/'
}

/// Whether the paths that were not edited by hand are those of the name.
pub open spec fn follows_name(d: AddDialogView) -> bool {
    &&& slash_free(d.svc_name)
    &&& !d.src_edited ==> d.src_line == "/etc/sv/"@ + d.svc_name
    &&& !d.dst_edited ==> d.dst_line == "/var/service/"@ + d.svc_name
}

/// A path in a directory has that directory.
pub proof fn law_directory_of_path(dir: Seq<char>, name: Seq<char>, default: Seq<char>)
    requires
        dir.len() > 0,
        dir.last() == '/',
        slash_free(name),
    ensures
        directory(dir + name, default) == dir,
{
    let path = dir + name;
    assert forall|j: int| dir.len() <= j < path.len() implies text::other_than('/')(
        #[trigger] path[j],
    ) by {
        assert(path[j] == name[j - dir.len()]);
    }
    assert(path[dir.len() - 1] == '/');
    text::lemma_trailing_is(path, text::other_than('/'), name.len() as int);
    assert(path.take(dir.len() as int) =~= dir);
}

/// An opened dialog has the paths of its (empty) name.
pub proof fn law_opened_dialog_follows_name()
    ensures
        follows_name(AddDialogView::opened()),
{
    assert("/etc/sv/"@ + Seq::<char>::empty() =~= "/etc/sv/"@);
    assert("/var/service/"@ + Seq::<char>::empty() =~= "/var/service/"@);
}

/// Whatever is edited in a dialog, the paths that were not edited by hand stay those of the
/// name, as long as the names hold no slash.
pub proof fn law_dialog_follows_name(
    d: AddDialogView,
    name: Seq<char>,
    line: Seq<char>,
)
    requires
        follows_name(d),
        slash_free(name),
    ensures
        follows_name(d.with_name(name)),
        follows_name(d.with_src(line)),
        follows_name(d.with_dst(line)),
        d.with_name(name).svc_name == name,
{
    reveal_strlit("/etc/sv/");
    reveal_strlit("/var/service/");
    law_directory_of_path("/etc/sv/"@, d.svc_name, "/etc/sv/"@);
    law_directory_of_path("/var/service/"@, d.svc_name, "/var/service/"@);
}

/// A path that was edited by hand stays as it is, whatever the name becomes.
pub proof fn law_edited_path_stays(d: AddDialogView, line: Seq<char>, name: Seq<char>)
    ensures
        d.with_src(line).with_name(name).src_line == line,
        d.with_dst(line).with_name(name).dst_line == line,
{
}

/// Only the last name counts: names typed on the way leave no trace.
pub proof fn law_last_name_counts(d: AddDialogView, a: Seq<char>, b: Seq<char>)
    requires
        follows_name(d),
        slash_free(a),
        slash_free(b),
    ensures
        d.with_name(a).with_name(b) == d.with_name(b),
{
    law_dialog_follows_name(d, a, a);
    law_dialog_follows_name(d, b, b);
    law_dialog_follows_name(d.with_name(a), b, b);
    assert(d.with_name(a).with_name(b) =~= d.with_name(b));
}

} // verus!
