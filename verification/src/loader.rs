//! Loading the list of services, one question to the system at a time.

use vstd::prelude::*;

use crate::command;
use crate::command::{Command, Outcome};
use crate::runit;
use crate::services;
use crate::services::{Report, Svc};
use crate::text;

verus! {

/// A question to the system.
#[derive(Debug)]
pub enum Query {
    /// What comes of this command?
    Run(Command),
    /// Does this file exist?
    Exists(String),
}

/// The texts of a question.
pub enum QueryView {
    Run(command::CommandView),
    Exists(Seq<char>),
}

impl View for Query {
    type V = QueryView;

    open spec fn view(&self) -> QueryView {
        match self {
            Query::Run(c) => QueryView::Run(c@),
            Query::Exists(path) => QueryView::Exists(path@),
        }
    }
}

/// The answer to a question.
#[derive(Debug)]
pub enum Reply {
    Ran(Outcome),
    Exists(bool),
}

/// What a load is waiting for. What it has learned about the service at hand is kept here.
#[derive(Debug)]
enum Stage {
    Listing,
    Status,
    Script(String),
    DownFile(String, String),
    Done,
}

/// The texts of a stage.
pub enum StageView {
    Listing,
    Status,
    Script(Seq<char>),
    DownFile(Seq<char>, Seq<char>),
    Done,
}

impl View for Stage {
    type V = StageView;

    closed spec fn view(&self) -> StageView {
        match self {
            Stage::Listing => StageView::Listing,
            Stage::Status => StageView::Status,
            Stage::Script(status) => StageView::Script(status@),
            Stage::DownFile(status, script) => StageView::DownFile(status@, script@),
            Stage::Done => StageView::Done,
        }
    }
}

/// A load of the list of services that is under way.
#[derive(Debug)]
pub struct Loader {
    password: String,
    listing: String,
    names: Vec<String>,
    reports: Vec<Report>,
    stage: Stage,
}

/// The texts of a load.
#[verifier::ext_equal]
pub struct LoaderView {
    pub password: Seq<char>,
    pub listing: Seq<char>,
    pub reports: Seq<services::ReportView>,
    pub stage: StageView,
}

impl LoaderView {
    /// A load that has not asked anything yet.
    pub open spec fn start(password: Seq<char>) -> LoaderView {
        LoaderView {
            password,
            listing: Seq::empty(),
            reports: Seq::empty(),
            stage: StageView::Listing,
        }
    }

    /// The names to ask about.
    pub open spec fn names(self) -> Seq<Seq<char>> {
        services::listed_names(self.listing)
    }

    /// The name that is being asked about.
    pub open spec fn name(self) -> Seq<char> {
        self.names()[self.reports.len() as int]
    }

    /// Whether the reports are on the first names, and the stage agrees with their number.
    pub open spec fn valid(self) -> bool {
        match self.stage {
            StageView::Listing => self.reports.len() == 0 && self.listing.len() == 0,
            StageView::Done => self.reports.len() == self.names().len(),
            _ => self.reports.len() < self.names().len(),
        }
    }

    /// What the load asks next.
    pub open spec fn query(self) -> Option<QueryView> {
        match self.stage {
            StageView::Listing => Some(QueryView::Run(runit::listing())),
            StageView::Status => Some(
                QueryView::Run(runit::status(self.password, self.name())),
            ),
            StageView::Script(_) => Some(QueryView::Run(runit::script(self.name()))),
            StageView::DownFile(_, _) => Some(QueryView::Exists(runit::down_path(self.name()))),
            StageView::Done => None,
        }
    }

    /// Whether `reply` is an answer to what the load asks.
    pub open spec fn awaits(self, reply: Reply) -> bool {
        match self.query() {
            Some(QueryView::Run(_)) => reply is Ran,
            Some(QueryView::Exists(_)) => reply is Exists,
            None => false,
        }
    }

    /// The load with these reports, ready for the next name or done.
    pub open spec fn with_reports(self, reports: Seq<services::ReportView>) -> LoaderView {
        LoaderView {
            reports,
            stage: if reports.len() < self.names().len() {
                StageView::Status
            } else {
                StageView::Done
            },
            ..self
        }
    }

    /// The load after an answer. An answer to something else than what it asks changes
    /// nothing.
    pub open spec fn next(self, reply: Reply) -> LoaderView {
        match (self.stage, reply) {
            (StageView::Listing, Reply::Ran(o)) => LoaderView {
                listing: command::user_reply(o),
                ..self
            }.with_reports(Seq::empty()),
            (StageView::Status, Reply::Ran(o)) => LoaderView {
                stage: StageView::Script(command::root_reply(o).1),
                ..self
            },
            (StageView::Script(status), Reply::Ran(o)) => LoaderView {
                stage: StageView::DownFile(status, command::user_reply(o)),
                ..self
            },
            (StageView::DownFile(status, script), Reply::Exists(down_file_exists)) => {
                self.with_reports(
                    self.reports.push(services::ReportView { status, script, down_file_exists }),
                )
            },
            _ => self,
        }
    }

    /// The load after a number of answers.
    pub open spec fn after(self, replies: Seq<Reply>) -> LoaderView
        decreases replies.len(),
    {
        if replies.len() == 0 {
            self
        } else {
            self.after(replies.drop_last()).next(replies.last())
        }
    }

    /// Whether each of these answers, given one after the other, is an answer to what the
    /// load asks at that point.
    pub open spec fn awaits_all(self, replies: Seq<Reply>) -> bool {
        forall|i: int|
            0 <= i < replies.len() ==> self.after(replies.take(i)).awaits(#[trigger] replies[i])
    }

    /// The services that a load that is done has found.
    pub open spec fn found(self) -> Seq<services::SvcView> {
        services::all_described(self.names(), self.reports)
    }
}

impl View for Loader {
    type V = LoaderView;

    closed spec fn view(&self) -> LoaderView {
        LoaderView {
            password: self.password@,
            listing: self.listing@,
            reports: services::report_views(self.reports@),
            stage: self.stage@,
        }
    }
}

impl Loader {
    /// Whether the load is in order.
    pub closed spec fn wf(&self) -> bool {
        self@.valid() && (!(self.stage is Listing) ==> text::strings(self.names@) == self@.names())
    }

    /// A load with the password `password` that has not asked anything yet.
    pub fn start(password: &str) -> (r: Loader)
        ensures
            r.wf(),
            r@.valid(),
            r@ == LoaderView::start(password@),
    {
        let r = Loader {
            password: password.to_owned(),
            listing: String::new(),
            names: Vec::new(),
            reports: Vec::new(),
            stage: Stage::Listing,
        };
        assert(services::report_views(r.reports@) =~= Seq::empty());
        r
    }

    /// What the load asks next; nothing if it is done.
    pub fn query(&self) -> (r: Option<Query>)
        requires
            self.wf(),
        ensures
            match r {
                Some(q) => self@.query() == Some(q@),
                None => self@.query() is None,
            },
    {
        let i: usize = self.reports.len();
        assert(self.reports@.len() == self@.reports.len());
        proof {
            if i < self.names@.len() && !(self.stage is Listing) {
                assert(text::strings(self.names@)[i as int] == self.names@[i as int]@);
            }
        }
        match &self.stage {
            Stage::Listing => Some(Query::Run(runit::listing_command())),
            Stage::Status => Some(
                Query::Run(runit::status_command(self.password.as_str(), self.names[i].as_str())),
            ),
            Stage::Script(_) => Some(Query::Run(runit::script_command(self.names[i].as_str()))),
            Stage::DownFile(_, _) => Some(Query::Exists(runit::down_file(self.names[i].as_str()))),
            Stage::Done => None,
        }
    }

    /// The load after an answer.
    pub fn answer(self, reply: &Reply) -> (r: Loader)
        requires
            self.wf(),
        ensures
            r.wf(),
            r@.valid(),
            r@ == self@.next(*reply),
    {
        let mut load = self;
        match (load.stage, reply) {
            (Stage::Listing, Reply::Ran(outcome)) => {
                load.listing = command::run_reply(outcome);
                load.names = services::service_names(load.listing.as_str());
                load.stage = if load.names.len() > 0 { Stage::Status } else { Stage::Done };
                assert(text::strings(load.names@).len() == load.names@.len());
            },
            (Stage::Status, Reply::Ran(outcome)) => {
                let (_, status) = command::sudo_reply(outcome);
                load.stage = Stage::Script(status);
            },
            (Stage::Script(status), Reply::Ran(outcome)) => {
                load.stage = Stage::DownFile(status, command::run_reply(outcome));
            },
            (Stage::DownFile(status, script), Reply::Exists(exists)) => {
                load.reports.push(Report { status, script, down_file_exists: *exists });
                load.stage = if load.reports.len() < load.names.len() {
                    Stage::Status
                } else {
                    Stage::Done
                };
                assert(text::strings(load.names@).len() == load.names@.len());
                assert(load@.reports =~= self@.reports.push(load.reports@.last()@));
            },
            (stage, _) => {
                load.stage = stage;
            },
        }
        load
    }

    /// The services that a load that is done has found, sorted by name.
    pub fn finish(&self) -> (r: Vec<Svc>)
        requires
            self.wf(),
            self@.stage is Done,
        ensures
            services::sorted_by_name(self@.found(), services::svc_views(r@)),
    {
        services::load_services(self.listing.as_str(), &self.reports)
    }
}

/// What the answers about the name at index `i` report.
pub open spec fn reported(replies: Seq<Reply>, i: int) -> services::ReportView {
    services::ReportView {
        status: command::root_reply(replies[1 + 3 * i]->Ran_0).1,
        script: command::user_reply(replies[2 + 3 * i]->Ran_0),
        down_file_exists: replies[3 + 3 * i]->Exists_0,
    }
}

/// One answer more is one step more.
proof fn lemma_after_one_more(l: LoaderView, replies: Seq<Reply>, m: int)
    requires
        0 <= m < replies.len(),
    ensures
        l.after(replies.take(m + 1)) == l.after(replies.take(m)).next(replies[m]),
{
    assert(replies.take(m + 1).drop_last() =~= replies.take(m));
}

/// The load after the listing and the answers about the first `k` names.
proof fn lemma_after_names(password: Seq<char>, replies: Seq<Reply>, k: int)
    requires
        LoaderView::start(password).awaits_all(replies),
        replies.len() > 0,
        0 <= k <= services::listed_names(command::user_reply(replies[0]->Ran_0)).len(),
        1 + 3 * k <= replies.len(),
    ensures
        LoaderView::start(password).after(replies.take(1 + 3 * k)) == (LoaderView {
            listing: command::user_reply(replies[0]->Ran_0),
            ..LoaderView::start(password)
        }).with_reports(Seq::new(k as nat, |i: int| reported(replies, i))),
    decreases k,
{
    let start = LoaderView::start(password);
    let l = LoaderView { listing: command::user_reply(replies[0]->Ran_0), ..start };
    if k == 0 {
        assert(replies.take(0) =~= Seq::empty());
        assert(start.after(replies.take(0)).awaits(replies[0]));
        lemma_after_one_more(start, replies, 0);
        assert(Seq::new(0, |i: int| reported(replies, i)) =~= Seq::empty());
    } else {
        let m = 3 * k - 2;
        let before = Seq::new((k - 1) as nat, |i: int| reported(replies, i));
        lemma_after_names(password, replies, k - 1);
        assert(1 + 3 * (k - 1) == m);
        assert(start.after(replies.take(m)).awaits(replies[m]));
        lemma_after_one_more(start, replies, m);
        assert(start.after(replies.take(m + 1)).awaits(replies[m + 1]));
        lemma_after_one_more(start, replies, m + 1);
        assert(start.after(replies.take(m + 2)).awaits(replies[m + 2]));
        lemma_after_one_more(start, replies, m + 2);
        assert(before.push(reported(replies, k - 1)) =~= Seq::new(
            k as nat,
            |i: int| reported(replies, i),
        ));
    }
}

/// A load asks for the listing and then three questions about each name, in the order of
/// the listing; with the answers to these it is done and holds a report on each name, made
/// of the three answers about it.
pub proof fn law_load_reports_on_each_name(password: Seq<char>, replies: Seq<Reply>)
    requires
        LoaderView::start(password).awaits_all(replies),
        replies.len() > 0,
        replies.len() == 1 + 3 * services::listed_names(
            command::user_reply(replies[0]->Ran_0),
        ).len(),
    ensures
        ({
            let l = LoaderView::start(password).after(replies);
            &&& l.stage is Done
            &&& l.listing == command::user_reply(replies[0]->Ran_0)
            &&& l.reports == Seq::new(l.names().len(), |i: int| reported(replies, i))
        }),
{
    let n = services::listed_names(command::user_reply(replies[0]->Ran_0)).len() as int;
    lemma_after_names(password, replies, n);
    assert(replies.take(1 + 3 * n) =~= replies);
}

/// A load asks first for the listing. The three questions about a name are for its status,
/// its script and its down file, and each comes as soon as what precedes it is answered.
pub proof fn law_load_asks_about_each_name(password: Seq<char>, replies: Seq<Reply>, k: int)
    requires
        LoaderView::start(password).awaits_all(replies),
        replies.len() > 0,
        0 <= k < services::listed_names(command::user_reply(replies[0]->Ran_0)).len(),
    ensures
        ({
            let start = LoaderView::start(password);
            let name = services::listed_names(command::user_reply(replies[0]->Ran_0))[k];
            &&& start.query() == Some(QueryView::Run(runit::listing()))
            &&& 1 + 3 * k <= replies.len() ==> start.after(replies.take(1 + 3 * k)).query()
                == Some(QueryView::Run(runit::status(password, name)))
            &&& 2 + 3 * k <= replies.len() ==> start.after(replies.take(2 + 3 * k)).query()
                == Some(QueryView::Run(runit::script(name)))
            &&& 3 + 3 * k <= replies.len() ==> start.after(replies.take(3 + 3 * k)).query()
                == Some(QueryView::Exists(runit::down_path(name)))
        }),
{
    let start = LoaderView::start(password);
    let m = 1 + 3 * k;
    if m <= replies.len() {
        lemma_after_names(password, replies, k);
    }
    if m + 1 <= replies.len() {
        assert(start.after(replies.take(m)).awaits(replies[m]));
        lemma_after_one_more(start, replies, m);
    }
    if m + 2 <= replies.len() {
        assert(start.after(replies.take(m + 1)).awaits(replies[m + 1]));
        lemma_after_one_more(start, replies, m + 1);
    }
}

} // verus!
