//! The list of services.

use vstd::prelude::*;

use crate::chars;
use crate::order;
use crate::status;
use crate::text;

verus! {

/// A service as the list shows it.
#[derive(Clone, Debug)]
pub struct Svc {
    pub name: String,
    /// `run`, `down`, or whatever else the status names.
    pub state: String,
    /// Whether the service starts by itself.
    pub enabled: bool,
    pub pid: String,
    pub command: String,
    pub time: String,
}

/// The texts of a service.
#[verifier::ext_equal]
pub struct SvcView {
    pub name: Seq<char>,
    pub state: Seq<char>,
    pub enabled: bool,
    pub pid: Seq<char>,
    pub command: Seq<char>,
    pub time: Seq<char>,
}

impl View for Svc {
    type V = SvcView;

    open spec fn view(&self) -> SvcView {
        SvcView {
            name: self.name@,
            state: self.state@,
            enabled: self.enabled,
            pid: self.pid@,
            command: self.command@,
            time: self.time@,
        }
    }
}

/// What was found out about a service: the output of `sv status`, its script, and whether
/// the file that keeps it from being started exists.
#[derive(Debug)]
pub struct Report {
    pub status: String,
    pub script: String,
    pub down_file_exists: bool,
}

/// The texts of a report.
#[verifier::ext_equal]
pub struct ReportView {
    pub status: Seq<char>,
    pub script: Seq<char>,
    pub down_file_exists: bool,
}

impl View for Report {
    type V = ReportView;

    open spec fn view(&self) -> ReportView {
        ReportView {
            status: self.status@,
            script: self.script@,
            down_file_exists: self.down_file_exists,
        }
    }
}

/// The texts of a sequence of reports.
pub open spec fn report_views(reports: Seq<Report>) -> Seq<ReportView> {
    Seq::new(reports.len(), |i: int| reports[i]@)
}

/// The texts of a sequence of services.
pub open spec fn svc_views(svcs: Seq<Svc>) -> Seq<SvcView> {
    Seq::new(svcs.len(), |i: int| svcs[i]@)
}

/// The names of a sequence of services.
pub open spec fn names_of(svcs: Seq<SvcView>) -> Seq<Seq<char>> {
    Seq::new(svcs.len(), |i: int| svcs[i].name)
}

/// Trimming, as a function.
pub open spec fn trimming() -> spec_fn(Seq<char>) -> Seq<char> {
    |s: Seq<char>| text::trim(s)
}

/// Holding at least one character, as a predicate.
pub open spec fn not_empty() -> spec_fn(Seq<char>) -> bool {
    |s: Seq<char>| s.len() > 0
}

/// The names in a directory listing: its lines without surrounding white space, those that
/// are empty left out.
pub open spec fn listed_names(listing: Seq<char>) -> Seq<Seq<char>> {
    text::lines(listing).map_values(trimming()).filter(not_empty())
}

/// Whether a line of a script holds a command: it is neither blank nor a comment.
pub open spec fn holds_command(line: Seq<char>) -> bool {
    text::trim(line).len() > 0 && !"#"@.is_prefix_of(text::trim_start(line))
}

/// The last of these lines that holds a command.
pub open spec fn last_command_line(ls: Seq<Seq<char>>) -> Option<Seq<char>>
    decreases ls.len(),
{
    if ls.len() == 0 {
        None
    } else if holds_command(ls.last()) {
        Some(ls.last())
    } else {
        last_command_line(ls.drop_last())
    }
}

/// The first word of a line, without the directories before it.
pub open spec fn program_of(line: Seq<char>) -> Seq<char> {
    let ws = text::words(line);
    if ws.len() == 0 {
        Seq::empty()
    } else {
        text::after_last(ws[0], '/')
    }
}

/// The command that a script is taken to run: the first word of its last line that holds a
/// command, without directories; empty if no line does.
pub open spec fn command_of(script: Seq<char>) -> Seq<char> {
    match last_command_line(text::lines(script)) {
        Some(line) => program_of(line),
        None => Seq::empty(),
    }
}

/// The service that a report describes.
pub open spec fn described(name: Seq<char>, report: ReportView) -> SvcView {
    let st = status::clean(report.status);
    SvcView {
        name,
        state: status::state_of(st),
        enabled: !report.down_file_exists,
        pid: status::pid_of(st),
        command: command_of(report.script),
        time: status::time_of(st),
    }
}

/// The services that the reports describe, in the order of the names.
pub open spec fn all_described(names: Seq<Seq<char>>, reports: Seq<ReportView>) -> Seq<SvcView> {
    Seq::new(names.len(), |i: int| described(names[i], reports[i]))
}

/// Whether `out` holds the services `found` in the order `order`, which sorts them by name.
pub open spec fn sorted_as(found: Seq<SvcView>, out: Seq<SvcView>, order: Seq<int>) -> bool {
    &&& order::sorts(names_of(found), order)
    &&& out.len() == order.len()
    &&& forall|i: int| 0 <= i < out.len() ==> #[trigger] out[i] == found[order[i]]
}

/// Whether `out` holds the services `found` sorted by name, services of the same name in
/// the order in which they were found.
pub open spec fn sorted_by_name(found: Seq<SvcView>, out: Seq<SvcView>) -> bool {
    exists|order: Seq<int>| sorted_as(found, out, order)
}

/// The names in a directory listing.
pub fn service_names(listing: &str) -> (r: Vec<String>)
    ensures
        text::strings(r@) == listed_names(listing@),
{
    let cs = text::chars_of(listing);
    let ls = text::split_lines(cs.as_slice());
    let mut r: Vec<String> = Vec::new();
    let ghost trims = text::lines(listing@).map_values(trimming());
    assert(text::strings(r@) =~= trims.take(0).filter(not_empty())) by {
        reveal(Seq::filter);
    }
    for i in 0..ls.len()
        invariant
            text::texts(ls@) == text::lines(listing@),
            trims == text::lines(listing@).map_values(trimming()),
            text::strings(r@) == trims.take(i as int).filter(not_empty()),
    {
        let name = text::trimmed(ls[i].as_slice());
        let ghost was = text::strings(r@);
        assert(trims[i as int] == name@) by {
            assert(text::texts(ls@)[i as int] == ls@[i as int]@);
        }
        proof {
            trims.take(i as int).lemma_filter_push(trims[i as int], not_empty());
            assert(trims.take(i + 1) =~= trims.take(i as int).push(trims[i as int]));
        }
        if name.len() > 0 {
            let s = text::string_of(name);
            r.push(s);
            assert(text::strings(r@) =~= was.push(name@));
        }
    }
    assert(trims.take(ls@.len() as int) =~= trims);
    r
}

/// Whether a line of a script holds a command.
fn line_holds_command(line: &[char]) -> (r: bool)
    ensures
        r == holds_command(line@),
{
    let hash = text::chars_of("#");
    text::trimmed(line).len() > 0 && !text::starts_with(text::trimmed_start(line), hash.as_slice())
}

/// The first word of a line, without the directories before it.
fn line_program(line: &[char]) -> (r: String)
    ensures
        r@ == program_of(line@),
{
    let ws = text::split_words(line);
    if ws.len() == 0 {
        assert(text::texts(ws@).len() == 0);
        String::new()
    } else {
        assert(text::texts(ws@)[0] == ws@[0]@);
        text::string_of(text::part_after_last(ws[0].as_slice(), '/'))
    }
}

/// The command that a script is taken to run.
pub fn script_program(script: &str) -> (r: String)
    ensures
        r@ == command_of(script@),
{
    let cs = text::chars_of(script);
    let ls = text::split_lines(cs.as_slice());
    let ghost all = text::lines(script@);
    let mut n: usize = ls.len();
    assert(all.take(n as int) =~= all);
    while n > 0
        invariant
            n <= ls@.len(),
            all == text::lines(script@),
            text::texts(ls@) == all,
            last_command_line(all) == last_command_line(all.take(n as int)),
        decreases n,
    {
        assert(all.take(n as int).last() == ls@[n - 1]@) by {
            assert(text::texts(ls@)[n - 1] == ls@[n - 1]@);
        }
        if line_holds_command(ls[n - 1].as_slice()) {
            return line_program(ls[n - 1].as_slice());
        }
        assert(all.take(n as int).drop_last() =~= all.take(n - 1));
        n -= 1;
    }
    String::new()
}

/// The service that a report describes.
pub fn describe(name: &str, report: &Report) -> (r: Svc)
    ensures
        r@ == described(name@, report@),
{
    let st = status::clean_status(report.status.as_str());
    Svc {
        name: name.to_owned(),
        state: status::status_state(st.as_slice()),
        enabled: !report.down_file_exists,
        pid: status::status_pid(st.as_slice()),
        command: script_program(report.script.as_str()),
        time: status::status_time(st.as_slice()),
    }
}

/// Puts a service where its name belongs in a sorted list, behind those of the same name.
fn insert_sorted(svcs: &mut Vec<Svc>, svc: Svc, Ghost(found): Ghost<Seq<SvcView>>)
    requires
        sorted_by_name(found, svc_views(old(svcs)@)),
    ensures
        sorted_by_name(found.push(svc@), svc_views(final(svcs)@)),
{
    let ghost was = svc_views(svcs@);
    let ghost order = choose|order: Seq<int>| sorted_as(found, was, order);
    let ghost names = names_of(found);
    let mut k: usize = svcs.len();
    while k > 0 && order::is_before(svc.name.as_str(), svcs[k - 1].name.as_str())
        invariant
            k <= svcs@.len(),
            svc_views(svcs@) == was,
            names == names_of(found),
            sorted_as(found, was, order),
            forall|j: int|
                k <= j < order.len() ==> order::name_before(svc.name@, names[#[trigger] order[j]]),
        decreases k,
    {
        assert(was[k - 1] == found[order[k - 1]]);
        k -= 1;
    }
    proof {
        if k > 0 {
            assert(was[k - 1] == found[order[k - 1]]);
        }
        order::lemma_insert_sorts(names, svc@.name, order, k as int);
    }
    svcs.insert(k, svc);
    proof {
        let next = order.insert(k as int, names.len() as int);
        let more = found.push(svc@);
        assert(names_of(more) =~= names.push(svc@.name));
        order.insert_ensures(k as int, names.len() as int);
        assert forall|i: int| 0 <= i < svcs@.len() implies #[trigger] svc_views(svcs@)[i]
            == more[next[i]] by {
            if i < k {
                assert(was[i] == found[order[i]]);
            } else if i > k {
                assert(was[i - 1] == found[order[i - 1]]);
            }
        }
        assert(sorted_as(more, svc_views(svcs@), next));
    }
}

/// The services of a directory listing, sorted by name, from a report on each of its names.
pub fn load_services(listing: &str, reports: &Vec<Report>) -> (r: Vec<Svc>)
    requires
        reports@.len() == listed_names(listing@).len(),
    ensures
        sorted_by_name(all_described(listed_names(listing@), report_views(reports@)), svc_views(r@)),
{
    let names = service_names(listing);
    let mut r: Vec<Svc> = Vec::new();
    let ghost all = all_described(listed_names(listing@), report_views(reports@));
    proof {
        let none = Seq::<int>::empty();
        assert(names_of(all.take(0)) =~= Seq::<Seq<char>>::empty());
        assert(sorted_as(all.take(0), svc_views(r@), none));
    }
    for i in 0..names.len()
        invariant
            text::strings(names@) == listed_names(listing@),
            reports@.len() == names@.len(),
            all == all_described(listed_names(listing@), report_views(reports@)),
            sorted_by_name(all.take(i as int), svc_views(r@)),
    {
        let svc = describe(names[i].as_str(), &reports[i]);
        assert(all[i as int] == svc@) by {
            assert(text::strings(names@)[i as int] == names@[i as int]@);
            assert(report_views(reports@)[i as int] == reports@[i as int]@);
        }
        insert_sorted(&mut r, svc, Ghost(all.take(i as int)));
        assert(all.take(i + 1) =~= all.take(i as int).push(svc@));
    }
    assert(all.take(names@.len() as int) =~= all);
    r
}

/// A listed name is not empty, has no white space at its ends, and is on one line.
pub proof fn law_listed_names_are_names(listing: Seq<char>, i: int)
    requires
        0 <= i < listed_names(listing).len(),
    ensures
        ({
            let name = listed_names(listing)[i];
            &&& name.len() > 0
            &&& !chars::white_space(name[0])
            &&& !chars::white_space(name.last())
            &&& !name.contains('\n')
        }),
{
    let ls = text::lines(listing);
    let trims = ls.map_values(trimming());
    let name = listed_names(listing)[i];
    trims.lemma_filter_pred(not_empty(), i);
    assert(trims.filter(not_empty()).contains(name));
    trims.lemma_filter_contains_rev(not_empty(), name);
    let k = choose|k: int| 0 <= k < trims.len() && trims[k] == name;
    text::law_trimmed_ends_in_ink(ls[k]);
    let u = text::trim_start(ls[k]);
    text::lemma_leading(ls[k], text::blank());
    text::lemma_trailing(u, text::blank());
    assert forall|j: int| 0 <= j < name.len() implies name[j] != '\n' by {
        let at = j + text::leading(ls[k], text::blank()) as int;
        assert(name[j] == ls[k][at]);
        text::law_line_has_no_feed(listing, k, at);
    }
}

/// Every line of a listing that is not blank is listed.
pub proof fn law_every_line_is_listed(listing: Seq<char>, i: int)
    requires
        0 <= i < text::lines(listing).len(),
        text::trim(text::lines(listing)[i]).len() > 0,
    ensures
        listed_names(listing).contains(text::trim(text::lines(listing)[i])),
{
    let trims = text::lines(listing).map_values(trimming());
    assert(trims[i] == text::trim(text::lines(listing)[i]));
    trims.lemma_filter_contains(not_empty(), i);
}

/// A sorted list holds what was found, each service once, in the order of the names.
pub proof fn law_sorted_list_holds_what_was_found(found: Seq<SvcView>, out: Seq<SvcView>)
    requires
        sorted_by_name(found, out),
    ensures
        out.len() == found.len(),
        out.to_multiset() == found.to_multiset(),
        forall|i: int, j: int|
            0 <= i < j < out.len() ==> !order::name_before(
                (#[trigger] out[j]).name,
                (#[trigger] out[i]).name,
            ),
{
    let order = choose|order: Seq<int>| sorted_as(found, out, order);
    let names = names_of(found);
    assert forall|i: int, j: int| 0 <= i < j < out.len() implies !order::name_before(
        (#[trigger] out[j]).name,
        (#[trigger] out[i]).name,
    ) by {
        assert(order::belongs_before(names, order[i], order[j]));
        order::lemma_name_before_irreflexive(out[i].name);
        if order::name_before(out[j].name, out[i].name) && order::name_before(
            out[i].name,
            out[j].name,
        ) {
            order::lemma_name_before_transitive(out[i].name, out[j].name, out[i].name);
        }
    }
    order::lemma_reordered(names, found, out, order);
}

/// What was found about the name at index `i` stands somewhere in the sorted list.
pub proof fn lemma_listed_somewhere(
    found: Seq<SvcView>,
    list: Seq<SvcView>,
    i: int,
) -> (j: int)
    requires
        sorted_by_name(found, list),
        0 <= i < found.len(),
    ensures
        0 <= j < list.len(),
        list[j] == found[i],
{
    let order = choose|order: Seq<int>| sorted_as(found, list, order);
    order::lemma_order_covers(names_of(found), order, i);
    choose|j: int| 0 <= j < order.len() && order[j] == i
}

/// There is only one sorted list of what was found.
pub proof fn law_sorted_list_is_unique(found: Seq<SvcView>, a: Seq<SvcView>, b: Seq<SvcView>)
    requires
        sorted_by_name(found, a),
        sorted_by_name(found, b),
    ensures
        a == b,
{
    let x = choose|order: Seq<int>| sorted_as(found, a, order);
    let y = choose|order: Seq<int>| sorted_as(found, b, order);
    order::law_sorting_is_unique(names_of(found), x, y);
    assert(a =~= b);
}

/// The command of a script is one word without a slash.
pub proof fn law_command_is_a_bare_word(script: Seq<char>)
    ensures
        forall|i: int|
            0 <= i < command_of(script).len() ==> !chars::white_space(
                #[trigger] command_of(script)[i],
            ) && command_of(script)[i] != '/',
{
    if let Some(line) = last_command_line(text::lines(script)) {
        let ws = text::words(line);
        if ws.len() > 0 {
            let t = text::trim_start(line);
            let n = text::leading(t, text::inked()) as int;
            text::lemma_leading(t, text::inked());
            let w = ws[0];
            assert(w == t.take(n));
            text::lemma_trailing(w, text::other_than('/'));
            let c = command_of(script);
            assert forall|i: int| 0 <= i < c.len() implies !chars::white_space(#[trigger] c[i])
                && c[i] != '/' by {
                let at = i + w.len() - text::trailing(w, text::other_than('/'));
                assert(c[i] == w[at]);
                assert(w[at] == t[at]);
                assert(text::inked()(t[at]));
                assert(text::other_than('/')(w[at]));
            }
        }
    }
}

} // verus!
