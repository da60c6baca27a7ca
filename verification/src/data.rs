//! Waiting for data on the channel of a deploy.
//!
//! Where a node proposes blocks by itself, a computation can span several of them. So the data is
//! not looked for in one block: the node is asked again and again to search the recent ones.

use crate::api::F1r3flyApi;
use crate::error::{outcome, ApiError, ErrorView};
use crate::info::{document, read_document};
use crate::json::{
    array_member, compact_chars, is_compact, items_view, lemma_items_view, lemma_member_is_compact,
    lemma_members_view, member_of, members_view, natural_member, quoted, quoted_chars, Json,
    JsonNode, JsonNodeView, JsonView, Member,
};
use crate::text::{bool_chars, bool_text, lemma_truth_values_are_told_apart};
use vstd::prelude::*;

verus! {

/// How far the waiting has come.
#[derive(Debug)]
pub struct DataPoll {
    pub deploy_id: String,
    /// How often the node was asked.
    pub attempts: u32,
    pub max_attempts: u32,
    /// How long to wait before each question.
    pub poll_interval_secs: u64,
}

/// What to do next.
#[derive(Debug)]
pub enum DataStep {
    /// Wait for the interval, then ask.
    Attempt(DataPoll),
    /// Stop.
    Finished(Result<Vec<String>, ApiError>),
}

/// The mathematical value of a [`DataPoll`].
pub struct PollView {
    pub deploy_id: Seq<char>,
    pub attempts: u32,
    pub max_attempts: u32,
    pub poll_interval_secs: u64,
}

/// The mathematical value of a [`DataStep`].
pub enum DataView {
    Attempt(PollView),
    Finished(Result<Seq<Seq<char>>, ErrorView>),
}

impl View for DataPoll {
    type V = PollView;

    open spec fn view(&self) -> PollView {
        PollView {
            deploy_id: self.deploy_id@,
            attempts: self.attempts,
            max_attempts: self.max_attempts,
            poll_interval_secs: self.poll_interval_secs,
        }
    }
}

impl View for DataStep {
    type V = DataView;

    open spec fn view(&self) -> DataView {
        match *self {
            DataStep::Attempt(poll) => DataView::Attempt(poll@),
            DataStep::Finished(res) => DataView::Finished(outcome(res)),
        }
    }
}

impl PollView {
    /// Whether attempts are left.
    pub open spec fn wf(self) -> bool {
        self.attempts < self.max_attempts
    }

    /// The state after one more attempt.
    pub open spec fn counted(self) -> PollView {
        PollView { attempts: (self.attempts + 1) as u32, ..self }
    }

    /// The error of having waited in vain.
    pub open spec fn timed_out(self) -> ErrorView {
        ErrorView::DataTimedOut { attempts: self.max_attempts, deploy_id: self.deploy_id }
    }
}

/// Writes a JSON value by the text that it carries.
pub open spec fn by_text() -> spec_fn(JsonView) -> Seq<char> {
    |json: JsonView| json.text
}

/// Writes a JSON value as compact JSON.
pub open spec fn as_json() -> spec_fn(JsonView) -> Seq<char> {
    |json: JsonView| compact_chars(json.node)
}

/// The text of a piece of data: a text, a number or a truth value as it is, and anything else as
/// `written` gives it.
pub open spec fn datum_chars(datum: JsonView, written: spec_fn(JsonView) -> Seq<char>) -> Seq<
    char,
> {
    match datum.node {
        JsonNodeView::Number(_, text) => text,
        JsonNodeView::Text(text) => text,
        JsonNodeView::Bool(b) => bool_chars(b),
        _ => written(datum),
    }
}

/// The pieces of data among the first `n` members of an expression.
pub open spec fn data_in_members(
    members: Seq<(Seq<char>, JsonView)>,
    n: nat,
    written: spec_fn(JsonView) -> Seq<char>,
) -> Seq<Seq<char>>
    decreases n,
{
    if n == 0 || n > members.len() {
        seq![]
    } else {
        let before = data_in_members(members, (n - 1) as nat, written);
        match member_of(members[n - 1].1, "data"@) {
            Some(datum) => before.push(datum_chars(datum, written)),
            None => before,
        }
    }
}

/// The pieces of data in an entry of a reply.
pub open spec fn data_in_entry(
    entry: JsonView,
    written: spec_fn(JsonView) -> Seq<char>,
) -> Seq<Seq<char>> {
    match member_of(entry, "expr"@) {
        Some(expr) => match expr.node {
            JsonNodeView::Object(members) => data_in_members(members, members.len(), written),
            _ => seq![],
        },
        None => seq![],
    }
}

/// The pieces of data in the first `n` entries of a reply.
pub open spec fn data_in_entries(
    entries: Seq<JsonView>,
    n: nat,
    written: spec_fn(JsonView) -> Seq<char>,
) -> Seq<Seq<char>>
    decreases n,
{
    if n == 0 || n > entries.len() {
        seq![]
    } else {
        data_in_entries(entries, (n - 1) as nat, written) + data_in_entry(entries[n - 1], written)
    }
}

/// The data in a reply, once there is some: its pieces or, where none is found in it, the whole
/// reply. There is none as long as the reply gives its length as zero or not at all.
pub open spec fn data_written(
    json: JsonView,
    written: spec_fn(JsonView) -> Seq<char>,
) -> Option<Seq<Seq<char>>> {
    let length = natural_member(json, "length"@);
    if length is None || length == Some(0u64) {
        None
    } else {
        let found = match array_member(json, "exprs"@) {
            Some(entries) => data_in_entries(entries, entries.len(), written),
            None => seq![],
        };
        if found.len() > 0 {
            Some(found)
        } else {
            Some(seq![written(json)])
        }
    }
}

/// The data in a reply, by the texts that its values carry.
pub open spec fn data_in(json: JsonView) -> Option<Seq<Seq<char>>> {
    data_written(json, by_text())
}

/// The data in the body of a reply, once there is some. What is no text, number or truth value is
/// written as compact JSON.
pub open spec fn data_in_body(body: Option<Vec<u8>>) -> Option<Seq<Seq<char>>> {
    match document(body) {
        Some(json) => data_written(json, as_json()),
        None => None,
    }
}

/// How the waiting begins.
pub open spec fn poll_start(poll: PollView) -> DataView {
    if poll.max_attempts == 0 {
        DataView::Finished(Err(poll.timed_out()))
    } else {
        DataView::Attempt(poll)
    }
}

/// What follows from the data that a reply held. A reply without data is one more attempt made in
/// vain.
pub open spec fn after_found(poll: PollView, found: Option<Seq<Seq<char>>>) -> DataView {
    match found {
        Some(data) => DataView::Finished(Ok(data)),
        None => if poll.attempts + 1 < poll.max_attempts {
            DataView::Attempt(poll.counted())
        } else {
            DataView::Finished(Err(poll.timed_out()))
        },
    }
}

/// What follows from a reply. No reply counts as one without data.
pub open spec fn after_body(poll: PollView, body: Option<Vec<u8>>) -> DataView {
    after_found(poll, data_in_body(body))
}

/// What comes of waiting, given the bodies of the replies to one question after the other; none
/// where it does not come to an end with the bodies given.
pub open spec fn poll_run(
    step: DataView,
    bodies: Seq<Option<Vec<u8>>>,
) -> Option<Result<Seq<Seq<char>>, ErrorView>>
    decreases bodies.len(),
{
    match step {
        DataView::Finished(res) => Some(res),
        DataView::Attempt(poll) => if bodies.len() == 0 {
            None
        } else {
            poll_run(after_body(poll, bodies.first()), bodies.drop_first())
        },
    }
}

/// The request for the data of a deploy, as JSON.
pub open spec fn request_chars(deploy_id: Seq<char>) -> Seq<char> {
    "{\"depth\":50,\"name\":{\"UnforgDeploy\":{\"data\":"@ + quoted_chars(deploy_id) + "}}}"@
}

/// Writes the request for the data of a deploy, as JSON.
pub fn data_at_name_request(deploy_id_hex: &str) -> (res: String)
    ensures
        res@ == request_chars(deploy_id_hex@),
        res@ == "{\"depth\":50,\"name\":{\"UnforgDeploy\":{\"data\":"@ + quoted_chars(deploy_id_hex@)
            + "}}}"@,
{
    let mut res = "{\"depth\":50,\"name\":{\"UnforgDeploy\":{\"data\":".to_string();
    res.append(quoted(deploy_id_hex).as_str());
    res.append("}}}");
    res
}

/// Writes a piece of data.
fn datum_text(datum: &Json) -> (res: String)
    ensures
        res@ == datum_chars(datum@, by_text()),
{
    match &datum.node {
        JsonNode::Number(n) => n.text.clone(),
        JsonNode::Text(s) => s.clone(),
        JsonNode::Bool(b) => bool_text(*b),
        _ => datum.text.clone(),
    }
}

/// Collects the pieces of data among the members of an expression.
fn collect_members(members: &Vec<Member>, out: &mut Vec<String>)
    ensures
        final(out).deep_view() == old(out).deep_view() + data_in_members(
            members_view(members@, members@.len()),
            members@.len(),
            by_text(),
        ),
{
    let ghost views = members_view(members@, members@.len());
    let ghost before = out.deep_view();
    proof {
        lemma_members_view(members@, members@.len());
        assert(before + data_in_members(views, 0, by_text()) =~= before);
    }
    for i in 0..members.len()
        invariant
            views == members_view(members@, members@.len()),
            views.len() == members@.len(),
            forall|j: int|
                0 <= j < members@.len() ==> (#[trigger] views[j]) == (
                    members@[j].key@,
                    members@[j].value@,
                ),
            out.deep_view() == before + data_in_members(views, i as nat, by_text()),
    {
        let ghost so_far = out.deep_view();
        assert(views[i as int].1 == members@[i as int].value@);
        match members[i].value.get("data") {
            Some(datum) => {
                let text = datum_text(datum);
                out.push(text);
                assert(out.deep_view() =~= so_far.push(text@));
                assert(out.deep_view() =~= before + data_in_members(
                    views,
                    (i + 1) as nat,
                    by_text(),
                ));
            },
            None => {},
        }
    }
}

/// Collects the pieces of data in the entries of a reply.
fn collect_entries(entries: &Vec<Json>) -> (res: Vec<String>)
    ensures
        res.deep_view() == data_in_entries(
            items_view(entries@, entries@.len()),
            entries@.len(),
            by_text(),
        ),
{
    let ghost views = items_view(entries@, entries@.len());
    let mut res: Vec<String> = Vec::new();
    proof {
        lemma_items_view(entries@, entries@.len());
        assert(res.deep_view() =~= data_in_entries(views, 0, by_text()));
    }
    for i in 0..entries.len()
        invariant
            views == items_view(entries@, entries@.len()),
            views.len() == entries@.len(),
            forall|j: int| 0 <= j < entries@.len() ==> (#[trigger] views[j]) == entries@[j]@,
            res.deep_view() == data_in_entries(views, i as nat, by_text()),
    {
        let ghost so_far = res.deep_view();
        let ghost entry = views[i as int];
        assert(so_far + Seq::<Seq<char>>::empty() =~= so_far);
        match entries[i].get("expr") {
            Some(expr) => match &expr.node {
                JsonNode::Object(members) => {
                    proof {
                        lemma_members_view(members@, members@.len());
                    }
                    collect_members(members, &mut res);
                },
                _ => {},
            },
            None => {},
        }
        assert(res.deep_view() =~= so_far + data_in_entry(entry, by_text()));
    }
    res
}

/// Reads the data in a reply, once there is some. In a reply that was read from bytes, what is no
/// text, number or truth value is written as compact JSON.
pub fn data_from(json: &Json) -> (res: Option<Vec<String>>)
    ensures
        res.deep_view() == data_in(json@),
        is_compact(json@) ==> res.deep_view() == data_written(json@, as_json()),
{
    proof {
        if is_compact(json@) {
            lemma_data_is_written_as_json(json@);
        }
    }
    match json.get_natural("length") {
        Some(length) => {
            if length == 0 {
                return None;
            }
        },
        None => {
            return None;
        },
    }
    let found = match json.get_array("exprs") {
        Some(entries) => {
            proof {
                lemma_items_view(entries@, entries@.len());
            }
            collect_entries(entries)
        },
        None => Vec::new(),
    };
    if found.len() > 0 {
        return Some(found);
    }
    assert(found.deep_view() =~= seq![]);
    let mut whole: Vec<String> = Vec::new();
    whole.push(json.text.clone());
    assert(whole.deep_view() =~= seq![json@.text]);
    Some(whole)
}

impl<'a> F1r3flyApi<'a> {
    /// Begins to wait for the data of a deploy.
    pub fn poll_data_at_deploy_id_http(&self, deploy_id_hex: &str, max_attempts: u32, poll_interval_secs: u64) -> (res: DataStep)
        ensures
            res@ == poll_start(
                (PollView { deploy_id: deploy_id_hex@, attempts: 0, max_attempts, poll_interval_secs }),
            ),
            res matches DataStep::Attempt(poll) ==> poll@.wf(),
            max_attempts > 0 ==> (res matches DataStep::Attempt(poll) && poll.deploy_id@
                == deploy_id_hex@ && poll.attempts == 0 && poll.max_attempts == max_attempts
                && poll.poll_interval_secs == poll_interval_secs),
            max_attempts == 0 ==> (res matches DataStep::Finished(
                Err(ApiError::DataTimedOut { attempts, deploy_id }),
            ) && attempts == 0 && deploy_id@ == deploy_id_hex@),
    {
        let deploy_id = deploy_id_hex.to_string();
        if max_attempts == 0 {
            DataStep::Finished(Err(ApiError::DataTimedOut { attempts: max_attempts, deploy_id }))
        } else {
            DataStep::Attempt(DataPoll { deploy_id, attempts: 0, max_attempts, poll_interval_secs })
        }
    }
}

/// Takes in the data that a reply held.
pub fn take_found(poll: DataPoll, found: Option<Vec<String>>) -> (res: DataStep)
    requires
        poll@.wf(),
    ensures
        res@ == after_found(poll@, found.deep_view()),
        found matches Some(data) ==> (res matches DataStep::Finished(Ok(given)) && given@ == data@),
        found is None ==> {
            &&& poll.attempts + 1 < poll.max_attempts ==> (res matches DataStep::Attempt(next)
                && next.attempts == poll.attempts + 1 && next.max_attempts == poll.max_attempts
                && next.deploy_id@ == poll.deploy_id@ && next.poll_interval_secs
                == poll.poll_interval_secs)
            &&& poll.attempts + 1 >= poll.max_attempts ==> (res matches DataStep::Finished(
                Err(ApiError::DataTimedOut { attempts, deploy_id }),
            ) && attempts == poll.max_attempts && deploy_id@ == poll.deploy_id@)
        },
        res matches DataStep::Attempt(next) ==> next@.wf() && next.attempts > poll.attempts,
{
    match found {
        Some(data) => DataStep::Finished(Ok(data)),
        None => {
            let attempts: u32 = poll.attempts + 1;
            if attempts < poll.max_attempts {
                DataStep::Attempt(
                    DataPoll {
                        deploy_id: poll.deploy_id,
                        attempts,
                        max_attempts: poll.max_attempts,
                        poll_interval_secs: poll.poll_interval_secs,
                    },
                )
            } else {
                DataStep::Finished(
                    Err(
                        ApiError::DataTimedOut {
                            attempts: poll.max_attempts,
                            deploy_id: poll.deploy_id,
                        },
                    ),
                )
            }
        },
    }
}

/// Takes in the body of a reply to a request for the data, where there was one.
pub fn take_body(poll: DataPoll, body: &Option<Vec<u8>>) -> (res: DataStep)
    requires
        poll@.wf(),
    ensures
        res@ == after_body(poll@, *body),
        document(*body) matches Some(json) ==> is_compact(json),
        match data_in_body(*body) {
            Some(data) => res matches DataStep::Finished(Ok(given)) && given.deep_view() == data,
            None => if poll.attempts + 1 < poll.max_attempts {
                res matches DataStep::Attempt(next) && next.attempts == poll.attempts + 1
                    && next.max_attempts == poll.max_attempts && next.deploy_id@ == poll.deploy_id@
                    && next.poll_interval_secs == poll.poll_interval_secs
            } else {
                res matches DataStep::Finished(Err(ApiError::DataTimedOut { attempts, deploy_id }))
                    && attempts == poll.max_attempts && deploy_id@ == poll.deploy_id@
            },
        },
        res matches DataStep::Attempt(next) ==> next@.wf() && next.attempts > poll.attempts,
{
    let found = match read_document(body) {
        Some(json) => data_from(&json),
        None => None,
    };
    take_found(poll, found)
}

/// The waiting gives the data of the first reply that has some, and times out exactly where none
/// of the replies that the attempts allow for has any.
pub proof fn lemma_first_data_is_given(poll: PollView, bodies: Seq<Option<Vec<u8>>>, k: int)
    requires
        poll.wf(),
        0 <= k <= bodies.len(),
        forall|j: int| 0 <= j < k ==> data_in_body(#[trigger] bodies[j]) is None,
    ensures
        k < bodies.len() && k < poll.max_attempts - poll.attempts && data_in_body(
            bodies[k],
        ) is Some ==> poll_run(DataView::Attempt(poll), bodies) == Some(
            Ok::<Seq<Seq<char>>, ErrorView>(data_in_body(bodies[k])->0),
        ),
        k >= poll.max_attempts - poll.attempts ==> poll_run(DataView::Attempt(poll), bodies)
            == Some(Err::<Seq<Seq<char>>, ErrorView>(poll.timed_out())),
    decreases bodies.len(),
{
    if bodies.len() > 0 {
        let rest = bodies.drop_first();
        let next = after_body(poll, bodies.first());
        if k > 0 {
            assert(data_in_body(bodies[0]) is None);
            if poll.attempts + 1 < poll.max_attempts {
                assert forall|j: int| 0 <= j < k - 1 implies data_in_body(
                    #[trigger] rest[j],
                ) is None by {
                    assert(rest[j] == bodies[j + 1]);
                }
                lemma_first_data_is_given(poll.counted(), rest, k - 1);
                if k < bodies.len() {
                    assert(rest[k - 1] == bodies[k]);
                }
            } else {
                assert(poll_run(next, rest) == Some(
                    Err::<Seq<Seq<char>>, ErrorView>(poll.timed_out()),
                ));
            }
        } else {
            if data_in_body(bodies[0]) is Some {
                assert(poll_run(next, rest) == Some(
                    Ok::<Seq<Seq<char>>, ErrorView>(data_in_body(bodies[0])->0),
                ));
            }
        }
    }
}

/// Where every value of a reply carries its compact text, the data by those texts is the data with
/// what is no text, number or truth value written as compact JSON.
pub proof fn lemma_data_is_written_as_json(json: JsonView)
    requires
        is_compact(json),
    ensures
        data_in(json) == data_written(json, as_json()),
{
    lemma_member_is_compact(json, "exprs"@);
    match array_member(json, "exprs"@) {
        Some(entries) => {
            lemma_entries_are_written_as_json(entries, entries.len());
        },
        None => {},
    }
}

/// The data in entries is written as compact JSON where they carry their compact texts.
proof fn lemma_entries_are_written_as_json(entries: Seq<JsonView>, n: nat)
    requires
        n <= entries.len(),
        forall|i: int| 0 <= i < entries.len() ==> is_compact(#[trigger] entries[i]),
    ensures
        data_in_entries(entries, n, by_text()) == data_in_entries(entries, n, as_json()),
    decreases n,
{
    if n > 0 {
        let entry = entries[n - 1];
        lemma_entries_are_written_as_json(entries, (n - 1) as nat);
        lemma_member_is_compact(entry, "expr"@);
        match member_of(entry, "expr"@) {
            Some(expr) => match expr.node {
                JsonNodeView::Object(members) => {
                    lemma_members_are_written_as_json(members, members.len());
                },
                _ => {},
            },
            None => {},
        }
    }
}

/// The data in members is written as compact JSON where they carry their compact texts.
proof fn lemma_members_are_written_as_json(members: Seq<(Seq<char>, JsonView)>, n: nat)
    requires
        n <= members.len(),
        forall|i: int| 0 <= i < members.len() ==> is_compact((#[trigger] members[i]).1),
    ensures
        data_in_members(members, n, by_text()) == data_in_members(members, n, as_json()),
    decreases n,
{
    if n > 0 {
        lemma_members_are_written_as_json(members, (n - 1) as nat);
        lemma_member_is_compact(members[n - 1].1, "data"@);
    }
}

/// Data that is given is never empty.
pub proof fn lemma_data_is_not_empty(json: JsonView, written: spec_fn(JsonView) -> Seq<char>)
    ensures
        data_written(json, written) matches Some(data) ==> data.len() > 0,
{
}

/// Whether a text is the one that a piece of data is given by: the word for a truth value, the
/// characters of a text, the digits of a number, and for anything else what `written` gives.
pub open spec fn shows_datum(
    text: Seq<char>,
    datum: JsonView,
    written: spec_fn(JsonView) -> Seq<char>,
) -> bool {
    &&& datum.node == JsonNodeView::Bool(true) ==> text == "true"@
    &&& datum.node == JsonNodeView::Bool(false) ==> text == "false"@
    &&& datum.node matches JsonNodeView::Text(s) ==> text == s
    &&& datum.node matches JsonNodeView::Number(_, digits) ==> text == digits
    &&& datum.node is Null || datum.node is Array || datum.node is Object ==> text == written(datum)
}

/// A reply that holds one piece of data gives that piece alone: a truth value by its word, a text
/// by its characters, a number by its digits, anything else as it is written.
pub proof fn lemma_single_piece_is_given(
    json: JsonView,
    length: u64,
    entry: JsonView,
    expr: JsonView,
    key: Seq<char>,
    value: JsonView,
    datum: JsonView,
    written: spec_fn(JsonView) -> Seq<char>,
)
    requires
        natural_member(json, "length"@) == Some(length),
        length > 0,
        array_member(json, "exprs"@) == Some(seq![entry]),
        member_of(entry, "expr"@) == Some(expr),
        expr.node == JsonNodeView::Object(seq![(key, value)]),
        member_of(value, "data"@) == Some(datum),
    ensures
        datum.node == JsonNodeView::Bool(true) ==> data_written(json, written) == Some(
            seq!["true"@],
        ),
        datum.node == JsonNodeView::Bool(false) ==> data_written(json, written) == Some(
            seq!["false"@],
        ),
        datum.node matches JsonNodeView::Text(s) ==> data_written(json, written) == Some(seq![s]),
        datum.node matches JsonNodeView::Number(_, digits) ==> data_written(json, written) == Some(
            seq![digits],
        ),
        datum.node is Null || datum.node is Array || datum.node is Object ==> data_written(
            json,
            written,
        ) == Some(seq![written(datum)]),
{
    let entries = seq![entry];
    let members = seq![(key, value)];
    assert(data_in_members(members, 0, written).len() == 0);
    assert(data_in_members(members, 1, written) =~= seq![datum_chars(datum, written)]);
    assert(data_in_entry(entry, written) == data_in_members(members, 1, written));
    assert(data_in_entries(entries, 0, written).len() == 0);
    assert(data_in_entries(entries, 1, written) =~= data_in_entry(entry, written));
    lemma_truth_values_are_told_apart();
}

/// Two pieces of data that are different truth values are given by different texts.
pub proof fn lemma_different_truth_values_are_given_differently(
    text_a: Seq<char>,
    text_b: Seq<char>,
    a: JsonView,
    b: JsonView,
    written: spec_fn(JsonView) -> Seq<char>,
)
    requires
        text_a == datum_chars(a, written),
        text_b == datum_chars(b, written),
        a.node == JsonNodeView::Bool(true),
        b.node == JsonNodeView::Bool(false),
    ensures
        text_a == "true"@,
        text_b == "false"@,
        text_a != text_b,
{
    lemma_truth_values_are_told_apart();
}

/// The data of entries is that of the first ones, then that of the others: no piece is lost, none
/// is given twice, and the order is kept.
pub proof fn lemma_data_of_entries_in_two(
    a: Seq<JsonView>,
    b: Seq<JsonView>,
    written: spec_fn(JsonView) -> Seq<char>,
)
    ensures
        data_in_entries(a + b, (a + b).len(), written) == data_in_entries(a, a.len(), written)
            + data_in_entries(b, b.len(), written),
{
    lemma_data_of_first_entries(a, b, b.len(), written);
    lemma_data_of_first_entries(b, Seq::empty(), 0, written);
}

/// The data of all of `a` and the first `n` of `b`.
proof fn lemma_data_of_first_entries(
    a: Seq<JsonView>,
    b: Seq<JsonView>,
    n: nat,
    written: spec_fn(JsonView) -> Seq<char>,
)
    requires
        n <= b.len(),
    ensures
        data_in_entries(a + b, a.len() + n, written) == data_in_entries(a, a.len(), written)
            + data_in_entries(b, n, written),
    decreases n,
{
    if n == 0 {
        lemma_data_of_a_beginning(a, a + b, a.len(), written);
        assert(data_in_entries(b, 0, written).len() == 0);
        assert(data_in_entries(a, a.len(), written) + data_in_entries(b, 0, written)
            =~= data_in_entries(a, a.len(), written));
    } else {
        lemma_data_of_first_entries(a, b, (n - 1) as nat, written);
        assert((a + b)[a.len() + n - 1] == b[n - 1]);
        assert(data_in_entries(a + b, a.len() + n, written) =~= data_in_entries(
            a,
            a.len(),
            written,
        ) + data_in_entries(b, n, written));
    }
}

/// The data of the first entries depends on these alone.
proof fn lemma_data_of_a_beginning(
    a: Seq<JsonView>,
    b: Seq<JsonView>,
    n: nat,
    written: spec_fn(JsonView) -> Seq<char>,
)
    requires
        n <= a.len(),
        n <= b.len(),
        forall|i: int| 0 <= i < n ==> a[i] == b[i],
    ensures
        data_in_entries(a, n, written) == data_in_entries(b, n, written),
    decreases n,
{
    if n > 0 {
        lemma_data_of_a_beginning(a, b, (n - 1) as nat, written);
    }
}

/// An entry gives the pieces of its expression's members, one for each member that holds data and
/// in the order of the members; an entry without an expression gives none.
pub proof fn lemma_data_of_an_entry(
    entry: JsonView,
    expr: JsonView,
    members: Seq<(Seq<char>, JsonView)>,
    written: spec_fn(JsonView) -> Seq<char>,
)
    requires
        member_of(entry, "expr"@) == Some(expr),
        expr.node == JsonNodeView::Object(members),
    ensures
        members.len() == 0 ==> data_in_entry(entry, written).len() == 0,
        members.len() > 0 ==> {
            let shorter = data_in_members(members, (members.len() - 1) as nat, written);
            match member_of(members.last().1, "data"@) {
                Some(datum) => data_in_entry(entry, written).len() == shorter.len() + 1
                    && data_in_entry(entry, written).drop_last() == shorter && shows_datum(
                    data_in_entry(entry, written).last(),
                    datum,
                    written,
                ),
                None => data_in_entry(entry, written) == shorter,
            }
        },
{
    if members.len() > 0 {
        let shorter = data_in_members(members, (members.len() - 1) as nat, written);
        match member_of(members.last().1, "data"@) {
            Some(datum) => {
                assert(data_in_entry(entry, written) == shorter.push(datum_chars(datum, written)));
                assert(data_in_entry(entry, written).drop_last() =~= shorter);
            },
            None => {},
        }
    }
}

/// A reply gives the data of its entries where it says that it has some and there is any in them;
/// where there is none in them it is given whole; and where it gives its length as zero, or gives
/// none, nothing is given.
pub proof fn lemma_data_of_a_reply(
    json: JsonView,
    entries: Seq<JsonView>,
    written: spec_fn(JsonView) -> Seq<char>,
)
    ensures
        natural_member(json, "length"@) is None ==> data_written(json, written) is None,
        natural_member(json, "length"@) == Some(0u64) ==> data_written(json, written) is None,
        natural_member(json, "length"@) matches Some(n) ==> (n > 0 ==> data_written(
            json,
            written,
        ) is Some),
        data_written(json, written) is Some && array_member(json, "exprs"@) == Some(entries) ==> {
            let found = data_in_entries(entries, entries.len(), written);
            &&& found.len() > 0 ==> data_written(json, written)->0 == found
            &&& found.len() == 0 ==> data_written(json, written)->0 == seq![written(json)]
        },
        data_written(json, written) is Some && array_member(json, "exprs"@) is None
            ==> data_written(json, written)->0 == seq![written(json)],
{
}

/// The data in a body is that of the document it holds, with what is no text, number or truth
/// value written as compact JSON; a body that holds no document has none.
pub proof fn lemma_data_of_a_body(body: Option<Vec<u8>>, json: JsonView)
    ensures
        document(body) == Some(json) ==> data_in_body(body) == data_written(
            json,
            |value: JsonView| compact_chars(value.node),
        ),
        document(body) is None ==> data_in_body(body) is None,
{
    assert(as_json() =~= |value: JsonView| compact_chars(value.node));
}

/// The data of members is that of the first ones, then that of the others: no piece is lost, none
/// is given twice, and the order is kept.
pub proof fn lemma_data_of_members_in_two(
    a: Seq<(Seq<char>, JsonView)>,
    b: Seq<(Seq<char>, JsonView)>,
    written: spec_fn(JsonView) -> Seq<char>,
)
    ensures
        data_in_members(a + b, (a + b).len(), written) == data_in_members(a, a.len(), written)
            + data_in_members(b, b.len(), written),
{
    lemma_data_of_first_members(a, b, b.len(), written);
}

/// The data of all of `a` and the first `n` of `b`.
proof fn lemma_data_of_first_members(
    a: Seq<(Seq<char>, JsonView)>,
    b: Seq<(Seq<char>, JsonView)>,
    n: nat,
    written: spec_fn(JsonView) -> Seq<char>,
)
    requires
        n <= b.len(),
    ensures
        data_in_members(a + b, a.len() + n, written) == data_in_members(a, a.len(), written)
            + data_in_members(b, n, written),
    decreases n,
{
    if n == 0 {
        lemma_data_of_beginning_members(a, a + b, a.len(), written);
        assert(data_in_members(a, a.len(), written) + data_in_members(b, 0, written)
            =~= data_in_members(a, a.len(), written));
    } else {
        lemma_data_of_first_members(a, b, (n - 1) as nat, written);
        assert((a + b)[a.len() + n - 1] == b[n - 1]);
        assert(data_in_members(a + b, a.len() + n, written) =~= data_in_members(
            a,
            a.len(),
            written,
        ) + data_in_members(b, n, written));
    }
}

/// The data of the first members depends on these alone.
proof fn lemma_data_of_beginning_members(
    a: Seq<(Seq<char>, JsonView)>,
    b: Seq<(Seq<char>, JsonView)>,
    n: nat,
    written: spec_fn(JsonView) -> Seq<char>,
)
    requires
        n <= a.len(),
        n <= b.len(),
        forall|i: int| 0 <= i < n ==> a[i] == b[i],
    ensures
        data_in_members(a, n, written) == data_in_members(b, n, written),
    decreases n,
{
    if n > 0 {
        lemma_data_of_beginning_members(a, b, (n - 1) as nat, written);
    }
}

/// A single member gives the one piece that it holds under `data`, whatever its key; a single
/// entry gives what the members of its expression give; and where there is no such piece or no
/// such expression, nothing is given.
pub proof fn lemma_data_of_a_single_one(
    key: Seq<char>,
    value: JsonView,
    entry: JsonView,
    written: spec_fn(JsonView) -> Seq<char>,
)
    ensures
        member_of(value, "data"@) matches Some(datum) ==> {
            let data = data_in_members(seq![(key, value)], 1, written);
            data.len() == 1 && shows_datum(data[0], datum, written)
        },
        member_of(value, "data"@) is None ==> data_in_members(seq![(key, value)], 1, written).len()
            == 0,
        member_of(entry, "expr"@) matches Some(expr) ==> (expr.node matches JsonNodeView::Object(
            members,
        ) ==> data_in_entries(seq![entry], 1, written) == data_in_members(
            members,
            members.len(),
            written,
        )),
        member_of(entry, "expr"@) matches Some(expr) ==> (!(expr.node is Object)
            ==> data_in_entries(seq![entry], 1, written).len() == 0),
        member_of(entry, "expr"@) is None ==> data_in_entries(seq![entry], 1, written).len() == 0,
{
    let members = seq![(key, value)];
    let entries = seq![entry];
    assert(data_in_members(members, 0, written).len() == 0);
    assert(members[0] == (key, value));
    assert(data_in_entries(entries, 0, written).len() == 0);
    assert(data_in_entries(entries, 1, written) =~= data_in_entry(entry, written));
}

} // verus!
