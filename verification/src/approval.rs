//! The approval gateway: the table of pending approvals with their decision
//! slots, the delivery of a decision, and the wire forms of a request and of
//! a decision.

use crate::json::{object_model, Field, Json, JsonMember, JsonValue};
use crate::table::Table;
use crate::text::{decimal, text_of};
use vstd::prelude::*;
use vstd::string::StringExecFns;

verus! {

#[verifier::external_type_specification]
#[verifier::external_body]
#[verifier::reject_recursive_types(T)]
pub struct ExSender<T>(tokio::sync::oneshot::Sender<T>);

#[verifier::external_type_specification]
#[verifier::external_body]
#[verifier::reject_recursive_types(T)]
pub struct ExReceiver<T>(tokio::sync::oneshot::Receiver<T>);

// The receiver's `Future` impl names this error as its output, and Verus
// takes the receiver into a signature only once the error is declared too.
#[verifier::external_type_specification]
#[verifier::external_body]
pub struct ExRecvError(tokio::sync::oneshot::error::RecvError);

/// What the decision source decided.
#[derive(Debug, Clone, Copy, PartialEq, Eq, Structural)]
pub enum ApprovalBehavior {
    Allow,
    Deny,
}

/// A request for approval as the polling table keeps it.
#[derive(Debug)]
pub struct ApprovalRequest {
    pub tool_name: String,
    pub input: JsonValue,
    pub worktree_id: String,
    pub timestamp: u64,
}

/// A decision: the behaviour, a message for the agent, and arguments that
/// replace those of the tool.
#[derive(Debug)]
pub struct ApprovalResponse {
    pub behavior: ApprovalBehavior,
    pub message: Option<String>,
    pub updated_input: Option<JsonValue>,
}

/// A request for approval as it arrives over the network.
#[derive(Debug)]
pub struct HttpApprovalRequest {
    pub request_id: String,
    pub tool_name: String,
    pub input: JsonValue,
    pub worktree_id: String,
    pub timestamp: u64,
}

/// A pending approval: the request, and the slot that takes its decision once.
pub struct PendingHttpApproval {
    pub request: HttpApprovalRequest,
    pub response_tx: tokio::sync::oneshot::Sender<ApprovalResponse>,
}

/// The mathematical value of an `ApprovalRequest`.
pub struct ApprovalRequestModel {
    pub tool_name: Seq<char>,
    pub input: Json,
    pub worktree_id: Seq<char>,
    pub timestamp: u64,
}

/// The mathematical value of an `ApprovalResponse`.
pub struct ApprovalResponseModel {
    pub behavior: ApprovalBehavior,
    pub message: Option<Seq<char>>,
    pub updated_input: Option<Json>,
}

/// The mathematical value of an `HttpApprovalRequest`.
pub struct HttpApprovalRequestModel {
    pub request_id: Seq<char>,
    pub tool_name: Seq<char>,
    pub input: Json,
    pub worktree_id: Seq<char>,
    pub timestamp: u64,
}

impl View for ApprovalRequest {
    type V = ApprovalRequestModel;

    open spec fn view(&self) -> ApprovalRequestModel {
        ApprovalRequestModel {
            tool_name: self.tool_name@,
            input: self.input@,
            worktree_id: self.worktree_id@,
            timestamp: self.timestamp,
        }
    }
}

impl View for ApprovalResponse {
    type V = ApprovalResponseModel;

    open spec fn view(&self) -> ApprovalResponseModel {
        ApprovalResponseModel {
            behavior: self.behavior,
            message: text_of(self.message),
            updated_input: match self.updated_input {
                Some(v) => Some(v@),
                None => None,
            },
        }
    }
}

impl View for HttpApprovalRequest {
    type V = HttpApprovalRequestModel;

    open spec fn view(&self) -> HttpApprovalRequestModel {
        HttpApprovalRequestModel {
            request_id: self.request_id@,
            tool_name: self.tool_name@,
            input: self.input@,
            worktree_id: self.worktree_id@,
            timestamp: self.timestamp,
        }
    }
}

impl Clone for ApprovalRequest {
    fn clone(&self) -> (r: ApprovalRequest)
        ensures
            r@ == self@,
    {
        ApprovalRequest {
            tool_name: self.tool_name.clone(),
            input: self.input.clone(),
            worktree_id: self.worktree_id.clone(),
            timestamp: self.timestamp,
        }
    }
}

impl Clone for ApprovalResponse {
    fn clone(&self) -> (r: ApprovalResponse)
        ensures
            r@ == self@,
    {
        ApprovalResponse {
            behavior: self.behavior,
            message: match &self.message {
                Some(m) => Some(m.clone()),
                None => None,
            },
            updated_input: match &self.updated_input {
                Some(v) => Some(v.clone()),
                None => None,
            },
        }
    }
}

impl Clone for HttpApprovalRequest {
    fn clone(&self) -> (r: HttpApprovalRequest)
        ensures
            r@ == self@,
    {
        HttpApprovalRequest {
            request_id: self.request_id.clone(),
            tool_name: self.tool_name.clone(),
            input: self.input.clone(),
            worktree_id: self.worktree_id.clone(),
            timestamp: self.timestamp,
        }
    }
}

/// The word that stands for a behaviour on the wire, in lower case.
pub open spec fn behavior_token(behavior: ApprovalBehavior) -> Seq<char> {
    match behavior {
        ApprovalBehavior::Allow => "allow"@,
        ApprovalBehavior::Deny => "deny"@,
    }
}

/// A string where there is a text, and null where there is none.
pub open spec fn text_or_null(text: Option<Seq<char>>) -> Json {
    match text {
        Some(t) => Json::String(t),
        None => Json::Null,
    }
}

/// The document itself where there is one, and null where there is none.
pub open spec fn value_or_null(value: Option<Json>) -> Json {
    match value {
        Some(v) => v,
        None => Json::Null,
    }
}

/// The wire form of a decision: an object with the members `behavior`,
/// `message` and `updatedInput`.
pub open spec fn rendered(response: ApprovalResponseModel) -> Json {
    Json::Object(
        seq![
            Field { key: "behavior"@, value: Json::String(behavior_token(response.behavior)) },
            Field { key: "message"@, value: text_or_null(response.message) },
            Field { key: "updatedInput"@, value: value_or_null(response.updated_input) },
        ],
    )
}

/// What the decision source is told of a request: its id under
/// `approval_id`, and under `request` the tool, its input, the worktree and
/// the time.
pub open spec fn notification(request: HttpApprovalRequestModel) -> Json {
    Json::Object(
        seq![
            Field { key: "approval_id"@, value: Json::String(request.request_id) },
            Field {
                key: "request"@,
                value: Json::Object(
                    seq![
                        Field { key: "toolName"@, value: Json::String(request.tool_name) },
                        Field { key: "input"@, value: request.input },
                        Field { key: "worktreeId"@, value: Json::String(request.worktree_id) },
                        Field {
                            key: "timestamp"@,
                            value: Json::Number(decimal(request.timestamp as nat)),
                        },
                    ],
                ),
            },
        ],
    )
}

/// The error for a decision whose request is not pending over the network.
pub open spec fn http_not_found(approval_id: Seq<char>) -> Seq<char> {
    "HTTP approval request not found: "@ + approval_id
}

/// The error for a decision whose request is pending nowhere.
pub open spec fn not_found(approval_id: Seq<char>) -> Seq<char> {
    "Approval request not found: "@ + approval_id
}

/// The error for a decision that nobody waits for any more.
pub open spec fn handler_gone() -> Seq<char> {
    "Failed to send response to HTTP handler"@
}

/// The status that answers a request whose slot was given up.
pub const INTERNAL_SERVER_ERROR: u16 = 500;

/// The word that stands for a behaviour on the wire.
pub fn behavior_word(behavior: ApprovalBehavior) -> (r: &'static str)
    ensures
        r@ == behavior_token(behavior),
{
    match behavior {
        ApprovalBehavior::Allow => "allow",
        ApprovalBehavior::Deny => "deny",
    }
}

/// Renders a decision in its wire form.
pub fn render_response(response: &ApprovalResponse) -> (r: JsonValue)
    ensures
        r@ == rendered(response@),
{
    let behavior = JsonValue::string(behavior_word(response.behavior));
    let message = match &response.message {
        Some(m) => JsonValue::string(m.as_str()),
        None => JsonValue::Null,
    };
    let updated = match &response.updated_input {
        Some(v) => v.clone(),
        None => JsonValue::Null,
    };
    let mut members: Vec<JsonMember> = Vec::new();
    members.push(JsonMember::new("behavior", behavior));
    members.push(JsonMember::new("message", message));
    members.push(JsonMember::new("updatedInput", updated));
    let r = JsonValue::object(members);
    proof {
        assert(object_model(members@) =~= rendered(response@)->Object_0);
    }
    r
}

/// Builds what the decision source is told of a request.
pub fn approval_notification(request: &HttpApprovalRequest) -> (r: JsonValue)
    ensures
        r@ == notification(request@),
{
    let mut inner: Vec<JsonMember> = Vec::new();
    inner.push(JsonMember::new("toolName", JsonValue::string(request.tool_name.as_str())));
    inner.push(JsonMember::new("input", request.input.clone()));
    inner.push(JsonMember::new("worktreeId", JsonValue::string(request.worktree_id.as_str())));
    inner.push(JsonMember::new("timestamp", JsonValue::number(request.timestamp)));
    let described = JsonValue::object(inner);
    let mut outer: Vec<JsonMember> = Vec::new();
    outer.push(JsonMember::new("approval_id", JsonValue::string(request.request_id.as_str())));
    outer.push(JsonMember::new("request", described));
    let r = JsonValue::object(outer);
    proof {
        let inner_fields = notification(request@)->Object_0[1].value->Object_0;
        assert(object_model(inner@) =~= inner_fields);
        assert(object_model(outer@) =~= notification(request@)->Object_0);
    }
    r
}

/// Answers the network call once the wait for a decision is over: the wire
/// form of the decision that came, or the status of an internal error where
/// the slot was given up and none came.
pub fn conclude_approval(received: Option<ApprovalResponse>) -> (r: Result<JsonValue, u16>)
    ensures
        match received {
            Some(response) => (r matches Ok(body) && body@ == rendered(response@)),
            None => r == Err::<JsonValue, u16>(INTERNAL_SERVER_ERROR),
        },
{
    match received {
        Some(response) => Ok(render_response(&response)),
        None => Err(INTERNAL_SERVER_ERROR),
    }
}

/// `tokio::sync::oneshot::channel`: a fresh slot for one decision, as the
/// end that sends and the end that receives.
#[verifier::external_body]
fn open_slot() -> (r: (
    tokio::sync::oneshot::Sender<ApprovalResponse>,
    tokio::sync::oneshot::Receiver<ApprovalResponse>,
)) {
    tokio::sync::oneshot::channel()
}

/// `tokio::sync::oneshot::Sender::send`: puts the decision into the slot.
/// Whether it succeeds depends on the receiving end, which may be gone; then
/// the decision comes back as it was given.
#[verifier::external_body]
fn deliver(slot: tokio::sync::oneshot::Sender<ApprovalResponse>, response: ApprovalResponse) -> (r:
    Result<(), ApprovalResponse>)
    ensures
        r matches Err(back) ==> back == response,
{
    slot.send(response)
}

/// What the sender of a decision is told after the attempt to deliver it.
pub fn delivery_report(delivered: Result<(), ApprovalResponse>) -> (r: Result<(), String>)
    ensures
        delivered is Ok ==> r is Ok,
        delivered is Err ==> (r matches Err(e) && e@ == handler_gone()),
{
    match delivered {
        Ok(()) => Ok(()),
        Err(_) => Err(String::from_str("Failed to send response to HTTP handler")),
    }
}

/// The error text for a decision whose request is not pending over the network.
pub fn http_not_found_text(approval_id: &str) -> (r: String)
    ensures
        r@ == http_not_found(approval_id@),
{
    let mut text = String::from_str("HTTP approval request not found: ");
    text.append(approval_id);
    text
}

/// The error text for a decision whose request is pending nowhere.
pub fn not_found_text(approval_id: &str) -> (r: String)
    ensures
        r@ == not_found(approval_id@),
{
    let mut text = String::from_str("Approval request not found: ");
    text.append(approval_id);
    text
}

/// Registers a request that arrived over the network: stores it under its
/// id together with a fresh slot, and hands back the end of the slot on which
/// the decision will arrive. A pending request with the same id is replaced,
/// and its slot is given up.
pub fn register_approval(
    pending: &mut Table<PendingHttpApproval>,
    request: HttpApprovalRequest,
) -> (receiver: tokio::sync::oneshot::Receiver<ApprovalResponse>)
    ensures
        final(pending)@.contains_key(request.request_id@),
        final(pending)@[request.request_id@].request == request,
        final(pending)@ == old(pending)@.insert(
            request.request_id@,
            final(pending)@[request.request_id@],
        ),
        final(pending)@.dom() == registered(old(pending)@.dom(), request.request_id@),
        final(pending).order() == if old(pending)@.contains_key(request.request_id@) {
            old(pending).order()
        } else {
            old(pending).order().push(request.request_id@)
        },
{
    let (response_tx, receiver) = open_slot();
    let key = request.request_id.clone();
    let entry = PendingHttpApproval { request, response_tx };
    let _ = pending.insert(key, entry);
    receiver
}

/// Delivers a decision to the request `approval_id`. A request that is not
/// pending is reported and leaves the table as it is. A pending request
/// leaves the table, whether or not its decision could be delivered: its
/// slot takes one decision, once.
pub fn fulfill_approval(
    pending: &mut Table<PendingHttpApproval>,
    approval_id: &str,
    response: ApprovalResponse,
) -> (r: Result<(), String>)
    ensures
        final(pending)@ == old(pending)@.remove(approval_id@),
        final(pending)@.dom() == fulfilled(old(pending)@.dom(), approval_id@),
        !found(old(pending)@.dom(), approval_id@) ==> {
            &&& (r matches Err(e) && e@ == http_not_found(approval_id@))
            &&& final(pending)@ == old(pending)@
            &&& final(pending).order() == old(pending).order()
        },
        found(old(pending)@.dom(), approval_id@) ==> (r is Ok || (r matches Err(e) && e@
            == handler_gone())),
{
    match pending.remove(approval_id) {
        Some(entry) => delivery_report(deliver(entry.response_tx, response)),
        None => {
            proof {
                assert(pending@ =~= old(pending)@);
            }
            Err(http_not_found_text(approval_id))
        },
    }
}

/// Gives up the request `request_id`, whose caller waits no longer: the
/// request leaves the table, and with it its slot, so that no decision can
/// be delivered to it any more. Tells whether the request was pending; one
/// that was decided already, or never registered, leaves the table as it is.
pub fn abandon_approval(pending: &mut Table<PendingHttpApproval>, request_id: &str) -> (r: bool)
    ensures
        final(pending)@ == old(pending)@.remove(request_id@),
        r == old(pending)@.contains_key(request_id@),
        final(pending)@.dom() == abandoned(old(pending)@.dom(), request_id@),
        !r ==> final(pending)@ == old(pending)@ && final(pending).order() == old(pending).order(),
{
    match pending.remove(request_id) {
        Some(_) => true,
        None => {
            proof {
                assert(pending@ =~= old(pending)@);
            }
            false
        },
    }
}

/// One operation on the table of pending approvals, by the id that it is about.
pub enum Operation {
    Register(Seq<char>),
    Fulfill(Seq<char>),
    Abandon(Seq<char>),
}

/// The pending ids after `id` was registered.
pub open spec fn registered(pending: Set<Seq<char>>, id: Seq<char>) -> Set<Seq<char>> {
    pending.insert(id)
}

/// The pending ids after a decision for `id` was taken in.
pub open spec fn fulfilled(pending: Set<Seq<char>>, id: Seq<char>) -> Set<Seq<char>> {
    pending.remove(id)
}

/// The pending ids after the request `id` was given up.
pub open spec fn abandoned(pending: Set<Seq<char>>, id: Seq<char>) -> Set<Seq<char>> {
    pending.remove(id)
}

/// Whether a decision for `id` finds its request.
pub open spec fn found(pending: Set<Seq<char>>, id: Seq<char>) -> bool {
    pending.contains(id)
}

/// The pending ids after one operation.
pub open spec fn applied(pending: Set<Seq<char>>, operation: Operation) -> Set<Seq<char>> {
    match operation {
        Operation::Register(id) => registered(pending, id),
        Operation::Fulfill(id) => fulfilled(pending, id),
        Operation::Abandon(id) => abandoned(pending, id),
    }
}

/// The pending ids after a sequence of operations.
pub open spec fn applied_all(pending: Set<Seq<char>>, operations: Seq<Operation>) -> Set<
    Seq<char>,
>
    decreases operations.len(),
{
    if operations.len() == 0 {
        pending
    } else {
        applied(applied_all(pending, operations.drop_last()), operations.last())
    }
}

/// The id that an operation is about.
pub open spec fn subject(operation: Operation) -> Seq<char> {
    match operation {
        Operation::Register(id) => id,
        Operation::Fulfill(id) => id,
        Operation::Abandon(id) => id,
    }
}

/// Whether the last operation about `id` registers it.
pub open spec fn left_registered(operations: Seq<Operation>, id: Seq<char>) -> bool
    decreases operations.len(),
{
    if operations.len() == 0 {
        false
    } else if subject(operations.last()) == id {
        operations.last() is Register
    } else {
        left_registered(operations.drop_last(), id)
    }
}

/// A decision for an id that is not pending finds nothing and changes nothing.
pub proof fn lemma_unknown_id_changes_nothing(pending: Set<Seq<char>>, id: Seq<char>)
    requires
        !found(pending, id),
    ensures
        fulfilled(pending, id) == pending,
{
    assert(pending.remove(id) =~= pending);
}

/// A request takes one decision: after a decision for `id` was taken in, a
/// second decision for `id` finds nothing.
pub proof fn lemma_second_decision_finds_nothing(pending: Set<Seq<char>>, id: Seq<char>)
    ensures
        !found(fulfilled(pending, id), id),
{
}

/// A pending request ends in one way, decided or given up, never both: once
/// it was given up no decision finds it, and once it was decided there is
/// nothing left to give up.
pub proof fn lemma_decided_or_abandoned(pending: Set<Seq<char>>, id: Seq<char>)
    ensures
        !found(abandoned(pending, id), id),
        !found(fulfilled(pending, id), id),
        abandoned(fulfilled(pending, id), id) == fulfilled(pending, id),
        fulfilled(abandoned(pending, id), id) == abandoned(pending, id),
{
    assert(pending.remove(id).remove(id) =~= pending.remove(id));
}

/// Operations about one id leave the other ids as they were: registering
/// and deciding `id` neither adds nor loses any other request.
pub proof fn lemma_other_ids_untouched(
    pending: Set<Seq<char>>,
    operation: Operation,
    other: Seq<char>,
)
    requires
        subject(operation) != other,
    ensures
        applied(pending, operation).contains(other) == pending.contains(other),
{
}

/// However the operations of several callers interleave, the ids that are
/// pending in the end are those whose last operation registers them, and of
/// the ids that no operation is about, those that were pending at the start.
pub proof fn lemma_pending_after(pending: Set<Seq<char>>, operations: Seq<Operation>, id: Seq<char>)
    ensures
        applied_all(pending, operations).contains(id) == (left_registered(operations, id) || (
        pending.contains(id) && forall|i: int|
            0 <= i < operations.len() ==> subject(#[trigger] operations[i]) != id)),
    decreases operations.len(),
{
    if operations.len() > 0 {
        let front = operations.drop_last();
        lemma_pending_after(pending, front, id);
        if subject(operations.last()) == id {
            assert(subject(operations[operations.len() - 1]) == id);
        } else {
            if forall|i: int| 0 <= i < front.len() ==> subject(#[trigger] front[i]) != id {
                assert forall|i: int| 0 <= i < operations.len() implies subject(
                    #[trigger] operations[i],
                ) != id by {
                    if i < front.len() {
                        assert(front[i] == operations[i]);
                    }
                }
            } else {
                let i = choose|i: int| 0 <= i < front.len() && subject(#[trigger] front[i]) == id;
                assert(operations[i] == front[i]);
            }
        }
    }
}

/// Where every request that is registered is decided or given up
/// afterwards, nothing is left pending in the end, in whatever order the
/// operations of the callers came in.
pub proof fn lemma_pairs_leave_nothing(operations: Seq<Operation>)
    requires
        forall|id: Seq<char>| !left_registered(operations, id),
    ensures
        applied_all(Set::empty(), operations) == Set::<Seq<char>>::empty(),
{
    assert forall|id: Seq<char>| !applied_all(Set::empty(), operations).contains(id) by {
        lemma_pending_after(Set::empty(), operations, id);
    }
    assert(applied_all(Set::empty(), operations) =~= Set::<Seq<char>>::empty());
}

/// No registered request is lost: a decision finds its request whenever the
/// last operation about its id before it registered the id.
pub proof fn lemma_registered_is_found(operations: Seq<Operation>, at: int)
    requires
        0 <= at < operations.len(),
        operations[at] is Fulfill,
        left_registered(operations.take(at), subject(operations[at])),
    ensures
        found(applied_all(Set::empty(), operations.take(at)), subject(operations[at])),
{
    lemma_pending_after(Set::empty(), operations.take(at), subject(operations[at]));
}

} // verus!
