//! Registering contracts with the indexing engine: what it answers, and how
//! that is told to whoever asked.

use crate::address::Address;
use crate::contract::{Contract, ContractType, ContractView};
use crate::json::{
    field, member, text, FieldView, JsonBody, JsonField, JsonRecord, JsonScalar, ScalarView,
};
use crate::response::{
    error_response, Reply, ReplyView, BAD_GATEWAY, CONFLICT, INTERNAL_SERVER_ERROR, NOT_FOUND, OK,
    SERVICE_UNAVAILABLE,
};
use crate::text::joined;
use vstd::prelude::*;

verus! {

/// How many commands may wait for the engine.
pub const CONTROL_CHANNEL_CAPACITY: usize = 32;

/// Whether a registration was new.
#[derive(Debug, Clone, Copy, PartialEq, Eq)]
pub enum ContractRegistrationOutcome {
    Registered,
    AlreadyRegistered,
}

/// The engine's answer to a registration.
#[derive(Debug, Clone, PartialEq, Eq)]
pub struct ContractRegistrationResult {
    pub contract: Contract,
    pub outcome: ContractRegistrationOutcome,
    pub target_head: u64,
}

/// The engine's answer, its contract by number and name.
pub struct RegistrationView {
    pub contract: ContractView,
    pub outcome: ContractRegistrationOutcome,
    pub target_head: u64,
}

impl View for ContractRegistrationResult {
    type V = RegistrationView;

    open spec fn view(&self) -> RegistrationView {
        RegistrationView {
            contract: self.contract@,
            outcome: self.outcome,
            target_head: self.target_head,
        }
    }
}

/// Why contracts could not be managed.
#[derive(Debug)]
pub enum ContractManagementError {
    TypeConflict {
        address: Address,
        registered_type: ContractType,
        requested_type: ContractType,
    },
    NotFound(Address),
    Provider(String),
    Storage(String),
    EngineUnavailable,
}

/// Why contracts could not be managed, by numbers and names.
pub enum ErrorView {
    TypeConflict { address: nat, registered_type: Seq<char>, requested_type: Seq<char> },
    NotFound(nat),
    Provider(Seq<char>),
    Storage(Seq<char>),
    EngineUnavailable,
}

impl View for ContractManagementError {
    type V = ErrorView;

    open spec fn view(&self) -> ErrorView {
        match self {
            ContractManagementError::TypeConflict { address, registered_type, requested_type } =>
                ErrorView::TypeConflict {
                    address: address@,
                    registered_type: registered_type@,
                    requested_type: requested_type@,
                },
            ContractManagementError::NotFound(address) => ErrorView::NotFound(address@),
            ContractManagementError::Provider(cause) => ErrorView::Provider(cause@),
            ContractManagementError::Storage(cause) => ErrorView::Storage(cause@),
            ContractManagementError::EngineUnavailable => ErrorView::EngineUnavailable,
        }
    }
}

/// An error in words.
pub open spec fn error_message(error: ErrorView) -> Seq<char> {
    match error {
        ErrorView::TypeConflict { address, registered_type, requested_type } => "contract "@
            + crate::address::hex_text(address) + " is already registered as "@ + registered_type
            + ", not "@ + requested_type,
        ErrorView::NotFound(address) => "contract "@ + crate::address::hex_text(address)
            + " is not registered"@,
        ErrorView::Provider(cause) => "provider request failed: "@ + cause,
        ErrorView::Storage(cause) => "storage operation failed: "@ + cause,
        ErrorView::EngineUnavailable => "indexing engine is unavailable"@,
    }
}

/// The HTTP status for an error.
pub open spec fn error_status(error: ErrorView) -> u16 {
    match error {
        ErrorView::TypeConflict { .. } => CONFLICT,
        ErrorView::NotFound(_) => NOT_FOUND,
        ErrorView::EngineUnavailable => SERVICE_UNAVAILABLE,
        ErrorView::Provider(_) => BAD_GATEWAY,
        ErrorView::Storage(_) => INTERNAL_SERVER_ERROR,
    }
}

/// The code for an error.
pub open spec fn error_code(error: ErrorView) -> Seq<char> {
    match error {
        ErrorView::TypeConflict { .. } => "contract_type_conflict"@,
        ErrorView::NotFound(_) => "contract_not_found"@,
        ErrorView::EngineUnavailable => "engine_unavailable"@,
        ErrorView::Provider(_) => "provider_error"@,
        ErrorView::Storage(_) => "storage_error"@,
    }
}

/// The answer for an error.
pub open spec fn management_error_reply(error: ErrorView) -> ReplyView {
    crate::response::error_reply(error_status(error), error_code(error), error_message(error))
}

/// The outcome of a registration, in a word.
pub open spec fn outcome_text(outcome: ContractRegistrationOutcome) -> Seq<char> {
    match outcome {
        ContractRegistrationOutcome::Registered => "registered"@,
        ContractRegistrationOutcome::AlreadyRegistered => "already_registered"@,
    }
}

/// A registered contract in an answer.
pub open spec fn registered_contract(contract: ContractView) -> Seq<
    (Seq<char>, ScalarView),
> {
    seq![
        (
            "address"@,
            ScalarView::Text(crate::address::hex_text(contract.contract_address)),
        ),
        ("contract_type"@, ScalarView::Text(contract.contract_type)),
        ("head"@, ScalarView::Number(contract.head)),
    ]
}

/// The answer to a registration.
pub open spec fn registration_reply(result: RegistrationView) -> ReplyView {
    ReplyView {
        status: OK,
        body: seq![
            ("success"@, FieldView::Scalar(ScalarView::Bool(true))),
            (
                "outcome"@,
                FieldView::Scalar(
                    ScalarView::Text(outcome_text(result.outcome)),
                ),
            ),
            (
                "target_head"@,
                FieldView::Scalar(
                    ScalarView::Number(Some(result.target_head)),
                ),
            ),
            (
                "contract"@,
                FieldView::Record(registered_contract(result.contract)),
            ),
        ],
    }
}

impl ContractManagementError {
    /// The error in words.
    pub fn message(&self) -> (message: String)
        ensures
            message@ == error_message(self@),
    {
        match self {
            ContractManagementError::TypeConflict { address, registered_type, requested_type } => {
                let mut message = joined("contract ", address.to_hex().as_str());
                message.append(" is already registered as ");
                message.append(registered_type.name.as_str());
                message.append(", not ");
                message.append(requested_type.name.as_str());
                message
            },
            ContractManagementError::NotFound(address) => {
                let mut message = joined("contract ", address.to_hex().as_str());
                message.append(" is not registered");
                message
            },
            ContractManagementError::Provider(cause) => {
                joined("provider request failed: ", cause.as_str())
            },
            ContractManagementError::Storage(cause) => {
                joined("storage operation failed: ", cause.as_str())
            },
            ContractManagementError::EngineUnavailable => {
                "indexing engine is unavailable".to_owned()
            },
        }
    }
}

/// What became of a command that was sent to the engine.
#[derive(Debug)]
pub enum Delivery {
    /// The engine takes no commands any more.
    Refused,
    /// The engine took the command and went away without an answer.
    Dropped,
    /// The engine answered.
    Answered(Result<ContractRegistrationResult, ContractManagementError>),
}

/// The result of a registration: the engine's own answer, or that there is no
/// engine to give one.
pub fn registration_result(delivery: Delivery) -> (result: Result<
    ContractRegistrationResult,
    ContractManagementError,
>)
    ensures
        result == match delivery {
            Delivery::Answered(answer) => answer,
            Delivery::Refused => Err(ContractManagementError::EngineUnavailable),
            Delivery::Dropped => Err(ContractManagementError::EngineUnavailable),
        },
{
    match delivery {
        Delivery::Answered(answer) => answer,
        Delivery::Refused => Err(ContractManagementError::EngineUnavailable),
        Delivery::Dropped => Err(ContractManagementError::EngineUnavailable),
    }
}

/// Answers a registration.
pub fn registration_response(result: &ContractRegistrationResult) -> (reply: Reply)
    ensures
        reply@ == registration_reply(result@),
{
    let outcome = match result.outcome {
        ContractRegistrationOutcome::Registered => "registered",
        ContractRegistrationOutcome::AlreadyRegistered => "already_registered",
    };
    let contract = JsonRecord {
        members: vec![
            member("address", text(result.contract.contract_address.to_hex().as_str())),
            member("contract_type", text(result.contract.contract_type.name.as_str())),
            member("head", JsonScalar::Number(result.contract.head)),
        ],
    };
    assert(contract@ =~= registered_contract(result@.contract));
    let body = JsonBody {
        members: vec![
            field("success", JsonField::Scalar(JsonScalar::Bool(true))),
            field("outcome", JsonField::Scalar(text(outcome))),
            field("target_head", JsonField::Scalar(JsonScalar::Number(Some(result.target_head)))),
            field("contract", JsonField::Record(contract)),
        ],
    };
    assert(body@ =~= registration_reply(result@).body);
    Reply { status: OK, body }
}

/// Answers with an error.
pub fn contract_management_error_response(error: &ContractManagementError) -> (reply: Reply)
    ensures
        reply@ == management_error_reply(error@),
{
    let message = error.message();
    match error {
        ContractManagementError::TypeConflict { .. } => {
            error_response(CONFLICT, "contract_type_conflict", message.as_str())
        },
        ContractManagementError::NotFound(_) => {
            error_response(NOT_FOUND, "contract_not_found", message.as_str())
        },
        ContractManagementError::EngineUnavailable => {
            error_response(SERVICE_UNAVAILABLE, "engine_unavailable", message.as_str())
        },
        ContractManagementError::Provider(_) => {
            error_response(BAD_GATEWAY, "provider_error", message.as_str())
        },
        ContractManagementError::Storage(_) => {
            error_response(INTERNAL_SERVER_ERROR, "storage_error", message.as_str())
        },
    }
}

/// At most 32 commands wait for the engine.
pub proof fn law_control_channel_holds_so_many_commands()
    ensures
        CONTROL_CHANNEL_CAPACITY == 32,
{
}

/// The view of the engine's answer has all that the answer has.
pub proof fn law_registration_view_keeps_everything(result: ContractRegistrationResult)
    ensures
        result@.contract == result.contract@,
        result@.outcome == result.outcome,
        result@.target_head == result.target_head,
{
}

/// The engine's own answer comes back as it is; where the engine does not answer,
/// it is said to be unavailable.
pub proof fn law_engine_answer_is_passed_on(delivery: Delivery)
    ensures
        forall|result: Result<ContractRegistrationResult, ContractManagementError>| #[trigger]
            call_ensures(registration_result, (delivery,), result) ==> {
                &&& delivery is Answered ==> result == delivery->Answered_0
                &&& !(delivery is Answered) ==> result is Err && result->Err_0
                    is EngineUnavailable
            },
{
}

/// Whether a flat object tells of a registered contract, in three members: its
/// address in hexadecimal, its type, and how far it is indexed, which is null
/// just where it is not indexed at all.
pub open spec fn tells_contract(
    record: Seq<(Seq<char>, ScalarView)>,
    contract: Contract,
) -> bool {
    &&& record.len() == 3
    &&& record.contains(
        ("address"@, ScalarView::Text(crate::address::hex_text(contract.contract_address@))),
    )
    &&& record.contains(("contract_type"@, ScalarView::Text(contract.contract_type.name@)))
    &&& record.contains(("head"@, ScalarView::Number(contract.head)))
}

/// Whether an answer tells of a registration, in four members: that it succeeded,
/// whether it was new, the block to index up to, and the engine's contract with
/// its head as the engine gave it.
pub open spec fn tells_registration(
    reply: ReplyView,
    result: ContractRegistrationResult,
) -> bool {
    &&& reply.status == 200
    &&& reply.body.len() == 4
    &&& reply.body.contains(("success"@, FieldView::Scalar(ScalarView::Bool(true))))
    &&& result.outcome is Registered ==> reply.body.contains(
        ("outcome"@, FieldView::Scalar(ScalarView::Text("registered"@))),
    )
    &&& result.outcome is AlreadyRegistered ==> reply.body.contains(
        ("outcome"@, FieldView::Scalar(ScalarView::Text("already_registered"@))),
    )
    &&& reply.body.contains(
        ("target_head"@, FieldView::Scalar(ScalarView::Number(Some(result.target_head)))),
    )
    &&& exists|record: Seq<(Seq<char>, ScalarView)>| #[trigger]
        reply.body.contains(("contract"@, FieldView::Record(record))) && tells_contract(
            record,
            result.contract,
        )
}

/// A registration is answered that it succeeded, with what the engine gave: the
/// contract's head is the number that the engine has for it, and null just where
/// the engine has none.
pub proof fn law_registration_answer_tells_the_engine_contract(result: &ContractRegistrationResult)
    ensures
        forall|reply: Reply| #[trigger]
            call_ensures(registration_response, (result,), reply) ==> tells_registration(
                reply@,
                *result,
            ),
        tells_registration(registration_reply(result@), *result),
        forall|reply: Reply| #[trigger]
            call_ensures(registration_response, (result,), reply) ==> exists|
                record: Seq<(Seq<char>, ScalarView)>,
            | #[trigger]
                reply.body@.contains(("contract"@, FieldView::Record(record))) && record.contains(
                    ("head"@, ScalarView::Number(result.contract.head)),
                ),
{
    let contract = result.contract;
    let body = registration_reply(result@).body;
    assert(body[0] == ("success"@, FieldView::Scalar(ScalarView::Bool(true))));
    if result.outcome is Registered {
        assert(body[1] == ("outcome"@, FieldView::Scalar(ScalarView::Text("registered"@))));
    } else {
        assert(body[1] == ("outcome"@, FieldView::Scalar(ScalarView::Text("already_registered"@))));
    }
    assert(body[2] == (
        "target_head"@,
        FieldView::Scalar(ScalarView::Number(Some(result.target_head))),
    ));
    let record = body[3].1->Record_0;
    assert(body[3] == ("contract"@, FieldView::Record(record)));
    assert(record[0] == (
        "address"@,
        ScalarView::Text(crate::address::hex_text(contract.contract_address@)),
    ));
    assert(record[1] == ("contract_type"@, ScalarView::Text(contract.contract_type.name@)));
    assert(record[2] == ("head"@, ScalarView::Number(contract.head)));
    assert(body.contains(("contract"@, FieldView::Record(record))));
    assert(tells_contract(record, contract));
}

/// Whether a message says in words what failed, of which address or for which
/// cause.
pub open spec fn words_for(message: Seq<char>, error: ContractManagementError) -> bool {
    match error {
        ContractManagementError::TypeConflict { address, registered_type, requested_type } =>
            message == "contract "@ + crate::address::hex_text(address@)
            + " is already registered as "@ + registered_type.name@ + ", not "@
            + requested_type.name@,
        ContractManagementError::NotFound(address) => message == "contract "@
            + crate::address::hex_text(address@) + " is not registered"@,
        ContractManagementError::Provider(cause) => message == "provider request failed: "@ + cause@,
        ContractManagementError::Storage(cause) => message == "storage operation failed: "@ + cause@,
        ContractManagementError::EngineUnavailable => message == "indexing engine is unavailable"@,
    }
}

/// Whether an answer tells of an error: with the status and the code for its
/// kind, and in words.
pub open spec fn tells_error(reply: ReplyView, error: ContractManagementError) -> bool {
    exists|message: Seq<char>| #[trigger]
        words_for(message, error) && reply == match error {
            ContractManagementError::TypeConflict { .. } => crate::response::error_reply(
                409,
                "contract_type_conflict"@,
                message,
            ),
            ContractManagementError::NotFound(_) => crate::response::error_reply(
                404,
                "contract_not_found"@,
                message,
            ),
            ContractManagementError::Provider(_) => crate::response::error_reply(
                502,
                "provider_error"@,
                message,
            ),
            ContractManagementError::Storage(_) => crate::response::error_reply(
                500,
                "storage_error"@,
                message,
            ),
            ContractManagementError::EngineUnavailable => crate::response::error_reply(
                503,
                "engine_unavailable"@,
                message,
            ),
        }
}

/// An error is told in words that name what failed, and answered with the status
/// and the code for its kind.
pub proof fn law_error_is_told_by_kind_and_in_words(error: &ContractManagementError)
    ensures
        forall|message: String| #[trigger]
            call_ensures(ContractManagementError::message, (error,), message) ==> words_for(
                message@,
                *error,
            ),
        forall|reply: Reply| #[trigger]
            call_ensures(contract_management_error_response, (error,), reply) ==> tells_error(
                reply@,
                *error,
            ),
        tells_error(management_error_reply(error@), *error),
{
    assert(words_for(error_message(error@), *error));
}

} // verus!
