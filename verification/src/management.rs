//! Registering contracts and asking after them, for whoever holds the token.

use std::sync::Arc;

use crate::address::Address;
use crate::auth::is_authorized;
use crate::contract::{
    Contract, ContractDefinition, ContractQuery, ContractType, ContractView, DefinitionView,
    RegisterContractRequest,
};
use crate::control::{
    contract_management_error_response, registration_response, ContractManagementError,
    ContractRegistrationResult, ErrorView, RegistrationView,
};
use crate::json::{field, FieldView, JsonBody, JsonField, JsonScalar, ScalarView};
use crate::request::{Method, RequestHead};
use crate::response::{
    disabled_response, error_response, Reply, ReplyView, BAD_REQUEST, METHOD_NOT_ALLOWED, NOT_FOUND,
    OK, SERVICE_UNAVAILABLE, UNAUTHORIZED,
};
use crate::status::{query_contracts, resolve_contract_statuses, ContractStatus, StatusView};
use crate::text::{joined, strip_prefix};
use vstd::prelude::*;

verus! {

/// The path of the collection of contracts.
pub const ADMIN_CONTRACTS_PATH: &'static str = "/admin/indexing/contracts";

/// How many seconds the engine has to answer a registration.
pub const REGISTRATION_TIMEOUT_SECS: u64 = 30;

/// What contract management is run with: the token that lets requests in, and
/// the way to the engine.
#[derive(Clone)]
pub struct ContractManagementConfig<C> {
    token: String,
    control: C,
}

impl<C> ContractManagementConfig<C> {
    /// The token that lets requests in.
    pub closed spec fn spec_token(self) -> Seq<char> {
        self.token@
    }

    /// The way to the engine.
    pub closed spec fn spec_control(self) -> C {
        self.control
    }

    pub fn new(token: String, control: C) -> (config: Self)
        ensures
            config.spec_token() == token@,
            config.spec_control() == control,
    {
        ContractManagementConfig { token, control }
    }

    /// The way to the engine.
    pub fn control(&self) -> (control: &C)
        ensures
            *control == self.spec_control(),
    {
        &self.control
    }

    /// The configuration for a log, with what the way to the engine is shown as.
    /// The token is left out, whatever it is.
    pub fn debug_text(&self, control: &str) -> (shown: String)
        ensures
            shown@ == "ContractManagementConfig { token: \"[redacted]\", control: "@ + control@
                + " }"@,
    {
        let mut shown = joined(
            "ContractManagementConfig { token: \"[redacted]\", control: ",
            control,
        );
        shown.append(" }");
        shown
    }
}

/// What a request asks for.
#[derive(Debug)]
pub enum Route {
    /// To register the contract in its body.
    RegisterContract,
    /// The status of the contract with the address in this text.
    ContractStatus(String),
    /// Nothing that can be done: it is answered at once.
    Respond(Reply),
}

/// What a request asks for, its texts as characters.
pub enum RouteView {
    RegisterContract,
    ContractStatus(Seq<char>),
    Respond(ReplyView),
}

impl View for Route {
    type V = RouteView;

    open spec fn view(&self) -> RouteView {
        match self {
            Route::RegisterContract => RouteView::RegisterContract,
            Route::ContractStatus(address) => RouteView::ContractStatus(address@),
            Route::Respond(reply) => RouteView::Respond(reply@),
        }
    }
}

/// The answer to a request without the token.
pub open spec fn unauthorized_reply() -> ReplyView {
    crate::response::error_reply(
        UNAUTHORIZED,
        "unauthorized"@,
        "valid bearer authentication is required"@,
    )
}

/// The answer to a method that a path does not have.
pub open spec fn wrong_method_reply() -> ReplyView {
    crate::response::error_reply(
        METHOD_NOT_ALLOWED,
        "method_not_allowed"@,
        "use POST on the collection or GET on a contract address"@,
    )
}

/// The address in the path of a contract: what follows the slash behind the
/// collection's path.
pub open spec fn address_in(path: Seq<char>) -> Option<Seq<char>> {
    match crate::text::without_prefix(path, ADMIN_CONTRACTS_PATH@) {
        Some(rest) => crate::text::without_prefix(rest, "/"@),
        None => None,
    }
}

/// Whether a path is the collection's or a contract's.
pub open spec fn is_contracts_path(path: Seq<char>) -> bool {
    path == ADMIN_CONTRACTS_PATH@ || address_in(path) is Some
}

/// What a request with this method and path asks for, if it was let in.
pub open spec fn routed(authorized: bool, method: Method, path: Seq<char>) -> RouteView {
    if !authorized {
        RouteView::Respond(unauthorized_reply())
    } else if method == Method::Post && path == ADMIN_CONTRACTS_PATH@ {
        RouteView::RegisterContract
    } else {
        match (method, address_in(path)) {
            (Method::Get, Some(address)) => RouteView::ContractStatus(address),
            _ => RouteView::Respond(wrong_method_reply()),
        }
    }
}

/// What a request asks for, where management is run with this token, or is off.
pub open spec fn asked_for(
    token: Option<Seq<char>>,
    authorization: Option<Seq<u8>>,
    method: Method,
    path: Seq<char>,
) -> RouteView {
    match token {
        Some(token) => routed(crate::auth::authorizes(authorization, token), method, path),
        None => RouteView::Respond(crate::response::disabled_reply()),
    }
}

/// The value of an optional header.
pub open spec fn authorization_view(value: Option<Vec<u8>>) -> Option<Seq<u8>> {
    match value {
        Some(value) => Some(value@),
        None => None,
    }
}

/// What is asked for by a request that was let in, or not.
pub fn route(authorized: bool, method: Method, path: &str) -> (route: Route)
    ensures
        route@ == routed(authorized, method, path@),
{
    if !authorized {
        return Route::Respond(
            error_response(
                UNAUTHORIZED,
                "unauthorized",
                "valid bearer authentication is required",
            ),
        );
    }
    let rest = strip_prefix(path, ADMIN_CONTRACTS_PATH);
    proof {
        assert(ADMIN_CONTRACTS_PATH@.skip(ADMIN_CONTRACTS_PATH@.len() as int) =~= Seq::<
            char,
        >::empty());
        reveal_strlit("/");
        if let Some(rest) = rest {
            if rest@.len() == 0 {
                assert(path@ =~= ADMIN_CONTRACTS_PATH@);
            }
        }
    }
    match (method, rest) {
        (Method::Post, Some(rest)) => {
            if rest.is_empty() {
                return Route::RegisterContract;
            }
        },
        (Method::Get, Some(rest)) => {
            if let Some(address) = strip_prefix(rest, "/") {
                return Route::ContractStatus(address.to_owned());
            }
        },
        _ => {},
    }
    Route::Respond(
        error_response(
            METHOD_NOT_ALLOWED,
            "method_not_allowed",
            "use POST on the collection or GET on a contract address",
        ),
    )
}

/// What is to be done next for a registration.
#[derive(Debug)]
pub enum RegistrationStep {
    /// Hand the definition to the engine, and give it so many seconds to answer.
    Register { definition: ContractDefinition, timeout_secs: u64 },
    /// Send the answer.
    Respond(Reply),
}

/// What became of a registration that was handed to the engine.
#[derive(Debug)]
pub enum RegistrationEnd {
    /// The engine was too slow.
    TimedOut,
    /// There is a result.
    Finished(Result<ContractRegistrationResult, ContractManagementError>),
}

/// What is to be done next for a status request.
#[derive(Debug)]
pub enum StatusStep {
    /// Ask the provider for the number of the chain's last block.
    AskProvider { address: Address },
    /// Put the query to the storage.
    AskStorage { address: Address, chain_head: u64, query: ContractQuery },
    /// Send the answer.
    Respond(Reply),
}

/// The answer to a body that is no registration request.
pub open spec fn invalid_json_reply(message: Seq<char>) -> ReplyView {
    crate::response::error_reply(
        BAD_REQUEST,
        "invalid_json"@,
        "invalid registration request: "@ + message,
    )
}

/// The answer to a registration request that defines no contract.
pub open spec fn invalid_contract_reply(message: Seq<char>) -> ReplyView {
    crate::response::error_reply(BAD_REQUEST, "invalid_contract"@, message)
}

/// The answer where the engine was too slow.
pub open spec fn timeout_reply() -> ReplyView {
    crate::response::error_reply(
        SERVICE_UNAVAILABLE,
        "engine_timeout"@,
        "indexing engine did not accept the command in time"@,
    )
}

/// The answer to a status request for a text that is no address.
pub open spec fn invalid_address_reply(message: Seq<char>) -> ReplyView {
    crate::response::error_reply(
        BAD_REQUEST,
        "invalid_address"@,
        "invalid contract address: "@ + message,
    )
}

/// The answer to a status request for a contract that is not stored.
pub open spec fn not_registered_reply() -> ReplyView {
    crate::response::error_reply(
        NOT_FOUND,
        "contract_not_found"@,
        "contract is not registered"@,
    )
}

/// The answer to a status request where the provider or the storage failed.
pub open spec fn status_unavailable_reply() -> ReplyView {
    crate::response::error_reply(
        SERVICE_UNAVAILABLE,
        "status_unavailable"@,
        "unable to resolve contract indexing status"@,
    )
}

/// The answer with a contract's status.
pub open spec fn status_reply(status: StatusView) -> ReplyView {
    ReplyView {
        status: OK,
        body: seq![
            ("success"@, FieldView::Scalar(ScalarView::Bool(true))),
            (
                "contract"@,
                FieldView::Record(crate::status::status_record(status)),
            ),
        ],
    }
}

/// The answer for what was found of a contract.
pub open spec fn found_reply(
    found: Option<ContractView>,
    chain_head: u64,
) -> ReplyView {
    match found {
        Some(contract) => status_reply(crate::status::status_of(contract, chain_head)),
        None => not_registered_reply(),
    }
}

/// Reads the definition of a contract from what was made of a request's body.
/// `parse_type` is handed the type's text as it came in, once the address was
/// read.
pub fn parse_contract_definition<F: Fn(&String) -> Result<ContractType, String>>(
    request: Result<RegisterContractRequest, String>,
    parse_type: F,
) -> (result: Result<ContractDefinition, Reply>)
    requires
        request matches Ok(request) ==> !crate::address::decimal_overflows(request.address@),
        forall|name: &String| call_requires(parse_type, (name,)),
    ensures
        match request {
            Err(message) => result matches Err(reply) && reply@ == invalid_json_reply(message@),
            Ok(request) => match crate::address::read_address(request.address@) {
                Err(message) => crate::text::result_view(result) == Err::<
                    DefinitionView,
                    ReplyView,
                >(invalid_contract_reply("invalid contract address: "@ + message)),
                Ok(address) => exists|parsed: Result<ContractType, String>|
                    {
                        &&& #[trigger] call_ensures(
                            parse_type,
                            (&request.contract_type,),
                            parsed,
                        )
                        &&& crate::text::result_view(result) == defined(
                            crate::contract::definition_of(
                                Ok(address),
                                crate::text::result_view(parsed),
                                request.starting_block,
                            ),
                        )
                    },
            },
        },
{
    match request {
        Ok(request) => definition_or_reply(ContractDefinition::try_from(request, parse_type)),
        Err(message) => Err(
            error_response(
                BAD_REQUEST,
                "invalid_json",
                joined("invalid registration request: ", message.as_str()).as_str(),
            ),
        ),
    }
}

/// A definition, or the answer to a request that has none.
pub open spec fn defined(
    definition: Result<DefinitionView, Seq<char>>,
) -> Result<DefinitionView, ReplyView> {
    match definition {
        Ok(definition) => Ok(definition),
        Err(message) => Err(invalid_contract_reply(message)),
    }
}

/// A definition, or the answer to a request that has none.
pub fn definition_or_reply(definition: Result<ContractDefinition, String>) -> (result: Result<
    ContractDefinition,
    Reply,
>)
    ensures
        crate::text::result_view(result) == defined(crate::text::result_view(definition)),
{
    match definition {
        Ok(definition) => Ok(definition),
        Err(message) => Err(error_response(BAD_REQUEST, "invalid_contract", message.as_str())),
    }
}

/// Answers a status request with what was resolved for its one address.
pub fn contract_status_response(
    resolved: Result<(u64, Vec<ContractStatus>), ContractManagementError>,
) -> (reply: Reply)
    ensures
        match resolved {
            Ok((_, statuses)) => if statuses@.len() > 0 {
                reply@ == status_reply(statuses@.last()@)
            } else {
                reply@ == not_registered_reply()
            },
            Err(_) => reply@ == status_unavailable_reply(),
        },
{
    let mut statuses = match resolved {
        Ok((_, statuses)) => statuses,
        Err(_) => {
            return error_response(
                SERVICE_UNAVAILABLE,
                "status_unavailable",
                "unable to resolve contract indexing status",
            );
        },
    };
    match statuses.pop() {
        Some(status) => {
            let body = JsonBody {
                members: vec![
                    field("success", JsonField::Scalar(JsonScalar::Bool(true))),
                    field("contract", JsonField::Record(status.to_json())),
                ],
            };
            assert(body@ =~= status_reply(status@).body);
            Reply { status: OK, body }
        },
        None => error_response(NOT_FOUND, "contract_not_found", "contract is not registered"),
    }
}

/// Goes on with what was read of the address in a status request.
pub fn status_step(address: Result<Address, String>) -> (step: StatusStep)
    ensures
        match address {
            Ok(address) => step == (StatusStep::AskProvider { address }),
            Err(message) => step matches StatusStep::Respond(reply) && reply@
                == invalid_address_reply(message@),
        },
{
    match address {
        Ok(address) => StatusStep::AskProvider { address },
        Err(message) => StatusStep::Respond(
            error_response(
                BAD_REQUEST,
                "invalid_address",
                joined("invalid contract address: ", message.as_str()).as_str(),
            ),
        ),
    }
}

/// Registers contracts and tells their status.
pub struct ContractManagementHandler<P, S, C> {
    pub config: Option<ContractManagementConfig<C>>,
    pub provider: P,
    pub storage: Arc<S>,
}

impl<P, S, C> ContractManagementHandler<P, S, C> {
    /// The token that lets requests in, unless management is off.
    pub open spec fn spec_token(self) -> Option<Seq<char>> {
        match self.config {
            Some(config) => Some(config.spec_token()),
            None => None,
        }
    }

    pub fn new(
        config: Option<ContractManagementConfig<C>>,
        provider: P,
        storage: Arc<S>,
    ) -> (handler: Self)
        ensures
            handler.config == config,
            handler.provider == provider,
            handler.storage == storage,
    {
        ContractManagementHandler { config, provider, storage }
    }

    /// Whether requests with this path are for this handler.
    pub fn should_handle(&self, path: &str) -> (handled: bool)
        ensures
            handled == is_contracts_path(path@),
    {
        proof {
            assert(ADMIN_CONTRACTS_PATH@.skip(ADMIN_CONTRACTS_PATH@.len() as int) =~= Seq::<
                char,
            >::empty());
        }
        match strip_prefix(path, ADMIN_CONTRACTS_PATH) {
            Some(rest) => {
                proof {
                    if rest@.len() == 0 {
                        assert(path@ =~= ADMIN_CONTRACTS_PATH@);
                    }
                }
                rest.is_empty() || strip_prefix(rest, "/").is_some()
            },
            None => {
                assert(ADMIN_CONTRACTS_PATH@.is_prefix_of(ADMIN_CONTRACTS_PATH@));
                false
            },
        }
    }

    /// Tells what a request asks for: while contract management is off, and to
    /// whoever lacks the token, there is but one answer.
    pub fn handle(&self, request: &RequestHead) -> (route: Route)
        ensures
            route@ == asked_for(
                self.spec_token(),
                authorization_view(request.authorization),
                request.method,
                request.path@,
            ),
    {
        match &self.config {
            None => Route::Respond(disabled_response()),
            Some(config) => {
                let authorization: Option<&[u8]> = match &request.authorization {
                    Some(value) => Some(value.as_slice()),
                    None => None,
                };
                let authorized = is_authorized(authorization, config.token.as_str());
                route(authorized, request.method, request.path.as_str())
            },
        }
    }

    /// Goes on with what was made of the body of a registration.
    pub fn register_contract<F: Fn(&String) -> Result<ContractType, String>>(
        &self,
        request: Result<RegisterContractRequest, String>,
        parse_type: F,
    ) -> (step: RegistrationStep)
        requires
            request matches Ok(request) ==> !crate::address::decimal_overflows(request.address@),
            forall|name: &String| call_requires(parse_type, (name,)),
        ensures
            match request {
                Err(message) => step matches RegistrationStep::Respond(reply) && reply@
                    == invalid_json_reply(message@),
                Ok(request) => match crate::address::read_address(request.address@) {
                    Err(message) => step matches RegistrationStep::Respond(reply) && reply@
                        == invalid_contract_reply("invalid contract address: "@ + message),
                    Ok(address) => exists|parsed: Result<ContractType, String>|
                        {
                            &&& #[trigger] call_ensures(
                                parse_type,
                                (&request.contract_type,),
                                parsed,
                            )
                            &&& registers(
                                step,
                                defined(
                                    crate::contract::definition_of(
                                        Ok(address),
                                        crate::text::result_view(parsed),
                                        request.starting_block,
                                    ),
                                ),
                            )
                        },
                },
            },
    {
        match parse_contract_definition(request, parse_type) {
            Ok(definition) => RegistrationStep::Register {
                definition,
                timeout_secs: REGISTRATION_TIMEOUT_SECS,
            },
            Err(reply) => RegistrationStep::Respond(reply),
        }
    }

    /// Ends a registration with what became of it.
    pub fn registration_ended(&self, end: &RegistrationEnd) -> (reply: Reply)
        ensures
            match end {
                RegistrationEnd::TimedOut => reply@ == timeout_reply(),
                RegistrationEnd::Finished(Ok(result)) => reply@
                    == crate::control::registration_reply(result@),
                RegistrationEnd::Finished(Err(error)) => reply@
                    == crate::control::management_error_reply(error@),
            },
    {
        match end {
            RegistrationEnd::TimedOut => error_response(
                SERVICE_UNAVAILABLE,
                "engine_timeout",
                "indexing engine did not accept the command in time",
            ),
            RegistrationEnd::Finished(Ok(result)) => registration_response(result),
            RegistrationEnd::Finished(Err(error)) => contract_management_error_response(error),
        }
    }

    /// Begins with the text of the address in a status request.
    pub fn contract_status(&self, address: &str) -> (step: StatusStep)
        requires
            !crate::address::decimal_overflows(address@),
        ensures
            match crate::address::read_address(address@) {
                Ok(value) => step matches StatusStep::AskProvider { address } && address@ == value,
                Err(message) => step matches StatusStep::Respond(reply) && reply@
                    == invalid_address_reply(message),
            },
    {
        status_step(Address::parse(address))
    }

    /// Goes on with what the provider answered to a status request.
    pub fn chain_head_answered(&self, address: Address, chain_head: Result<u64, String>) -> (step:
        StatusStep)
        ensures
            match chain_head {
                Ok(chain_head) => step matches StatusStep::AskStorage {
                    address: wanted,
                    chain_head: head,
                    query,
                } && wanted == address && head == chain_head && query.contract_addresses@
                    == seq![address] && query.contract_types@.len() == 0,
                Err(_) => step matches StatusStep::Respond(reply) && reply@
                    == status_unavailable_reply(),
            },
    {
        let wanted = [address];
        assert(wanted@ =~= seq![address]);
        match query_contracts(chain_head, wanted.as_slice()) {
            Ok((chain_head, query)) => {
                StatusStep::AskStorage { address, chain_head, query }
            },
            Err(error) => StatusStep::Respond(contract_status_response(Err(error))),
        }
    }

    /// Ends a status request with what the storage answered.
    pub fn contracts_answered(
        &self,
        address: Address,
        chain_head: u64,
        contracts: Result<Vec<Contract>, String>,
    ) -> (reply: Reply)
        ensures
            match contracts {
                Ok(contracts) => reply@ == found_reply(
                    crate::status::stored(
                        crate::status::contract_views(contracts@),
                        address@,
                    ),
                    chain_head,
                ),
                Err(_) => reply@ == status_unavailable_reply(),
            },
    {
        proof {
            let views = crate::status::contract_views(contracts->Ok_0@);
            let wanted = crate::status::address_views(seq![address]);
            assert(wanted =~= seq![address@]);
            assert(wanted.drop_last() =~= Seq::<nat>::empty());
            assert(crate::status::statuses_of(views, chain_head, wanted.drop_last()) =~= Seq::<
                StatusView,
            >::empty());
        }
        let wanted = [address];
        assert(wanted@ =~= seq![address]);
        let resolved = resolve_contract_statuses(chain_head, wanted.as_slice(), contracts);
        proof {
            let statuses = (resolved->Ok_0).1;
            let views = crate::status::status_views(statuses@);
            assert(views.len() == statuses@.len());
            assert(statuses@.len() > 0 ==> views.last() == statuses@.last()@);
        }
        contract_status_response(resolved)
    }
}

/// Whether a step hands this definition to the engine for the set time, or gives
/// this answer.
pub open spec fn registers(
    step: RegistrationStep,
    definition: Result<DefinitionView, ReplyView>,
) -> bool {
    match definition {
        Ok(definition) => step matches RegistrationStep::Register {
            definition: handed,
            timeout_secs,
        } && handed@ == definition && timeout_secs == REGISTRATION_TIMEOUT_SECS,
        Err(answer) => step matches RegistrationStep::Respond(reply) && reply@ == answer,
    }
}

/// Nothing is registered or told of a contract unless management is on and the
/// request holds its token.
pub proof fn law_nothing_is_done_without_the_token(
    token: Option<Seq<char>>,
    authorization: Option<Seq<u8>>,
    method: Method,
    path: Seq<char>,
)
    requires
        !(asked_for(token, authorization, method, path) is Respond),
    ensures
        token matches Some(token) && crate::auth::authorizes(authorization, token),
{
}

/// A request that is not let in is answered the same whatever it asks for: that
/// there is no management while it is off, and else that the token is missing.
pub proof fn law_refusals_do_not_depend_on_the_request(
    token: Option<Seq<char>>,
    authorization: Option<Seq<u8>>,
    method: Method,
    path: Seq<char>,
)
    requires
        token matches Some(token) ==> !crate::auth::authorizes(authorization, token),
    ensures
        asked_for(token, authorization, method, path) == RouteView::Respond(
            if token is Some {
                unauthorized_reply()
            } else {
                crate::response::disabled_reply()
            },
        ),
{
}

/// Only on a path that the handler takes for its own is anything done.
pub proof fn law_only_contract_paths_do_anything(
    token: Option<Seq<char>>,
    authorization: Option<Seq<u8>>,
    method: Method,
    path: Seq<char>,
)
    requires
        !(asked_for(token, authorization, method, path) is Respond),
    ensures
        is_contracts_path(path),
{
}

/// Whoever holds the token can ask after a contract by the address that answers
/// show for it: the request is one for the status of that very address.
pub proof fn law_shown_address_can_be_asked_after(
    token: Seq<char>,
    authorization: Option<Seq<u8>>,
    value: nat,
)
    requires
        crate::auth::authorizes(authorization, token),
        value < crate::address::felt_prime(),
    ensures
        asked_for(
            Some(token),
            authorization,
            Method::Get,
            ADMIN_CONTRACTS_PATH@ + "/"@ + crate::address::hex_text(value),
        ) == RouteView::ContractStatus(crate::address::hex_text(value)),
        crate::address::read_address(crate::address::hex_text(value)) == Ok::<nat, Seq<char>>(value),
{
    let shown = crate::address::hex_text(value);
    let path = ADMIN_CONTRACTS_PATH@ + "/"@ + shown;
    let rest = "/"@ + shown;
    assert(path.skip(ADMIN_CONTRACTS_PATH@.len() as int) =~= rest);
    assert(rest.skip("/"@.len() as int) =~= shown);
    crate::address::law_shown_address_reads_back(value);
}

/// Whether an answer claims success just where its status is 200.
pub open spec fn honest(reply: ReplyView) -> bool {
    &&& reply.body.len() > 0
    &&& reply.body[0] == (
        "success"@,
        FieldView::Scalar(ScalarView::Bool(reply.status == OK)),
    )
}

/// Every answer claims success just where its status is 200.
pub proof fn law_success_goes_with_status_ok(
    error: ErrorView,
    registration: RegistrationView,
    found: Option<ContractView>,
    expected_count: nat,
    chain_head: u64,
    statuses: Seq<StatusView>,
    message: Seq<char>,
)
    ensures
        honest(crate::control::management_error_reply(error)),
        honest(crate::control::registration_reply(registration)),
        honest(found_reply(found, chain_head)),
        honest(crate::readiness::readiness_reply(expected_count, chain_head, statuses)),
        honest(crate::readiness::only_get_reply()),
        honest(crate::readiness::unavailable_reply()),
        honest(crate::body::invalid_body_reply()),
        honest(crate::body::body_too_large_reply()),
        honest(crate::response::disabled_reply()),
        honest(unauthorized_reply()),
        honest(wrong_method_reply()),
        honest(invalid_json_reply(message)),
        honest(invalid_contract_reply(message)),
        honest(invalid_address_reply(message)),
        honest(timeout_reply()),
        honest(status_unavailable_reply()),
{
}

/// The collection's path, and the time that the engine has.
pub proof fn law_management_is_run_with_these_settings()
    ensures
        ADMIN_CONTRACTS_PATH@ == "/admin/indexing/contracts"@,
        REGISTRATION_TIMEOUT_SECS == 30,
{
}

/// A configuration keeps the token and the way to the engine that it was made
/// with, and the token plays no part in how it is shown.
pub proof fn law_configuration_keeps_and_hides_its_token<C>(
    token: String,
    control: C,
    config: &ContractManagementConfig<C>,
    shown_control: &str,
)
    ensures
        forall|made: ContractManagementConfig<C>| #[trigger]
            call_ensures(
                ContractManagementConfig::<C>::new,
                (token, control),
                made,
            ) ==> made.spec_token() == token@ && made.spec_control() == control,
        forall|way: &C| #[trigger]
            call_ensures(ContractManagementConfig::<C>::control, (config,), way) ==> *way
                == config.spec_control(),
        forall|shown: String| #[trigger]
            call_ensures(
                ContractManagementConfig::<C>::debug_text,
                (config, shown_control),
                shown,
            ) ==> shown@ == "ContractManagementConfig { token: \"[redacted]\", control: "@
                + shown_control@ + " }"@,
{
}

/// The token of a configuration is all of its own token, and the way to the engine
/// its own.
proof fn law_configuration_is_viewed_whole<C>(config: ContractManagementConfig<C>)
    ensures
        config.spec_token() == config.token@,
        config.spec_control() == config.control,
{
}

/// A handler works with what it was made with, and lets requests in by the token
/// of its configuration.
pub proof fn law_management_handler_keeps_its_parts<P, S, C>(
    config: Option<ContractManagementConfig<C>>,
    provider: P,
    storage: Arc<S>,
)
    ensures
        forall|handler: ContractManagementHandler<P, S, C>| #[trigger]
            call_ensures(
                ContractManagementHandler::<P, S, C>::new,
                (config, provider, storage),
                handler,
            ) ==> {
                &&& handler.config == config
                &&& handler.provider == provider
                &&& handler.storage == storage
                &&& config is None ==> handler.spec_token() is None
                &&& config is Some ==> handler.spec_token() == Some(config->0.spec_token())
            },
{
}

/// The view of a route and that of a header have all that these have.
pub proof fn law_route_view_keeps_everything(taken: Route, value: Option<Vec<u8>>)
    ensures
        taken is RegisterContract <==> taken@ is RegisterContract,
        taken is ContractStatus <==> taken@ is ContractStatus,
        taken is Respond <==> taken@ is Respond,
        taken is ContractStatus ==> taken@->ContractStatus_0 == taken->ContractStatus_0@,
        taken is Respond ==> taken@->Respond_0 == taken->Respond_0@,
        value is Some <==> authorization_view(value) is Some,
        value is Some ==> authorization_view(value)->0 == value->0@,
{
}

/// Whether a request that was let in is taken by its method and its path: a POST
/// on the collection's path registers; a GET on that path, a slash and an address
/// asks for the status of just that address; and everything else, any other
/// method on any path among it, is answered that the method is not allowed.
pub open spec fn taken_by_method_and_path(
    taken: RouteView,
    method: Method,
    path: Seq<char>,
) -> bool {
    &&& taken is RegisterContract <==> (method is Post && path == "/admin/indexing/contracts"@)
    &&& taken is ContractStatus ==> method is Get && path == "/admin/indexing/contracts"@ + "/"@
        + taken->ContractStatus_0
    &&& forall|address: Seq<char>|
        method is Get && path == #[trigger] ("/admin/indexing/contracts"@ + "/"@ + address)
            ==> taken == RouteView::ContractStatus(address)
    &&& method is Other ==> taken is Respond
    &&& taken is Respond ==> taken->Respond_0 == crate::response::error_reply(
        405,
        "method_not_allowed"@,
        "use POST on the collection or GET on a contract address"@,
    )
}

proof fn lemma_address_in(path: Seq<char>, address: Seq<char>)
    ensures
        address_in(path) == Some(address) <==> path == "/admin/indexing/contracts"@ + "/"@
            + address,
{
    let collection = "/admin/indexing/contracts"@;
    if path == collection + "/"@ + address {
        assert(path =~= collection + ("/"@ + address));
        crate::text::law_prefix_and_rest_make_the_text(path, collection, "/"@ + address);
        crate::text::law_prefix_and_rest_make_the_text("/"@ + address, "/"@, address);
    }
    if address_in(path) == Some(address) {
        let rest = crate::text::without_prefix(path, collection)->0;
        crate::text::law_prefix_and_rest_make_the_text(path, collection, rest);
        crate::text::law_prefix_and_rest_make_the_text(rest, "/"@, address);
        assert(path =~= collection + "/"@ + address);
    }
}

/// A request is taken as a status request only if it is a GET, and as a
/// registration only if it is a POST on the collection's path. Any other method is
/// answered that it is not allowed, whatever the path, as long as the request was
/// let in.
pub proof fn law_no_other_method_does_anything(authorized: bool, method: Method, path: &str)
    ensures
        forall|taken: Route| #[trigger]
            call_ensures(route, (authorized, method, path), taken) ==> {
                &&& taken is ContractStatus ==> authorized && method is Get
                &&& taken is RegisterContract ==> authorized && method is Post && path@
                    == "/admin/indexing/contracts"@
                &&& authorized && method is Other ==> taken is Respond && taken->Respond_0.status
                    == 405
            },
{
    lemma_taken_by_method_and_path(method, path@);
}

/// A request that was let in is taken by its method and its path; one that was
/// not is answered that it lacks the token, whatever its method and its path.
pub proof fn law_requests_are_taken_by_method_and_path(method: Method, path: &str)
    ensures
        forall|taken: Route| #[trigger]
            call_ensures(route, (true, method, path), taken) ==> taken_by_method_and_path(
                taken@,
                method,
                path@,
            ),
        forall|taken: Route| #[trigger]
            call_ensures(route, (false, method, path), taken) ==> taken is Respond
                && taken->Respond_0@ == crate::response::error_reply(
                401,
                "unauthorized"@,
                "valid bearer authentication is required"@,
            ),
{
    lemma_taken_by_method_and_path(method, path@);
}

proof fn lemma_taken_by_method_and_path(method: Method, path: Seq<char>)
    ensures
        taken_by_method_and_path(routed(true, method, path), method, path),
{
    let taken = routed(true, method, path);
    assert forall|address: Seq<char>|
        method is Get && path == #[trigger] ("/admin/indexing/contracts"@ + "/"@
            + address) implies taken == RouteView::ContractStatus(address) by {
        lemma_address_in(path, address);
    }
    if taken is ContractStatus {
        lemma_address_in(path, taken->ContractStatus_0);
    }
}

/// While management is off, every request is answered that it is not there. While
/// it is on, a request that holds the token is taken by its method and its path,
/// and every other one is answered that it lacks the token.
pub proof fn law_handler_takes_requests_with_the_token<P, S, C>(
    handler: &ContractManagementHandler<P, S, C>,
    request: &RequestHead,
)
    ensures
        forall|taken: Route| #[trigger]
            call_ensures(
                ContractManagementHandler::<P, S, C>::handle,
                (handler, request),
                taken,
            ) ==> match handler.config {
                None => taken is Respond && taken->Respond_0@ == crate::response::error_reply(
                    404,
                    "not_found"@,
                    "contract management is not enabled"@,
                ),
                Some(config) => if request.authorization is Some && crate::auth::presents_digest(
                    request.authorization->0@,
                    crate::auth::sha256(vstd::utf8::encode_utf8(config.spec_token())),
                ) {
                    taken_by_method_and_path(taken@, request.method, request.path@)
                } else {
                    taken is Respond && taken->Respond_0@ == crate::response::error_reply(
                        401,
                        "unauthorized"@,
                        "valid bearer authentication is required"@,
                    )
                },
            },
{
    lemma_taken_by_method_and_path(request.method, request.path@);
    if handler.config is Some {
        crate::auth::lemma_authorizes(
            authorization_view(request.authorization),
            handler.config->0.spec_token(),
        );
    }
}

/// The paths for the handler are the collection's, and all that continue it with
/// a slash.
pub proof fn law_handled_paths_begin_with_the_collection<P, S, C>(
    handler: &ContractManagementHandler<P, S, C>,
    path: &str,
    address: Seq<char>,
)
    ensures
        forall|handled: bool| #[trigger]
            call_ensures(
                ContractManagementHandler::<P, S, C>::should_handle,
                (handler, path),
                handled,
            ) ==> {
                &&& path@ == "/admin/indexing/contracts"@ ==> handled
                &&& path@ == "/admin/indexing/contracts"@ + "/"@ + address ==> handled
                &&& handled ==> path@ == "/admin/indexing/contracts"@ || exists|rest: Seq<char>|
                    path@ == #[trigger] ("/admin/indexing/contracts"@ + "/"@ + rest)
            },
{
    lemma_address_in(path@, address);
    if address_in(path@) is Some {
        let rest = address_in(path@)->0;
        lemma_address_in(path@, rest);
        assert(path@ == "/admin/indexing/contracts"@ + "/"@ + rest);
    }
}

/// Whether an answer has status 200 and two members: that there was success, and
/// the status of a contract.
pub open spec fn tells_status(reply: ReplyView, status: StatusView) -> bool {
    &&& reply.status == 200
    &&& reply.body.len() == 2
    &&& reply.body.contains(("success"@, FieldView::Scalar(ScalarView::Bool(true))))
    &&& exists|record: Seq<(Seq<char>, ScalarView)>| #[trigger]
        reply.body.contains(("contract"@, FieldView::Record(record)))
            && crate::status::record_tells(record, status)
}

proof fn lemma_status_reply(status: StatusView)
    ensures
        tells_status(status_reply(status), status),
{
    let body = status_reply(status).body;
    crate::status::lemma_status_record(status);
    assert(body[0] == ("success"@, FieldView::Scalar(ScalarView::Bool(true))));
    let record = body[1].1->Record_0;
    assert(body[1] == ("contract"@, FieldView::Record(record)));
    assert(body.contains(("contract"@, FieldView::Record(record))));
}

/// Whenever a contract is stored with the address asked for, whether it is
/// indexed or not, the answer is its status: that of the last one stored with the
/// address. Only where none is stored with it is the answer that there is none.
pub proof fn law_stored_contract_is_always_told<P, S, C>(
    handler: &ContractManagementHandler<P, S, C>,
    address: Address,
    chain_head: u64,
    contracts: Vec<Contract>,
)
    ensures
        forall|reply: Reply| #[trigger]
            call_ensures(
                ContractManagementHandler::<P, S, C>::contracts_answered,
                (handler, address, chain_head, Ok(contracts)),
                reply,
            ) ==> {
                let some = exists|k: int|
                    0 <= k < contracts@.len() && (#[trigger] contracts@[k]).contract_address@
                        == address@;
                &&& reply.status == 200 <==> some
                &&& some ==> exists|k: int, status: StatusView|
                    {
                        &&& #[trigger] crate::status::last_with(contracts@, address, k)
                        &&& #[trigger] crate::status::tells_of(status, contracts@[k], chain_head)
                        &&& tells_status(reply@, status)
                    }
                &&& !some ==> reply@ == crate::response::error_reply(
                    404,
                    "contract_not_found"@,
                    "contract is not registered"@,
                )
            },
{
    let views = crate::status::contract_views(contracts@);
    let found = crate::status::stored(views, address@);
    crate::status::law_found_is_the_last_stored(contracts@, address);
    if found is Some {
        let k = choose|k: int| #[trigger]
            crate::status::last_with(contracts@, address, k) && found->0 == contracts@[k]@;
        let status = crate::status::status_of(found->0, chain_head);
        crate::status::law_ready_from_the_head_of_the_chain_on(&contracts@[k], chain_head);
        lemma_status_reply(status);
        assert(contracts@[k].contract_address@ == address@);
        assert(crate::status::last_with(contracts@, address, k));
        assert(crate::status::tells_of(status, contracts@[k], chain_head));
    }
}

/// A status request is answered with the last of the statuses at hand, or that
/// there is no such contract, or that statuses cannot be told.
pub proof fn law_status_answer_follows_what_was_resolved(
    resolved: Result<(u64, Vec<ContractStatus>), ContractManagementError>,
)
    ensures
        forall|reply: Reply| #[trigger]
            call_ensures(contract_status_response, (resolved,), reply) ==> match resolved {
                Ok((_, statuses)) => if statuses@.len() > 0 {
                    tells_status(reply@, statuses@[statuses@.len() - 1]@)
                } else {
                    reply@ == crate::response::error_reply(
                        404,
                        "contract_not_found"@,
                        "contract is not registered"@,
                    )
                },
                Err(_) => reply@ == crate::response::error_reply(
                    503,
                    "status_unavailable"@,
                    "unable to resolve contract indexing status"@,
                ),
            },
{
    if resolved is Ok {
        lemma_status_reply(resolved->Ok_0.1@.last()@);
    }
}

/// A status request goes to the provider with the address that its text reads as,
/// and one whose text is no address is answered so.
pub proof fn law_status_request_is_for_the_address_read<P, S, C>(
    handler: &ContractManagementHandler<P, S, C>,
    text: &str,
    parsed: Result<Address, String>,
)
    ensures
        forall|step: StatusStep| #[trigger]
            call_ensures(
                ContractManagementHandler::<P, S, C>::contract_status,
                (handler, text),
                step,
            ) ==> match crate::address::read_address(text@) {
                Ok(value) => step is AskProvider && step->AskProvider_address@ == value,
                Err(message) => step is Respond && step->Respond_0@ == crate::response::error_reply(
                    400,
                    "invalid_address"@,
                    "invalid contract address: "@ + message,
                ),
            },
        forall|step: StatusStep| #[trigger]
            call_ensures(status_step, (parsed,), step) ==> match parsed {
                Ok(address) => step is AskProvider && step->AskProvider_address == address,
                Err(message) => step is Respond && step->Respond_0@ == crate::response::error_reply(
                    400,
                    "invalid_address"@,
                    "invalid contract address: "@ + message@,
                ),
            },
{
}

/// With the head of the chain at hand, the storage is asked for the one address,
/// whatever its type; a failure of the provider or of the storage is answered
/// that statuses cannot be told.
pub proof fn law_storage_is_asked_for_the_one_address<P, S, C>(
    handler: &ContractManagementHandler<P, S, C>,
    address: Address,
    chain_head: u64,
    cause: String,
)
    ensures
        forall|step: StatusStep| #[trigger]
            call_ensures(
                ContractManagementHandler::<P, S, C>::chain_head_answered,
                (handler, address, Ok(chain_head)),
                step,
            ) ==> {
                &&& step is AskStorage
                &&& step->AskStorage_address == address
                &&& step->chain_head == chain_head
                &&& step->query.contract_addresses@ == seq![address]
                &&& step->query.contract_types@.len() == 0
            },
        forall|step: StatusStep| #[trigger]
            call_ensures(
                ContractManagementHandler::<P, S, C>::chain_head_answered,
                (handler, address, Err(cause)),
                step,
            ) ==> step is Respond && step->Respond_0@ == crate::response::error_reply(
                503,
                "status_unavailable"@,
                "unable to resolve contract indexing status"@,
            ),
        forall|reply: Reply| #[trigger]
            call_ensures(
                ContractManagementHandler::<P, S, C>::contracts_answered,
                (handler, address, chain_head, Err(cause)),
                reply,
            ) ==> reply@ == crate::response::error_reply(
                503,
                "status_unavailable"@,
                "unable to resolve contract indexing status"@,
            ),
{
}

/// A registration ends with the engine's answer, whichever it is, or where the
/// engine was too slow with just that.
pub proof fn law_registration_ends_with_what_became_of_it<P, S, C>(
    handler: &ContractManagementHandler<P, S, C>,
    end: &RegistrationEnd,
)
    ensures
        forall|reply: Reply| #[trigger]
            call_ensures(
                ContractManagementHandler::<P, S, C>::registration_ended,
                (handler, end),
                reply,
            ) ==> match end {
                RegistrationEnd::TimedOut => reply@ == crate::response::error_reply(
                    503,
                    "engine_timeout"@,
                    "indexing engine did not accept the command in time"@,
                ),
                RegistrationEnd::Finished(Ok(result)) => crate::control::tells_registration(
                    reply@,
                    *result,
                ),
                RegistrationEnd::Finished(Err(error)) => crate::control::tells_error(
                    reply@,
                    *error,
                ),
            },
{
    match end {
        RegistrationEnd::TimedOut => {},
        RegistrationEnd::Finished(Ok(result)) => {
            crate::control::law_registration_answer_tells_the_engine_contract(result);
        },
        RegistrationEnd::Finished(Err(error)) => {
            crate::control::law_error_is_told_by_kind_and_in_words(error);
        },
    }
}

/// Whether a definition is that of a request whose address reads as this number,
/// and whose type was read as this type.
pub open spec fn defines(
    definition: ContractDefinition,
    address: nat,
    contract_type: ContractType,
    request: RegisterContractRequest,
) -> bool {
    &&& definition.address@ == address
    &&& definition.contract_type.name@ == contract_type.name@
    &&& definition.starting_block == request.starting_block
}

/// Whether an answer is that a request defines no contract, for this reason.
pub open spec fn refuses_contract(reply: ReplyView, message: Seq<char>) -> bool {
    reply == crate::response::error_reply(400, "invalid_contract"@, message)
}

/// A registration request whose address reads as a number and whose type can be
/// read goes to the engine with that number, that type and its own starting
/// block, for the set time. One whose address or type cannot be read, or whose
/// body is no request, is answered so.
pub proof fn law_engine_is_handed_what_was_asked_for<
    P,
    S,
    C,
    F: Fn(&String) -> Result<ContractType, String>,
>(
    handler: &ContractManagementHandler<P, S, C>,
    request: RegisterContractRequest,
    parse_type: F,
)
    ensures
        forall|step: RegistrationStep| #[trigger]
            call_ensures(
                ContractManagementHandler::<P, S, C>::register_contract::<F>,
                (handler, Ok(request), parse_type),
                step,
            ) ==> match crate::address::read_address(request.address@) {
                Ok(address) => exists|parsed: Result<ContractType, String>|
                    {
                        &&& #[trigger] call_ensures(parse_type, (&request.contract_type,), parsed)
                        &&& parsed is Ok ==> {
                            &&& step is Register
                            &&& step->timeout_secs == 30
                            &&& defines(step->definition, address, parsed->Ok_0, request)
                        }
                        &&& parsed is Err ==> step is Respond && refuses_contract(
                            step->Respond_0@,
                            "invalid contract type: "@ + parsed->Err_0@,
                        )
                    },
                Err(message) => step is Respond && refuses_contract(
                    step->Respond_0@,
                    "invalid contract address: "@ + message,
                ),
            },
        forall|result: Result<ContractDefinition, Reply>| #[trigger]
            call_ensures(
                parse_contract_definition::<F>,
                (Ok(request), parse_type),
                result,
            ) ==> match crate::address::read_address(request.address@) {
                Ok(address) => exists|parsed: Result<ContractType, String>|
                    {
                        &&& #[trigger] call_ensures(parse_type, (&request.contract_type,), parsed)
                        &&& parsed is Ok ==> result is Ok && defines(
                            result->Ok_0,
                            address,
                            parsed->Ok_0,
                            request,
                        )
                        &&& parsed is Err ==> result is Err && refuses_contract(
                            result->Err_0@,
                            "invalid contract type: "@ + parsed->Err_0@,
                        )
                    },
                Err(message) => result is Err && refuses_contract(
                    result->Err_0@,
                    "invalid contract address: "@ + message,
                ),
            },
{
}

/// A registration request with an address as answers show it goes to the engine
/// with the number of that address, whatever the address.
pub proof fn law_shown_address_can_be_registered<
    P,
    S,
    C,
    F: Fn(&String) -> Result<ContractType, String>,
>(
    handler: &ContractManagementHandler<P, S, C>,
    request: RegisterContractRequest,
    parse_type: F,
    value: nat,
)
    requires
        value < 0x0800_0000_0000_0011_0000_0000_0000_0000_0000_0000_0000_0000_0000_0000_0000_0001nat,
        request.address@ == crate::address::hex_text(value),
    ensures
        forall|step: RegistrationStep| #[trigger]
            call_ensures(
                ContractManagementHandler::<P, S, C>::register_contract::<F>,
                (handler, Ok(request), parse_type),
                step,
            ) && step is Register ==> step->definition.address@ == value,
{
    crate::address::law_shown_address_reads_back(value);
    law_engine_is_handed_what_was_asked_for::<P, S, C, F>(handler, request, parse_type);
}

/// A body that is no registration request is answered so, with the reason.
pub proof fn law_other_bodies_are_refused<
    P,
    S,
    C,
    F: Fn(&String) -> Result<ContractType, String>,
>(
    handler: &ContractManagementHandler<P, S, C>,
    message: String,
    parse_type: F,
)
    ensures
        forall|step: RegistrationStep| #[trigger]
            call_ensures(
                ContractManagementHandler::<P, S, C>::register_contract::<F>,
                (handler, Err(message), parse_type),
                step,
            ) ==> step is Respond && step->Respond_0@ == crate::response::error_reply(
                400,
                "invalid_json"@,
                "invalid registration request: "@ + message@,
            ),
        forall|result: Result<ContractDefinition, Reply>| #[trigger]
            call_ensures(
                parse_contract_definition::<F>,
                (Err(message), parse_type),
                result,
            ) ==> result is Err && result->Err_0@ == crate::response::error_reply(
                400,
                "invalid_json"@,
                "invalid registration request: "@ + message@,
            ),
{
}

/// A definition is passed on as it is, and the reason why there is none is
/// answered as it is.
pub proof fn law_definition_is_passed_on(definition: Result<ContractDefinition, String>)
    ensures
        forall|result: Result<ContractDefinition, Reply>| #[trigger]
            call_ensures(definition_or_reply, (definition,), result) ==> match definition {
                Ok(definition) => {
                    &&& result is Ok
                    &&& result->Ok_0.address@ == definition.address@
                    &&& result->Ok_0.contract_type.name@ == definition.contract_type.name@
                    &&& result->Ok_0.starting_block == definition.starting_block
                },
                Err(message) => result is Err && refuses_contract(result->Err_0@, message@),
            },
{
    assert forall|result: Result<ContractDefinition, Reply>| #[trigger]
        call_ensures(definition_or_reply, (definition,), result) implies match definition {
        Ok(definition) => {
            &&& result is Ok
            &&& result->Ok_0.address@ == definition.address@
            &&& result->Ok_0.contract_type.name@ == definition.contract_type.name@
            &&& result->Ok_0.starting_block == definition.starting_block
        },
        Err(message) => result is Err && refuses_contract(result->Err_0@, message@),
    } by {
        crate::text::law_result_view_keeps_the_kind(result);
        crate::text::law_result_view_keeps_the_kind(definition);
    }
}

} // verus!
