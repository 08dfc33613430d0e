use std::sync::Arc;

use torii_indexing::address::Address;
use torii_indexing::contract::{Contract, ContractType, RegisterContractRequest};
use torii_indexing::control::{
    contract_management_error_response, registration_result, ContractManagementError,
    ContractRegistrationOutcome, ContractRegistrationResult, Delivery,
};
use torii_indexing::management::{
    contract_status_response, definition_or_reply, parse_contract_definition, route, status_step,
    ContractManagementConfig, ContractManagementHandler, RegistrationEnd, RegistrationStep, Route,
    StatusStep,
};
use torii_indexing::request::{Method, RequestHead};
use torii_indexing::response::{disabled_response, error_response, json_response, Reply};

type Handler = ContractManagementHandler<(), (), u8>;

fn handler() -> Handler {
    let config = ContractManagementConfig::new("secret".to_string(), 7);
    ContractManagementHandler::new(Some(config), (), Arc::new(()))
}

fn head(method: Method, path: &str, authorization: Option<&str>) -> RequestHead {
    RequestHead {
        method,
        path: path.to_string(),
        authorization: authorization.map(|value| value.as_bytes().to_vec()),
    }
}

fn address(low: u128) -> Address {
    Address::new(0, low).unwrap()
}

fn world() -> ContractType {
    ContractType::new("WORLD".to_string())
}

fn answer(route: Route) -> Reply {
    match route {
        Route::Respond(reply) => reply,
        _ => panic!("no answer"),
    }
}

fn unauthorized() -> Reply {
    error_response(401, "unauthorized", "valid bearer authentication is required")
}

fn wrong_method() -> Reply {
    error_response(
        405,
        "method_not_allowed",
        "use POST on the collection or GET on a contract address",
    )
}

fn status_unavailable() -> Reply {
    error_response(
        503,
        "status_unavailable",
        "unable to resolve contract indexing status",
    )
}

#[test]
fn collection_and_contract_paths_are_handled() {
    assert!(handler().should_handle("/admin/indexing/contracts"));
    assert!(handler().should_handle("/admin/indexing/contracts/"));
    assert!(handler().should_handle("/admin/indexing/contracts/0x1"));
    assert!(!handler().should_handle("/admin/indexing/contracts2"));
    assert!(!handler().should_handle("/admin/indexing"));
    assert!(!handler().should_handle("/ready"));
}

#[test]
fn disabled_management_answers_not_found() {
    let handler: Handler = ContractManagementHandler::new(None, (), Arc::new(()));
    for request in [
        head(Method::Post, "/admin/indexing/contracts", Some("Bearer secret")),
        head(Method::Other, "/elsewhere", None),
    ] {
        assert_eq!(answer(handler.handle(&request)), disabled_response());
    }
    let reply = disabled_response();
    let response = json_response(reply.status, reply.body);
    assert_eq!(response.status, 404);
    assert_eq!(
        response.body,
        "{\"error\":{\"code\":\"not_found\",\"message\":\"contract management is not enabled\"},\
         \"success\":false}"
    );
}

#[test]
fn requests_without_the_token_are_answered_alike() {
    for (method, path, authorization) in [
        (Method::Post, "/admin/indexing/contracts", None),
        (Method::Get, "/admin/indexing/contracts/0x1", Some("Bearer wrong")),
        (Method::Other, "/elsewhere", Some("Basic secret")),
    ] {
        let request = head(method, path, authorization);
        assert_eq!(answer(handler().handle(&request)), unauthorized());
    }
}

#[test]
fn token_holders_are_routed() {
    let token = Some("Bearer secret");
    let post = head(Method::Post, "/admin/indexing/contracts", token);
    assert!(matches!(handler().handle(&post), Route::RegisterContract));
    let get = head(Method::Get, "/admin/indexing/contracts/0x1/2", token);
    match handler().handle(&get) {
        Route::ContractStatus(text) => assert_eq!(text, "0x1/2"),
        _ => panic!("no status request"),
    }
}

#[test]
fn other_methods_and_paths_are_not_allowed() {
    for (method, path) in [
        (Method::Get, "/admin/indexing/contracts"),
        (Method::Post, "/admin/indexing/contracts/"),
        (Method::Post, "/admin/indexing/contracts/0x1"),
        (Method::Get, "/admin/indexing/contracts2"),
        (Method::Other, "/admin/indexing/contracts"),
        (Method::Get, "/ready"),
    ] {
        assert_eq!(answer(route(true, method, path)), wrong_method());
        assert_eq!(answer(route(false, method, path)), unauthorized());
    }
}

#[test]
fn shown_addresses_can_be_asked_after() {
    let shown = address(0xbeef).to_hex();
    let path = format!("/admin/indexing/contracts/{shown}");
    match handler().handle(&head(Method::Get, &path, Some("Bearer secret"))) {
        Route::ContractStatus(text) => match handler().contract_status(&text) {
            StatusStep::AskProvider { address: asked } => assert_eq!(asked, address(0xbeef)),
            _ => panic!("not an address"),
        },
        _ => panic!("no status request"),
    }
}

#[test]
fn registrations_are_handed_to_the_engine() {
    let request = RegisterContractRequest {
        address: "0x2a".to_string(),
        contract_type: "world".to_string(),
        starting_block: Some(7),
    };
    match handler().register_contract(Ok(request), |name: &String| {
        assert_eq!(name, "world");
        Ok(world())
    }) {
        RegistrationStep::Register { definition, timeout_secs } => {
            assert_eq!(definition.address, address(42));
            assert_eq!(definition.contract_type, world());
            assert_eq!(definition.starting_block, Some(7));
            assert_eq!(timeout_secs, 30);
        }
        _ => panic!("not registered"),
    }
}

#[test]
fn bodies_that_are_no_request_are_refused() {
    match handler().register_contract(Err("EOF".to_string()), |_: &String| Ok(world())) {
        RegistrationStep::Respond(reply) => assert_eq!(
            reply,
            error_response(400, "invalid_json", "invalid registration request: EOF")
        ),
        _ => panic!("no answer"),
    }
}

#[test]
fn requests_that_define_no_contract_are_refused() {
    let request = |address: &str| {
        Ok(RegisterContractRequest {
            address: address.to_string(),
            contract_type: "x".to_string(),
            starting_block: None,
        })
    };
    let parse = |_: &String| Err("no such type".to_string());
    assert_eq!(
        parse_contract_definition(request("?"), parse),
        Err(error_response(
            400,
            "invalid_contract",
            "invalid contract address: failed to create Felt from string: invalid dec string"
        ))
    );
    assert_eq!(
        parse_contract_definition(request("1"), parse),
        Err(error_response(
            400,
            "invalid_contract",
            "invalid contract type: no such type"
        ))
    );
    assert_eq!(
        definition_or_reply(Err("why".to_string())),
        Err(error_response(400, "invalid_contract", "why"))
    );
}

fn registration(outcome: ContractRegistrationOutcome) -> ContractRegistrationResult {
    ContractRegistrationResult {
        contract: Contract {
            contract_address: address(0x10),
            contract_type: world(),
            head: None,
        },
        outcome,
        target_head: 99,
    }
}

#[test]
fn registrations_are_answered() {
    for (outcome, word) in [
        (ContractRegistrationOutcome::Registered, "registered"),
        (ContractRegistrationOutcome::AlreadyRegistered, "already_registered"),
    ] {
        let end = RegistrationEnd::Finished(Ok(registration(outcome)));
        let reply = handler().registration_ended(&end);
        let response = json_response(reply.status, reply.body);
        assert_eq!(response.status, 200);
        assert_eq!(
            response.body,
            format!(
                "{{\"contract\":{{\"address\":\"0x10\",\"contract_type\":\"WORLD\",\"head\":null}},\
                 \"outcome\":\"{word}\",\"success\":true,\"target_head\":99}}"
            )
        );
    }
}

#[test]
fn slow_engines_are_told() {
    assert_eq!(
        handler().registration_ended(&RegistrationEnd::TimedOut),
        error_response(
            503,
            "engine_timeout",
            "indexing engine did not accept the command in time"
        )
    );
}

#[test]
fn errors_have_their_status_code_and_message() {
    let cases = vec![
        (
            ContractManagementError::TypeConflict {
                address: address(0xff),
                registered_type: world(),
                requested_type: ContractType::new("ERC20".to_string()),
            },
            409,
            "contract_type_conflict",
            "contract 0xff is already registered as WORLD, not ERC20",
        ),
        (
            ContractManagementError::NotFound(address(1)),
            404,
            "contract_not_found",
            "contract 0x1 is not registered",
        ),
        (
            ContractManagementError::Provider("rpc".to_string()),
            502,
            "provider_error",
            "provider request failed: rpc",
        ),
        (
            ContractManagementError::Storage("disk".to_string()),
            500,
            "storage_error",
            "storage operation failed: disk",
        ),
        (
            ContractManagementError::EngineUnavailable,
            503,
            "engine_unavailable",
            "indexing engine is unavailable",
        ),
    ];
    for (error, status, code, message) in cases {
        assert_eq!(error.message(), message);
        assert_eq!(
            contract_management_error_response(&error),
            error_response(status, code, message)
        );
        let end = RegistrationEnd::Finished(Err(error));
        assert_eq!(
            handler().registration_ended(&end),
            error_response(status, code, message)
        );
    }
}

#[test]
fn absent_engines_are_unavailable() {
    for delivery in [Delivery::Refused, Delivery::Dropped] {
        assert!(matches!(
            registration_result(delivery),
            Err(ContractManagementError::EngineUnavailable)
        ));
    }
    let result = registration(ContractRegistrationOutcome::Registered);
    match registration_result(Delivery::Answered(Ok(result.clone()))) {
        Ok(answered) => assert_eq!(answered, result),
        Err(_) => panic!("no result"),
    }
}

#[test]
fn texts_that_are_no_address_are_refused() {
    match handler().contract_status("0x") {
        StatusStep::Respond(reply) => assert_eq!(
            reply,
            error_response(
                400,
                "invalid_address",
                "invalid contract address: failed to create Felt from string: invalid hex string"
            )
        ),
        _ => panic!("no answer"),
    }
    match status_step(Err("why".to_string())) {
        StatusStep::Respond(reply) => assert_eq!(
            reply,
            error_response(400, "invalid_address", "invalid contract address: why")
        ),
        _ => panic!("no answer"),
    }
}

#[test]
fn statuses_are_looked_up_for_one_address() {
    match handler().chain_head_answered(address(3), Ok(8)) {
        StatusStep::AskStorage { address: asked, chain_head, query } => {
            assert_eq!(asked, address(3));
            assert_eq!(chain_head, 8);
            assert_eq!(query.contract_addresses, vec![address(3)]);
            assert!(query.contract_types.is_empty());
        }
        _ => panic!("no query"),
    }
    match handler().chain_head_answered(address(3), Err("down".to_string())) {
        StatusStep::Respond(reply) => assert_eq!(reply, status_unavailable()),
        _ => panic!("no answer"),
    }
    assert_eq!(
        handler().contracts_answered(address(3), 8, Err("broken".to_string())),
        status_unavailable()
    );
}

#[test]
fn statuses_are_answered() {
    let stored = Contract {
        contract_address: address(3),
        contract_type: world(),
        head: Some(8),
    };
    let reply = handler().contracts_answered(address(3), 8, Ok(vec![stored.clone()]));
    let response = json_response(reply.status, reply.body);
    assert_eq!(response.status, 200);
    assert_eq!(
        response.body,
        "{\"contract\":{\"address\":\"0x3\",\"chain_head\":8,\"contract_type\":\"WORLD\",\
         \"head\":8,\"ready\":true},\"success\":true}"
    );
    let not_found = error_response(404, "contract_not_found", "contract is not registered");
    assert_eq!(
        handler().contracts_answered(address(4), 8, Ok(vec![stored])),
        not_found
    );
    assert_eq!(contract_status_response(Ok((8, vec![]))), not_found);
}

#[test]
fn messages_are_escaped_in_answers() {
    let reply = error_response(400, "invalid_json", "say \"hi\"\n");
    assert_eq!(
        json_response(reply.status, reply.body).body,
        "{\"error\":{\"code\":\"invalid_json\",\"message\":\"say \\\"hi\\\"\\n\"},\"success\":false}"
    );
}

#[test]
fn tokens_are_left_out_of_logs() {
    let shown = |token: &str| ContractManagementConfig::new(token.to_string(), 7).debug_text("7");
    assert_eq!(
        shown("secret"),
        "ContractManagementConfig { token: \"[redacted]\", control: 7 }"
    );
    assert_eq!(shown("secret"), shown("another"));
    assert_eq!(*ContractManagementConfig::new("t".to_string(), 9).control(), 9);
}
