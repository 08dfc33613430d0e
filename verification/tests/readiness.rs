use std::sync::Arc;

use torii_indexing::address::Address;
use torii_indexing::contract::{Contract, ContractType};
use torii_indexing::control::ContractManagementError;
use torii_indexing::readiness::{ReadinessHandler, ReadinessStep};
use torii_indexing::request::Method;
use torii_indexing::response::{error_response, json_response};
use torii_indexing::status::{
    all_contracts_are_ready, query_contracts, resolve_contract_statuses, ContractStatus,
};

fn address(low: u128) -> Address {
    Address::new(0, low).unwrap()
}

fn contract(low: u128, name: &str, head: Option<u64>) -> Contract {
    Contract {
        contract_address: address(low),
        contract_type: ContractType::new(name.to_string()),
        head,
    }
}

fn handler() -> ReadinessHandler<(), ()> {
    ReadinessHandler::new((), Arc::new(()), vec![address(1), address(2)])
}

#[test]
fn one_path_is_handled() {
    assert!(handler().should_handle("/ready"));
    assert!(!handler().should_handle("/ready/"));
    assert!(!handler().should_handle("/read"));
    assert!(!handler().should_handle(""));
}

#[test]
fn only_get_is_supported() {
    assert!(matches!(handler().handle(Method::Get), ReadinessStep::AskProvider));
    for method in [Method::Post, Method::Other] {
        match handler().handle(method) {
            ReadinessStep::Respond(reply) => assert_eq!(
                reply,
                error_response(405, "method_not_allowed", "readiness only supports GET")
            ),
            _ => panic!("no answer"),
        }
    }
}

#[test]
fn provider_is_asked_before_the_storage() {
    match handler().chain_head_answered(Ok(12)) {
        ReadinessStep::AskStorage { chain_head, query } => {
            assert_eq!(chain_head, 12);
            assert_eq!(query.contract_addresses, vec![address(1), address(2)]);
            assert!(query.contract_types.is_empty());
        }
        _ => panic!("no query"),
    }
    match handler().chain_head_answered(Err("down".to_string())) {
        ReadinessStep::Respond(reply) => assert_eq!(
            reply,
            error_response(
                503,
                "readiness_unavailable",
                "unable to resolve indexer readiness"
            )
        ),
        _ => panic!("no answer"),
    }
}

#[test]
fn storage_failure_is_answered_as_unavailable() {
    assert_eq!(
        handler().contracts_answered(12, Err("broken".to_string())),
        error_response(
            503,
            "readiness_unavailable",
            "unable to resolve indexer readiness"
        )
    );
}

#[test]
fn service_with_every_contract_indexed_is_ready() {
    let reply = handler().contracts_answered(
        10,
        Ok(vec![contract(2, "ERC20", Some(11)), contract(1, "WORLD", Some(10))]),
    );
    let response = json_response(reply.status, reply.body);
    assert_eq!(response.status, 200);
    assert_eq!(response.content_type, "application/json");
    assert_eq!(
        response.body,
        "{\"chain_head\":10,\"contracts\":[\
         {\"address\":\"0x1\",\"chain_head\":10,\"contract_type\":\"WORLD\",\"head\":10,\"ready\":true},\
         {\"address\":\"0x2\",\"chain_head\":10,\"contract_type\":\"ERC20\",\"head\":11,\"ready\":true}\
         ],\"status\":\"ready\",\"success\":true}"
    );
}

#[test]
fn service_with_a_lagging_contract_is_indexing() {
    let reply = handler().contracts_answered(
        10,
        Ok(vec![contract(1, "WORLD", Some(9)), contract(2, "WORLD", Some(10))]),
    );
    assert_eq!(reply.status, 503);
}

#[test]
fn service_with_a_missing_contract_is_indexing() {
    let reply = handler().contracts_answered(10, Ok(vec![contract(2, "WORLD", None)]));
    let response = json_response(reply.status, reply.body);
    assert_eq!(response.status, 503);
    assert_eq!(
        response.body,
        "{\"chain_head\":10,\"contracts\":[\
         {\"address\":\"0x2\",\"chain_head\":10,\"contract_type\":\"WORLD\",\"head\":null,\"ready\":false}\
         ],\"status\":\"indexing\",\"success\":false}"
    );
}

#[test]
fn service_without_startup_contracts_is_ready() {
    let handler: ReadinessHandler<(), ()> = ReadinessHandler::new((), Arc::new(()), vec![]);
    assert_eq!(handler.contracts_answered(10, Ok(vec![])).status, 200);
}

#[test]
fn statuses_keep_the_order_of_the_addresses() {
    let (head, statuses) = resolve_contract_statuses(
        5,
        &[address(3), address(1), address(9), address(3)],
        Ok(vec![contract(1, "A", None), contract(2, "B", Some(5)), contract(3, "C", Some(5))]),
    )
    .unwrap();
    assert_eq!(head, 5);
    let shown: Vec<&str> = statuses.iter().map(|status| status.address.as_str()).collect();
    assert_eq!(shown, vec!["0x3", "0x1", "0x3"]);
}

#[test]
fn last_stored_contract_counts() {
    let (_, statuses) = resolve_contract_statuses(
        5,
        &[address(1)],
        Ok(vec![contract(1, "OLD", None), contract(1, "NEW", Some(7))]),
    )
    .unwrap();
    assert_eq!(
        statuses,
        vec![ContractStatus {
            address: "0x1".to_string(),
            contract_type: "NEW".to_string(),
            head: Some(7),
            chain_head: 5,
            ready: true,
        }]
    );
}

#[test]
fn lookups_name_what_failed() {
    match query_contracts(Err("p".to_string()), &[address(1)]) {
        Err(ContractManagementError::Provider(cause)) => assert_eq!(cause, "p"),
        _ => panic!("no provider error"),
    }
    match resolve_contract_statuses(5, &[address(1)], Err("s".to_string())) {
        Err(ContractManagementError::Storage(cause)) => assert_eq!(cause, "s"),
        _ => panic!("no storage error"),
    }
}

#[test]
fn one_contract_behind_is_enough_not_to_be_ready() {
    let ahead = ContractStatus::from_contract(&contract(1, "WORLD", Some(10)), 10);
    let behind = ContractStatus::from_contract(&contract(2, "WORLD", Some(9)), 10);
    assert!(ahead.ready);
    assert!(!behind.ready);
    assert!(!all_contracts_are_ready(2, &[ahead.clone(), behind]));
    assert!(!all_contracts_are_ready(0, &[ahead]));
    assert!(all_contracts_are_ready(0, &[]));
}
