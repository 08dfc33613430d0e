use torii_indexing::address::Address;
use torii_indexing::auth::is_authorized;
use torii_indexing::contract::{ContractDefinition, ContractType, RegisterContractRequest};
use torii_indexing::status::{all_contracts_are_ready, ContractStatus};

fn parse_type(name: &String) -> Result<ContractType, String> {
    if name == "WORLD" {
        Ok(ContractType::new("WORLD".to_string()))
    } else {
        Err(format!("unknown type {name}"))
    }
}

#[test]
fn parses_world_registration() {
    let definition = ContractDefinition::try_from(
        RegisterContractRequest {
            address: "0x123".to_string(),
            contract_type: "WORLD".to_string(),
            starting_block: Some(42),
        },
        parse_type,
    )
    .unwrap();

    assert_eq!(definition.address, Address::new(0, 0x123).unwrap());
    assert_eq!(definition.contract_type, ContractType::new("WORLD".to_string()));
    assert_eq!(definition.starting_block, Some(42));
}

#[test]
fn bearer_token_comparison_accepts_only_the_configured_token() {
    let authorized: Option<&[u8]> = Some(b"Bearer correct-token");
    let unauthorized: Option<&[u8]> = Some(b"Bearer wrong-token");

    assert!(is_authorized(authorized, "correct-token"));
    assert!(!is_authorized(unauthorized, "correct-token"));
}

#[test]
fn startup_readiness_requires_every_startup_contract() {
    let ready = ContractStatus {
        address: "0x1".to_string(),
        contract_type: "WORLD".to_string(),
        head: Some(10),
        chain_head: 10,
        ready: true,
    };

    assert!(all_contracts_are_ready(1, &[ready]));
    assert!(!all_contracts_are_ready(1, &[]));
}

#[test]
fn address_that_cannot_be_read_is_told() {
    let request = RegisterContractRequest {
        address: "0xzz".to_string(),
        contract_type: "NONSENSE".to_string(),
        starting_block: None,
    };
    assert_eq!(
        ContractDefinition::try_from(request, parse_type),
        Err(
            "invalid contract address: failed to create Felt from string: invalid hex string"
                .to_string()
        )
    );
}

#[test]
fn type_that_cannot_be_read_is_told() {
    let request = RegisterContractRequest {
        address: "7".to_string(),
        contract_type: "NONSENSE".to_string(),
        starting_block: None,
    };
    assert_eq!(
        ContractDefinition::try_from(request, parse_type),
        Err("invalid contract type: unknown type NONSENSE".to_string())
    );
}

#[test]
fn definition_takes_the_first_error() {
    let address = || Address::new(0, 5).unwrap();
    let world = || ContractType::new("WORLD".to_string());
    assert_eq!(
        ContractDefinition::from_parsed(Err("a".to_string()), Err("t".to_string()), None),
        Err("invalid contract address: a".to_string())
    );
    assert_eq!(
        ContractDefinition::from_parsed(Ok(address()), Err("t".to_string()), None),
        Err("invalid contract type: t".to_string())
    );
    assert_eq!(
        ContractDefinition::from_parsed(Ok(address()), Ok(world()), Some(3)),
        Ok(ContractDefinition {
            address: address(),
            contract_type: world(),
            starting_block: Some(3),
        })
    );
}
