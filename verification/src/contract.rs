//! Contracts that are indexed, and requests to index one.

use crate::address::Address;
use crate::text::joined;
use vstd::prelude::*;

verus! {

/// The kind of a contract, known by its name.
#[derive(Debug, Clone, PartialEq, Eq)]
pub struct ContractType {
    pub name: String,
}

impl View for ContractType {
    type V = Seq<char>;

    open spec fn view(&self) -> Seq<char> {
        self.name@
    }
}

impl ContractType {
    /// The kind with this name.
    pub fn new(name: String) -> (contract_type: ContractType)
        ensures
            contract_type@ == name@,
            contract_type.name == name,
    {
        ContractType { name }
    }
}

/// A contract to be indexed, and the block to start from.
#[derive(Debug, Clone, PartialEq, Eq)]
pub struct ContractDefinition {
    pub address: Address,
    pub contract_type: ContractType,
    pub starting_block: Option<u64>,
}

/// A contract to be indexed, by number and name.
pub struct DefinitionView {
    pub address: nat,
    pub contract_type: Seq<char>,
    pub starting_block: Option<u64>,
}

impl View for ContractDefinition {
    type V = DefinitionView;

    open spec fn view(&self) -> DefinitionView {
        DefinitionView {
            address: self.address@,
            contract_type: self.contract_type@,
            starting_block: self.starting_block,
        }
    }
}

/// A request to index a contract, as it comes in.
#[derive(Debug, Clone, PartialEq, Eq)]
pub struct RegisterContractRequest {
    pub address: String,
    pub contract_type: String,
    pub starting_block: Option<u64>,
}

/// A contract as it is stored: how far it is indexed, if at all.
#[derive(Debug, Clone, PartialEq, Eq)]
pub struct Contract {
    pub contract_address: Address,
    pub contract_type: ContractType,
    pub head: Option<u64>,
}

/// A stored contract, by number and name.
pub struct ContractView {
    pub contract_address: nat,
    pub contract_type: Seq<char>,
    pub head: Option<u64>,
}

impl View for Contract {
    type V = ContractView;

    open spec fn view(&self) -> ContractView {
        ContractView {
            contract_address: self.contract_address@,
            contract_type: self.contract_type@,
            head: self.head,
        }
    }
}

/// What is asked of the storage: the contracts with these addresses, and the
/// types to narrow the answer to, where there are any.
#[derive(Debug, Clone, PartialEq, Eq)]
pub struct ContractQuery {
    pub contract_addresses: Vec<Address>,
    pub contract_types: Vec<ContractType>,
}

/// The definition made of what was read of an address and of a type: the first
/// of the two that could not be read is the error.
pub open spec fn definition_of(
    address: Result<nat, Seq<char>>,
    contract_type: Result<Seq<char>, Seq<char>>,
    starting_block: Option<u64>,
) -> Result<DefinitionView, Seq<char>> {
    match (address, contract_type) {
        (Err(message), _) => Err("invalid contract address: "@ + message),
        (Ok(_), Err(message)) => Err("invalid contract type: "@ + message),
        (Ok(address), Ok(contract_type)) => Ok(
            DefinitionView { address, contract_type, starting_block },
        ),
    }
}

impl ContractDefinition {
    /// Makes a definition of what was read of an address and of a type.
    pub fn from_parsed(
        address: Result<Address, String>,
        contract_type: Result<ContractType, String>,
        starting_block: Option<u64>,
    ) -> (result: Result<ContractDefinition, String>)
        ensures
            crate::text::result_view(result) == definition_of(
                crate::text::result_view(address),
                crate::text::result_view(contract_type),
                starting_block,
            ),
            address is Ok && contract_type is Ok ==> result is Ok && result->Ok_0.address
                == address->Ok_0 && result->Ok_0.contract_type == contract_type->Ok_0
                && result->Ok_0.starting_block == starting_block,
    {
        let address = match address {
            Ok(address) => address,
            Err(message) => return Err(
                joined("invalid contract address: ", message.as_str()),
            ),
        };
        let contract_type = match contract_type {
            Ok(contract_type) => contract_type,
            Err(message) => return Err(joined("invalid contract type: ", message.as_str())),
        };
        Ok(ContractDefinition { address, contract_type, starting_block })
    }

    /// Reads a request: its address, and by `parse_type` its type. `parse_type`
    /// is handed the type's text as it came in, once the address was read.
    pub fn try_from<F: Fn(&String) -> Result<ContractType, String>>(
        request: RegisterContractRequest,
        parse_type: F,
    ) -> (result: Result<ContractDefinition, String>)
        requires
            !crate::address::decimal_overflows(request.address@),
            forall|name: &String| call_requires(parse_type, (name,)),
        ensures
            match crate::address::read_address(request.address@) {
                Ok(address) => exists|parsed: Result<ContractType, String>|
                    {
                        &&& #[trigger] call_ensures(parse_type, (&request.contract_type,), parsed)
                        &&& crate::text::result_view(result) == definition_of(
                            Ok(address),
                            crate::text::result_view(parsed),
                            request.starting_block,
                        )
                    },
                Err(message) => crate::text::result_view(result) == Err::<
                    DefinitionView,
                    Seq<char>,
                >("invalid contract address: "@ + message),
            },
    {
        match Address::parse(request.address.as_str()) {
            Ok(address) => {
                let parsed = parse_type(&request.contract_type);
                ContractDefinition::from_parsed(Ok(address), parsed, request.starting_block)
            },
            Err(message) => Err(joined("invalid contract address: ", message.as_str())),
        }
    }
}

/// The views of types, definitions and stored contracts have all that these
/// have.
pub proof fn law_contract_views_keep_everything(
    contract_type: ContractType,
    definition: ContractDefinition,
    contract: Contract,
)
    ensures
        contract_type@ == contract_type.name@,
        definition@.address == definition.address@,
        definition@.contract_type == definition.contract_type.name@,
        definition@.starting_block == definition.starting_block,
        contract@.contract_address == contract.contract_address@,
        contract@.contract_type == contract.contract_type.name@,
        contract@.head == contract.head,
{
}

/// A type is known by the name that it is made with.
pub proof fn law_type_keeps_its_name(name: String)
    ensures
        forall|contract_type: ContractType| #[trigger]
            call_ensures(ContractType::new, (name,), contract_type) ==> contract_type.name@
                == name@,
{
}

/// Where the address and the type could be read, the definition has that very
/// address, that very type and the starting block that was asked for. Where the
/// address could not be read, that is the error, whatever became of the type;
/// where only the type could not, that is.
pub proof fn law_definition_has_what_was_read(
    address: Result<Address, String>,
    contract_type: Result<ContractType, String>,
    starting_block: Option<u64>,
)
    ensures
        forall|result: Result<ContractDefinition, String>| #[trigger]
            call_ensures(
                ContractDefinition::from_parsed,
                (address, contract_type, starting_block),
                result,
            ) ==> {
                &&& result is Ok <==> address is Ok && contract_type is Ok
                &&& result is Ok ==> {
                    &&& result->Ok_0.address@ == address->Ok_0@
                    &&& result->Ok_0.contract_type.name@ == contract_type->Ok_0.name@
                    &&& result->Ok_0.starting_block == starting_block
                }
                &&& address is Err ==> result->Err_0@ == "invalid contract address: "@
                    + address->Err_0@
                &&& address is Ok && contract_type is Err ==> result->Err_0@
                    == "invalid contract type: "@ + contract_type->Err_0@
            },
{
    assert forall|result: Result<ContractDefinition, String>| #[trigger]
        call_ensures(
            ContractDefinition::from_parsed,
            (address, contract_type, starting_block),
            result,
        ) implies {
        &&& result is Ok <==> address is Ok && contract_type is Ok
        &&& result is Ok ==> {
            &&& result->Ok_0.address@ == address->Ok_0@
            &&& result->Ok_0.contract_type.name@ == contract_type->Ok_0.name@
            &&& result->Ok_0.starting_block == starting_block
        }
        &&& address is Err ==> result->Err_0@ == "invalid contract address: "@ + address->Err_0@
        &&& address is Ok && contract_type is Err ==> result->Err_0@ == "invalid contract type: "@
            + contract_type->Err_0@
    } by {
        crate::text::law_result_view_keeps_the_kind(result);
        crate::text::law_result_view_keeps_the_kind(address);
        crate::text::law_result_view_keeps_the_kind(contract_type);
    }
}

/// Every number that is an address, every type and every starting block come
/// into the definition as they are: two requests make the same definition only
/// where they agree in all three.
pub proof fn law_definition_keeps_address_type_and_block(
    address: nat,
    contract_type: Seq<char>,
    starting_block: Option<u64>,
)
    ensures
        ({
            let definition = definition_of(Ok(address), Ok(contract_type), starting_block);
            &&& definition is Ok
            &&& definition->Ok_0.address == address
            &&& definition->Ok_0.contract_type == contract_type
            &&& definition->Ok_0.starting_block == starting_block
        }),
{
}

/// A request whose address reads as a number is handed on with that number, and
/// with the type that its own type text was read as; one whose address does not
/// read is refused.
pub proof fn law_request_becomes_its_definition<F: Fn(&String) -> Result<ContractType, String>>(
    request: RegisterContractRequest,
    parse_type: F,
)
    ensures
        forall|result: Result<ContractDefinition, String>| #[trigger]
            call_ensures(
                ContractDefinition::try_from::<F>,
                (request, parse_type),
                result,
            ) ==> {
                let address = crate::address::read_address(request.address@);
                &&& address is Err ==> result is Err && result->Err_0@
                    == "invalid contract address: "@ + address->Err_0
                &&& address is Ok ==> exists|parsed: Result<ContractType, String>|
                    {
                        &&& #[trigger] call_ensures(parse_type, (&request.contract_type,), parsed)
                        &&& result is Ok <==> parsed is Ok
                        &&& parsed is Ok ==> {
                            &&& result->Ok_0.address@ == address->Ok_0
                            &&& result->Ok_0.contract_type.name@ == parsed->Ok_0.name@
                            &&& result->Ok_0.starting_block == request.starting_block
                        }
                        &&& parsed is Err ==> result->Err_0@ == "invalid contract type: "@
                            + parsed->Err_0@
                    }
            },
{
    assert forall|result: Result<ContractDefinition, String>| #[trigger]
        call_ensures(ContractDefinition::try_from::<F>, (request, parse_type), result) implies {
        let address = crate::address::read_address(request.address@);
        &&& address is Err ==> result is Err && result->Err_0@ == "invalid contract address: "@
            + address->Err_0
        &&& address is Ok ==> exists|parsed: Result<ContractType, String>|
            {
                &&& #[trigger] call_ensures(parse_type, (&request.contract_type,), parsed)
                &&& result is Ok <==> parsed is Ok
                &&& parsed is Ok ==> {
                    &&& result->Ok_0.address@ == address->Ok_0
                    &&& result->Ok_0.contract_type.name@ == parsed->Ok_0.name@
                    &&& result->Ok_0.starting_block == request.starting_block
                }
                &&& parsed is Err ==> result->Err_0@ == "invalid contract type: "@ + parsed->Err_0@
            }
    } by {
        let address = crate::address::read_address(request.address@);
        crate::text::law_result_view_keeps_the_kind(result);
        if address is Ok {
            let parsed = choose|parsed: Result<ContractType, String>|
                {
                    &&& #[trigger] call_ensures(parse_type, (&request.contract_type,), parsed)
                    &&& crate::text::result_view(result) == definition_of(
                        Ok(address->Ok_0),
                        crate::text::result_view(parsed),
                        request.starting_block,
                    )
                };
            crate::text::law_result_view_keeps_the_kind(parsed);
            assert(call_ensures(parse_type, (&request.contract_type,), parsed));
        }
    }
}

} // verus!
