//! How far contracts are indexed.

use crate::address::Address;
use crate::contract::{Contract, ContractQuery, ContractView};
use crate::control::ContractManagementError;
use crate::json::{member, text, JsonRecord, JsonScalar, ScalarView};
use vstd::prelude::*;

verus! {

/// How far a contract is indexed, against the head of the chain.
#[derive(Debug, Clone, PartialEq, Eq)]
pub struct ContractStatus {
    pub address: String,
    pub contract_type: String,
    pub head: Option<u64>,
    pub chain_head: u64,
    pub ready: bool,
}

/// How far a contract is indexed, its texts as characters.
pub struct StatusView {
    pub address: Seq<char>,
    pub contract_type: Seq<char>,
    pub head: Option<u64>,
    pub chain_head: u64,
    pub ready: bool,
}

impl View for ContractStatus {
    type V = StatusView;

    open spec fn view(&self) -> StatusView {
        StatusView {
            address: self.address@,
            contract_type: self.contract_type@,
            head: self.head,
            chain_head: self.chain_head,
            ready: self.ready,
        }
    }
}

/// Stored contracts by number and name.
pub open spec fn contract_views(contracts: Seq<Contract>) -> Seq<ContractView> {
    contracts.map_values(|contract: Contract| contract@)
}

/// Addresses as numbers.
pub open spec fn address_views(addresses: Seq<Address>) -> Seq<nat> {
    addresses.map_values(|address: Address| address@)
}

/// Statuses with their texts as characters.
pub open spec fn status_views(statuses: Seq<ContractStatus>) -> Seq<StatusView> {
    statuses.map_values(|status: ContractStatus| status@)
}

/// Whether indexing has come up to the head of the chain.
pub open spec fn caught_up(head: Option<u64>, chain_head: u64) -> bool {
    match head {
        Some(head) => head >= chain_head,
        None => false,
    }
}

/// The status of a contract.
pub open spec fn status_of(contract: ContractView, chain_head: u64) -> StatusView {
    StatusView {
        address: crate::address::hex_text(contract.contract_address),
        contract_type: contract.contract_type,
        head: contract.head,
        chain_head,
        ready: caught_up(contract.head, chain_head),
    }
}

/// The contract with an address: the last one, where the storage has several.
pub open spec fn stored(
    contracts: Seq<ContractView>,
    address: nat,
) -> Option<ContractView>
    decreases contracts.len(),
{
    if contracts.len() == 0 {
        None
    } else if contracts.last().contract_address == address {
        Some(contracts.last())
    } else {
        stored(contracts.drop_last(), address)
    }
}

/// The statuses of the contracts with these addresses, in the order of the
/// addresses; an address without a contract has none.
pub open spec fn statuses_of(
    contracts: Seq<ContractView>,
    chain_head: u64,
    addresses: Seq<nat>,
) -> Seq<StatusView>
    decreases addresses.len(),
{
    if addresses.len() == 0 {
        Seq::empty()
    } else {
        let front = statuses_of(contracts, chain_head, addresses.drop_last());
        match stored(contracts, addresses.last()) {
            Some(contract) => front.push(status_of(contract, chain_head)),
            None => front,
        }
    }
}

/// Whether as many contracts as expected have a status, and all are ready.
pub open spec fn all_ready(expected_count: nat, statuses: Seq<StatusView>) -> bool {
    &&& statuses.len() == expected_count
    &&& forall|i: int| 0 <= i < statuses.len() ==> (#[trigger] statuses[i]).ready
}

/// A status in an answer.
pub open spec fn status_record(status: StatusView) -> Seq<(Seq<char>, ScalarView)> {
    seq![
        ("address"@, ScalarView::Text(status.address)),
        ("contract_type"@, ScalarView::Text(status.contract_type)),
        ("head"@, ScalarView::Number(status.head)),
        ("chain_head"@, ScalarView::Number(Some(status.chain_head))),
        ("ready"@, ScalarView::Bool(status.ready)),
    ]
}

impl ContractStatus {
    /// The status of a contract.
    pub fn from_contract(contract: &Contract, chain_head: u64) -> (status: ContractStatus)
        ensures
            status@ == status_of(contract@, chain_head),
            status.head == contract.head,
            status.chain_head == chain_head,
            status.ready <==> (contract.head is Some && contract.head->0 >= chain_head),
    {
        let ready = match contract.head {
            Some(head) => head >= chain_head,
            None => false,
        };
        ContractStatus {
            address: contract.contract_address.to_hex(),
            contract_type: contract.contract_type.name.clone(),
            head: contract.head,
            chain_head,
            ready,
        }
    }

    /// The status in an answer.
    pub fn to_json(&self) -> (record: JsonRecord)
        ensures
            record@ == status_record(self@),
    {
        let record = JsonRecord {
            members: vec![
                member("address", text(self.address.as_str())),
                member("contract_type", text(self.contract_type.as_str())),
                member("head", JsonScalar::Number(self.head)),
                member("chain_head", JsonScalar::Number(Some(self.chain_head))),
                member("ready", JsonScalar::Bool(self.ready)),
            ],
        };
        assert(record@ =~= status_record(self@));
        record
    }
}

/// Whether as many contracts as expected have a status, and all are ready.
pub fn all_contracts_are_ready(expected_count: usize, statuses: &[ContractStatus]) -> (ready: bool)
    ensures
        ready == all_ready(expected_count as nat, status_views(statuses@)),
{
    let ghost views = status_views(statuses@);
    if statuses.len() != expected_count {
        return false;
    }
    let mut i: usize = 0;
    while i < statuses.len()
        invariant
            i <= statuses@.len(),
            views == status_views(statuses@),
            forall|j: int| 0 <= j < i ==> (#[trigger] views[j]).ready,
        decreases statuses@.len() - i,
    {
        assert(views[i as int] == statuses@[i as int]@);
        if !statuses[i].ready {
            return false;
        }
        i = i + 1;
    }
    true
}

/// Begins to look contracts up: with the head of the chain at hand, the query
/// for the storage is for all of these addresses and for any type.
pub fn query_contracts(chain_head: Result<u64, String>, addresses: &[Address]) -> (result: Result<
    (u64, ContractQuery),
    ContractManagementError,
>)
    ensures
        match chain_head {
            Ok(chain_head) => result matches Ok((head, query)) && head == chain_head
                && query.contract_addresses@ == addresses@ && query.contract_types@.len() == 0,
            Err(cause) => result == Err::<(u64, ContractQuery), ContractManagementError>(
                ContractManagementError::Provider(cause),
            ),
        },
{
    let chain_head = match chain_head {
        Ok(chain_head) => chain_head,
        Err(cause) => return Err(ContractManagementError::Provider(cause)),
    };
    let mut contract_addresses: Vec<Address> = Vec::new();
    let mut i: usize = 0;
    while i < addresses.len()
        invariant
            i <= addresses@.len(),
            contract_addresses@ =~= addresses@.take(i as int),
        decreases addresses@.len() - i,
    {
        contract_addresses.push(addresses[i]);
        i = i + 1;
    }
    assert(addresses@.take(i as int) =~= addresses@);
    Ok((chain_head, ContractQuery { contract_addresses, contract_types: Vec::new() }))
}

/// The contract with an address: the last one, where there are several.
fn find_contract<'a>(contracts: &'a Vec<Contract>, address: &Address) -> (found: Option<
    &'a Contract,
>)
    ensures
        match found {
            Some(contract) => stored(contract_views(contracts@), address@) == Some(contract@),
            None => stored(contract_views(contracts@), address@) is None,
        },
{
    let ghost views = contract_views(contracts@);
    let mut i: usize = contracts.len();
    assert(views.take(i as int) =~= views);
    while i > 0
        invariant
            i <= contracts@.len(),
            views == contract_views(contracts@),
            stored(views, address@) == stored(views.take(i as int), address@),
        decreases i,
    {
        i = i - 1;
        assert(views.take(i + 1).last() == contracts@[i as int]@);
        assert(views.take(i + 1).drop_last() =~= views.take(i as int));
        if contracts[i].contract_address.same(address) {
            return Some(&contracts[i]);
        }
    }
    None
}

/// The statuses of the contracts with these addresses, once the storage has
/// answered.
pub fn resolve_contract_statuses(
    chain_head: u64,
    addresses: &[Address],
    contracts: Result<Vec<Contract>, String>,
) -> (result: Result<(u64, Vec<ContractStatus>), ContractManagementError>)
    ensures
        match contracts {
            Ok(contracts) => result matches Ok((head, statuses)) && head == chain_head
                && status_views(statuses@) == statuses_of(
                contract_views(contracts@),
                chain_head,
                address_views(addresses@),
            ),
            Err(cause) => result == Err::<(u64, Vec<ContractStatus>), ContractManagementError>(
                ContractManagementError::Storage(cause),
            ),
        },
{
    let contracts = match contracts {
        Ok(contracts) => contracts,
        Err(cause) => return Err(ContractManagementError::Storage(cause)),
    };
    let ghost stored_views = contract_views(contracts@);
    let ghost wanted = address_views(addresses@);
    let mut statuses: Vec<ContractStatus> = Vec::new();
    let mut i: usize = 0;
    assert(status_views(statuses@) =~= statuses_of(stored_views, chain_head, wanted.take(0)));
    while i < addresses.len()
        invariant
            i <= addresses@.len(),
            stored_views == contract_views(contracts@),
            wanted == address_views(addresses@),
            status_views(statuses@) == statuses_of(stored_views, chain_head, wanted.take(i as int)),
        decreases addresses@.len() - i,
    {
        let ghost before = status_views(statuses@);
        assert(wanted.take(i + 1).drop_last() =~= wanted.take(i as int));
        assert(wanted.take(i + 1).last() == addresses@[i as int]@);
        match find_contract(&contracts, &addresses[i]) {
            Some(contract) => {
                let status = ContractStatus::from_contract(contract, chain_head);
                statuses.push(status);
                assert(status_views(statuses@) =~= before.push(status@));
            },
            None => {},
        }
        i = i + 1;
    }
    assert(wanted.take(i as int) =~= wanted);
    Ok((chain_head, statuses))
}

/// A contract counts as indexed where the storage has it, up to the head of the
/// chain.
pub open spec fn indexed(
    contracts: Seq<ContractView>,
    chain_head: u64,
    address: nat,
) -> bool {
    match stored(contracts, address) {
        Some(contract) => caught_up(contract.head, chain_head),
        None => false,
    }
}

/// Of several contracts with one address the last one counts, and there is none
/// only where no contract has the address.
pub proof fn law_last_stored_contract_counts(
    contracts: Seq<ContractView>,
    address: nat,
)
    ensures
        match stored(contracts, address) {
            Some(contract) => exists|i: int|
                0 <= i < contracts.len() && #[trigger] contracts[i] == contract
                    && contract.contract_address == address && (forall|j: int|
                    i < j < contracts.len() ==> (#[trigger] contracts[j]).contract_address
                        != address),
            None => forall|i: int|
                0 <= i < contracts.len() ==> (#[trigger] contracts[i]).contract_address != address,
        },
    decreases contracts.len(),
{
    if contracts.len() > 0 {
        let front = contracts.drop_last();
        law_last_stored_contract_counts(front, address);
        if contracts.last().contract_address == address {
            assert(contracts[contracts.len() - 1] == contracts.last());
        } else {
            match stored(front, address) {
                Some(contract) => {
                    let i = choose|i: int|
                        0 <= i < front.len() && #[trigger] front[i] == contract
                            && contract.contract_address == address && (forall|j: int|
                            i < j < front.len() ==> (#[trigger] front[j]).contract_address
                                != address);
                    assert(contracts[i] == contract);
                    assert forall|j: int| i < j < contracts.len() implies (
                    #[trigger] contracts[j]).contract_address != address by {
                        if j < front.len() {
                            assert(front[j] == contracts[j]);
                        }
                    }
                },
                None => {
                    assert forall|i: int| 0 <= i < contracts.len() implies (
                    #[trigger] contracts[i]).contract_address != address by {
                        if i < front.len() {
                            assert(front[i] == contracts[i]);
                        }
                    }
                },
            }
        }
    }
}

/// No more statuses come out than addresses went in, each of them is the status
/// of a stored contract with one of the addresses, and an address that the
/// storage has a contract for has its status among them.
pub proof fn law_statuses_are_of_the_addresses(
    contracts: Seq<ContractView>,
    chain_head: u64,
    addresses: Seq<nat>,
)
    ensures
        statuses_of(contracts, chain_head, addresses).len() <= addresses.len(),
        forall|i: int|
            0 <= i < statuses_of(contracts, chain_head, addresses).len() ==> exists|j: int|
                0 <= j < addresses.len() && #[trigger] stored(contracts, addresses[j]) is Some
                    && #[trigger] statuses_of(contracts, chain_head, addresses)[i] == status_of(
                    stored(contracts, addresses[j])->0,
                    chain_head,
                ),
        forall|j: int|
            0 <= j < addresses.len() && stored(contracts, #[trigger] addresses[j]) is Some
                ==> statuses_of(contracts, chain_head, addresses).contains(
                status_of(stored(contracts, addresses[j])->0, chain_head),
            ),
    decreases addresses.len(),
{
    let statuses = statuses_of(contracts, chain_head, addresses);
    if addresses.len() > 0 {
        let front = addresses.drop_last();
        let earlier = statuses_of(contracts, chain_head, front);
        law_statuses_are_of_the_addresses(contracts, chain_head, front);
        assert forall|i: int| 0 <= i < statuses.len() implies exists|j: int|
            0 <= j < addresses.len() && #[trigger] stored(contracts, addresses[j]) is Some
                && #[trigger] statuses[i] == status_of(
                stored(contracts, addresses[j])->0,
                chain_head,
            ) by {
            if i < earlier.len() {
                assert(earlier[i] == statuses[i]);
                let j = choose|j: int|
                    0 <= j < front.len() && #[trigger] stored(contracts, front[j]) is Some
                        && earlier[i] == status_of(stored(contracts, front[j])->0, chain_head);
                assert(addresses[j] == front[j]);
            } else {
                assert(stored(contracts, addresses[addresses.len() - 1]) is Some);
            }
        }
        assert forall|j: int|
            0 <= j < addresses.len() && stored(contracts, #[trigger] addresses[j]) is Some implies
            statuses.contains(status_of(stored(contracts, addresses[j])->0, chain_head)) by {
            let status = status_of(stored(contracts, addresses[j])->0, chain_head);
            if j < front.len() {
                assert(front[j] == addresses[j]);
                assert(earlier.contains(status));
                let i = choose|i: int| 0 <= i < earlier.len() && earlier[i] == status;
                assert(statuses[i] == status);
            } else {
                assert(statuses[statuses.len() - 1] == status);
            }
        }
    }
}

/// All contracts are ready just when every one of the addresses has a stored
/// contract that is indexed up to the head of the chain: a missing contract, or
/// a single one that lags behind, is enough for them not to be.
pub proof fn law_ready_means_every_contract_is_indexed(
    contracts: Seq<ContractView>,
    chain_head: u64,
    addresses: Seq<nat>,
)
    ensures
        all_ready(addresses.len(), statuses_of(contracts, chain_head, addresses)) <==> (forall|
            i: int,
        |
            0 <= i < addresses.len() ==> indexed(contracts, chain_head, #[trigger] addresses[i])),
    decreases addresses.len(),
{
    let statuses = statuses_of(contracts, chain_head, addresses);
    if addresses.len() > 0 {
        let front = addresses.drop_last();
        let earlier = statuses_of(contracts, chain_head, front);
        law_ready_means_every_contract_is_indexed(contracts, chain_head, front);
        law_statuses_are_of_the_addresses(contracts, chain_head, front);
        let last = addresses[addresses.len() - 1];
        if all_ready(addresses.len(), statuses) {
            assert(stored(contracts, last) is Some);
            assert(statuses[statuses.len() - 1].ready);
            assert forall|i: int| 0 <= i < earlier.len() implies (#[trigger] earlier[i]).ready by {
                assert(statuses[i] == earlier[i]);
            }
            assert forall|i: int| 0 <= i < addresses.len() implies indexed(
                contracts,
                chain_head,
                #[trigger] addresses[i],
            ) by {
                if i < front.len() {
                    assert(front[i] == addresses[i]);
                }
            }
        }
        if forall|i: int|
            0 <= i < addresses.len() ==> indexed(contracts, chain_head, #[trigger] addresses[i]) {
            assert forall|i: int| 0 <= i < front.len() implies indexed(
                contracts,
                chain_head,
                #[trigger] front[i],
            ) by {
                assert(front[i] == addresses[i]);
            }
            assert(indexed(contracts, chain_head, last));
            assert forall|i: int| 0 <= i < statuses.len() implies (#[trigger] statuses[i]).ready by {
                if i < earlier.len() {
                    assert(statuses[i] == earlier[i]);
                }
            }
        }
    }
}

/// Whether a contract is the last of these with an address.
pub open spec fn last_with(contracts: Seq<Contract>, address: Address, k: int) -> bool {
    &&& 0 <= k < contracts.len()
    &&& contracts[k].contract_address@ == address@
    &&& forall|j: int|
        k < j < contracts.len() ==> (#[trigger] contracts[j]).contract_address@ != address@
}

/// Whether none of the contracts has an address.
pub open spec fn none_with(contracts: Seq<Contract>, address: Address) -> bool {
    forall|j: int|
        0 <= j < contracts.len() ==> (#[trigger] contracts[j]).contract_address@ != address@
}

/// Whether a status tells of a contract: its address in hexadecimal, its type,
/// how far it is indexed and the head of the chain as they are, and that it is
/// ready just where it is indexed at least as far as the head of the chain.
pub open spec fn tells_of(status: StatusView, contract: Contract, chain_head: u64) -> bool {
    &&& status.address == crate::address::hex_text(contract.contract_address@)
    &&& status.contract_type == contract.contract_type.name@
    &&& status.head == contract.head
    &&& status.chain_head == chain_head
    &&& status.ready <==> (contract.head is Some && contract.head->0 >= chain_head)
}

/// The view of a status has all that the status has.
pub proof fn law_status_view_keeps_everything(status: ContractStatus)
    ensures
        status@.address == status.address@,
        status@.contract_type == status.contract_type@,
        status@.head == status.head,
        status@.chain_head == status.chain_head,
        status@.ready == status.ready,
{
}

/// Stored contracts, addresses and statuses are viewed one by one and in their
/// order.
pub proof fn law_sequences_are_viewed_one_by_one(
    contracts: Seq<Contract>,
    addresses: Seq<Address>,
    statuses: Seq<ContractStatus>,
)
    ensures
        contract_views(contracts).len() == contracts.len(),
        address_views(addresses).len() == addresses.len(),
        status_views(statuses).len() == statuses.len(),
        forall|i: int|
            0 <= i < contracts.len() ==> #[trigger] contract_views(contracts)[i] == contracts[i]@,
        forall|i: int|
            0 <= i < addresses.len() ==> #[trigger] address_views(addresses)[i] == addresses[i]@,
        forall|i: int|
            0 <= i < statuses.len() ==> #[trigger] status_views(statuses)[i] == statuses[i]@,
{
}

/// A contract whose indexing stands at a block is ready just where that block is
/// not before the head of the chain; one that is not indexed at all is never
/// ready. The rest of its status is what is stored of it.
pub proof fn law_ready_from_the_head_of_the_chain_on(contract: &Contract, chain_head: u64)
    ensures
        forall|status: ContractStatus| #[trigger]
            call_ensures(ContractStatus::from_contract, (contract, chain_head), status) ==> {
                &&& contract.head is None ==> !status.ready
                &&& contract.head is Some ==> (status.ready <==> contract.head->0 >= chain_head)
                &&& tells_of(status@, *contract, chain_head)
            },
        tells_of(status_of(contract@, chain_head), *contract, chain_head),
{
}

/// Readiness grows with what is indexed and shrinks with the chain: a contract
/// that is ready stays so where it is indexed further, or the chain is shorter.
pub proof fn law_readiness_is_monotone(
    head: u64,
    chain_head: u64,
    further: u64,
    shorter: u64,
)
    requires
        caught_up(Some(head), chain_head),
        head <= further,
        shorter <= chain_head,
    ensures
        caught_up(Some(further), shorter),
        caught_up(Some(chain_head), chain_head),
        chain_head > 0 ==> !caught_up(Some((chain_head - 1) as u64), chain_head),
        !caught_up(None, shorter),
{
}

/// The contract found for an address is the last that is stored with it, and
/// none is found just where none is stored.
pub proof fn law_found_is_the_last_stored(contracts: Seq<Contract>, address: Address)
    ensures
        match stored(contract_views(contracts), address@) {
            Some(found) => exists|k: int| #[trigger]
                last_with(contracts, address, k) && found == contracts[k]@,
            None => none_with(contracts, address),
        },
{
    let views = contract_views(contracts);
    law_last_stored_contract_counts(views, address@);
    assert(forall|i: int| 0 <= i < contracts.len() ==> #[trigger] contracts[i]@ == views[i]);
    match stored(views, address@) {
        Some(found) => {
            let k = choose|k: int|
                0 <= k < views.len() && #[trigger] views[k] == found && found.contract_address
                    == address@ && (forall|j: int|
                    k < j < views.len() ==> (#[trigger] views[j]).contract_address != address@);
            assert forall|j: int| k < j < contracts.len() implies (
            #[trigger] contracts[j]).contract_address@ != address@ by {
                assert(views[j].contract_address != address@);
            }
            assert(last_with(contracts, address, k) && found == contracts[k]@);
        },
        None => {
            assert forall|j: int| 0 <= j < contracts.len() implies (
            #[trigger] contracts[j]).contract_address@ != address@ by {
                assert(views[j].contract_address != address@);
            }
        },
    }
}

/// Where a contract is the last stored with an address, it is the one found.
pub proof fn lemma_last_is_found(contracts: Seq<Contract>, address: Address, k: int)
    requires
        last_with(contracts, address, k),
    ensures
        stored(contract_views(contracts), address@) == Some(contracts[k]@),
{
    law_found_is_the_last_stored(contracts, address);
    let found = stored(contract_views(contracts), address@);
    if found is Some {
        let other = choose|other: int| #[trigger]
            last_with(contracts, address, other) && found->0 == contracts[other]@;
        assert(other == k);
    }
}

/// The statuses of the contracts with some addresses and with further ones are
/// those with the first, followed by those with the further ones.
pub proof fn law_statuses_follow_the_addresses(
    contracts: Seq<ContractView>,
    chain_head: u64,
    addresses: Seq<nat>,
    further: Seq<nat>,
)
    ensures
        statuses_of(contracts, chain_head, addresses + further) == statuses_of(
            contracts,
            chain_head,
            addresses,
        ) + statuses_of(contracts, chain_head, further),
    decreases further.len(),
{
    let all = addresses + further;
    let front = statuses_of(contracts, chain_head, addresses);
    if further.len() == 0 {
        assert(all =~= addresses);
        assert(front + Seq::<StatusView>::empty() =~= front);
    } else {
        law_statuses_follow_the_addresses(contracts, chain_head, addresses, further.drop_last());
        assert(all.drop_last() =~= addresses + further.drop_last());
        assert(all.last() == further.last());
        let earlier = statuses_of(contracts, chain_head, further.drop_last());
        match stored(contracts, further.last()) {
            Some(contract) => {
                let status = status_of(contract, chain_head);
                assert((front + earlier).push(status) =~= front + earlier.push(status));
            },
            None => {},
        }
    }
}

/// The statuses come in the order of the addresses: each is that of the last
/// contract stored with one of them, and only addresses without a stored
/// contract are passed over.
pub proof fn law_resolved_statuses_are_those_of_the_last_stored(
    chain_head: u64,
    addresses: &[Address],
    contracts: Vec<Contract>,
)
    ensures
        forall|result: Result<(u64, Vec<ContractStatus>), ContractManagementError>| #[trigger]
            call_ensures(
                resolve_contract_statuses,
                (chain_head, addresses, Ok(contracts)),
                result,
            ) ==> {
                &&& result is Ok
                &&& result->Ok_0.0 == chain_head
                &&& exists|places: Seq<int>| #[trigger]
                    told_in_order(
                        status_views(result->Ok_0.1@),
                        contracts@,
                        chain_head,
                        addresses@,
                        places,
                    )
            },
{
    assert forall|result: Result<(u64, Vec<ContractStatus>), ContractManagementError>| #[trigger]
        call_ensures(
            resolve_contract_statuses,
            (chain_head, addresses, Ok(contracts)),
            result,
        ) implies {
        &&& result is Ok
        &&& result->Ok_0.0 == chain_head
        &&& exists|places: Seq<int>| #[trigger]
            told_in_order(
                status_views(result->Ok_0.1@),
                contracts@,
                chain_head,
                addresses@,
                places,
            )
    } by {
        let places = lemma_told_in_order(contracts@, chain_head, addresses@);
        assert(told_in_order(
            status_views(result->Ok_0.1@),
            contracts@,
            chain_head,
            addresses@,
            places,
        ));
    }
}

/// Whether each status tells of the last contract stored with the address at its
/// place among the addresses, the places ascend, and those left out are of
/// addresses without a stored contract.
pub open spec fn told_in_order(
    statuses: Seq<StatusView>,
    contracts: Seq<Contract>,
    chain_head: u64,
    addresses: Seq<Address>,
    places: Seq<int>,
) -> bool {
    &&& places.len() == statuses.len()
    &&& forall|i: int, j: int|
        0 <= i < j < places.len() ==> #[trigger] places[i] < #[trigger] places[j]
    &&& forall|i: int|
        0 <= i < places.len() ==> 0 <= #[trigger] places[i] < addresses.len() && exists|k: int|
            #[trigger] last_with(contracts, addresses[places[i]], k) && tells_of(
                statuses[i],
                contracts[k],
                chain_head,
            )
    &&& forall|j: int|
        0 <= j < addresses.len() && !places.contains(j) ==> none_with(
            contracts,
            #[trigger] addresses[j],
        )
}

/// The statuses for some addresses tell of the last contracts stored with them, in
/// the order of the addresses.
pub proof fn lemma_told_in_order(
    contracts: Seq<Contract>,
    chain_head: u64,
    addresses: Seq<Address>,
) -> (places: Seq<int>)
    ensures
        told_in_order(
            statuses_of(contract_views(contracts), chain_head, address_views(addresses)),
            contracts,
            chain_head,
            addresses,
            places,
        ),
    decreases addresses.len(),
{
    let views = contract_views(contracts);
    let wanted = address_views(addresses);
    let statuses = statuses_of(views, chain_head, wanted);
    if addresses.len() == 0 {
        Seq::empty()
    } else {
        let front = addresses.drop_last();
        let earlier = lemma_told_in_order(contracts, chain_head, front);
        let before = statuses_of(views, chain_head, address_views(front));
        assert(wanted.drop_last() =~= address_views(front));
        let last = addresses.len() - 1;
        law_found_is_the_last_stored(contracts, addresses[last]);
        let places = if stored(views, addresses[last]@) is Some {
            earlier.push(last)
        } else {
            earlier
        };
        assert forall|i: int| 0 <= i < places.len() implies 0 <= #[trigger] places[i]
            < addresses.len() && exists|k: int| #[trigger]
            last_with(contracts, addresses[places[i]], k) && tells_of(
                statuses[i],
                contracts[k],
                chain_head,
            ) by {
            if i < earlier.len() {
                assert(places[i] == earlier[i]);
                assert(statuses[i] == before[i]);
                assert(front[earlier[i]] == addresses[places[i]]);
            }
        }
        assert forall|j: int| 0 <= j < addresses.len() && !places.contains(j) implies none_with(
            contracts,
            #[trigger] addresses[j],
        ) by {
            if j < last {
                if earlier.contains(j) {
                    let i = choose|i: int| 0 <= i < earlier.len() && earlier[i] == j;
                    assert(places[i] == j);
                }
                assert(front[j] == addresses[j]);
            } else if stored(views, addresses[last]@) is Some {
                assert(places[places.len() - 1] == last);
            }
        }
        places
    }
}

/// All contracts are ready just where there is a status for each of the expected
/// number of them, and each of these says that it is ready.
pub proof fn law_all_ready_means_each_is_ready(expected_count: usize, statuses: &[ContractStatus])
    ensures
        forall|ready: bool| #[trigger]
            call_ensures(all_contracts_are_ready, (expected_count, statuses), ready) ==> (ready
                <==> (statuses@.len() == expected_count && forall|i: int|
                0 <= i < statuses@.len() ==> (#[trigger] statuses@[i]).ready)),
{
    assert forall|ready: bool| #[trigger]
        call_ensures(all_contracts_are_ready, (expected_count, statuses), ready) implies (ready
        <==> (statuses@.len() == expected_count && forall|i: int|
        0 <= i < statuses@.len() ==> (#[trigger] statuses@[i]).ready)) by {
        let views = status_views(statuses@);
        assert forall|i: int| 0 <= i < statuses@.len() implies (#[trigger] statuses@[i]).ready
            == views[i].ready by {}
        if statuses@.len() == expected_count && forall|i: int|
            0 <= i < statuses@.len() ==> (#[trigger] statuses@[i]).ready {
            assert forall|i: int| 0 <= i < views.len() implies (#[trigger] views[i]).ready by {
                assert(statuses@[i].ready);
            }
        }
    }
}

/// A query is for all of the addresses and is not narrowed to any types; it is
/// made just where the provider answered, and its failure is passed on else.
pub proof fn law_query_is_for_every_address(
    chain_head: Result<u64, String>,
    addresses: &[Address],
)
    ensures
        forall|result: Result<(u64, ContractQuery), ContractManagementError>| #[trigger]
            call_ensures(query_contracts, (chain_head, addresses), result) ==> {
                &&& result is Ok <==> chain_head is Ok
                &&& chain_head is Ok ==> {
                    &&& result->Ok_0.0 == chain_head->Ok_0
                    &&& result->Ok_0.1.contract_addresses@ == addresses@
                    &&& result->Ok_0.1.contract_types@ == Seq::<crate::contract::ContractType>::empty()
                }
                &&& chain_head is Err ==> result->Err_0 == ContractManagementError::Provider(
                    chain_head->Err_0,
                )
            },
{
}

/// A failure of the storage is passed on as such.
pub proof fn law_storage_failure_is_passed_on(
    chain_head: u64,
    addresses: &[Address],
    cause: String,
)
    ensures
        forall|result: Result<(u64, Vec<ContractStatus>), ContractManagementError>| #[trigger]
            call_ensures(
                resolve_contract_statuses,
                (chain_head, addresses, Err(cause)),
                result,
            ) ==> result is Err && result->Err_0 == ContractManagementError::Storage(cause),
{
}

/// A status in an answer has five members and no more, each with what the status
/// has under that name.
pub proof fn law_status_record_tells_the_status(status: &ContractStatus)
    ensures
        forall|record: JsonRecord| #[trigger]
            call_ensures(ContractStatus::to_json, (status,), record) ==> {
                &&& record@.len() == 5
                &&& record@.contains(("address"@, ScalarView::Text(status.address@)))
                &&& record@.contains(("contract_type"@, ScalarView::Text(status.contract_type@)))
                &&& record@.contains(("head"@, ScalarView::Number(status.head)))
                &&& record@.contains(("chain_head"@, ScalarView::Number(Some(status.chain_head))))
                &&& record@.contains(("ready"@, ScalarView::Bool(status.ready)))
            },
{
    lemma_status_record(status@);
}

/// Whether a flat object has five members and no more, each with what the status
/// has under that name.
pub open spec fn record_tells(
    record: Seq<(Seq<char>, ScalarView)>,
    status: StatusView,
) -> bool {
    &&& record.len() == 5
    &&& record.contains(("address"@, ScalarView::Text(status.address)))
    &&& record.contains(("contract_type"@, ScalarView::Text(status.contract_type)))
    &&& record.contains(("head"@, ScalarView::Number(status.head)))
    &&& record.contains(("chain_head"@, ScalarView::Number(Some(status.chain_head))))
    &&& record.contains(("ready"@, ScalarView::Bool(status.ready)))
}

/// A status in an answer tells the status.
pub proof fn lemma_status_record(status: StatusView)
    ensures
        record_tells(status_record(status), status),
{
    let record = status_record(status);
    assert(record[0] == ("address"@, ScalarView::Text(status.address)));
    assert(record[1] == ("contract_type"@, ScalarView::Text(status.contract_type)));
    assert(record[2] == ("head"@, ScalarView::Number(status.head)));
    assert(record[3] == ("chain_head"@, ScalarView::Number(Some(status.chain_head))));
    assert(record[4] == ("ready"@, ScalarView::Bool(status.ready)));
}

} // verus!
