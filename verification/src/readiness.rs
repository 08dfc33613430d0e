//! Whether the contracts that the service was started with are indexed.

use std::sync::Arc;

use crate::address::Address;
use crate::contract::{Contract, ContractQuery, ContractView};
use crate::control::ContractManagementError;
use crate::json::{field, text, FieldView, JsonBody, JsonField, JsonRecord, JsonScalar, ScalarView};
use crate::request::Method;
use crate::response::{
    error_response, Reply, ReplyView, METHOD_NOT_ALLOWED, OK, SERVICE_UNAVAILABLE,
};
use crate::status::{
    all_contracts_are_ready, query_contracts, resolve_contract_statuses, ContractStatus, StatusView,
};
use crate::text::same_text;
use vstd::prelude::*;

verus! {

/// The answer to any method but GET.
pub open spec fn only_get_reply() -> ReplyView {
    crate::response::error_reply(
        METHOD_NOT_ALLOWED,
        "method_not_allowed"@,
        "readiness only supports GET"@,
    )
}

/// The answer where the provider or the storage failed.
pub open spec fn unavailable_reply() -> ReplyView {
    crate::response::error_reply(
        SERVICE_UNAVAILABLE,
        "readiness_unavailable"@,
        "unable to resolve indexer readiness"@,
    )
}

/// The answer for so many expected contracts, of which these have a status.
pub open spec fn readiness_reply(
    expected_count: nat,
    chain_head: u64,
    statuses: Seq<StatusView>,
) -> ReplyView {
    let ready = crate::status::all_ready(expected_count, statuses);
    ReplyView {
        status: if ready {
            OK
        } else {
            SERVICE_UNAVAILABLE
        },
        body: seq![
            ("success"@, FieldView::Scalar(ScalarView::Bool(ready))),
            (
                "status"@,
                FieldView::Scalar(
                    ScalarView::Text(
                        if ready {
                            "ready"@
                        } else {
                            "indexing"@
                        },
                    ),
                ),
            ),
            (
                "chain_head"@,
                FieldView::Scalar(ScalarView::Number(Some(chain_head))),
            ),
            (
                "contracts"@,
                FieldView::Records(
                    statuses.map_values(
                        |status: StatusView| crate::status::status_record(status),
                    ),
                ),
            ),
        ],
    }
}

/// What is to be done next for a readiness request.
#[derive(Debug)]
pub enum ReadinessStep {
    /// Ask the provider for the number of the chain's last block.
    AskProvider,
    /// Put the query to the storage.
    AskStorage { chain_head: u64, query: ContractQuery },
    /// Send the answer.
    Respond(Reply),
}

/// Answers readiness requests about the contracts that the service was started
/// with.
#[derive(Debug)]
pub struct ReadinessHandler<P, S> {
    pub provider: P,
    pub storage: Arc<S>,
    pub startup_contracts: Vec<Address>,
}

impl<P, S> ReadinessHandler<P, S> {
    pub fn new(provider: P, storage: Arc<S>, startup_contracts: Vec<Address>) -> (handler: Self)
        ensures
            handler.provider == provider,
            handler.storage == storage,
            handler.startup_contracts == startup_contracts,
    {
        ReadinessHandler { provider, storage, startup_contracts }
    }

    /// Whether requests with this path are for this handler.
    pub fn should_handle(&self, path: &str) -> (handled: bool)
        ensures
            handled == (path@ == "/ready"@),
    {
        same_text(path, "/ready")
    }

    /// Begins with a request.
    pub fn handle(&self, method: Method) -> (step: ReadinessStep)
        ensures
            if method == Method::Get {
                step is AskProvider
            } else {
                step matches ReadinessStep::Respond(reply) && reply@ == only_get_reply()
            },
    {
        if method == Method::Get {
            ReadinessStep::AskProvider
        } else {
            ReadinessStep::Respond(
                error_response(
                    METHOD_NOT_ALLOWED,
                    "method_not_allowed",
                    "readiness only supports GET",
                ),
            )
        }
    }

    /// Goes on with what the provider answered.
    pub fn chain_head_answered(&self, chain_head: Result<u64, String>) -> (step: ReadinessStep)
        ensures
            match chain_head {
                Ok(chain_head) => step matches ReadinessStep::AskStorage { chain_head: head, query }
                    && head == chain_head && query.contract_addresses@ == self.startup_contracts@
                    && query.contract_types@.len() == 0,
                Err(_) => step matches ReadinessStep::Respond(reply) && reply@
                    == unavailable_reply(),
            },
    {
        match query_contracts(chain_head, self.startup_contracts.as_slice()) {
            Ok((chain_head, query)) => ReadinessStep::AskStorage { chain_head, query },
            Err(error) => ReadinessStep::Respond(
                readiness_response(self.startup_contracts.len(), Err(error)),
            ),
        }
    }

    /// Ends with what the storage answered.
    pub fn contracts_answered(
        &self,
        chain_head: u64,
        contracts: Result<Vec<Contract>, String>,
    ) -> (reply: Reply)
        ensures
            match contracts {
                Ok(contracts) => reply@ == readiness_reply(
                    self.startup_contracts@.len(),
                    chain_head,
                    crate::status::statuses_of(
                        crate::status::contract_views(contracts@),
                        chain_head,
                        crate::status::address_views(self.startup_contracts@),
                    ),
                ),
                Err(_) => reply@ == unavailable_reply(),
            },
    {
        let resolved = resolve_contract_statuses(
            chain_head,
            self.startup_contracts.as_slice(),
            contracts,
        );
        readiness_response(self.startup_contracts.len(), resolved)
    }
}

/// Answers a readiness request about so many expected contracts, of which these
/// have a status.
pub fn readiness_response(
    expected_count: usize,
    resolved: Result<(u64, Vec<ContractStatus>), ContractManagementError>,
) -> (reply: Reply)
    ensures
        match resolved {
            Ok((chain_head, statuses)) => reply@ == readiness_reply(
                expected_count as nat,
                chain_head,
                crate::status::status_views(statuses@),
            ),
            Err(_) => reply@ == unavailable_reply(),
        },
{
    let (chain_head, statuses) = match resolved {
        Ok((chain_head, statuses)) => (chain_head, statuses),
        Err(_) => {
            return error_response(
                SERVICE_UNAVAILABLE,
                "readiness_unavailable",
                "unable to resolve indexer readiness",
            );
        },
    };
    let ready = all_contracts_are_ready(expected_count, statuses.as_slice());
    let ghost views = crate::status::status_views(statuses@);
    let ghost wanted = views.map_values(
        |status: StatusView| crate::status::status_record(status),
    );
    let mut records: Vec<JsonRecord> = Vec::new();
    let mut i: usize = 0;
    while i < statuses.len()
        invariant
            i <= statuses@.len(),
            views == crate::status::status_views(statuses@),
            wanted == views.map_values(
                |status: StatusView| crate::status::status_record(status),
            ),
            records@.map_values(|record: JsonRecord| record@) =~= wanted.take(i as int),
        decreases statuses@.len() - i,
    {
        let record = statuses[i].to_json();
        let ghost before = records@.map_values(|record: JsonRecord| record@);
        records.push(record);
        assert(records@.map_values(|record: JsonRecord| record@) =~= before.push(record@));
        assert(wanted.take(i + 1) =~= wanted.take(i as int).push(wanted[i as int]));
        i = i + 1;
    }
    assert(wanted.take(i as int) =~= wanted);
    let body = JsonBody {
        members: vec![
            field("success", JsonField::Scalar(JsonScalar::Bool(ready))),
            field("status", JsonField::Scalar(text(if ready { "ready" } else { "indexing" }))),
            field("chain_head", JsonField::Scalar(JsonScalar::Number(Some(chain_head)))),
            field("contracts", JsonField::Records(records)),
        ],
    };
    assert(body@ =~= readiness_reply(expected_count as nat, chain_head, views).body);
    Reply { status: if ready { OK } else { SERVICE_UNAVAILABLE }, body }
}

/// The service is ready, and says so, just when every contract that it was
/// started with is stored and indexed up to the head of the chain; until then it
/// answers that it is unavailable.
pub proof fn law_ready_when_every_startup_contract_is_indexed(
    contracts: Seq<ContractView>,
    chain_head: u64,
    startup: Seq<nat>,
)
    ensures
        ({
            let reply = readiness_reply(
                startup.len(),
                chain_head,
                crate::status::statuses_of(contracts, chain_head, startup),
            );
            let every = forall|i: int|
                0 <= i < startup.len() ==> crate::status::indexed(
                    contracts,
                    chain_head,
                    #[trigger] startup[i],
                );
            &&& reply.status == OK <==> every
            &&& reply.status == SERVICE_UNAVAILABLE <==> !every
            &&& reply.body[0].1 == FieldView::Scalar(
                ScalarView::Bool(every),
            )
        }),
{
    crate::status::law_ready_means_every_contract_is_indexed(contracts, chain_head, startup);
}

/// The service answers that it is ready just when, for every contract that it was
/// started with, the last contract stored with the address is indexed up to the
/// head of the chain or further; in every other case it answers that it is
/// unavailable. Either way the answer has four members: whether it is ready, as a
/// boolean and as a word, the head of the chain, and the statuses of the stored
/// contracts in the order of the addresses.
pub proof fn law_ready_just_when_every_startup_contract_has_caught_up<P, S>(
    handler: &ReadinessHandler<P, S>,
    chain_head: u64,
    contracts: Vec<Contract>,
)
    ensures
        forall|reply: Reply| #[trigger]
            call_ensures(
                ReadinessHandler::<P, S>::contracts_answered,
                (handler, chain_head, Ok(contracts)),
                reply,
            ) ==> {
                let startup = handler.startup_contracts@;
                let every = forall|i: int|
                    0 <= i < startup.len() ==> caught_up_in(
                        contracts@,
                        chain_head,
                        #[trigger] startup[i],
                    );
                &&& reply.status == 200 <==> every
                &&& reply.status == 503 <==> !every
                &&& reply.body@.len() == 4
                &&& reply.body@.contains(("success"@, FieldView::Scalar(ScalarView::Bool(every))))
                &&& every ==> reply.body@.contains(
                    ("status"@, FieldView::Scalar(ScalarView::Text("ready"@))),
                )
                &&& !every ==> reply.body@.contains(
                    ("status"@, FieldView::Scalar(ScalarView::Text("indexing"@))),
                )
                &&& reply.body@.contains(
                    ("chain_head"@, FieldView::Scalar(ScalarView::Number(Some(chain_head)))),
                )
                &&& exists|statuses: Seq<StatusView>, places: Seq<int>| #[trigger]
                    crate::status::told_in_order(
                        statuses,
                        contracts@,
                        chain_head,
                        startup,
                        places,
                    ) && lists(reply.body@, statuses)
            },
{
    let startup = handler.startup_contracts@;
    let stored = crate::status::contract_views(contracts@);
    let wanted = crate::status::address_views(startup);
    let statuses = crate::status::statuses_of(stored, chain_head, wanted);
    let places = crate::status::lemma_told_in_order(contracts@, chain_head, startup);
    crate::status::law_ready_means_every_contract_is_indexed(stored, chain_head, wanted);
    assert forall|i: int| 0 <= i < startup.len() implies crate::status::indexed(
        stored,
        chain_head,
        wanted[i],
    ) == caught_up_in(contracts@, chain_head, #[trigger] startup[i]) by {
        crate::status::law_found_is_the_last_stored(contracts@, startup[i]);
        let address = startup[i];
        if caught_up_in(contracts@, chain_head, address) {
            let k = choose|k: int| #[trigger]
                crate::status::last_with(contracts@, address, k) && contracts@[k].head is Some
                    && contracts@[k].head->0 >= chain_head;
            crate::status::lemma_last_is_found(contracts@, address, k);
        }
    }
    let every = forall|i: int|
        0 <= i < startup.len() ==> caught_up_in(contracts@, chain_head, #[trigger] startup[i]);
    if every {
        assert forall|i: int| 0 <= i < wanted.len() implies crate::status::indexed(
            stored,
            chain_head,
            #[trigger] wanted[i],
        ) by {
            assert(caught_up_in(contracts@, chain_head, startup[i]));
        }
    } else {
        let i = choose|i: int|
            0 <= i < startup.len() && !caught_up_in(contracts@, chain_head, #[trigger] startup[i]);
        assert(!crate::status::indexed(stored, chain_head, wanted[i]));
    }
    lemma_readiness_members(startup.len(), chain_head, statuses);
    assert(crate::status::told_in_order(statuses, contracts@, chain_head, startup, places));
}

/// Whether the last contract stored with an address is indexed up to the head of
/// the chain or further.
pub open spec fn caught_up_in(contracts: Seq<Contract>, chain_head: u64, address: Address) -> bool {
    exists|k: int| #[trigger]
        crate::status::last_with(contracts, address, k) && contracts[k].head is Some
            && contracts[k].head->0 >= chain_head
}

/// Whether a body lists these statuses as its contracts, in their order.
pub open spec fn lists(body: Seq<(Seq<char>, FieldView)>, statuses: Seq<StatusView>) -> bool {
    exists|records: Seq<Seq<(Seq<char>, ScalarView)>>|
        {
            &&& #[trigger] body.contains(("contracts"@, FieldView::Records(records)))
            &&& records.len() == statuses.len()
            &&& forall|i: int|
                0 <= i < records.len() ==> crate::status::record_tells(
                    #[trigger] records[i],
                    statuses[i],
                )
        }
}

proof fn lemma_readiness_members(
    expected_count: nat,
    chain_head: u64,
    statuses: Seq<StatusView>,
)
    ensures
        ({
            let reply = readiness_reply(expected_count, chain_head, statuses);
            let ready = crate::status::all_ready(expected_count, statuses);
            &&& reply.body.len() == 4
            &&& reply.body.contains(("success"@, FieldView::Scalar(ScalarView::Bool(ready))))
            &&& ready ==> reply.body.contains(
                ("status"@, FieldView::Scalar(ScalarView::Text("ready"@))),
            )
            &&& !ready ==> reply.body.contains(
                ("status"@, FieldView::Scalar(ScalarView::Text("indexing"@))),
            )
            &&& reply.body.contains(
                ("chain_head"@, FieldView::Scalar(ScalarView::Number(Some(chain_head)))),
            )
            &&& lists(reply.body, statuses)
        }),
{
    let reply = readiness_reply(expected_count, chain_head, statuses);
    let body = reply.body;
    let ready = crate::status::all_ready(expected_count, statuses);
    assert(body[0] == ("success"@, FieldView::Scalar(ScalarView::Bool(ready))));
    if ready {
        assert(body[1] == ("status"@, FieldView::Scalar(ScalarView::Text("ready"@))));
    } else {
        assert(body[1] == ("status"@, FieldView::Scalar(ScalarView::Text("indexing"@))));
    }
    assert(body[2] == ("chain_head"@, FieldView::Scalar(ScalarView::Number(Some(chain_head)))));
    let records = body[3].1->Records_0;
    assert(body[3] == ("contracts"@, FieldView::Records(records)));
    assert forall|i: int| 0 <= i < records.len() implies crate::status::record_tells(
        #[trigger] records[i],
        statuses[i],
    ) by {
        crate::status::lemma_status_record(statuses[i]);
    }
    assert(body.contains(("contracts"@, FieldView::Records(records))));
}

/// Where the statuses are at hand, the answer is that the service is ready just
/// where there are as many as expected and each of them says ready.
pub proof fn law_readiness_follows_the_statuses(
    expected_count: usize,
    chain_head: u64,
    statuses: Vec<ContractStatus>,
)
    ensures
        forall|reply: Reply| #[trigger]
            call_ensures(
                readiness_response,
                (expected_count, Ok((chain_head, statuses))),
                reply,
            ) ==> {
                let every = statuses@.len() == expected_count && forall|i: int|
                    0 <= i < statuses@.len() ==> (#[trigger] statuses@[i]).ready;
                &&& reply.status == (if every {
                    200u16
                } else {
                    503u16
                })
                &&& reply.body@.len() == 4
                &&& reply.body@.contains(("success"@, FieldView::Scalar(ScalarView::Bool(every))))
                &&& reply.body@.contains(
                    (
                        "status"@,
                        FieldView::Scalar(
                            ScalarView::Text(
                                if every {
                                    "ready"@
                                } else {
                                    "indexing"@
                                },
                            ),
                        ),
                    ),
                )
                &&& reply.body@.contains(
                    ("chain_head"@, FieldView::Scalar(ScalarView::Number(Some(chain_head)))),
                )
                &&& lists(reply.body@, crate::status::status_views(statuses@))
            },
{
    let views = crate::status::status_views(statuses@);
    lemma_readiness_members(expected_count as nat, chain_head, views);
    assert forall|i: int| 0 <= i < statuses@.len() implies (#[trigger] statuses@[i]).ready
        == views[i].ready by {}
    if statuses@.len() == expected_count && forall|i: int|
        0 <= i < statuses@.len() ==> (#[trigger] statuses@[i]).ready {
        assert forall|i: int| 0 <= i < views.len() implies (#[trigger] views[i]).ready by {
            assert(statuses@[i].ready);
        }
    }
}

/// Where the provider or the storage fails, the answer is that readiness cannot
/// be told.
pub proof fn law_failures_make_readiness_unavailable<P, S>(
    handler: &ReadinessHandler<P, S>,
    chain_head: u64,
    cause: String,
    expected_count: usize,
    error: ContractManagementError,
)
    ensures
        forall|step: ReadinessStep| #[trigger]
            call_ensures(
                ReadinessHandler::<P, S>::chain_head_answered,
                (handler, Err(cause)),
                step,
            ) ==> step is Respond && step->Respond_0@ == crate::response::error_reply(
                503,
                "readiness_unavailable"@,
                "unable to resolve indexer readiness"@,
            ),
        forall|reply: Reply| #[trigger]
            call_ensures(
                ReadinessHandler::<P, S>::contracts_answered,
                (handler, chain_head, Err(cause)),
                reply,
            ) ==> reply@ == crate::response::error_reply(
                503,
                "readiness_unavailable"@,
                "unable to resolve indexer readiness"@,
            ),
        forall|reply: Reply| #[trigger]
            call_ensures(readiness_response, (expected_count, Err(error)), reply) ==> reply@
                == crate::response::error_reply(
                503,
                "readiness_unavailable"@,
                "unable to resolve indexer readiness"@,
            ),
{
}

/// With the head of the chain at hand, the storage is asked for every contract
/// that the service was started with, whatever its type.
pub proof fn law_storage_is_asked_for_every_startup_contract<P, S>(
    handler: &ReadinessHandler<P, S>,
    chain_head: u64,
)
    ensures
        forall|step: ReadinessStep| #[trigger]
            call_ensures(
                ReadinessHandler::<P, S>::chain_head_answered,
                (handler, Ok(chain_head)),
                step,
            ) ==> {
                &&& step is AskStorage
                &&& step->AskStorage_chain_head == chain_head
                &&& step->query.contract_addresses@ == handler.startup_contracts@
                &&& step->query.contract_types@.len() == 0
            },
{
}

/// Only GET asks for readiness, and only under its own path; any other method is
/// answered that it is not allowed.
pub proof fn law_readiness_is_asked_by_get<P, S>(
    handler: &ReadinessHandler<P, S>,
    path: &str,
    method: Method,
)
    ensures
        forall|handled: bool| #[trigger]
            call_ensures(ReadinessHandler::<P, S>::should_handle, (handler, path), handled) ==> (
            handled <==> path@ == "/ready"@),
        forall|step: ReadinessStep| #[trigger]
            call_ensures(ReadinessHandler::<P, S>::handle, (handler, method), step) ==> {
                &&& step is AskProvider <==> method is Get
                &&& !(method is Get) ==> step is Respond && step->Respond_0@
                    == crate::response::error_reply(
                    405,
                    "method_not_allowed"@,
                    "readiness only supports GET"@,
                )
            },
{
}

/// A handler works with what it was made with.
pub proof fn law_readiness_handler_keeps_its_parts<P, S>(
    provider: P,
    storage: Arc<S>,
    startup_contracts: Vec<Address>,
)
    ensures
        forall|handler: ReadinessHandler<P, S>| #[trigger]
            call_ensures(
                ReadinessHandler::<P, S>::new,
                (provider, storage, startup_contracts),
                handler,
            ) ==> handler.provider == provider && handler.storage == storage
                && handler.startup_contracts == startup_contracts,
{
}

} // verus!
