use cosmos_sdk_proto::cosmos::bank::v1beta1::MsgSend as ProtoMsgSend;
use cosmos_sdk_proto::cosmos::base::v1beta1::Coin as ProtoCoin;
use cosmos_sdk_proto::cosmos::tx::v1beta1::{TxBody as ProtoTxBody, TxRaw};
use cosmos_sdk_proto::traits::Message;
use cosmos_sdk_proto::Any as ProtoAny;
use crossfund::contract::{execute, query, sudo};
use crossfund::error::ContractError;
use crossfund::msg::{
    ApplicationSubmission, BlockInfo, Coin, ContractInfo, Env, ExecuteMsg, MessageInfo,
    OutboundMsg, QueryMsg, QueryResponse, Response,
};
use crossfund::storage::{
    AcknowledgementResult, CustodyFunds, Expiration, GoodFee, Ledger, SudoPayload,
};
use crossfund::sudo::{OpenAckVersion, RequestPacket, SudoMsg};

fn env() -> Env {
    Env {
        block: BlockInfo { height: 500, time: 9_000 },
        contract: ContractInfo { address: "neutron1contract".to_string() },
    }
}

fn from(sender: &str, funds: Vec<Coin>) -> MessageInfo {
    MessageInfo { sender: sender.to_string(), funds }
}

fn run(ledger: &mut Ledger, sender: &str, funds: Vec<Coin>, msg: ExecuteMsg) -> Response {
    execute(ledger, env(), from(sender, funds), msg).unwrap()
}

fn application() -> ApplicationSubmission {
    ApplicationSubmission {
        applicants: vec![GoodFee { recipient: "alice".to_string(), percent_share: 60 }],
        auditors: vec![
            GoodFee { recipient: "bob".to_string(), percent_share: 25 },
            GoodFee { recipient: "carol".to_string(), percent_share: 15 },
        ],
        deliver_by: Expiration::AtTime(9_001),
    }
}

#[test]
fn a_proposal_runs_from_submission_to_payout() {
    let mut ledger = Ledger::new();
    let untrn = |amount| vec![Coin { denom: "untrn".to_string(), amount }];
    let alice = "alice".to_string();

    run(
        &mut ledger,
        "dave",
        vec![],
        ExecuteMsg::SubmitProposal { title: "T".to_string(), description: "D".to_string() },
    );
    run(
        &mut ledger,
        "alice",
        vec![],
        ExecuteMsg::SubmitApplication { proposal_id: 0, application: application() },
    );
    run(
        &mut ledger,
        "dave",
        untrn(1_000),
        ExecuteMsg::FundProposal { proposal_id: 0, auto_agree: None },
    );
    run(
        &mut ledger,
        "erin",
        untrn(333),
        ExecuteMsg::FundProposal { proposal_id: 0, auto_agree: Some(false) },
    );
    run(
        &mut ledger,
        "dave",
        vec![],
        ExecuteMsg::ApproveApplication { proposal_id: 0, application_sender: alice.clone() },
    );
    run(
        &mut ledger,
        "erin",
        vec![],
        ExecuteMsg::ApproveApplication { proposal_id: 0, application_sender: alice.clone() },
    );
    run(
        &mut ledger,
        "alice",
        vec![],
        ExecuteMsg::AcceptApplication { proposal_id: 0, application_sender: alice.clone() },
    );
    run(
        &mut ledger,
        "bob",
        vec![],
        ExecuteMsg::VerifyApplication {
            proposal_id: 0,
            application_sender: alice.clone(),
            stop_at: None,
        },
    );
    assert_eq!(
        execute(&mut ledger, env(), from("alice", vec![]), ExecuteMsg::WithdrawFunds {}),
        Err(ContractError::NoFunds)
    );
    run(
        &mut ledger,
        "carol",
        vec![],
        ExecuteMsg::VerifyApplication {
            proposal_id: 0,
            application_sender: alice.clone(),
            stop_at: Some(7),
        },
    );

    let held = |who: &str| match query(
        &ledger,
        env(),
        QueryMsg::AddressFunds { address: who.to_string(), skip_locked: Some(true) },
    ) {
        Ok(QueryResponse::AddressFunds(funds)) => funds,
        other => panic!("{:?}", other),
    };
    let credit = |amount| {
        vec![(
            "untrn".to_string(),
            CustodyFunds { amount, proposal_id: 0, locked: false, remote: None },
        )]
    };
    assert_eq!(held("alice"), credit(799));
    assert_eq!(held("bob"), credit(333));
    assert_eq!(held("carol"), credit(199));
    assert_eq!(held("dave"), vec![]);
    assert_eq!(held("erin"), vec![]);
    assert_eq!(799 + 333 + 199, 1_333 - 2);

    assert_eq!(
        run(&mut ledger, "bob", vec![], ExecuteMsg::WithdrawFunds {}),
        Response {
            messages: vec![OutboundMsg::Send {
                to_address: "bob".to_string(),
                denom: "untrn".to_string(),
                amount: 333
            }]
        }
    );
    assert_eq!(
        execute(&mut ledger, env(), from("bob", vec![]), ExecuteMsg::WithdrawFunds {}),
        Err(ContractError::NoFunds)
    );
    assert_eq!(crossfund::query::query_address_funds(&ledger, &"bob".to_string(), false), vec![]);
    match query(&ledger, env(), QueryMsg::AllProposals {}) {
        Ok(QueryResponse::AllProposals(all)) => {
            assert_eq!(all.proposals.len(), 1);
            assert_eq!(all.proposals[0].funding[0].1.amount, 1_333);
            assert_eq!(all.proposals[0].applications[0].1.verifications.len(), 2);
        }
        other => panic!("{:?}", other),
    }
    assert_eq!(
        query(&ledger, env(), QueryMsg::Proposal { proposal_id: 1 }),
        Err(ContractError::ProposalNotFound)
    );
    assert!(ledger.is_wf());
}

#[test]
fn a_refused_command_leaves_the_ledger_as_it_was() {
    let mut ledger = Ledger::new();
    let mut late = application();
    late.deliver_by = Expiration::AtTime(9_000);
    assert_eq!(
        execute(
            &mut ledger,
            env(),
            from("alice", vec![]),
            ExecuteMsg::SubmitApplication { proposal_id: 0, application: late }
        ),
        Err(ContractError::InvalidApplication)
    );
    assert_eq!(
        execute(
            &mut ledger,
            env(),
            from("dave", vec![]),
            ExecuteMsg::ApproveApplication {
                proposal_id: 0,
                application_sender: "alice".to_string()
            }
        ),
        Err(ContractError::CantVote)
    );
    assert_eq!(ledger, Ledger::new());
}

#[test]
fn an_interchain_account_is_registered_opened_and_funded() {
    let mut ledger = Ledger::new();
    let registered = run(
        &mut ledger,
        "dave",
        vec![],
        ExecuteMsg::RegisterICA { proposal_id: 4, connection_id: "connection-2".to_string() },
    );
    assert_eq!(
        registered.messages,
        vec![OutboundMsg::RegisterInterchainAccount {
            connection_id: "connection-2".to_string(),
            interchain_account_id: "4".to_string()
        }]
    );
    assert_eq!(
        query(&ledger, env(), QueryMsg::InterchainAccountAddressFromContract { proposal_id: 4 }),
        Err(ContractError::InterchainAccountNotCreated)
    );

    let opened = sudo(
        &mut ledger,
        env(),
        SudoMsg::OpenAck {
            port_id: "icacontroller-neutron1contract.4".to_string(),
            channel_id: "channel-1".to_string(),
            counterparty_channel_id: "channel-8".to_string(),
            counterparty_version: Some(OpenAckVersion {
                version: "ics27-1".to_string(),
                controller_connection_id: "connection-2".to_string(),
                host_connection_id: "connection-11".to_string(),
                address: "cosmos1remote".to_string(),
                encoding: "proto3".to_string(),
                tx_type: "sdk_multi_msg".to_string(),
            }),
        },
    )
    .unwrap();
    assert_eq!(opened.messages.len(), 1);
    assert_eq!(
        query(&ledger, env(), QueryMsg::InterchainAccountAddressFromContract { proposal_id: 4 }),
        Ok(QueryResponse::InterchainAccountAddress {
            address: "cosmos1remote".to_string(),
            connection_id: "connection-2".to_string()
        })
    );

    let send = ProtoMsgSend {
        from_address: "cosmos1alice".to_string(),
        to_address: "cosmos1remote".to_string(),
        amount: vec![ProtoCoin { denom: "uatom".to_string(), amount: "42".to_string() }],
    };
    let body = ProtoTxBody {
        messages: vec![ProtoAny {
            type_url: "/cosmos.bank.v1beta1.MsgSend".to_string(),
            value: send.encode_to_vec(),
        }],
        memo: "auto_agree".to_string(),
        timeout_height: 0,
        extension_options: vec![],
        non_critical_extension_options: vec![],
    };
    let data = TxRaw { body_bytes: body.encode_to_vec(), auth_info_bytes: vec![], signatures: vec![] }
        .encode_to_vec();
    let filter = r#"[{"field":"transfer.recipient","op":"Eq","value":"cosmos1remote"}]"#;
    let delivered = SudoMsg::TxQueryResult { transactions_filter: filter.to_string(), data };
    assert_eq!(sudo(&mut ledger, env(), delivered.clone()), Ok(Response::default()));
    let after_first = ledger.custody_funds.entries.clone();
    assert_eq!(sudo(&mut ledger, env(), delivered), Ok(Response::default()));
    assert_eq!(ledger.custody_funds.entries, after_first);
    assert_eq!(
        after_first,
        vec![(
            ("cosmos1alice".to_string(), "uatom".to_string()),
            CustodyFunds {
                amount: 42,
                proposal_id: 4,
                locked: false,
                remote: Some("icacontroller-neutron1contract.4".to_string())
            }
        )]
    );
    assert!(ledger.proposal_funding.entries[0].1.auto_agree);
}

#[test]
fn notifications_of_failures_are_routed() {
    let mut ledger = Ledger::new();
    ledger.sudo_payloads.insert(
        ("channel-1".to_string(), 3),
        SudoPayload {
            message: "send".to_string(),
            port_id: "icacontroller-neutron1contract.4".to_string(),
        },
    );
    let packet = |sequence| RequestPacket {
        sequence: Some(sequence),
        source_channel: Some("channel-1".to_string()),
    };
    assert_eq!(
        sudo(
            &mut ledger,
            env(),
            SudoMsg::Error { request: packet(3), details: "codespace: x".to_string() }
        ),
        Ok(Response::default())
    );
    assert_eq!(
        sudo(&mut ledger, env(), SudoMsg::Timeout { request: packet(3) }),
        Err(ContractError::DuplicateAcknowledgement)
    );
    assert_eq!(
        sudo(&mut ledger, env(), SudoMsg::Timeout { request: packet(4) }),
        Ok(Response::default())
    );
    assert_eq!(
        query(
            &ledger,
            env(),
            QueryMsg::AcknowledgementResult { sequence_id: 3, proposal_id: 4 }
        ),
        Ok(QueryResponse::AcknowledgementResult(Some(AcknowledgementResult::Error((
            "send".to_string(),
            "codespace: x".to_string()
        )))))
    );
    assert_eq!(
        query(&ledger, env(), QueryMsg::ErrorsQueue {}),
        Ok(QueryResponse::ErrorsQueue(vec![(
            vec![0, 0, 0, 0],
            "WASMDEBUG: Error: Unable to read sudo payload".to_string()
        )]))
    );
}

#[test]
fn other_notifications_change_nothing() {
    let mut ledger = Ledger::new();
    let request = RequestPacket { sequence: None, source_channel: None };
    assert_eq!(
        sudo(&mut ledger, env(), SudoMsg::Response { request, data: vec![1, 2] }),
        Ok(Response::default())
    );
    assert_eq!(
        sudo(&mut ledger, env(), SudoMsg::KVQueryResult { query_id: 9 }),
        Ok(Response::default())
    );
    assert_eq!(ledger, Ledger::new());
}

#[test]
fn a_subscription_is_registered_on_request() {
    let mut ledger = Ledger::new();
    let r = run(
        &mut ledger,
        "dave",
        vec![],
        ExecuteMsg::TempRegister {
            connection_id: "connection-2".to_string(),
            recipient: "cosmos1remote".to_string(),
            update_period: 10,
            min_height: Some(77),
        },
    );
    match &r.messages[..] {
        [OutboundMsg::RegisterInterchainQuery(q)] => {
            assert_eq!(q.connection_id, "connection-2");
            assert_eq!(q.update_period, 10);
            assert_eq!(q.filter.len(), 2);
        }
        other => panic!("{:?}", other),
    }
    assert_eq!(ledger, Ledger::new());
}
