use crossfund::error::ContractError;
use crossfund::interchain_queries::{
    new_register_transfers_query_msg, register_transfers_query_msg, TransactionFilterItem,
    TransactionFilterOp, TransactionFilterValue, TransfersQuery,
};
use crossfund::msg::{BlockInfo, Coin, ContractInfo, Env, OutboundMsg, Response};
use crossfund::query::{
    get_ica, query_acknowledgement_result, query_errors_queue, query_interchain_address_contract,
};
use crossfund::storage::{
    add_error_to_queue, read_errors_from_queue, read_reply_payload, read_sudo_payload,
    save_reply_payload, save_sudo_payload, AcknowledgementResult, Ledger, SudoPayload,
    DEFAULT_UPDATE_PERIOD, SUDO_PAYLOAD_REPLY_ID,
};
use crossfund::contract::reply;
use crossfund::sudo::{
    get_proposal_id, prepare_sudo_payload, sudo_error, sudo_open_ack, sudo_timeout,
    OpenAckVersion, Reply, RequestPacket,
};
use crossfund::temp::register_transfers_query;
use crossfund::utils::{hash_data, min_ntrn_ibc_fee, IbcFee};

fn env() -> Env {
    Env {
        block: BlockInfo { height: 77, time: 1_000 },
        contract: ContractInfo { address: "neutron1contract".to_string() },
    }
}

fn payload(message: &str, port_id: &str) -> SudoPayload {
    SudoPayload { message: message.to_string(), port_id: port_id.to_string() }
}

fn packet(sequence: Option<u64>, channel: Option<&str>) -> RequestPacket {
    RequestPacket { sequence, source_channel: channel.map(|c| c.to_string()) }
}

#[test]
fn test_query_errors_queue() {
    let mut ledger = Ledger::new();

    let result = query_errors_queue(&ledger);

    assert_eq!(0, result.len());

    let error_msg = "Error message".to_string();

    ledger.errors_queue.push(error_msg);

    let result = query_errors_queue(&ledger);

    assert_eq!(1, result.len());
}

#[test]
fn test_errors_queue() {
    let mut store = Ledger::new();

    let errors = read_errors_from_queue(&store);

    assert_eq!(0, errors.len());

    let error = "some error message".to_string();

    add_error_to_queue(&mut store, error.clone()).unwrap();

    let errors = read_errors_from_queue(&store);

    assert_eq!(1, errors.len());
    assert_eq!(errors, vec![(0u32.to_be_bytes().to_vec(), error.clone())]);

    add_error_to_queue(&mut store, error.clone()).unwrap();
    add_error_to_queue(&mut store, error.clone()).unwrap();

    let errors = read_errors_from_queue(&store);

    assert_eq!(3, errors.len());
    assert_eq!(
        errors,
        vec![
            (0u32.to_be_bytes().to_vec(), error.clone()),
            (1u32.to_be_bytes().to_vec(), error.clone()),
            (2u32.to_be_bytes().to_vec(), error)
        ]
    );
}

#[test]
fn error_indices_are_big_endian() {
    let mut ledger = Ledger::new();
    for i in 0..300u32 {
        add_error_to_queue(&mut ledger, format!("e{}", i)).unwrap();
    }
    let errors = read_errors_from_queue(&ledger);
    assert_eq!(errors[255], (vec![0, 0, 0, 255], "e255".to_string()));
    assert_eq!(errors[256], (vec![0, 0, 1, 0], "e256".to_string()));
    assert_eq!(errors[299], (299u32.to_be_bytes().to_vec(), "e299".to_string()));
}

#[test]
fn reply_payload_is_kept_until_replaced() {
    let mut ledger = Ledger::new();
    assert_eq!(read_reply_payload(&ledger), Err(ContractError::NoReplyPayload));
    save_reply_payload(&mut ledger, payload("first", "port-a"));
    save_reply_payload(&mut ledger, payload("second", "port-b"));
    assert_eq!(read_reply_payload(&ledger), Ok(payload("second", "port-b")));
}

#[test]
fn sudo_payload_is_found_under_channel_and_sequence() {
    let mut ledger = Ledger::new();
    save_sudo_payload(&mut ledger, "channel-0".to_string(), 4, payload("m", "p"));
    assert_eq!(read_sudo_payload(&ledger, "channel-0".to_string(), 4), Ok(payload("m", "p")));
    assert_eq!(
        read_sudo_payload(&ledger, "channel-0".to_string(), 5),
        Err(ContractError::SudoPayloadNotFound)
    );
    assert_eq!(
        read_sudo_payload(&ledger, "channel-1".to_string(), 4),
        Err(ContractError::SudoPayloadNotFound)
    );
}

#[test]
fn reply_moves_the_payload_under_its_sequence() {
    let mut ledger = Ledger::new();
    save_reply_payload(&mut ledger, payload("send", "port-a"));
    let data = br#"{"sequence_id":5,"channel":"channel-7"}"#.to_vec();
    let msg = Reply { id: SUDO_PAYLOAD_REPLY_ID, result: Ok(Some(data)) };
    assert_eq!(reply(&mut ledger, env(), msg), Ok(Response::default()));
    assert_eq!(
        ledger.sudo_payloads.entries,
        vec![(("channel-7".to_string(), 5), payload("send", "port-a"))]
    );
}

#[test]
fn reply_faults() {
    let mut ledger = Ledger::new();
    let good = br#"{"sequence_id":5,"channel":"channel-7"}"#.to_vec();
    assert_eq!(
        prepare_sudo_payload(&mut ledger, env(), Reply { id: 1, result: Ok(Some(good.clone())) }),
        Err(ContractError::NoReplyPayload)
    );
    save_reply_payload(&mut ledger, payload("send", "port-a"));
    assert_eq!(
        prepare_sudo_payload(
            &mut ledger,
            env(),
            Reply { id: 1, result: Err("out of gas".to_string()) }
        ),
        Err(ContractError::SubmissionFailed)
    );
    assert_eq!(
        prepare_sudo_payload(&mut ledger, env(), Reply { id: 1, result: Ok(None) }),
        Err(ContractError::NoReplyResult)
    );
    assert_eq!(
        prepare_sudo_payload(
            &mut ledger,
            env(),
            Reply { id: 1, result: Ok(Some(b"{\"sequence_id\":5}".to_vec())) }
        ),
        Err(ContractError::InvalidReplyData)
    );
    assert_eq!(
        reply(&mut ledger, env(), Reply { id: 2, result: Ok(Some(good)) }),
        Err(ContractError::UnsupportedReplyId)
    );
    assert_eq!(ledger.sudo_payloads.entries.len(), 0);
}

#[test]
fn failure_is_recorded_once() {
    let mut ledger = Ledger::new();
    save_sudo_payload(&mut ledger, "channel-0".to_string(), 9, payload("send", "port-a"));

    assert_eq!(
        sudo_error(&mut ledger, packet(Some(9), Some("channel-0")), "boom".to_string()),
        Ok(Response::default())
    );
    let recorded =
        vec![(
            ("port-a".to_string(), 9),
            AcknowledgementResult::Error(("send".to_string(), "boom".to_string())),
        )];
    assert_eq!(ledger.acknowledgement_results.entries, recorded);

    assert_eq!(
        sudo_error(&mut ledger, packet(Some(9), Some("channel-0")), "again".to_string()),
        Err(ContractError::DuplicateAcknowledgement)
    );
    assert_eq!(
        sudo_timeout(&mut ledger, packet(Some(9), Some("channel-0"))),
        Err(ContractError::DuplicateAcknowledgement)
    );
    assert_eq!(ledger.acknowledgement_results.entries, recorded);
    assert_eq!(ledger.errors_queue.len(), 0);
}

#[test]
fn timeout_is_recorded_with_the_staged_message() {
    let mut ledger = Ledger::new();
    save_sudo_payload(&mut ledger, "channel-0".to_string(), 9, payload("send", "port-a"));
    sudo_timeout(&mut ledger, packet(Some(9), Some("channel-0"))).unwrap();
    assert_eq!(
        ledger.acknowledgement_results.entries,
        vec![(("port-a".to_string(), 9), AcknowledgementResult::Timeout("send".to_string()))]
    );
}

#[test]
fn failed_lookup_queues_one_diagnostic_and_succeeds() {
    let mut ledger = Ledger::new();
    assert_eq!(read_errors_from_queue(&ledger).len(), 0);
    for n in 1..=3usize {
        assert_eq!(
            sudo_timeout(&mut ledger, packet(Some(1), Some("channel-0"))),
            Ok(Response::default())
        );
        let errors = read_errors_from_queue(&ledger);
        assert_eq!(errors.len(), n);
        assert_eq!(errors[n - 1].0, ((n - 1) as u32).to_be_bytes().to_vec());
        assert_eq!(errors[n - 1].1, "WASMDEBUG: Error: Unable to read sudo payload");
    }
    sudo_error(&mut ledger, packet(Some(1), Some("channel-0")), "d".to_string()).unwrap();
    assert_eq!(read_errors_from_queue(&ledger).len(), 4);
    assert_eq!(ledger.acknowledgement_results.entries.len(), 0);
}

#[test]
fn packet_without_sequence_or_channel_is_refused() {
    let mut ledger = Ledger::new();
    assert_eq!(
        sudo_timeout(&mut ledger, packet(None, Some("channel-0"))),
        Err(ContractError::SequenceNotFound)
    );
    assert_eq!(
        sudo_error(&mut ledger, packet(None, None), "d".to_string()),
        Err(ContractError::SequenceNotFound)
    );
    assert_eq!(
        sudo_timeout(&mut ledger, packet(Some(3), None)),
        Err(ContractError::ChannelNotFound)
    );
    assert_eq!(ledger.errors_queue.len(), 0);
}

#[test]
fn proposal_is_read_off_the_port() {
    assert_eq!(get_proposal_id("icacontroller-neutron1contract.42"), Some(42));
    assert_eq!(get_proposal_id("icacontroller-neutron1.contract.0"), Some(0));
    assert_eq!(get_proposal_id("a.18446744073709551615"), Some(u64::MAX));
    assert_eq!(get_proposal_id("a.18446744073709551616"), None);
    assert_eq!(get_proposal_id("a.007"), Some(7));
    assert_eq!(get_proposal_id("a.+7"), Some(7));
    assert_eq!(get_proposal_id("icacontroller-neutron1contract"), None);
    assert_eq!(get_proposal_id("icacontroller-neutron1contract."), None);
    assert_eq!(get_proposal_id("a.-1"), None);
    assert_eq!(get_proposal_id("a.1x"), None);
    assert_eq!(get_proposal_id("\u{e9}.12"), Some(12));
    assert_eq!(get_proposal_id(""), None);
}

fn descriptor() -> OpenAckVersion {
    OpenAckVersion {
        version: "ics27-1".to_string(),
        controller_connection_id: "connection-1".to_string(),
        host_connection_id: "connection-9".to_string(),
        address: "cosmos1remote".to_string(),
        encoding: "proto3".to_string(),
        tx_type: "sdk_multi_msg".to_string(),
    }
}

#[test]
fn open_ack_binds_the_account_and_subscribes() {
    let mut ledger = Ledger::new();
    let r = sudo_open_ack(
        &mut ledger,
        env(),
        "icacontroller-neutron1contract.3".to_string(),
        "channel-0".to_string(),
        "channel-5".to_string(),
        Some(descriptor()),
    )
    .unwrap();
    assert_eq!(
        ledger.interchain_accounts.entries,
        vec![(
            "icacontroller-neutron1contract.3".to_string(),
            Some(("cosmos1remote".to_string(), "connection-1".to_string()))
        )]
    );
    assert_eq!(ledger.address_to_proposal.entries, vec![("cosmos1remote".to_string(), 3)]);
    assert_eq!(
        r.messages,
        vec![OutboundMsg::RegisterInterchainQuery(TransfersQuery {
            filter: vec![
                TransactionFilterItem {
                    field: "transfer.recipient".to_string(),
                    op: TransactionFilterOp::Eq,
                    value: TransactionFilterValue::String("cosmos1remote".to_string()),
                },
                TransactionFilterItem {
                    field: "tx.height".to_string(),
                    op: TransactionFilterOp::Gte,
                    value: TransactionFilterValue::Int(77),
                },
            ],
            connection_id: "connection-9".to_string(),
            update_period: DEFAULT_UPDATE_PERIOD,
        })]
    );
    assert_eq!(
        get_ica(&ledger, &env(), 3),
        Ok(("cosmos1remote".to_string(), "connection-1".to_string()))
    );
}

#[test]
fn open_ack_faults_commit_nothing() {
    let mut ledger = Ledger::new();
    assert_eq!(
        sudo_open_ack(
            &mut ledger,
            env(),
            "icacontroller-neutron1contract.3".to_string(),
            "channel-0".to_string(),
            "channel-5".to_string(),
            None,
        ),
        Err(ContractError::InvalidCounterpartyVersion)
    );
    assert_eq!(
        sudo_open_ack(
            &mut ledger,
            env(),
            "icacontroller-neutron1contract".to_string(),
            "channel-0".to_string(),
            "channel-5".to_string(),
            Some(descriptor()),
        ),
        Err(ContractError::InvalidPortId)
    );
    assert_eq!(ledger.interchain_accounts.entries.len(), 0);
    assert_eq!(ledger.address_to_proposal.entries.len(), 0);
}

#[test]
fn account_states_are_told_apart() {
    let mut ledger = Ledger::new();
    assert_eq!(
        query_interchain_address_contract(&ledger, env(), 3),
        Err(ContractError::InterchainAccountNotFound)
    );
    crossfund::execute::register_ica(&mut ledger, env(), "connection-1".to_string(), 3).unwrap();
    assert_eq!(
        query_interchain_address_contract(&ledger, env(), 3),
        Err(ContractError::InterchainAccountNotCreated)
    );
    sudo_open_ack(
        &mut ledger,
        env(),
        "icacontroller-neutron1contract.3".to_string(),
        "channel-0".to_string(),
        "channel-5".to_string(),
        Some(descriptor()),
    )
    .unwrap();
    assert_eq!(
        query_interchain_address_contract(&ledger, env(), 3),
        Ok(("cosmos1remote".to_string(), "connection-1".to_string()))
    );
    assert_eq!(ledger.interchain_accounts.entries.len(), 1);
}

#[test]
fn acknowledgement_is_found_by_proposal_and_sequence() {
    let mut ledger = Ledger::new();
    save_sudo_payload(
        &mut ledger,
        "channel-0".to_string(),
        9,
        payload("send", "icacontroller-neutron1contract.3"),
    );
    sudo_timeout(&mut ledger, packet(Some(9), Some("channel-0"))).unwrap();
    assert_eq!(
        query_acknowledgement_result(&ledger, env(), 9, 3),
        Some(AcknowledgementResult::Timeout("send".to_string()))
    );
    assert_eq!(query_acknowledgement_result(&ledger, env(), 9, 4), None);
    assert_eq!(query_acknowledgement_result(&ledger, env(), 8, 3), None);
}

#[test]
fn transfer_subscriptions() {
    let q = register_transfers_query_msg("connection-0".to_string(), "addr".to_string(), 6, None);
    assert_eq!(
        q,
        TransfersQuery {
            filter: vec![TransactionFilterItem {
                field: "transfer.recipient".to_string(),
                op: TransactionFilterOp::Eq,
                value: TransactionFilterValue::String("addr".to_string()),
            }],
            connection_id: "connection-0".to_string(),
            update_period: 6,
        }
    );
    let by_proposal = new_register_transfers_query_msg(12, "addr".to_string(), 6, Some(5));
    assert_eq!(by_proposal.connection_id, "12");
    assert_eq!(by_proposal.filter.len(), 2);
    assert_eq!(by_proposal.filter[1].value, TransactionFilterValue::Int(5));
    assert_eq!(
        register_transfers_query("connection-0".to_string(), "addr".to_string(), 6, None),
        Ok(Response { messages: vec![OutboundMsg::RegisterInterchainQuery(q)] })
    );
}

#[test]
fn digest_depends_on_the_bytes() {
    let a = hash_data(&b"abc".to_vec());
    assert_eq!(a, hash_data(&b"abc".to_vec()));
    assert_ne!(a, hash_data(&b"abd".to_vec()));
    assert_ne!(a, hash_data(&vec![]));
    assert_ne!(a, 0);
}

#[test]
fn least_fee_keeps_the_fee_token() {
    let coin = |denom: &str, amount: u128| Coin { denom: denom.to_string(), amount };
    let fee = IbcFee {
        recv_fee: vec![coin("uatom", 1)],
        ack_fee: vec![coin("untrn", 2), coin("uatom", 3), coin("untrn", 4)],
        timeout_fee: vec![coin("uosmo", 5)],
    };
    assert_eq!(
        min_ntrn_ibc_fee(fee),
        IbcFee {
            recv_fee: vec![coin("uatom", 1)],
            ack_fee: vec![coin("untrn", 2), coin("untrn", 4)],
            timeout_fee: vec![],
        }
    );
}

#[test]
fn unreadable_replies_are_refused_without_harm() {
    let replies: [&[u8]; 12] = [
        b"",
        b"null",
        b"{",
        b"{}",
        b"[5,\"channel-7\"]",
        b"{\"sequence_id\":\"5\",\"channel\":\"channel-7\"}",
        b"{\"sequence_id\":-5,\"channel\":\"channel-7\"}",
        b"{\"sequence_id\":5.0,\"channel\":\"channel-7\"}",
        b"{\"sequence_id\":18446744073709551616,\"channel\":\"channel-7\"}",
        b"{\"sequence_id\":5,\"channel\":7}",
        b"{\"sequence_id\":5,\"channel\":\"\xff\xfe\"}",
        b"{\"sequence_id\":5,\"channel\":\"channel-7\"} x",
    ];
    for data in replies {
        let mut ledger = Ledger::new();
        save_reply_payload(&mut ledger, payload("send", "port-a"));
        assert_eq!(
            prepare_sudo_payload(
                &mut ledger,
                env(),
                Reply { id: SUDO_PAYLOAD_REPLY_ID, result: Ok(Some(data.to_vec())) }
            ),
            Err(ContractError::InvalidReplyData),
            "{:?}",
            data
        );
        assert_eq!(ledger.sudo_payloads.entries.len(), 0);
    }
}

#[test]
fn reply_may_hold_more_than_the_ledger_reads() {
    let mut ledger = Ledger::new();
    save_reply_payload(&mut ledger, payload("send", "port-a"));
    let data = b" { \"channel\" : \"channel-7\", \"extra\": [1, {\"a\": null}], \"sequence_id\" : 18446744073709551615 } ";
    prepare_sudo_payload(
        &mut ledger,
        env(),
        Reply { id: SUDO_PAYLOAD_REPLY_ID, result: Ok(Some(data.to_vec())) },
    )
    .unwrap();
    assert_eq!(ledger.sudo_payloads.entries[0].0, ("channel-7".to_string(), u64::MAX));
}
