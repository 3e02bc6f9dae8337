use crossfund::error::ContractError;
use crossfund::execute::{
    accept_application, approve_application, auto_agree, check_for_auto_agree, deposit,
    fund_proposal_native, is_majority, register_ica, reward_applicants, submit_application,
    submit_proposal, verify_application, withdraw_funds,
};
use crossfund::msg::{
    ApplicationSubmission, BlockInfo, Coin, ContractInfo, Env, MessageInfo, OutboundMsg, Response,
};
use crossfund::query::{
    query_address_funds, query_all_proposals, query_application_funds,
    query_application_funds_token, query_proposal, query_proposal_funds,
    query_proposal_funds_token,
};
use crossfund::storage::{
    Application, CustodyFunds, Expiration, GoodFee, Ledger, ProjectFunding, Proposal,
};
use crossfund::utils::{shareholders, shareholders_sub, valid_application};

fn mock_env() -> Env {
    Env {
        block: BlockInfo { height: 12_345, time: 1_571_797_419_879_305_533 },
        contract: ContractInfo { address: "cosmos2contract".to_string() },
    }
}

fn coins(amount: u128, denom: &str) -> Vec<Coin> {
    vec![Coin { denom: denom.to_string(), amount }]
}

fn fee(recipient: &str, percent_share: u8) -> GoodFee {
    GoodFee { recipient: recipient.to_string(), percent_share }
}

fn submission(env: &Env) -> ApplicationSubmission {
    ApplicationSubmission {
        applicants: vec![fee("alice", 99)],
        auditors: vec![fee("bob", 1)],
        deliver_by: Expiration::AtHeight(env.block.height + 1000),
    }
}

fn funded_ledger() -> Ledger {
    let env = mock_env();
    let mut ledger = Ledger::new();
    submit_proposal(&mut ledger, "Test".to_string(), "Description".to_string()).unwrap();
    submit_application(&mut ledger, env.clone(), "alice".to_string(), 0, submission(&env))
        .unwrap();
    fund_proposal_native(
        &mut ledger,
        MessageInfo { sender: "bob".to_string(), funds: coins(10_000_000, "untrn") },
        0,
        None,
    )
    .unwrap();
    ledger
}

#[test]
fn test_escrow_funds() {
    let mut storage = Ledger::new();
    let env = mock_env();
    let alice = "alice".to_string();
    let bob = "bob".to_string();

    submit_proposal(&mut storage, "Test".to_string(), "Description".to_string()).unwrap();

    submit_application(
        &mut storage,
        env.clone(),
        alice.clone(),
        0,
        ApplicationSubmission {
            applicants: vec![GoodFee { recipient: alice.clone(), percent_share: 99 }],
            auditors: vec![GoodFee { recipient: bob.clone(), percent_share: 1 }],
            deliver_by: Expiration::AtHeight(env.block.height + 1000),
        },
    )
    .unwrap();

    fund_proposal_native(
        &mut storage,
        MessageInfo { sender: bob.clone(), funds: coins(10_000_000, "untrn") },
        0,
        None,
    )
    .unwrap();

    approve_application(&mut storage, &bob, 0, alice.clone()).unwrap();

    accept_application(&mut storage, alice.clone(), 0, alice.clone()).unwrap();

    assert_eq!(1, 1)
}

#[test]
fn escrow_locks_and_attributes_the_depositors_funds() {
    let mut ledger = funded_ledger();
    approve_application(&mut ledger, &"bob".to_string(), 0, "alice".to_string()).unwrap();
    accept_application(&mut ledger, "alice".to_string(), 0, "alice".to_string()).unwrap();

    assert!(ledger.is_wf());
    assert_eq!(
        query_address_funds(&ledger, &"bob".to_string(), false),
        vec![(
            "untrn".to_string(),
            CustodyFunds { amount: 10_000_000, proposal_id: 0, locked: true, remote: None }
        )]
    );
    assert_eq!(
        query_application_funds(&ledger, 0, &"alice".to_string()),
        vec![("untrn".to_string(), 10_000_000)]
    );
    let (_, application) = &ledger.applications.entries[0];
    assert!(application.accepted);
}

#[test]
fn proposals_are_numbered_from_zero() {
    let mut ledger = Ledger::new();
    assert_eq!(
        submit_proposal(&mut ledger, "A".to_string(), "first".to_string()),
        Ok(Response::default())
    );
    submit_proposal(&mut ledger, "B".to_string(), "second".to_string()).unwrap();
    assert_eq!(ledger.proposal_index, 2);
    assert_eq!(
        ledger.proposals.entries,
        vec![
            (
                0,
                Proposal {
                    title: "A".to_string(),
                    description: "first".to_string(),
                    funding: vec![]
                }
            ),
            (
                1,
                Proposal {
                    title: "B".to_string(),
                    description: "second".to_string(),
                    funding: vec![]
                }
            ),
        ]
    );
}

#[test]
fn proposal_index_does_not_wrap() {
    let mut ledger = Ledger::new();
    ledger.proposal_index = u64::MAX;
    assert_eq!(
        submit_proposal(&mut ledger, "A".to_string(), "x".to_string()),
        Err(ContractError::Overflow)
    );
    assert_eq!(ledger.proposals.entries.len(), 0);
    assert_eq!(ledger.proposal_index, u64::MAX);
}

#[test]
fn application_rules() {
    let env = mock_env();
    let ok = submission(&env);
    assert!(valid_application(&ok, &env.block));

    let mut no_applicants = submission(&env);
    no_applicants.applicants = vec![];
    no_applicants.auditors = vec![fee("bob", 100)];
    assert!(!valid_application(&no_applicants, &env.block));

    let mut no_auditors = submission(&env);
    no_auditors.applicants = vec![fee("alice", 100)];
    no_auditors.auditors = vec![];
    assert!(!valid_application(&no_auditors, &env.block));

    let mut short = submission(&env);
    short.applicants = vec![fee("alice", 98)];
    assert!(!valid_application(&short, &env.block));

    let mut over = submission(&env);
    over.applicants = vec![fee("alice", 100)];
    assert!(!valid_application(&over, &env.block));

    let mut wrapped = submission(&env);
    wrapped.applicants = vec![fee("alice", 255), fee("carol", 100)];
    wrapped.auditors = vec![fee("bob", 1)];
    assert!(!valid_application(&wrapped, &env.block));

    let mut never = submission(&env);
    never.deliver_by = Expiration::Never;
    assert!(!valid_application(&never, &env.block));

    let mut due = submission(&env);
    due.deliver_by = Expiration::AtHeight(env.block.height);
    assert!(!valid_application(&due, &env.block));

    let mut due_by_time = submission(&env);
    due_by_time.deliver_by = Expiration::AtTime(env.block.time);
    assert!(!valid_application(&due_by_time, &env.block));

    let mut later = submission(&env);
    later.deliver_by = Expiration::AtTime(env.block.time + 1);
    assert!(valid_application(&later, &env.block));
}

#[test]
fn a_hundred_shareholders_are_allowed_and_one_more_is_not() {
    let env = mock_env();
    let mut many = submission(&env);
    many.applicants = (0..99).map(|i| fee(&format!("a{}", i), 1)).collect();
    many.auditors = vec![fee("bob", 1)];
    assert!(valid_application(&many, &env.block));

    let mut too_many = submission(&env);
    too_many.applicants = (0..100).map(|i| fee(&format!("a{}", i), 1)).collect();
    too_many.applicants[0].percent_share = 0;
    too_many.auditors = vec![fee("bob", 1)];
    assert!(!valid_application(&too_many, &env.block));
}

#[test]
fn shareholders_are_applicants_then_auditors() {
    let env = mock_env();
    let sub = submission(&env);
    assert_eq!(shareholders_sub(&sub), vec![fee("alice", 99), fee("bob", 1)]);
    let application = Application {
        applicants: vec![fee("a", 40), fee("b", 30)],
        auditors: vec![fee("c", 30)],
        deliver_by: Expiration::AtHeight(1),
        accepted: false,
        verifications: vec![],
    };
    assert_eq!(shareholders(&application), vec![fee("a", 40), fee("b", 30), fee("c", 30)]);
    assert!(application.is_wf());
}

#[test]
fn invalid_application_is_refused_and_not_stored() {
    let env = mock_env();
    let mut ledger = Ledger::new();
    let mut bad = submission(&env);
    bad.auditors = vec![fee("bob", 2)];
    assert_eq!(
        submit_application(&mut ledger, env.clone(), "alice".to_string(), 0, bad),
        Err(ContractError::InvalidApplication)
    );
    assert_eq!(ledger.applications.entries.len(), 0);
}

#[test]
fn deposit_of_nothing_changes_nothing() {
    let mut ledger = Ledger::new();
    assert_eq!(
        deposit(&mut ledger, &"bob".to_string(), &"untrn".to_string(), 0, 0, false, None),
        Ok(())
    );
    assert_eq!(ledger.custody_funds.entries.len(), 0);
    assert_eq!(ledger.proposal_funding.entries.len(), 0);

    assert_eq!(
        fund_proposal_native(
            &mut ledger,
            MessageInfo { sender: "bob".to_string(), funds: coins(0, "untrn") },
            0,
            Some(true),
        ),
        Ok(Response::default())
    );
    assert_eq!(ledger.custody_funds.entries.len(), 0);
    assert_eq!(ledger.proposal_funding.entries.len(), 0);
}

#[test]
fn deposits_add_up_in_the_proposals_funding() {
    let mut ledger = Ledger::new();
    let funds = vec![
        Coin { denom: "untrn".to_string(), amount: 5 },
        Coin { denom: "uatom".to_string(), amount: 0 },
        Coin { denom: "uosmo".to_string(), amount: 7 },
    ];
    fund_proposal_native(
        &mut ledger,
        MessageInfo { sender: "bob".to_string(), funds },
        3,
        Some(true),
    )
    .unwrap();
    fund_proposal_native(
        &mut ledger,
        MessageInfo { sender: "carol".to_string(), funds: coins(10, "untrn") },
        3,
        None,
    )
    .unwrap();

    assert_eq!(
        query_proposal_funds(&ledger, 3, None),
        vec![
            (
                "untrn".to_string(),
                ProjectFunding {
                    sender: "carol".to_string(),
                    amount: 15,
                    auto_agree: false,
                    native: true
                }
            ),
            (
                "uosmo".to_string(),
                ProjectFunding {
                    sender: "bob".to_string(),
                    amount: 7,
                    auto_agree: true,
                    native: true
                }
            ),
        ]
    );
    assert_eq!(query_proposal_funds(&ledger, 3, Some(true)).len(), 1);
    assert_eq!(query_proposal_funds(&ledger, 3, Some(false)).len(), 1);
    assert_eq!(query_proposal_funds(&ledger, 4, None).len(), 0);
    assert_eq!(query_proposal_funds_token(&ledger, 3, &"untrn".to_string()), Ok(15));
    assert_eq!(
        query_proposal_funds_token(&ledger, 3, &"uatom".to_string()),
        Err(ContractError::ProposalFundingNotFound)
    );
    assert_eq!(
        query_address_funds(&ledger, &"bob".to_string(), true),
        vec![
            (
                "untrn".to_string(),
                CustodyFunds { amount: 5, proposal_id: 3, locked: false, remote: None }
            ),
            (
                "uosmo".to_string(),
                CustodyFunds { amount: 7, proposal_id: 3, locked: false, remote: None }
            ),
        ]
    );
}

#[test]
fn funding_that_overflows_is_refused_as_a_whole() {
    let mut ledger = Ledger::new();
    fund_proposal_native(
        &mut ledger,
        MessageInfo { sender: "bob".to_string(), funds: coins(u128::MAX, "untrn") },
        0,
        None,
    )
    .unwrap();
    let funds = vec![
        Coin { denom: "uatom".to_string(), amount: 5 },
        Coin { denom: "untrn".to_string(), amount: 1 },
    ];
    assert_eq!(
        fund_proposal_native(
            &mut ledger,
            MessageInfo { sender: "carol".to_string(), funds },
            0,
            None
        ),
        Err(ContractError::Overflow)
    );
    assert_eq!(query_address_funds(&ledger, &"carol".to_string(), false).len(), 0);
    assert_eq!(query_proposal_funds(&ledger, 0, None).len(), 1);
    assert_eq!(query_proposal_funds_token(&ledger, 0, &"untrn".to_string()), Ok(u128::MAX));
}

#[test]
fn voting_without_unlocked_funds_fails() {
    let mut ledger = funded_ledger();
    assert_eq!(
        approve_application(&mut ledger, &"carol".to_string(), 0, "alice".to_string()),
        Err(ContractError::CantVote)
    );
    assert_eq!(
        approve_application(&mut ledger, &"bob".to_string(), 1, "alice".to_string()),
        Err(ContractError::CantVote)
    );
    approve_application(&mut ledger, &"bob".to_string(), 0, "alice".to_string()).unwrap();
    assert_eq!(
        approve_application(&mut ledger, &"bob".to_string(), 0, "alice".to_string()),
        Err(ContractError::CantVote)
    );
    assert_eq!(
        query_application_funds_token(&ledger, 0, &"alice".to_string(), &"untrn".to_string()),
        Ok(10_000_000)
    );
    assert_eq!(
        query_application_funds_token(&ledger, 0, &"alice".to_string(), &"uatom".to_string()),
        Err(ContractError::ApplicationFundsNotFound)
    );
}

#[test]
fn votes_that_overflow_are_refused_as_a_whole() {
    let mut ledger = Ledger::new();
    ledger.application_funding.insert((0, "alice".to_string(), "uatom".to_string()), u128::MAX);
    let funds = vec![
        Coin { denom: "untrn".to_string(), amount: 5 },
        Coin { denom: "uatom".to_string(), amount: 1 },
    ];
    fund_proposal_native(&mut ledger, MessageInfo { sender: "bob".to_string(), funds }, 0, None)
        .unwrap();
    assert_eq!(
        approve_application(&mut ledger, &"bob".to_string(), 0, "alice".to_string()),
        Err(ContractError::Overflow)
    );
    assert_eq!(
        query_application_funds(&ledger, 0, &"alice".to_string()),
        vec![("uatom".to_string(), u128::MAX)]
    );
    assert_eq!(query_address_funds(&ledger, &"bob".to_string(), true).len(), 2);
}

#[test]
fn accepting_needs_the_applicant() {
    let mut ledger = funded_ledger();
    assert_eq!(
        accept_application(&mut ledger, "bob".to_string(), 0, "alice".to_string()),
        Err(ContractError::NonAuthorized)
    );
    assert_eq!(
        accept_application(&mut ledger, "alice".to_string(), 1, "alice".to_string()),
        Err(ContractError::ApplicationNotFound)
    );
    assert!(!ledger.applications.entries[0].1.accepted);
    assert_eq!(
        accept_application(&mut ledger, "alice".to_string(), 0, "alice".to_string()),
        Ok(Response::default())
    );
    assert!(ledger.applications.entries[0].1.accepted);
}

#[test]
fn a_listed_applicant_may_accept_for_the_sender() {
    let env = mock_env();
    let mut ledger = Ledger::new();
    let sub = ApplicationSubmission {
        applicants: vec![fee("alice", 50), fee("dave", 49)],
        auditors: vec![fee("bob", 1)],
        deliver_by: Expiration::AtHeight(env.block.height + 1),
    };
    submit_application(&mut ledger, env, "erin".to_string(), 0, sub).unwrap();
    accept_application(&mut ledger, "dave".to_string(), 0, "erin".to_string()).unwrap();
    assert!(ledger.applications.entries[0].1.accepted);
}

#[test]
fn majority_is_strictly_more_than_half() {
    assert!(!is_majority(0, 0));
    assert!(is_majority(1, 0));
    assert!(!is_majority(5, 10));
    assert!(is_majority(6, 10));
    assert!(!is_majority(5, 11));
    assert!(is_majority(6, 11));
    assert!(is_majority(u128::MAX, u128::MAX));
    assert!(!is_majority(u128::MAX / 2, u128::MAX));
    assert!(is_majority(u128::MAX / 2 + 1, u128::MAX));
    let half_and_one = 500_000_000_000_000_001u128;
    assert!(is_majority(half_and_one, 1_000_000_000_000_000_001));
}

fn quorum_ledger(committed: u128, total: u128) -> Ledger {
    let env = mock_env();
    let mut ledger = Ledger::new();
    submit_application(&mut ledger, env.clone(), "carol".to_string(), 0, submission(&env))
        .unwrap();
    fund_proposal_native(
        &mut ledger,
        MessageInfo { sender: "bob".to_string(), funds: coins(committed, "untrn") },
        0,
        None,
    )
    .unwrap();
    approve_application(&mut ledger, &"bob".to_string(), 0, "carol".to_string()).unwrap();
    fund_proposal_native(
        &mut ledger,
        MessageInfo { sender: "carol".to_string(), funds: coins(total - committed, "untrn") },
        0,
        Some(true),
    )
    .unwrap();
    ledger
}

#[test]
fn auto_agree_fires_above_half() {
    let mut ledger = quorum_ledger(6, 10);
    assert_eq!(check_for_auto_agree(&mut ledger, 0, &"carol".to_string()), Ok(true));
    assert_eq!(
        query_address_funds(&ledger, &"carol".to_string(), false),
        vec![(
            "untrn".to_string(),
            CustodyFunds { amount: 4, proposal_id: 0, locked: true, remote: None }
        )]
    );
    assert_eq!(
        query_application_funds(&ledger, 0, &"carol".to_string()),
        vec![("untrn".to_string(), 10)]
    );
}

#[test]
fn a_repeated_quorum_check_counts_no_funds_again() {
    let mut ledger = quorum_ledger(6, 10);
    assert_eq!(check_for_auto_agree(&mut ledger, 0, &"carol".to_string()), Ok(true));
    let custody = ledger.custody_funds.entries.clone();
    assert_eq!(check_for_auto_agree(&mut ledger, 0, &"carol".to_string()), Ok(true));
    assert_eq!(auto_agree(&mut ledger, 0), Ok(()));
    assert_eq!(
        query_application_funds(&ledger, 0, &"carol".to_string()),
        vec![("untrn".to_string(), 10)]
    );
    assert_eq!(ledger.custody_funds.entries, custody);
}

#[test]
fn auto_agree_commits_the_locked_entry_and_not_the_whole_funding() {
    let mut ledger = Ledger::new();
    fund_proposal_native(
        &mut ledger,
        MessageInfo { sender: "bob".to_string(), funds: coins(90, "untrn") },
        0,
        None,
    )
    .unwrap();
    fund_proposal_native(
        &mut ledger,
        MessageInfo { sender: "dave".to_string(), funds: coins(10, "untrn") },
        0,
        Some(true),
    )
    .unwrap();
    ledger.application_funding.insert((0, "dave".to_string(), "untrn".to_string()), 1);
    assert_eq!(auto_agree(&mut ledger, 0), Ok(()));
    assert_eq!(
        query_application_funds(&ledger, 0, &"dave".to_string()),
        vec![("untrn".to_string(), 11)]
    );
    assert_eq!(
        query_address_funds(&ledger, &"dave".to_string(), false)[0].1,
        CustodyFunds { amount: 10, proposal_id: 0, locked: true, remote: None }
    );
    assert!(!query_address_funds(&ledger, &"bob".to_string(), false)[0].1.locked);
}

#[test]
fn auto_agree_does_not_fire_at_half() {
    let mut ledger = quorum_ledger(5, 10);
    assert_eq!(check_for_auto_agree(&mut ledger, 0, &"carol".to_string()), Ok(false));
    assert_eq!(
        query_address_funds(&ledger, &"carol".to_string(), true),
        vec![(
            "untrn".to_string(),
            CustodyFunds { amount: 5, proposal_id: 0, locked: false, remote: None }
        )]
    );
    assert_eq!(
        query_application_funds(&ledger, 0, &"carol".to_string()),
        vec![("untrn".to_string(), 5)]
    );
}

#[test]
fn accepting_runs_the_quorum_check() {
    let mut ledger = quorum_ledger(6, 10);
    accept_application(&mut ledger, "alice".to_string(), 0, "carol".to_string()).unwrap();
    assert_eq!(query_address_funds(&ledger, &"carol".to_string(), true).len(), 0);
    assert!(ledger.is_wf());
}

#[test]
fn quorum_check_needs_the_proposals_funding() {
    let mut ledger = Ledger::new();
    ledger.application_funding.insert((0, "carol".to_string(), "untrn".to_string()), 5);
    assert_eq!(
        check_for_auto_agree(&mut ledger, 0, &"carol".to_string()),
        Err(ContractError::ProposalFundingNotFound)
    );
}

#[test]
fn auto_agree_needs_both_records() {
    let mut ledger = Ledger::new();
    ledger.proposal_funding.insert(
        (0, "untrn".to_string()),
        ProjectFunding { sender: "bob".to_string(), amount: 9, auto_agree: true, native: true },
    );
    assert_eq!(auto_agree(&mut ledger, 0), Err(ContractError::CustodyFundsNotFound));

    ledger.custody_funds.insert(
        ("bob".to_string(), "untrn".to_string()),
        CustodyFunds { amount: 9, proposal_id: 0, locked: false, remote: Some("p".to_string()) },
    );
    assert!(ledger.is_wf());
    assert_eq!(auto_agree(&mut ledger, 0), Err(ContractError::ApplicationFundsNotFound));
    assert!(!ledger.custody_funds.entries[0].1.locked);

    ledger.application_funding.insert((0, "bob".to_string(), "untrn".to_string()), u128::MAX);
    assert_eq!(auto_agree(&mut ledger, 0), Err(ContractError::Overflow));
    assert!(!ledger.custody_funds.entries[0].1.locked);

    ledger.application_funding.insert((0, "bob".to_string(), "untrn".to_string()), 1);
    assert_eq!(auto_agree(&mut ledger, 0), Ok(()));
    assert_eq!(
        ledger.custody_funds.entries[0].1,
        CustodyFunds { amount: 9, proposal_id: 0, locked: true, remote: Some("p".to_string()) }
    );
    assert_eq!(ledger.application_funding.entries[0].1, 10);
}

#[test]
fn failed_quorum_check_leaves_the_ledger_as_it_was() {
    let env = mock_env();
    let mut ledger = Ledger::new();
    submit_application(&mut ledger, env.clone(), "carol".to_string(), 0, submission(&env))
        .unwrap();
    fund_proposal_native(
        &mut ledger,
        MessageInfo { sender: "bob".to_string(), funds: coins(6, "untrn") },
        0,
        Some(true),
    )
    .unwrap();
    approve_application(&mut ledger, &"bob".to_string(), 0, "carol".to_string()).unwrap();
    fund_proposal_native(
        &mut ledger,
        MessageInfo { sender: "dave".to_string(), funds: coins(1, "untrn") },
        0,
        Some(true),
    )
    .unwrap();
    let before = ledger.clone();
    assert_eq!(
        accept_application(&mut ledger, "alice".to_string(), 0, "carol".to_string()),
        Err(ContractError::ApplicationFundsNotFound)
    );
    assert!(!ledger.applications.entries[0].1.accepted);
    assert_eq!(ledger, before);
}

#[test]
fn verification_is_for_auditors_and_only_once() {
    let env = mock_env();
    let mut ledger = Ledger::new();
    let sub = ApplicationSubmission {
        applicants: vec![fee("alice", 98)],
        auditors: vec![fee("bob", 1), fee("carol", 1)],
        deliver_by: Expiration::AtHeight(env.block.height + 1),
    };
    submit_application(&mut ledger, env, "alice".to_string(), 0, sub).unwrap();

    assert_eq!(
        verify_application(&mut ledger, "alice".to_string(), 0, "alice".to_string()),
        Err(ContractError::NonAuthorized)
    );
    assert_eq!(
        verify_application(&mut ledger, "bob".to_string(), 1, "alice".to_string()),
        Err(ContractError::ApplicationNotFound)
    );
    assert_eq!(
        verify_application(&mut ledger, "bob".to_string(), 0, "alice".to_string()),
        Ok(Response::default())
    );
    assert_eq!(
        verify_application(&mut ledger, "bob".to_string(), 0, "alice".to_string()),
        Err(ContractError::AlreadyVerified)
    );
    assert_eq!(ledger.applications.entries[0].1.verifications, vec!["bob".to_string()]);
}

#[test]
fn last_verification_pays_the_locked_funds_out() {
    let mut ledger = funded_ledger();
    fund_proposal_native(
        &mut ledger,
        MessageInfo { sender: "dave".to_string(), funds: coins(50, "untrn") },
        0,
        None,
    )
    .unwrap();
    fund_proposal_native(
        &mut ledger,
        MessageInfo { sender: "erin".to_string(), funds: coins(199, "uatom") },
        0,
        None,
    )
    .unwrap();
    approve_application(&mut ledger, &"bob".to_string(), 0, "alice".to_string()).unwrap();
    approve_application(&mut ledger, &"erin".to_string(), 0, "alice".to_string()).unwrap();

    verify_application(&mut ledger, "bob".to_string(), 0, "alice".to_string()).unwrap();

    assert!(ledger.is_wf());
    assert_eq!(
        query_address_funds(&ledger, &"alice".to_string(), false),
        vec![
            (
                "untrn".to_string(),
                CustodyFunds { amount: 9_900_000, proposal_id: 0, locked: false, remote: None }
            ),
            (
                "uatom".to_string(),
                CustodyFunds { amount: 197, proposal_id: 0, locked: false, remote: None }
            ),
        ]
    );
    assert_eq!(
        query_address_funds(&ledger, &"bob".to_string(), false),
        vec![
            (
                "untrn".to_string(),
                CustodyFunds { amount: 100_000, proposal_id: 0, locked: false, remote: None }
            ),
            (
                "uatom".to_string(),
                CustodyFunds { amount: 1, proposal_id: 0, locked: false, remote: None }
            ),
        ]
    );
    assert_eq!(query_address_funds(&ledger, &"erin".to_string(), false).len(), 0);
    assert_eq!(
        query_address_funds(&ledger, &"dave".to_string(), false),
        vec![(
            "untrn".to_string(),
            CustodyFunds { amount: 50, proposal_id: 0, locked: false, remote: None }
        )]
    );
}

#[test]
fn rounding_leaves_less_than_one_unit_for_each_shareholder() {
    let env = mock_env();
    let mut ledger = Ledger::new();
    let sub = ApplicationSubmission {
        applicants: vec![fee("a", 33), fee("b", 33)],
        auditors: vec![fee("c", 34)],
        deliver_by: Expiration::AtHeight(env.block.height + 1),
    };
    submit_application(&mut ledger, env, "a".to_string(), 0, sub).unwrap();
    fund_proposal_native(
        &mut ledger,
        MessageInfo { sender: "bob".to_string(), funds: coins(101, "untrn") },
        0,
        None,
    )
    .unwrap();
    approve_application(&mut ledger, &"bob".to_string(), 0, "a".to_string()).unwrap();
    assert_eq!(reward_applicants(&mut ledger, 0, &"a".to_string()), Ok(()));

    let credited: Vec<u128> = ledger.custody_funds.entries.iter().map(|e| e.1.amount).collect();
    assert_eq!(credited, vec![33, 33, 34]);
    let paid: u128 = credited.iter().sum();
    assert!(paid <= 101 && 101 - paid <= 2);
}

#[test]
fn the_largest_total_is_shared_out_without_overflow() {
    let env = mock_env();
    let mut ledger = Ledger::new();
    let sub = ApplicationSubmission {
        applicants: vec![fee("a", 100), fee("b", 0)],
        auditors: vec![fee("c", 0)],
        deliver_by: Expiration::AtHeight(env.block.height + 1),
    };
    submit_application(&mut ledger, env, "a".to_string(), 0, sub).unwrap();
    fund_proposal_native(
        &mut ledger,
        MessageInfo { sender: "bob".to_string(), funds: coins(u128::MAX, "untrn") },
        0,
        None,
    )
    .unwrap();
    approve_application(&mut ledger, &"bob".to_string(), 0, "a".to_string()).unwrap();
    reward_applicants(&mut ledger, 0, &"a".to_string()).unwrap();
    let credited: Vec<u128> = ledger.custody_funds.entries.iter().map(|e| e.1.amount).collect();
    assert_eq!(credited, vec![u128::MAX]);
}

#[test]
fn a_payout_adds_to_what_a_shareholder_holds() {
    let env = mock_env();
    let mut ledger = Ledger::new();
    let sub = ApplicationSubmission {
        applicants: vec![fee("a", 25), fee("b", 25), fee("a", 25)],
        auditors: vec![fee("c", 25)],
        deliver_by: Expiration::AtHeight(env.block.height + 1),
    };
    submit_application(&mut ledger, env, "a".to_string(), 0, sub).unwrap();
    for (who, amount) in [("bob", 400u128), ("b", 7)] {
        fund_proposal_native(
            &mut ledger,
            MessageInfo { sender: who.to_string(), funds: coins(amount, "untrn") },
            0,
            None,
        )
        .unwrap();
    }
    approve_application(&mut ledger, &"bob".to_string(), 0, "a".to_string()).unwrap();
    reward_applicants(&mut ledger, 0, &"a".to_string()).unwrap();
    let held = |who: &str| query_address_funds(&ledger, &who.to_string(), false)[0].1.amount;
    assert_eq!(held("a"), 200);
    assert_eq!(held("b"), 107);
    assert_eq!(held("c"), 100);
    assert_eq!(query_address_funds(&ledger, &"bob".to_string(), false).len(), 0);
}

#[test]
fn a_payout_is_refused_where_a_shareholder_holds_funds_apart() {
    let mut ledger = funded_ledger();
    approve_application(&mut ledger, &"bob".to_string(), 0, "alice".to_string()).unwrap();
    fund_proposal_native(
        &mut ledger,
        MessageInfo { sender: "alice".to_string(), funds: coins(5, "untrn") },
        1,
        None,
    )
    .unwrap();
    let before = ledger.clone();
    assert_eq!(
        reward_applicants(&mut ledger, 0, &"alice".to_string()),
        Err(ContractError::CustodyConflict)
    );
    assert_eq!(ledger, before);
    withdraw_funds(&mut ledger, "alice".to_string()).unwrap();
    assert_eq!(reward_applicants(&mut ledger, 0, &"alice".to_string()), Ok(()));
    assert_eq!(
        query_address_funds(&ledger, &"alice".to_string(), false)[0].1.amount,
        9_900_000
    );
}

#[test]
fn reward_needs_the_application_and_totals_that_fit() {
    let mut ledger = funded_ledger();
    assert_eq!(
        reward_applicants(&mut ledger, 0, &"nobody".to_string()),
        Err(ContractError::ApplicationNotFound)
    );
    assert_eq!(ledger.custody_funds.entries.len(), 1);
    assert!(ledger.is_wf());
}

#[test]
fn custody_beyond_what_a_proposal_received_is_not_valid() {
    let mut ledger = funded_ledger();
    assert!(ledger.is_wf());
    ledger.custody_funds.insert(
        ("x".to_string(), "untrn".to_string()),
        CustodyFunds { amount: 1, proposal_id: 0, locked: true, remote: None },
    );
    assert!(!ledger.is_wf());
    ledger.custody_funds.insert(
        ("x".to_string(), "untrn".to_string()),
        CustodyFunds { amount: u128::MAX, proposal_id: 0, locked: true, remote: None },
    );
    assert!(!ledger.is_wf());
    ledger.custody_funds.insert(
        ("x".to_string(), "untrn".to_string()),
        CustodyFunds { amount: 1, proposal_id: 7, locked: false, remote: None },
    );
    assert!(!ledger.is_wf());
    ledger.proposal_funding.insert(
        (7, "untrn".to_string()),
        ProjectFunding { sender: "x".to_string(), amount: 1, auto_agree: false, native: true },
    );
    assert!(ledger.is_wf());
    withdraw_funds(&mut ledger, "bob".to_string()).unwrap();
    assert!(ledger.is_wf());
}

#[test]
fn withdrawal_takes_the_unlocked_funds_out_once() {
    let mut ledger = Ledger::new();
    assert_eq!(withdraw_funds(&mut ledger, "bob".to_string()), Err(ContractError::NoFunds));
    let funds = vec![
        Coin { denom: "untrn".to_string(), amount: 5 },
        Coin { denom: "uatom".to_string(), amount: 7 },
    ];
    fund_proposal_native(&mut ledger, MessageInfo { sender: "bob".to_string(), funds }, 0, None)
        .unwrap();
    fund_proposal_native(
        &mut ledger,
        MessageInfo { sender: "carol".to_string(), funds: coins(9, "untrn") },
        0,
        None,
    )
    .unwrap();
    assert_eq!(
        withdraw_funds(&mut ledger, "bob".to_string()),
        Ok(Response {
            messages: vec![
                OutboundMsg::Send {
                    to_address: "bob".to_string(),
                    denom: "untrn".to_string(),
                    amount: 5
                },
                OutboundMsg::Send {
                    to_address: "bob".to_string(),
                    denom: "uatom".to_string(),
                    amount: 7
                },
            ]
        })
    );
    assert_eq!(query_address_funds(&ledger, &"bob".to_string(), false).len(), 0);
    assert_eq!(query_address_funds(&ledger, &"carol".to_string(), false).len(), 1);
    assert_eq!(withdraw_funds(&mut ledger, "bob".to_string()), Err(ContractError::NoFunds));
    assert_eq!(
        approve_application(&mut ledger, &"bob".to_string(), 0, "alice".to_string()),
        Err(ContractError::CantVote)
    );
    assert!(ledger.is_wf());
}

#[test]
fn locked_funds_cannot_be_withdrawn() {
    let mut ledger = funded_ledger();
    fund_proposal_native(
        &mut ledger,
        MessageInfo { sender: "bob".to_string(), funds: coins(3, "uatom") },
        0,
        None,
    )
    .unwrap();
    approve_application(&mut ledger, &"bob".to_string(), 0, "alice".to_string()).unwrap();
    assert_eq!(withdraw_funds(&mut ledger, "bob".to_string()), Err(ContractError::NoFunds));
    fund_proposal_native(
        &mut ledger,
        MessageInfo { sender: "bob".to_string(), funds: coins(4, "uosmo") },
        0,
        None,
    )
    .unwrap();
    let r = withdraw_funds(&mut ledger, "bob".to_string()).unwrap();
    assert_eq!(
        r.messages,
        vec![OutboundMsg::Send {
            to_address: "bob".to_string(),
            denom: "uosmo".to_string(),
            amount: 4
        }]
    );
    let left = query_address_funds(&ledger, &"bob".to_string(), false);
    assert_eq!(left.len(), 2);
    assert!(left.iter().all(|(_, f)| f.locked));
}

#[test]
fn a_second_deposit_adds_to_the_first() {
    let mut ledger = Ledger::new();
    let bob = "bob".to_string();
    let untrn = "untrn".to_string();
    deposit(&mut ledger, &bob, &untrn, 5, 0, false, None).unwrap();
    deposit(&mut ledger, &bob, &untrn, 7, 0, true, None).unwrap();
    assert_eq!(
        query_address_funds(&ledger, &bob, false),
        vec![(
            untrn.clone(),
            CustodyFunds { amount: 12, proposal_id: 0, locked: false, remote: None }
        )]
    );
    assert_eq!(query_proposal_funds_token(&ledger, 0, &untrn), Ok(12));

    deposit(&mut ledger, &bob, &untrn, 1, 0, false, Some("port".to_string())).unwrap();
    deposit(&mut ledger, &bob, &untrn, 1, 0, false, None).unwrap();
    assert_eq!(
        query_address_funds(&ledger, &bob, false)[0].1,
        CustodyFunds { amount: 14, proposal_id: 0, locked: false, remote: Some("port".to_string()) }
    );
}

#[test]
fn a_deposit_never_touches_locked_funds_or_those_of_another_proposal() {
    let mut ledger = funded_ledger();
    let bob = "bob".to_string();
    let untrn = "untrn".to_string();
    assert_eq!(
        deposit(&mut ledger, &bob, &untrn, 1, 1, false, None),
        Err(ContractError::CustodyConflict)
    );
    approve_application(&mut ledger, &bob, 0, "alice".to_string()).unwrap();
    let locked = query_address_funds(&ledger, &bob, false);
    assert_eq!(
        deposit(&mut ledger, &bob, &untrn, 1, 0, false, None),
        Err(ContractError::CustodyConflict)
    );
    assert_eq!(
        fund_proposal_native(
            &mut ledger,
            MessageInfo {
                sender: bob.clone(),
                funds: vec![
                    Coin { denom: "uatom".to_string(), amount: 2 },
                    Coin { denom: untrn.clone(), amount: 1 }
                ]
            },
            0,
            None
        ),
        Err(ContractError::CustodyConflict)
    );
    assert_eq!(query_address_funds(&ledger, &bob, false), locked);
    assert_eq!(query_proposal_funds_token(&ledger, 0, &untrn), Ok(10_000_000));
    assert_eq!(deposit(&mut ledger, &bob, &untrn, 0, 1, false, None), Ok(()));
    assert_eq!(query_address_funds(&ledger, &bob, false), locked);
}

#[test]
fn locking_keeps_amount_and_origin() {
    let mut ledger = Ledger::new();
    let bob = "bob".to_string();
    deposit(&mut ledger, &bob, &"uatom".to_string(), 8, 0, false, Some("port".to_string()))
        .unwrap();
    approve_application(&mut ledger, &bob, 0, "alice".to_string()).unwrap();
    assert_eq!(
        query_address_funds(&ledger, &bob, false),
        vec![(
            "uatom".to_string(),
            CustodyFunds { amount: 8, proposal_id: 0, locked: true, remote: Some("port".to_string()) }
        )]
    );
}

#[test]
fn registering_an_account_notes_its_port_as_pending() {
    let mut ledger = Ledger::new();
    let r = register_ica(&mut ledger, mock_env(), "connection-0".to_string(), 17).unwrap();
    assert_eq!(
        r.messages,
        vec![OutboundMsg::RegisterInterchainAccount {
            connection_id: "connection-0".to_string(),
            interchain_account_id: "17".to_string()
        }]
    );
    assert_eq!(
        ledger.interchain_accounts.entries,
        vec![("icacontroller-cosmos2contract.17".to_string(), None)]
    );
}

#[test]
fn proposals_are_listed_with_funding_and_applications() {
    let ledger = funded_ledger();
    let all = query_all_proposals(&ledger);
    assert_eq!(all.proposals.len(), 1);
    let info = &all.proposals[0];
    assert_eq!(info.id, 0);
    assert_eq!(info.title, "Test");
    assert_eq!(info.description, "Description");
    assert_eq!(
        info.funding,
        vec![(
            "untrn".to_string(),
            ProjectFunding {
                sender: "bob".to_string(),
                amount: 10_000_000,
                auto_agree: false,
                native: true
            }
        )]
    );
    assert_eq!(info.applications.len(), 1);
    assert_eq!(info.applications[0].0, "alice");
    assert_eq!(query_proposal(&ledger, 0).as_ref(), Ok(info));
    assert_eq!(query_proposal(&ledger, 1), Err(ContractError::ProposalNotFound));
}

#[test]
fn a_ledger_with_a_key_twice_or_a_broken_application_is_not_valid() {
    let mut ledger = funded_ledger();
    assert!(ledger.is_wf());
    let again = ledger.custody_funds.entries[0].clone();
    ledger.custody_funds.entries.push(again);
    assert!(!ledger.custody_funds.is_wf());
    assert!(!ledger.is_wf());
    ledger.custody_funds.entries.pop();
    assert!(ledger.is_wf());
    ledger.applications.entries[0].1.auditors[0].percent_share = 2;
    assert!(!ledger.is_wf());
}

#[test]
fn verifications_are_by_auditors_and_none_twice() {
    let mut ledger = funded_ledger();
    ledger.applications.entries[0].1.verifications = vec!["bob".to_string()];
    assert!(ledger.is_wf());
    ledger.applications.entries[0].1.verifications = vec!["bob".to_string(), "bob".to_string()];
    assert!(!ledger.is_wf());
    ledger.applications.entries[0].1.verifications = vec!["alice".to_string()];
    assert!(!ledger.is_wf());
}
