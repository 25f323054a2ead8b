use grc20_ledger::signless::{
    ContractAction, ContractEvent, ContractState, ContractStateQuery, ContractStateReply,
    SignlessAccount, SignlessEncodingData, SignlessMetaData,
};

fn sample_account(tag: &str) -> SignlessAccount {
    SignlessAccount {
        address: format!("addr-{tag}"),
        encoded: format!("enc-{tag}"),
        encoding: SignlessEncodingData {
            content: (String::from("body"), String::from("aux")),
            encoding_type: (String::from("scrypt"), String::from("xsalsa20-poly1305")),
            version: String::from("3"),
        },
        meta: SignlessMetaData { name: format!("meta-{tag}") },
    }
}

fn last_caller(state: &ContractState) -> u64 {
    match state.state_reply(ContractStateQuery::LastWhoCallContract) {
        ContractStateReply::LastWhoCallContract(a) => a,
        _ => panic!("unexpected reply"),
    }
}

const SIGNLESS: u64 = 5;
const OWNER: u64 = 77;
const STRANGER: u64 = 6;

#[test]
fn plain_ping_records_the_caller() {
    let mut state = ContractState::new();
    let r = state.handle(STRANGER, ContractAction::Ping { user_account: (None, None) });
    assert_eq!(r, ContractEvent::GetPing);
    assert_eq!(last_caller(&state), STRANGER);
    let r = state.handle(OWNER, ContractAction::Pong { user_account: (None, None) });
    assert_eq!(r, ContractEvent::GetPong);
    assert_eq!(last_caller(&state), OWNER);
}

#[test]
fn bind_by_address_then_ping_through_the_session() {
    let mut state = ContractState::new();
    let r = state.handle(
        SIGNLESS,
        ContractAction::BindSignlessAccountWithAddress {
            user_address: OWNER,
            signless_data: sample_account("one"),
        },
    );
    assert_eq!(r, ContractEvent::SignlessAccountSet);
    // The signless caller pings on behalf of the bound owner address.
    let r = state.handle(SIGNLESS, ContractAction::Ping { user_account: (Some(OWNER), None) });
    assert_eq!(r, ContractEvent::GetPing);
    assert_eq!(last_caller(&state), OWNER);
    // Anyone else is turned away.
    let r = state.handle(STRANGER, ContractAction::Ping { user_account: (Some(OWNER), None) });
    assert_eq!(r, ContractEvent::BadSignlessSession);
    assert_eq!(last_caller(&state), OWNER);
}

#[test]
fn bind_by_no_wallet_then_ping_through_the_session() {
    let mut state = ContractState::new();
    let r = state.handle(
        SIGNLESS,
        ContractAction::BindSignlessAccountWithNoWallet {
            no_wallet: String::from("alice#42"),
            signless_data: sample_account("two"),
        },
    );
    assert_eq!(r, ContractEvent::SignlessAccountSet);
    let r = state.handle(
        SIGNLESS,
        ContractAction::Ping { user_account: (None, Some(String::from("alice#42"))) },
    );
    assert_eq!(r, ContractEvent::GetPing);
    assert_eq!(last_caller(&state), SIGNLESS);
    let r = state.handle(
        STRANGER,
        ContractAction::Pong { user_account: (None, Some(String::from("alice#42"))) },
    );
    assert_eq!(r, ContractEvent::BadSignlessSession);
    let r = state.handle(
        SIGNLESS,
        ContractAction::Ping { user_account: (None, Some(String::from("nobody"))) },
    );
    assert_eq!(r, ContractEvent::BadSignlessSession);
}

#[test]
fn double_bindings_are_refused() {
    let mut state = ContractState::new();
    assert_eq!(
        state.handle(
            SIGNLESS,
            ContractAction::BindSignlessAccountWithAddress {
                user_address: OWNER,
                signless_data: sample_account("one"),
            },
        ),
        ContractEvent::SignlessAccountSet
    );
    // The same owner address cannot be bound twice.
    assert_eq!(
        state.handle(
            STRANGER,
            ContractAction::BindSignlessAccountWithAddress {
                user_address: OWNER,
                signless_data: sample_account("three"),
            },
        ),
        ContractEvent::AddressAlreadyHasSignlessAccount
    );
    // A signless account that already holds data cannot bind again.
    assert_eq!(
        state.handle(
            SIGNLESS,
            ContractAction::BindSignlessAccountWithNoWallet {
                no_wallet: String::from("alice#42"),
                signless_data: sample_account("four"),
            },
        ),
        ContractEvent::SignlessAddressAlreadyEsists
    );
}

#[test]
fn registry_queries_report_bindings() {
    let mut state = ContractState::new();
    state.handle(
        SIGNLESS,
        ContractAction::BindSignlessAccountWithAddress {
            user_address: OWNER,
            signless_data: sample_account("one"),
        },
    );
    match state.state_reply(ContractStateQuery::SignlessAddressByAddress(OWNER)) {
        ContractStateReply::SignlessAddress(a) => assert_eq!(a, Some(SIGNLESS)),
        _ => panic!("unexpected reply"),
    }
    match state.state_reply(ContractStateQuery::SignlessAddressByAddress(STRANGER)) {
        ContractStateReply::SignlessAddress(a) => assert_eq!(a, None),
        _ => panic!("unexpected reply"),
    }
    match state.state_reply(ContractStateQuery::SignlessData(SIGNLESS)) {
        ContractStateReply::SignlessData(Some(acc)) => {
            assert_eq!(acc.address, "addr-one");
            assert_eq!(acc.encoded, "enc-one");
            assert_eq!(acc.encoding.version, "3");
            assert_eq!(acc.meta.name, "meta-one");
        }
        _ => panic!("unexpected reply"),
    }
    match state.state_reply(ContractStateQuery::SignlessData(STRANGER)) {
        ContractStateReply::SignlessData(None) => {}
        _ => panic!("unexpected reply"),
    }
}

#[test]
fn direct_session_checks() {
    let mut state = ContractState::new();
    state.handle(
        SIGNLESS,
        ContractAction::BindSignlessAccountWithNoWallet {
            no_wallet: String::from("alice#42"),
            signless_data: sample_account("two"),
        },
    );
    assert!(state.check_no_wallet(SIGNLESS, String::from("alice#42")).is_ok());
    assert_eq!(
        state.check_no_wallet(STRANGER, String::from("alice#42")).unwrap_err(),
        ContractEvent::BadSignlessSession
    );
    assert_eq!(state.get_address(SIGNLESS, None).unwrap(), SIGNLESS);
    let mut with_addr = ContractState::new();
    with_addr.handle(
        SIGNLESS,
        ContractAction::BindSignlessAccountWithAddress {
            user_address: OWNER,
            signless_data: sample_account("one"),
        },
    );
    assert_eq!(with_addr.get_address(SIGNLESS, Some(OWNER)).unwrap(), OWNER);
    assert_eq!(
        with_addr.get_address(STRANGER, Some(OWNER)).unwrap_err(),
        ContractEvent::BadSignlessSession
    );
    assert_eq!(
        with_addr.get_address(SIGNLESS, Some(STRANGER)).unwrap_err(),
        ContractEvent::BadSignlessSession
    );
}
