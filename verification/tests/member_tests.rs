use diamondpay::contract_types::ContractError;
use diamondpay::contract_types::ContractRole;
use diamondpay::member::Member;

const ADMIN_BADGE: u64 = 11;
const CONTACT_BADGE: u64 = 22;
const CONTACT_COMPONENT: u64 = 700;
const MEMBER_ADDRESS: u64 = 600;
const RESOURCE: u64 = 44;

fn atto(units: u128) -> u128 {
    units * 1_000_000_000_000_000_000
}

fn pairs(entries: &[(&str, &str)]) -> Vec<(String, String)> {
    entries.iter().map(|(k, v)| (k.to_string(), v.to_string())).collect()
}

fn create_member() -> Member {
    let (member, badge_data) =
        Member::instantiate("handle_1".to_string(), ADMIN_BADGE, MEMBER_ADDRESS);
    assert_eq!(badge_data.member_address, MEMBER_ADDRESS);
    member
}

#[test]
fn member_tests_test() {
    let mut member = create_member();

    member.details(pairs(&[("description", "New Description")]));
    member.details(pairs(&[("description", "New Description 2")]));

    member.deposit(RESOURCE, atto(3000));
    assert_eq!(member.withdraw(RESOURCE), Ok(atto(3000)));

    member.update_members(vec![(CONTACT_BADGE, CONTACT_COMPONENT)], false);
    assert!(member.member_badges.contains_key(CONTACT_BADGE));
    member.update_members(vec![(CONTACT_BADGE, CONTACT_COMPONENT)], true);
    assert!(!member.member_badges.contains_key(CONTACT_BADGE));

    member.update_team(
        "App Name".to_string(),
        pairs(&[("description", "Test description goes here")]),
    );
    member.update_team("App Name".to_string(), pairs(&[("description", "Updated here")]));
    member.remove_team("App Name".to_string());
    assert!(!member.teams.contains_key(&"App Name".to_string()));
}

#[test]
fn member_contract_registers() {
    let mut member = create_member();

    member.add_project(901, ContractRole::Admin).unwrap();
    member.add_project(902, ContractRole::Member).unwrap();
    member.add_job(903, ContractRole::Member).unwrap();

    // a contract is registered once per register, for good
    assert_eq!(
        member.add_project(901, ContractRole::Admin),
        Err(ContractError::PreconditionViolation)
    );
    member.remove_contract(901, true, true).unwrap();
    assert_eq!(
        member.add_project(901, ContractRole::Admin),
        Err(ContractError::PreconditionViolation)
    );
    // delisting an unknown contract is refused
    assert_eq!(
        member.remove_contract(904, false, false),
        Err(ContractError::NotFound)
    );
    member.remove_contract(903, false, false).unwrap();
}

#[test]
fn member_balances() {
    let mut member = create_member();
    assert_eq!(member.withdraw(RESOURCE), Err(ContractError::NotFound));
    member.deposit(RESOURCE, atto(10));
    member.deposit(RESOURCE, atto(5));
    member.deposit(RESOURCE + 1, atto(7));
    assert_eq!(member.withdraw(RESOURCE), Ok(atto(15)));
    // drained, not forgotten: the empty balance stays
    assert_eq!(member.withdraw(RESOURCE), Ok(0));
    assert_eq!(member.withdraw(RESOURCE + 1), Ok(atto(7)));
    assert_eq!(member.get_badge(), ADMIN_BADGE);
}
