use diamondpay::contract_types::ContractError;
use diamondpay::contract_types::ContractRole;
use diamondpay::contract_types::XRD;
use diamondpay::marketplace::Marketplace;
use diamondpay::member::Member;
use diamondpay::project_contract::ProjectContract;
use diamondpay::tables::Table;

const NOW: i64 = 1695236716;
const ADMIN_BADGE: u64 = 11;
const MEMBER_BADGE: u64 = 22;
const CONTRACT_BADGE: u64 = 33;
const RESOURCE: u64 = 44;
const GRANULARITY: u128 = 1_000_000_000_000_000;
const PROJECT_ADDRESS: u64 = 901;

fn atto(units: u128) -> u128 {
    units * 1_000_000_000_000_000_000
}

fn pairs(entries: &[(&str, &str)]) -> Vec<(String, String)> {
    entries.iter().map(|(k, v)| (k.to_string(), v.to_string())).collect()
}

fn create_project() -> ProjectContract {
    let (project, _admin_nft) = ProjectContract::instantiate(
        "team_handle".to_string(),
        "contract_handle".to_string(),
        "Contract Name".to_string(),
        ADMIN_BADGE,
        "handle_1".to_string(),
        CONTRACT_BADGE,
        RESOURCE,
        GRANULARITY,
        PROJECT_ADDRESS,
        NOW,
    );
    project
}

fn objective(entries: &[(u64, u128)]) -> Table<u128> {
    let mut dist: Table<u128> = Table::new();
    for (member, units) in entries {
        dist.insert(*member, atto(*units));
    }
    dist
}

fn objectives(entries: &[(u64, &[(u64, u128)])]) -> Table<Table<u128>> {
    let mut objs: Table<Table<u128>> = Table::new();
    for (number, members) in entries {
        objs.insert(*number, objective(members));
    }
    objs
}

#[test]
fn project_tests_test_members() {
    let mut project = create_project();

    project.invite(MEMBER_BADGE, "handle_2".to_string(), true, NOW).unwrap();
    project.remove(MEMBER_BADGE, NOW).unwrap();
    project.invite(MEMBER_BADGE, "handle_2".to_string(), true, NOW).unwrap();
    project.join(MEMBER_BADGE, "handle_2".to_string(), NOW).unwrap();
    project.leave(MEMBER_BADGE, "handle_2".to_string(), NOW).unwrap();

    // a member who signed and left is kept for audit, and cannot sign again
    assert!(project.removed.contains_key(MEMBER_BADGE));
    project.invite(MEMBER_BADGE, "handle_2".to_string(), true, NOW).unwrap();
    assert_eq!(
        project.join(MEMBER_BADGE, "handle_2".to_string(), NOW),
        Err(ContractError::PreconditionViolation)
    );
}

#[test]
fn project_tests_test() {
    let is_list = true;

    let mut marketplace = Marketplace::instantiate(
        ADMIN_BADGE,
        "App".to_string(),
        vec!["Test".to_string(), "Test2".to_string()],
        atto(2000),
        atto(100),
        RESOURCE,
    );
    marketplace.add_category(
        vec!["Main".to_string()],
        atto(2000),
        atto(100),
        RESOURCE,
    );
    marketplace
        .update_category(
            "Main".to_string(),
            true,
            atto(3000),
            pairs(&[("description", "Test")]),
        )
        .unwrap();

    let mut project = create_project();

    project.invite(ADMIN_BADGE, "handle_1".to_string(), true, NOW).unwrap();
    project.join(ADMIN_BADGE, "handle_1".to_string(), NOW).unwrap();
    project.invite(MEMBER_BADGE, "handle_2".to_string(), true, NOW).unwrap();
    project.join(MEMBER_BADGE, "handle_2".to_string(), NOW).unwrap();
    let (mut member, _badge_data) = Member::instantiate("handle_2".to_string(), MEMBER_BADGE, 700);
    member.add_project(PROJECT_ADDRESS, ContractRole::Member).unwrap();

    project.deposit(RESOURCE, atto(3000), NOW).unwrap();
    let objs = objectives(&[
        (1, &[(ADMIN_BADGE, 100), (MEMBER_BADGE, 200)]),
        (2, &[(ADMIN_BADGE, 200), (MEMBER_BADGE, 400)]),
        (3, &[(ADMIN_BADGE, 100), (MEMBER_BADGE, 200)]),
        (4, &[(ADMIN_BADGE, 200), (MEMBER_BADGE, 400)]),
        (5, &[(MEMBER_BADGE, 200)]),
        (6, &[(MEMBER_BADGE, 1000)]),
    ]);
    project.update(objs, NOW).unwrap();

    if is_list {
        marketplace
            .add_project(
                true,
                "Test".to_string(),
                atto(3000),
                RESOURCE,
                true,
                PROJECT_ADDRESS,
                atto(100),
                XRD,
            )
            .unwrap();
        assert_eq!(marketplace.withdraw(XRD).unwrap(), atto(100));
        marketplace.remove_contract(PROJECT_ADDRESS, "Test".to_string(), true).unwrap();
    }

    project.complete(1, NOW).unwrap();
    if !is_list {
        project.withdraw(ADMIN_BADGE, "handle_1".to_string(), NOW).unwrap();
        project.withdraw(MEMBER_BADGE, "handle_2".to_string(), NOW).unwrap();
    }
    project.complete(2, NOW).unwrap();
    project.complete(3, NOW).unwrap();

    if !is_list {
        project.cancellation(NOW);
        project.withdraw(ADMIN_BADGE, "handle_1".to_string(), NOW).unwrap();
        project.withdraw(MEMBER_BADGE, "handle_2".to_string(), NOW).unwrap();
    }

    assert!(project.completed.contains_key(1));
    assert!(project.completed.contains_key(2));
    assert!(project.completed.contains_key(3));
}

#[test]
fn project_objective_scenario() {
    // per-objective sums need not match the escrow; only the total pending
    // must equal it exactly.  Rewarding objective 1 moves each member's
    // amount into their reserved balance and the objective into the
    // completed ledger.
    let mut project = create_project();
    project.invite(ADMIN_BADGE, "handle_1".to_string(), true, NOW).unwrap();
    project.join(ADMIN_BADGE, "handle_1".to_string(), NOW).unwrap();
    project.invite(MEMBER_BADGE, "handle_2".to_string(), true, NOW).unwrap();
    project.join(MEMBER_BADGE, "handle_2".to_string(), NOW).unwrap();

    let total: u128 = 100 + 200 + 200 + 400 + 100 + 200;
    project.deposit(RESOURCE, atto(total), NOW).unwrap();
    let objs = objectives(&[
        (1, &[(ADMIN_BADGE, 100), (MEMBER_BADGE, 200)]),
        (2, &[(ADMIN_BADGE, 200), (MEMBER_BADGE, 400)]),
        (3, &[(ADMIN_BADGE, 100), (MEMBER_BADGE, 200)]),
    ]);
    project.update(objs, NOW).unwrap();

    project.complete(1, NOW).unwrap();
    assert_eq!(*project.reserved.get(ADMIN_BADGE).unwrap(), atto(100));
    assert_eq!(*project.reserved.get(MEMBER_BADGE).unwrap(), atto(200));
    assert!(!project.objectives.contains_key(1));
    assert!(project.completed.contains_key(1));
    assert!(project.objectives.contains_key(2));
    assert!(project.objectives.contains_key(3));
}

#[test]
fn project_update_rejected() {
    let mut project = create_project();
    project.invite(MEMBER_BADGE, "handle_2".to_string(), true, NOW).unwrap();
    project.join(MEMBER_BADGE, "handle_2".to_string(), NOW).unwrap();
    project.deposit(RESOURCE, atto(600), NOW).unwrap();

    // total pending must equal the escrow exactly, not merely stay under it
    assert_eq!(
        project.update(objectives(&[(1, &[(MEMBER_BADGE, 500)])]), NOW),
        Err(ContractError::LedgerInvariantViolation)
    );
    // a zero amount buys nothing
    assert_eq!(
        project.update(
            objectives(&[(1, &[(MEMBER_BADGE, 0)]), (2, &[(MEMBER_BADGE, 600)])]),
            NOW
        ),
        Err(ContractError::LedgerInvariantViolation)
    );
    // every listed member must be on the roster
    assert_eq!(
        project.update(objectives(&[(1, &[(77, 600)])]), NOW),
        Err(ContractError::NotFound)
    );
    // an objective without members is meaningless
    assert_eq!(
        project.update(objectives(&[(1, &[])]), NOW),
        Err(ContractError::PreconditionViolation)
    );
    assert_eq!(project.objectives.len(), 0);

    project.update(objectives(&[(1, &[(MEMBER_BADGE, 600)])]), NOW).unwrap();
    project.complete(1, NOW).unwrap();

    // a completed pair cannot be made pending again
    project.deposit(RESOURCE, atto(50), NOW).unwrap();
    assert_eq!(
        project.update(objectives(&[(1, &[(MEMBER_BADGE, 50)])]), NOW),
        Err(ContractError::PreconditionViolation)
    );
}

#[test]
fn project_no_double_reward() {
    let mut project = create_project();
    project.invite(ADMIN_BADGE, "handle_1".to_string(), true, NOW).unwrap();
    project.join(ADMIN_BADGE, "handle_1".to_string(), NOW).unwrap();
    project.invite(MEMBER_BADGE, "handle_2".to_string(), true, NOW).unwrap();
    project.join(MEMBER_BADGE, "handle_2".to_string(), NOW).unwrap();
    project.deposit(RESOURCE, atto(300), NOW).unwrap();
    project
        .update(objectives(&[(1, &[(ADMIN_BADGE, 100), (MEMBER_BADGE, 200)])]), NOW)
        .unwrap();

    assert_eq!(project.reward(1, ADMIN_BADGE, NOW), Ok(atto(100)));
    // the pair is settled: rewarding it again is refused
    assert_eq!(
        project.reward(1, ADMIN_BADGE, NOW),
        Err(ContractError::PreconditionViolation)
    );
    // the other member of the objective is untouched by that refusal
    assert_eq!(project.reward(1, MEMBER_BADGE, NOW), Ok(atto(200)));
    // a settled objective is no longer pending
    assert_eq!(
        project.reward(1, MEMBER_BADGE, NOW),
        Err(ContractError::PreconditionViolation)
    );
    assert_eq!(project.reward(9, MEMBER_BADGE, NOW), Err(ContractError::NotFound));
}

#[test]
fn project_withdraw_and_deposit_rejected() {
    let mut project = create_project();
    project.invite(MEMBER_BADGE, "handle_2".to_string(), true, NOW).unwrap();
    project.join(MEMBER_BADGE, "handle_2".to_string(), NOW).unwrap();

    // zero amounts and foreign asset kinds are refused with no state change
    assert_eq!(
        project.deposit(RESOURCE, 0, NOW),
        Err(ContractError::LedgerInvariantViolation)
    );
    assert_eq!(
        project.deposit(RESOURCE + 1, atto(5), NOW),
        Err(ContractError::LedgerInvariantViolation)
    );
    assert_eq!(project.funds, 0);

    // nothing reserved yet
    assert_eq!(
        project.withdraw(MEMBER_BADGE, "handle_2".to_string(), NOW),
        Err(ContractError::NotFound)
    );

    project.deposit(RESOURCE, atto(600), NOW).unwrap();
    project.update(objectives(&[(1, &[(MEMBER_BADGE, 600)])]), NOW).unwrap();
    project.complete(1, NOW).unwrap();

    // a stale or mismatched credential is refused
    assert_eq!(
        project.withdraw(MEMBER_BADGE, "handle_9".to_string(), NOW),
        Err(ContractError::AuthorizationFailure)
    );
    assert_eq!(
        project.withdraw(MEMBER_BADGE, "handle_2".to_string(), NOW),
        Ok(atto(600))
    );
    // the balance is drained: a second withdrawal in a row is refused
    assert_eq!(
        project.withdraw(MEMBER_BADGE, "handle_2".to_string(), NOW),
        Err(ContractError::PreconditionViolation)
    );
}

#[test]
fn project_conservation_and_cancellation() {
    // escrow plus reserved balances always equals deposits minus
    // withdrawals; cancellation forfeits pending objectives and recalls the
    // escrow but leaves reserved balances withdrawable
    let mut project = create_project();
    project.invite(ADMIN_BADGE, "handle_1".to_string(), true, NOW).unwrap();
    project.join(ADMIN_BADGE, "handle_1".to_string(), NOW).unwrap();
    project.invite(MEMBER_BADGE, "handle_2".to_string(), true, NOW).unwrap();
    project.join(MEMBER_BADGE, "handle_2".to_string(), NOW).unwrap();
    project.deposit(RESOURCE, atto(900), NOW).unwrap();
    project
        .update(
            objectives(&[
                (1, &[(ADMIN_BADGE, 100), (MEMBER_BADGE, 200)]),
                (2, &[(MEMBER_BADGE, 600)]),
            ]),
            NOW,
        )
        .unwrap();
    project.complete(1, NOW).unwrap();

    let reserved_total: u128 = project.reserved.entries.iter().map(|e| e.1).sum();
    assert_eq!(project.funds + reserved_total, atto(900));

    let recalled = project.cancellation(NOW);
    assert_eq!(recalled, atto(600));
    assert_eq!(project.objectives.len(), 0);
    assert!(project.is_cancelled);

    // completed-and-reserved amounts are unaffected by the cancellation
    assert_eq!(
        project.withdraw(ADMIN_BADGE, "handle_1".to_string(), NOW),
        Ok(atto(100))
    );
    assert_eq!(
        project.withdraw(MEMBER_BADGE, "handle_2".to_string(), NOW),
        Ok(atto(200))
    );
}

#[test]
fn project_remove_detaches_member() {
    let mut project = create_project();
    project.invite(ADMIN_BADGE, "handle_1".to_string(), true, NOW).unwrap();
    project.join(ADMIN_BADGE, "handle_1".to_string(), NOW).unwrap();
    project.invite(MEMBER_BADGE, "handle_2".to_string(), true, NOW).unwrap();
    project.join(MEMBER_BADGE, "handle_2".to_string(), NOW).unwrap();
    project.deposit(RESOURCE, atto(300), NOW).unwrap();
    project
        .update(objectives(&[(1, &[(ADMIN_BADGE, 100), (MEMBER_BADGE, 200)])]), NOW)
        .unwrap();

    project.remove(MEMBER_BADGE, NOW).unwrap();
    // the member is detached from future objectives but the rest stand
    assert_eq!(
        project.reward(1, MEMBER_BADGE, NOW),
        Err(ContractError::NotFound)
    );
    assert_eq!(project.reward(1, ADMIN_BADGE, NOW), Ok(atto(100)));
    assert!(project.removed.contains_key(MEMBER_BADGE));
    assert_eq!(project.remove(77, NOW), Err(ContractError::NotFound));
}

#[test]
fn project_reward_rounds_toward_zero() {
    // amounts not representable at the asset's divisibility round down; the
    // dust stays in escrow
    let mut project = create_project();
    project.invite(MEMBER_BADGE, "handle_2".to_string(), true, NOW).unwrap();
    project.join(MEMBER_BADGE, "handle_2".to_string(), NOW).unwrap();

    let fractional: u128 = 600 * GRANULARITY + 123; // 0.600000000000000123
    project.deposit(RESOURCE, fractional, NOW).unwrap();
    let mut objs: Table<Table<u128>> = Table::new();
    let mut dist: Table<u128> = Table::new();
    dist.insert(MEMBER_BADGE, fractional);
    objs.insert(1, dist);
    project.update(objs, NOW).unwrap();

    assert_eq!(project.reward(1, MEMBER_BADGE, NOW), Ok(600 * GRANULARITY));
    assert_eq!(project.funds, 123);
}

#[test]
fn project_roster_and_objective_caps() {
    let mut project = create_project();
    // the roster check runs before the insert, so it holds one past the cap
    for i in 0..31u64 {
        project.invite(100 + i, format!("handle_{}", i), true, NOW).unwrap();
    }
    assert_eq!(
        project.invite(200, "handle_x".to_string(), true, NOW),
        Err(ContractError::PreconditionViolation)
    );
    // a badge already on the roster cannot be invited again
    assert_eq!(
        project.invite(100, "handle_0".to_string(), true, NOW),
        Err(ContractError::PreconditionViolation)
    );
    // an invalid credential record is refused
    project.remove(130, NOW).unwrap();
    assert_eq!(
        project.invite(201, "handle_y".to_string(), false, NOW),
        Err(ContractError::NotFound)
    );

    // pending plus completed objectives may not exceed their cap
    project.join(100, "handle_0".to_string(), NOW).unwrap();
    project.deposit(RESOURCE, atto(31), NOW).unwrap();
    let mut too_many: Vec<(u64, &[(u64, u128)])> = Vec::new();
    let dist: &[(u64, u128)] = &[(100, 1)];
    for i in 0..31u64 {
        too_many.push((i, dist));
    }
    assert_eq!(
        project.update(objectives(&too_many), NOW),
        Err(ContractError::PreconditionViolation)
    );
}
