use diamondpay::contract_types::ContractError;
use diamondpay::contract_types::ContractKind;
use diamondpay::contract_types::ContractRole;
use diamondpay::contract_types::TxType;
use diamondpay::contract_types::XRD;
use diamondpay::job_contract::JobContract;
use diamondpay::marketplace::Marketplace;
use diamondpay::member::Member;

// Fixture ids and epochs: the clock starts at Wed Sep 20 2023, the schedule
// runs 2022-09-09 to 2024-09-09 with a one-year cliff and 14-day intervals,
// and the escrow asset has divisibility 3.
const NOW: i64 = 1695236716;
const START: i64 = 1662700716;
const CLIFF: i64 = 1694236716;
const END: i64 = 1725859156;
const INTERVAL: i64 = 14;
const ADMIN_BADGE: u64 = 11;
const MEMBER_BADGE: u64 = 22;
const CONTRACT_BADGE: u64 = 33;
const RESOURCE: u64 = 44;
const GRANULARITY: u128 = 1_000_000_000_000_000;
const JOB_ADDRESS: u64 = 900;
const MARKETPLACE_ADDRESS: u64 = 800;

fn atto(units: u128) -> u128 {
    units * 1_000_000_000_000_000_000
}

fn pairs(entries: &[(&str, &str)]) -> Vec<(String, String)> {
    entries.iter().map(|(k, v)| (k.to_string(), v.to_string())).collect()
}

fn create_job(start: i64, cliff: Option<i64>, end: i64, interval: i64) -> JobContract {
    let (job, admin_nft) = JobContract::instantiate(
        JOB_ADDRESS,
        MARKETPLACE_ADDRESS,
        "team_handle".to_string(),
        "contract_handle".to_string(),
        "Contract Name".to_string(),
        ADMIN_BADGE,
        "handle_1".to_string(),
        CONTRACT_BADGE,
        RESOURCE,
        GRANULARITY,
        start,
        cliff,
        end,
        interval,
        false,
        pairs(&[
            ("description", "Test description goes here"),
            ("social_urls", "https://google.com"),
            ("link_urls", "https://google.com"),
            ("image_urls", "https://google.com"),
            ("video_ids", "id1"),
        ]),
        NOW,
    )
    .unwrap();
    assert_eq!(admin_nft.contract_role, ContractRole::Admin);
    assert_eq!(admin_nft.contract_kind, ContractKind::Job);
    job
}

#[test]
fn job_tests_test_members() {
    let mut job = create_job(START, Some(CLIFF), END, INTERVAL);

    job.invite(MEMBER_BADGE, "handle_2".to_string(), true, NOW).unwrap();
    job.remove(MEMBER_BADGE, NOW).unwrap();
    job.invite(MEMBER_BADGE, "handle_2".to_string(), true, NOW).unwrap();
    job.join(MEMBER_BADGE, "handle_2".to_string(), NOW).unwrap();

    job.deposit(RESOURCE, atto(10000), NOW).unwrap();
    let taken = job.withdraw(MEMBER_BADGE, "handle_2".to_string(), NOW).unwrap();
    // 26 whole intervals have elapsed; divide-before-multiply and
    // round-toward-zero at divisibility 3 give exactly 4979.477
    assert_eq!(taken, 4_979_477 * GRANULARITY);
    job.leave(MEMBER_BADGE, "handle_2".to_string(), NOW).unwrap();
    assert!(job.is_cancelled);
}

#[test]
fn job_tests_test() {
    // Toggle this to test List vs Cancellation/Withdraw
    let is_list = true;

    let mut marketplace = Marketplace::instantiate(
        ADMIN_BADGE,
        "App".to_string(),
        vec!["Test".to_string(), "Test2".to_string()],
        atto(2000),
        atto(100),
        RESOURCE,
    );
    marketplace.add_category(
        vec!["Main".to_string()],
        atto(2000),
        atto(100),
        RESOURCE,
    );
    marketplace
        .update_category(
            "Main".to_string(),
            false,
            atto(3000),
            pairs(&[("description", "Test")]),
        )
        .unwrap();

    let mut job = create_job(START, Some(CLIFF), END, INTERVAL);
    job.deposit(RESOURCE, atto(10000), NOW).unwrap();
    job.details(pairs(&[("description", "New Description")]), NOW);

    if is_list {
        job.list("Test".to_string(), NOW).unwrap();
        let (marketplace_addr, _admin_badge, amount, resource, is_open, address) = job.data();
        assert_eq!(marketplace_addr, MARKETPLACE_ADDRESS);
        marketplace
            .add_job(true, "Test".to_string(), amount, resource, is_open, address, atto(100), XRD)
            .unwrap();
        assert_eq!(marketplace.withdraw(XRD).unwrap(), atto(100));
        marketplace.remove_contract(address, "Test".to_string(), false).unwrap();
    }

    job.invite(MEMBER_BADGE, "handle_2".to_string(), true, NOW).unwrap();
    job.join(MEMBER_BADGE, "handle_2".to_string(), NOW).unwrap();
    let (mut member, _badge_data) = Member::instantiate("handle_2".to_string(), MEMBER_BADGE, 700);
    let role = job.role(MEMBER_BADGE).unwrap();
    member.add_job(JOB_ADDRESS, role).unwrap();

    if !is_list {
        job.withdraw(MEMBER_BADGE, "handle_2".to_string(), NOW).unwrap();
        job.leave(MEMBER_BADGE, "handle_2".to_string(), NOW).unwrap();
        job.cancellation(NOW).unwrap();
        assert!(job.vesting_schedule.withdrawn == 4_979_477 * GRANULARITY);
    }
}

#[test]
fn job_deposit_rejected() {
    // zero amounts and foreign asset kinds are refused with no state change
    let mut job = create_job(START, Some(CLIFF), END, INTERVAL);
    assert_eq!(
        job.deposit(RESOURCE, 0, NOW),
        Err(ContractError::LedgerInvariantViolation)
    );
    assert_eq!(
        job.deposit(RESOURCE + 1, atto(5), NOW),
        Err(ContractError::LedgerInvariantViolation)
    );
    assert_eq!(job.funds, 0);
    assert_eq!(job.vesting_schedule.amount, 0);

    job.cancellation(NOW).unwrap();
    assert_eq!(
        job.deposit(RESOURCE, atto(5), NOW),
        Err(ContractError::PreconditionViolation)
    );
}

#[test]
fn job_second_withdraw_rejected() {
    // with no vesting progress in between, the second drain is empty
    let mut job = create_job(START, Some(CLIFF), END, INTERVAL);
    job.invite(MEMBER_BADGE, "handle_2".to_string(), true, NOW).unwrap();
    job.join(MEMBER_BADGE, "handle_2".to_string(), NOW).unwrap();
    job.deposit(RESOURCE, atto(10000), NOW).unwrap();

    job.withdraw(MEMBER_BADGE, "handle_2".to_string(), NOW).unwrap();
    assert_eq!(
        job.withdraw(MEMBER_BADGE, "handle_2".to_string(), NOW),
        Err(ContractError::PreconditionViolation)
    );
}

#[test]
fn job_conservation_and_cancellation() {
    // escrow + reserved always equals deposits - withdrawals, and
    // cancellation recalls exactly what is left
    let mut job = create_job(START, Some(CLIFF), END, INTERVAL);
    job.invite(MEMBER_BADGE, "handle_2".to_string(), true, NOW).unwrap();
    job.join(MEMBER_BADGE, "handle_2".to_string(), NOW).unwrap();
    job.deposit(RESOURCE, atto(10000), NOW).unwrap();
    assert_eq!(job.funds + job.reserved, atto(10000));

    let taken = job.withdraw(MEMBER_BADGE, "handle_2".to_string(), NOW).unwrap();
    assert_eq!(
        job.funds + job.reserved,
        atto(10000) - job.vesting_schedule.withdrawn
    );

    let recalled = job.cancellation(NOW).unwrap();
    assert_eq!(taken + recalled, atto(10000));
    assert_eq!(job.funds, 0);
    assert_eq!(job.reserved, 0);
    assert_eq!(job.vesting_schedule.cancel_epoch, Some(NOW));
}

#[test]
fn job_vesting_monotonic_and_frozen() {
    // vested amounts never shrink as time passes, reach the full amount at
    // the end, and freeze at the cancel epoch
    let mut job = create_job(START, Some(CLIFF), END, INTERVAL);
    job.deposit(RESOURCE, atto(10000), NOW).unwrap();

    let schedule = &job.vesting_schedule;
    let mut previous: u128 = 0;
    let week: i64 = 7 * 86400;
    let mut t: i64 = START - week;
    while t < END + week {
        let vested = schedule.get_vested(t);
        assert!(vested >= previous);
        previous = vested;
        t += week;
    }
    assert_eq!(schedule.get_vested(END), atto(10000));
    assert_eq!(schedule.get_vested(CLIFF), 0);

    job.invite(MEMBER_BADGE, "handle_2".to_string(), true, NOW).unwrap();
    job.join(MEMBER_BADGE, "handle_2".to_string(), NOW).unwrap();
    job.cancellation(NOW).unwrap();
    let frozen = job.vesting_schedule.get_vested(NOW);
    assert_eq!(job.vesting_schedule.get_vested(NOW + 300 * 86400), frozen);
    assert_eq!(job.vesting_schedule.get_vested(END + 300 * 86400), frozen);
}

#[test]
fn job_member_slot_and_proofs() {
    let mut job = create_job(START, Some(CLIFF), END, INTERVAL);
    job.invite(MEMBER_BADGE, "handle_2".to_string(), true, NOW).unwrap();
    // the single slot is taken
    assert_eq!(
        job.invite(55, "handle_3".to_string(), true, NOW),
        Err(ContractError::PreconditionViolation)
    );
    // a stale or mismatched credential is refused
    assert_eq!(
        job.join(MEMBER_BADGE, "handle_9".to_string(), NOW),
        Err(ContractError::AuthorizationFailure)
    );
    // an unknown badge is refused
    assert_eq!(
        job.join(55, "handle_3".to_string(), NOW),
        Err(ContractError::NotFound)
    );
    assert_eq!(job.remove(55, NOW), Err(ContractError::NotFound));

    job.join(MEMBER_BADGE, "handle_2".to_string(), NOW).unwrap();
    // a signed member cannot be removed
    assert_eq!(
        job.remove(MEMBER_BADGE, NOW),
        Err(ContractError::PreconditionViolation)
    );
    assert_eq!(job.role(ADMIN_BADGE).unwrap(), ContractRole::Admin);
    assert_eq!(job.role(MEMBER_BADGE).unwrap(), ContractRole::Member);
    assert_eq!(job.role(55), Err(ContractError::NotFound));
}

#[test]
fn job_join_window() {
    // with the join-window policy set, joining after the start is refused
    let (mut job, _) = JobContract::instantiate(
        JOB_ADDRESS,
        MARKETPLACE_ADDRESS,
        "team_handle".to_string(),
        "contract_handle".to_string(),
        "Contract Name".to_string(),
        ADMIN_BADGE,
        "handle_1".to_string(),
        CONTRACT_BADGE,
        RESOURCE,
        GRANULARITY,
        START,
        Some(CLIFF),
        END,
        INTERVAL,
        true,
        Vec::new(),
        NOW,
    )
    .unwrap();
    job.invite(MEMBER_BADGE, "handle_2".to_string(), true, NOW).unwrap();
    assert_eq!(
        job.join(MEMBER_BADGE, "handle_2".to_string(), NOW),
        Err(ContractError::PreconditionViolation)
    );
    job.join(MEMBER_BADGE, "handle_2".to_string(), START).unwrap();
}

#[test]
fn job_schedule_rejected() {
    // cliff before start, end before start, or a zero interval are refused
    assert!(JobContract::instantiate(
        JOB_ADDRESS,
        MARKETPLACE_ADDRESS,
        "team_handle".to_string(),
        "contract_handle".to_string(),
        "Contract Name".to_string(),
        ADMIN_BADGE,
        "handle_1".to_string(),
        CONTRACT_BADGE,
        RESOURCE,
        GRANULARITY,
        START,
        Some(START - 1),
        END,
        INTERVAL,
        false,
        Vec::new(),
        NOW,
    )
    .is_err());
    assert!(JobContract::instantiate(
        JOB_ADDRESS,
        MARKETPLACE_ADDRESS,
        "team_handle".to_string(),
        "contract_handle".to_string(),
        "Contract Name".to_string(),
        ADMIN_BADGE,
        "handle_1".to_string(),
        CONTRACT_BADGE,
        RESOURCE,
        GRANULARITY,
        END,
        None,
        START,
        INTERVAL,
        false,
        Vec::new(),
        NOW,
    )
    .is_err());
    assert!(JobContract::instantiate(
        JOB_ADDRESS,
        MARKETPLACE_ADDRESS,
        "team_handle".to_string(),
        "contract_handle".to_string(),
        "Contract Name".to_string(),
        ADMIN_BADGE,
        "handle_1".to_string(),
        CONTRACT_BADGE,
        RESOURCE,
        GRANULARITY,
        START,
        None,
        END,
        0,
        false,
        Vec::new(),
        NOW,
    )
    .is_err());
}

#[test]
fn job_list_time_lock() {
    // after listing, withdrawals and cancellation wait three days
    let mut job = create_job(START, Some(CLIFF), END, INTERVAL);
    job.invite(MEMBER_BADGE, "handle_2".to_string(), true, NOW).unwrap();
    job.join(MEMBER_BADGE, "handle_2".to_string(), NOW).unwrap();
    job.deposit(RESOURCE, atto(10000), NOW).unwrap();
    job.list("Test".to_string(), NOW).unwrap();
    assert_eq!(
        job.list("Test".to_string(), NOW),
        Err(ContractError::PreconditionViolation)
    );

    assert_eq!(
        job.withdraw(MEMBER_BADGE, "handle_2".to_string(), NOW + 86400),
        Err(ContractError::PreconditionViolation)
    );
    assert_eq!(
        job.cancellation(NOW + 86400),
        Err(ContractError::PreconditionViolation)
    );
    let after_lock = NOW + 3 * 86400;
    job.withdraw(MEMBER_BADGE, "handle_2".to_string(), after_lock).unwrap();
    job.cancellation(after_lock).unwrap();
}

#[test]
fn job_market_cap() {
    // the market-count check runs before the insert, so it holds one past
    // the cap
    let mut job = create_job(START, Some(CLIFF), END, INTERVAL);
    job.list("Test".to_string(), NOW).unwrap();
    job.list("Test2".to_string(), NOW).unwrap();
    job.list("Test3".to_string(), NOW).unwrap();
    job.list("Test4".to_string(), NOW).unwrap();
    assert_eq!(
        job.list("Test5".to_string(), NOW),
        Err(ContractError::PreconditionViolation)
    );
}

#[test]
fn job_transaction_log() {
    // every successful call appends exactly one record to the history
    let mut job = create_job(START, Some(CLIFF), END, INTERVAL);
    assert_eq!(job.badge_manager.txs.len(), 1);
    assert_eq!(job.badge_manager.txs[0].tx_type, TxType::Create);

    job.invite(MEMBER_BADGE, "handle_2".to_string(), true, NOW).unwrap();
    job.join(MEMBER_BADGE, "handle_2".to_string(), NOW).unwrap();
    job.deposit(RESOURCE, atto(10000), NOW).unwrap();
    assert_eq!(job.badge_manager.txs.len(), 4);

    let deposit_tx = &job.badge_manager.txs[3];
    assert_eq!(deposit_tx.tx_type, TxType::Deposit);
    assert_eq!(deposit_tx.amount, atto(10000));
    assert_eq!(deposit_tx.epoch, NOW);
    assert_eq!(deposit_tx.from_badge, ADMIN_BADGE);

    // a refused call appends nothing
    assert!(job.deposit(RESOURCE, 0, NOW).is_err());
    assert_eq!(job.badge_manager.txs.len(), 4);

    let taken = job.withdraw(MEMBER_BADGE, "handle_2".to_string(), NOW).unwrap();
    let withdraw_tx = &job.badge_manager.txs[4];
    assert_eq!(withdraw_tx.tx_type, TxType::Withdraw);
    assert_eq!(withdraw_tx.amount, taken);
    assert_eq!(withdraw_tx.to_badge, MEMBER_BADGE);
}
