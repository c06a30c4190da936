use diamondpay::contract_types::ContractError;
use diamondpay::contract_types::ContractKind;
use diamondpay::contract_types::XRD;
use diamondpay::marketplace::Marketplace;
use diamondpay::vesting_schedule::VestingSchedule;

const ADMIN_BADGE: u64 = 11;
const RESOURCE: u64 = 44;

fn atto(units: u128) -> u128 {
    units * 1_000_000_000_000_000_000
}

fn pairs(entries: &[(&str, &str)]) -> Vec<(String, String)> {
    entries.iter().map(|(k, v)| (k.to_string(), v.to_string())).collect()
}

fn create_marketplace() -> Marketplace {
    Marketplace::instantiate(
        ADMIN_BADGE,
        "App".to_string(),
        vec!["Test".to_string(), "Test2".to_string()],
        atto(2000),
        atto(100),
        RESOURCE,
    )
}

#[test]
fn marketplace_market_checks() {
    let marketplace = create_marketplace();

    // a qualifying contract is quoted the market's fee
    assert_eq!(
        marketplace.check_contract("Test".to_string(), ContractKind::Job, atto(2000), RESOURCE),
        Ok(atto(100))
    );
    // under the minimum
    assert_eq!(
        marketplace.check_contract("Test".to_string(), ContractKind::Job, atto(1999), RESOURCE),
        Err(ContractError::PreconditionViolation)
    );
    // wrong escrow asset
    assert_eq!(
        marketplace.check_contract("Test".to_string(), ContractKind::Job, atto(2000), RESOURCE + 1),
        Err(ContractError::LedgerInvariantViolation)
    );
    // no such market
    assert_eq!(
        marketplace.check_contract("Other".to_string(), ContractKind::Job, atto(2000), RESOURCE),
        Err(ContractError::NotFound)
    );
}

#[test]
fn marketplace_listing_fees() {
    let mut marketplace = create_marketplace();

    // the quoted fee must be paid exactly, in the network token
    assert_eq!(
        marketplace.add_job(true, "Test".to_string(), atto(2000), RESOURCE, true, 900, atto(99), XRD),
        Err(ContractError::PreconditionViolation)
    );
    assert_eq!(
        marketplace.add_job(true, "Test".to_string(), atto(2000), RESOURCE, true, 900, atto(100), XRD + 1),
        Err(ContractError::LedgerInvariantViolation)
    );
    // a contract that does not name this marketplace, or is closed, is refused
    assert_eq!(
        marketplace.add_job(false, "Test".to_string(), atto(2000), RESOURCE, true, 900, atto(100), XRD),
        Err(ContractError::PreconditionViolation)
    );
    assert_eq!(
        marketplace.add_job(true, "Test".to_string(), atto(2000), RESOURCE, false, 900, atto(100), XRD),
        Err(ContractError::PreconditionViolation)
    );

    marketplace
        .add_job(true, "Test".to_string(), atto(2000), RESOURCE, true, 900, atto(100), XRD)
        .unwrap();
    // the same contract cannot be listed on the same market twice
    assert_eq!(
        marketplace.add_job(true, "Test".to_string(), atto(2000), RESOURCE, true, 900, atto(100), XRD),
        Err(ContractError::PreconditionViolation)
    );
    // fees accumulate until the admin withdraws them
    marketplace
        .add_project(true, "Test".to_string(), atto(2500), RESOURCE, true, 901, atto(100), XRD)
        .unwrap();
    assert_eq!(marketplace.withdraw(XRD), Ok(atto(200)));
    assert_eq!(marketplace.withdraw(XRD), Ok(0));
    assert_eq!(marketplace.withdraw(RESOURCE), Err(ContractError::NotFound));

    marketplace.remove_contract(900, "Test".to_string(), false).unwrap();
    // clearing an already-cleared slot changes nothing and is allowed; an
    // address that was never listed is refused
    marketplace.remove_contract(900, "Test".to_string(), false).unwrap();
    assert_eq!(
        marketplace.remove_contract(999, "Test".to_string(), false),
        Err(ContractError::NotFound)
    );
}

#[test]
fn marketplace_category_management() {
    let mut marketplace = create_marketplace();
    marketplace.update("Renamed".to_string(), pairs(&[("description", "About")]));
    marketplace.add_category(vec!["Main".to_string()], atto(500), atto(10), RESOURCE);
    assert_eq!(
        marketplace.check_contract("Main".to_string(), ContractKind::Project, atto(500), RESOURCE),
        Ok(atto(10))
    );
    marketplace
        .update_category("Main".to_string(), true, atto(800), pairs(&[("description", "Test")]))
        .unwrap();
    assert_eq!(
        marketplace.check_contract("Main".to_string(), ContractKind::Project, atto(500), RESOURCE),
        Err(ContractError::PreconditionViolation)
    );
    // the job-side market of the same name keeps its own minimum
    assert_eq!(
        marketplace.check_contract("Main".to_string(), ContractKind::Job, atto(500), RESOURCE),
        Ok(atto(10))
    );
    assert_eq!(
        marketplace.update_category("Other".to_string(), true, atto(1), Vec::new()),
        Err(ContractError::NotFound)
    );
}

#[test]
fn vesting_step_function() {
    // vesting is a step function: within one interval the answer does not
    // change, and each whole interval adds one per-interval amount computed
    // divide-before-multiply
    let schedule = VestingSchedule::new(1000, None, 1000 + 100 * 86400, 10, atto(1000), false)
        .unwrap();
    let interval: i64 = 10 * 86400;

    assert_eq!(schedule.get_vested(999), 0);
    assert_eq!(schedule.get_vested(1000), 0);
    // one second before the first interval completes, nothing has vested
    assert_eq!(schedule.get_vested(1000 + interval - 1), 0);
    let one = schedule.get_vested(1000 + interval);
    assert_eq!(one, schedule.get_vested(1000 + interval + 1));
    assert_eq!(one * 2, schedule.get_vested(1000 + 2 * interval));
    // (1000 / 8640000) * 864000 in atto units, truncated at the division:
    // the truncation costs 640000 atto per interval against the exact value
    assert_eq!(one, 99_999_999_999_999_360_000);
    assert_eq!(schedule.get_vested(1000 + 100 * 86400), atto(1000));
    assert_eq!(schedule.get_unvested(1000 + interval), atto(1000) - one);
}
