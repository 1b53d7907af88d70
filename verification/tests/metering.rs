use sandbox_core::cost::CostModel;
use sandbox_core::cost::Operator;
use sandbox_core::instance::ConfigError;
use sandbox_core::instance::Instance;
use sandbox_core::instance::Trap;
use sandbox_core::instance::call;
use sandbox_core::instance::charge_block;
use sandbox_core::instance::get_remaining_points;
use sandbox_core::instance::set_remaining_points;
use sandbox_core::instrument::InstrumentError;
use sandbox_core::instrument::instrument;

fn worked_example_model() -> CostModel {
    let mut model = CostModel::new();
    model.assign(Operator::LocalGet, 1);
    model.assign(Operator::ConstLoad, 1);
    model.assign(Operator::IntAdd, 2);
    model
}

#[test]
fn scenario_worked_example() {
    let model = worked_example_model();
    let body = vec![Operator::LocalGet, Operator::ConstLoad, Operator::IntAdd];
    let func = instrument(&body, &model).unwrap();

    let mut instance = Instance::new(10, 0).unwrap();
    assert_eq!(get_remaining_points(&instance), 10);

    assert_eq!(call(&mut instance, &func), Ok(()));
    assert_eq!(get_remaining_points(&instance), 6);

    assert_eq!(call(&mut instance, &func), Ok(()));
    assert_eq!(get_remaining_points(&instance), 2);

    assert_eq!(call(&mut instance, &func), Err(Trap::Exhausted));
    assert_eq!(get_remaining_points(&instance), 2);

    set_remaining_points(&mut instance, 10);
    assert_eq!(get_remaining_points(&instance), 10);
}

#[test]
fn conservation_over_a_sequence_of_calls() {
    let model = worked_example_model();
    let body = vec![
        Operator::LocalGet,
        Operator::ConstLoad,
        Operator::IntAdd,
        Operator::End,
        Operator::LocalGet,
    ];
    // Cost per full call: 1 + 1 + 2 + 0 + 1 = 5.
    let func = instrument(&body, &model).unwrap();
    let mut instance = Instance::new(100, 0).unwrap();
    let before = get_remaining_points(&instance);
    for calls in 1..=7i64 {
        assert_eq!(call(&mut instance, &func), Ok(()));
        assert_eq!(get_remaining_points(&instance), before - 5 * calls);
    }
}

#[test]
fn trap_charges_only_fully_executed_blocks() {
    let model = worked_example_model();
    // Two blocks: [ConstLoad, End] costs 1, [IntAdd, End] costs 2.
    let body = vec![Operator::ConstLoad, Operator::End, Operator::IntAdd, Operator::End];
    let func = instrument(&body, &model).unwrap();

    let mut instance = Instance::new(2, 0).unwrap();
    assert_eq!(call(&mut instance, &func), Err(Trap::Exhausted));
    // The first block fully executed and was charged; the failing block was
    // not charged at all: 2 - 1 = 1.
    assert_eq!(get_remaining_points(&instance), 1);
}

#[test]
fn faulted_instance_traps_until_reset() {
    let model = worked_example_model();
    let body = vec![Operator::IntAdd];
    let func = instrument(&body, &model).unwrap();

    let mut instance = Instance::new(1, 0).unwrap();
    assert_eq!(call(&mut instance, &func), Err(Trap::Exhausted));
    assert_eq!(get_remaining_points(&instance), 1);

    // Still faulted: even an affordable call traps and charges nothing.
    assert_eq!(call(&mut instance, &func), Err(Trap::Exhausted));
    assert_eq!(get_remaining_points(&instance), 1);

    set_remaining_points(&mut instance, 2);
    assert_eq!(call(&mut instance, &func), Ok(()));
    assert_eq!(get_remaining_points(&instance), 0);
}

#[test]
fn reset_accepts_any_value_including_negative() {
    let mut instance = Instance::new(0, 0).unwrap();
    set_remaining_points(&mut instance, -7);
    assert_eq!(get_remaining_points(&instance), -7);
    set_remaining_points(&mut instance, i64::MAX);
    assert_eq!(get_remaining_points(&instance), i64::MAX);
    set_remaining_points(&mut instance, i64::MIN);
    assert_eq!(get_remaining_points(&instance), i64::MIN);
}

#[test]
fn negative_ledger_forces_next_deduction_to_trap() {
    let model = CostModel::new();
    let body = vec![Operator::Nop];
    let func = instrument(&body, &model).unwrap();

    let mut instance = Instance::new(0, 0).unwrap();
    set_remaining_points(&mut instance, -1);
    // Even a zero-cost deduction leaves the ledger negative, so it traps.
    assert_eq!(call(&mut instance, &func), Err(Trap::Exhausted));
    assert_eq!(get_remaining_points(&instance), -1);
}

#[test]
fn zero_cost_model_preserves_the_ledger() {
    let model = CostModel::new();
    let body = vec![
        Operator::LocalGet,
        Operator::Branch,
        Operator::ConstLoad,
        Operator::IntAdd,
        Operator::End,
    ];
    let func = instrument(&body, &model).unwrap();
    let mut instance = Instance::new(0, 0).unwrap();
    assert_eq!(call(&mut instance, &func), Ok(()));
    assert_eq!(get_remaining_points(&instance), 0);
}

#[test]
fn empty_body_charges_nothing() {
    let model = worked_example_model();
    let body: Vec<Operator> = vec![];
    let func = instrument(&body, &model).unwrap();
    assert_eq!(func.blocks.len(), 0);
    let mut instance = Instance::new(3, 0).unwrap();
    assert_eq!(call(&mut instance, &func), Ok(()));
    assert_eq!(get_remaining_points(&instance), 3);
}

#[test]
fn instrumentation_splits_at_control_edges() {
    let model = worked_example_model();
    let body = vec![
        Operator::LocalGet,
        Operator::Branch,
        Operator::ConstLoad,
        Operator::IntAdd,
        Operator::End,
        Operator::LocalGet,
    ];
    let func = instrument(&body, &model).unwrap();
    assert_eq!(func.blocks.len(), 3);

    assert_eq!(func.blocks[0].ops, vec![Operator::LocalGet, Operator::Branch]);
    assert_eq!(func.blocks[0].cost, 1);

    assert_eq!(
        func.blocks[1].ops,
        vec![Operator::ConstLoad, Operator::IntAdd, Operator::End]
    );
    assert_eq!(func.blocks[1].cost, 3);

    assert_eq!(func.blocks[2].ops, vec![Operator::LocalGet]);
    assert_eq!(func.blocks[2].cost, 1);
}

#[test]
fn later_cost_assignment_shadows_earlier() {
    let mut model = CostModel::new();
    model.assign(Operator::LocalGet, 1);
    model.assign(Operator::LocalGet, 5);
    assert_eq!(model.cost(Operator::LocalGet), 5);
    assert_eq!(model.cost(Operator::IntMul), 0);
}

#[test]
fn block_cost_overflow_is_detected_at_instrumentation_time() {
    let mut model = CostModel::new();
    model.assign(Operator::LocalGet, u64::MAX);
    model.assign(Operator::ConstLoad, 1);
    let body = vec![Operator::LocalGet, Operator::ConstLoad];
    assert!(matches!(
        instrument(&body, &model),
        Err(InstrumentError::CostOverflow)
    ));
}

#[test]
fn charge_block_traps_without_partial_consumption() {
    let mut instance = Instance::new(5, 0).unwrap();
    assert_eq!(charge_block(&mut instance, 3), Ok(()));
    assert_eq!(get_remaining_points(&instance), 2);
    assert_eq!(charge_block(&mut instance, 3), Err(Trap::Exhausted));
    assert_eq!(get_remaining_points(&instance), 2);
}

#[test]
fn negative_budget_is_fatal_at_setup() {
    match Instance::new(-1, 16) {
        Err(ConfigError::NegativeBudget) => {}
        _ => panic!("a negative budget limit must be refused at setup time"),
    }
    assert!(Instance::new(0, 16).is_ok());
}
