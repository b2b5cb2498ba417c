use proving_service::metrics::{GuestMetrics, RunDataCollector, SessionCycles};

#[test]
fn guest_metrics_test_guest_metrics_cycle_count() {
    let mut gm = GuestMetrics::new();

    gm.start_riscv_cyc_count(5);
    gm.end_riscv_cyc_count(9);

    assert!(gm.end_cycles >= gm.start_cycles);
    assert_eq!(gm.risc_v_cycles, gm.end_cycles - gm.start_cycles);
}

#[test]
fn main_test_guest_metrics_cycle_count() {
    let mut gm = GuestMetrics::new();

    gm.start_riscv_cyc_count(120);
    gm.end_riscv_cyc_count(120);

    assert!(gm.end_cycles >= gm.start_cycles);
    assert_eq!(gm.risc_v_cycles, gm.end_cycles - gm.start_cycles);
}

#[test]
fn backwards_counter_counts_zero_cycles() {
    let mut gm = GuestMetrics::new();
    gm.start_riscv_cyc_count(10);
    gm.end_riscv_cyc_count(7);
    assert_eq!(gm.risc_v_cycles, 0);
}

#[test]
fn collector_numbers_runs_from_one() {
    let mut c = RunDataCollector::new(String::from("bench"));
    c.start_new_run();
    c.start_new_run();
    assert_eq!(c.data.len(), 2);
    assert_eq!(c.data[0].run_id, 1);
    assert_eq!(c.data[1].run_id, 2);
}

#[test]
fn collector_records_into_the_current_run() {
    let mut c = RunDataCollector::new(String::from("bench"));
    c.start_new_run();
    c.set_proof_time(11);
    c.set_total_time(22);
    c.set_input(33);
    c.set_output(44);
    c.set_cycles(SessionCycles {
        paging_cycles: 1,
        user_cycles: 2,
        reserved_cycles: 3,
        total_cycles: 6,
    });
    c.start_new_run();
    c.set_proof_time(99);

    assert_eq!(c.data[0].proof_time, 11);
    assert_eq!(c.data[0].total_time, 22);
    assert_eq!(c.data[0].input_size, 33);
    assert_eq!(c.data[0].output_size, 44);
    assert_eq!(c.data[0].user_cycles, 2);
    assert_eq!(c.data[0].total_cycles, 6);
    assert_eq!(c.data[1].proof_time, 99);
    assert_eq!(c.data[1].total_time, 0);
}

#[test]
fn recording_without_a_run_is_harmless() {
    let mut c = RunDataCollector::new(String::from("bench"));
    c.set_proof_time(11);
    assert_eq!(c.data.len(), 0);
}
