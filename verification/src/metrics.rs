//! Benchmark bookkeeping for pipeline runs.
//!
//! The collector keeps one row of numbers per run; what measures them
//! (clocks, serialized sizes, the engine's session statistics and cycle
//! counter) lives outside this crate and hands plain numbers in.

use vstd::prelude::*;

verus! {

/// The numbers recorded for one run.
#[derive(Clone, Copy, Debug, PartialEq, Eq, Structural)]
pub struct RunMetrics {
    pub run_id: u64,
    pub proof_time: u64,
    pub total_time: u64,
    pub input_size: u64,
    pub output_size: u64,
    pub paging_cycles: u64,
    pub user_cycles: u64,
    pub reserved_cycles: u64,
    pub total_cycles: u64,
}

/// The cycle counts of one proving session, as the engine reports them.
#[derive(Clone, Copy, Debug, PartialEq, Eq, Structural)]
pub struct SessionCycles {
    pub paging_cycles: u64,
    pub user_cycles: u64,
    pub reserved_cycles: u64,
    pub total_cycles: u64,
}

/// Collects one row of metrics per run, under a test's name.
#[derive(Debug, Clone)]
pub struct RunDataCollector {
    pub test_name: String,
    pub data: Vec<RunMetrics>,
}

pub open spec fn zero_run(run_id: u64) -> RunMetrics {
    RunMetrics {
        run_id,
        proof_time: 0,
        total_time: 0,
        input_size: 0,
        output_size: 0,
        paging_cycles: 0,
        user_cycles: 0,
        reserved_cycles: 0,
        total_cycles: 0,
    }
}

impl RunDataCollector {
    pub fn new(test_name: String) -> (r: RunDataCollector)
        ensures
            r.test_name == test_name,
            r.data@.len() == 0,
    {
        RunDataCollector { test_name, data: Vec::new() }
    }

    /// Opens the next run: a fresh row numbered after the rows so far.
    pub fn start_new_run(&mut self)
        requires
            old(self).data@.len() < u64::MAX,
        ensures
            final(self).test_name == old(self).test_name,
            final(self).data@ == old(self).data@.push(
                zero_run((old(self).data@.len() + 1) as u64),
            ),
    {
        let run_id = self.data.len() as u64 + 1;
        self.data.push(
            RunMetrics {
                run_id,
                proof_time: 0,
                total_time: 0,
                input_size: 0,
                output_size: 0,
                paging_cycles: 0,
                user_cycles: 0,
                reserved_cycles: 0,
                total_cycles: 0,
            },
        );
    }

    fn update_last(&mut self, m: RunMetrics)
        requires
            old(self).data@.len() > 0,
        ensures
            final(self).test_name == old(self).test_name,
            final(self).data@ == old(self).data@.update(old(self).data@.len() - 1, m),
    {
        self.data.pop();
        self.data.push(m);
        proof {
            assert(final(self).data@ =~= old(self).data@.update(old(self).data@.len() - 1, m));
        }
    }

    /// Records the proving time of the current run; without an open run
    /// there is nothing to record.
    pub fn set_proof_time(&mut self, elapsed: u64)
        ensures
            final(self).test_name == old(self).test_name,
            old(self).data@.len() == 0 ==> final(self).data@ == old(self).data@,
            old(self).data@.len() > 0 ==> final(self).data@ == old(self).data@.update(
                old(self).data@.len() - 1,
                RunMetrics { proof_time: elapsed, ..old(self).data@.last() },
            ),
    {
        let n = self.data.len();
        if n > 0 {
            let mut m = self.data[n - 1];
            m.proof_time = elapsed;
            self.update_last(m);
        }
    }

    /// Records the whole wall time of the current run.
    pub fn set_total_time(&mut self, elapsed: u64)
        ensures
            final(self).test_name == old(self).test_name,
            old(self).data@.len() == 0 ==> final(self).data@ == old(self).data@,
            old(self).data@.len() > 0 ==> final(self).data@ == old(self).data@.update(
                old(self).data@.len() - 1,
                RunMetrics { total_time: elapsed, ..old(self).data@.last() },
            ),
    {
        let n = self.data.len();
        if n > 0 {
            let mut m = self.data[n - 1];
            m.total_time = elapsed;
            self.update_last(m);
        }
    }

    /// Records the serialized size of the current run's input document.
    pub fn set_input(&mut self, input_size: u64)
        ensures
            final(self).test_name == old(self).test_name,
            old(self).data@.len() == 0 ==> final(self).data@ == old(self).data@,
            old(self).data@.len() > 0 ==> final(self).data@ == old(self).data@.update(
                old(self).data@.len() - 1,
                RunMetrics { input_size, ..old(self).data@.last() },
            ),
    {
        let n = self.data.len();
        if n > 0 {
            let mut m = self.data[n - 1];
            m.input_size = input_size;
            self.update_last(m);
        }
    }

    /// Records the serialized size of the current run's published artifact.
    pub fn set_output(&mut self, output_size: u64)
        ensures
            final(self).test_name == old(self).test_name,
            old(self).data@.len() == 0 ==> final(self).data@ == old(self).data@,
            old(self).data@.len() > 0 ==> final(self).data@ == old(self).data@.update(
                old(self).data@.len() - 1,
                RunMetrics { output_size, ..old(self).data@.last() },
            ),
    {
        let n = self.data.len();
        if n > 0 {
            let mut m = self.data[n - 1];
            m.output_size = output_size;
            self.update_last(m);
        }
    }

    /// Records the engine's cycle counts for the current run.
    pub fn set_cycles(&mut self, stats: SessionCycles)
        ensures
            final(self).test_name == old(self).test_name,
            old(self).data@.len() == 0 ==> final(self).data@ == old(self).data@,
            old(self).data@.len() > 0 ==> final(self).data@ == old(self).data@.update(
                old(self).data@.len() - 1,
                RunMetrics {
                    paging_cycles: stats.paging_cycles,
                    user_cycles: stats.user_cycles,
                    reserved_cycles: stats.reserved_cycles,
                    total_cycles: stats.total_cycles,
                    ..old(self).data@.last()
                },
            ),
    {
        let n = self.data.len();
        if n > 0 {
            let mut m = self.data[n - 1];
            m.paging_cycles = stats.paging_cycles;
            m.user_cycles = stats.user_cycles;
            m.reserved_cycles = stats.reserved_cycles;
            m.total_cycles = stats.total_cycles;
            self.update_last(m);
        }
    }
}

/// Cycle counts of one guest execution, fed by the engine's counter.
#[derive(Clone, Copy, Debug, PartialEq, Eq, Structural)]
pub struct GuestMetrics {
    pub start_cycles: u64,
    pub end_cycles: u64,
    pub risc_v_cycles: u64,
}

impl GuestMetrics {
    pub fn new() -> (r: GuestMetrics)
        ensures
            r.start_cycles == 0,
            r.end_cycles == 0,
            r.risc_v_cycles == 0,
    {
        GuestMetrics { start_cycles: 0, end_cycles: 0, risc_v_cycles: 0 }
    }

    /// Marks the start of the measured stretch at the given counter reading.
    pub fn start_riscv_cyc_count(&mut self, cycles: u64)
        ensures
            final(self).start_cycles == cycles,
            final(self).end_cycles == old(self).end_cycles,
            final(self).risc_v_cycles == old(self).risc_v_cycles,
    {
        self.start_cycles = cycles;
    }

    /// Marks the end of the measured stretch and takes the difference; a
    /// counter that moved backwards counts as zero cycles.
    pub fn end_riscv_cyc_count(&mut self, cycles: u64)
        ensures
            final(self).start_cycles == old(self).start_cycles,
            final(self).end_cycles == cycles,
            final(self).risc_v_cycles == if cycles >= old(self).start_cycles {
                (cycles - old(self).start_cycles) as u64
            } else {
                0
            },
    {
        self.end_cycles = cycles;
        self.risc_v_cycles = if cycles >= self.start_cycles {
            cycles - self.start_cycles
        } else {
            0
        };
    }
}

} // verus!
