//! Configuration of the program interpreter and its execution environment.

use vstd::prelude::*;

use crate::program::program::{Action, Operator};

verus! {

/// Configuration of the execution environment.
#[derive(Clone, Copy, Debug, PartialEq, Eq, Structural)]
pub struct EnvConfig {
    /// Whether a value may be written across banks, landing in the bank of
    /// its own type.
    pub relax_register_types: bool,
    /// Whether a failed field extraction yields false instead of an error.
    pub field_default_on_error: bool,
}

impl Default for EnvConfig {
    /// By default register types are enforced and field errors yield the
    /// default value.
    fn default() -> (r: EnvConfig)
        ensures
            r.relax_register_types == false,
            r.field_default_on_error == true,
    {
        EnvConfig { relax_register_types: false, field_default_on_error: true }
    }
}

/// Configuration of the program shape.
#[derive(Clone, Debug)]
pub struct ProgramConfig {
    /// Most lines a program may have.
    pub num_lines: usize,
    /// Registers per bank.
    pub num_registers: u16,
    /// Operators a program may use.
    pub operators: Vec<Operator>,
    /// Actions a program may return.
    pub actions: Vec<Action>,
}

impl Default for ProgramConfig {
    /// By default a program may have sixteen lines and sixteen registers
    /// per bank, and every operator and action.
    fn default() -> (r: ProgramConfig)
        ensures
            r.num_lines == 16,
            r.num_registers == 16,
            r.operators@ == Operator::spec_all(),
            r.actions@ == Action::spec_all(),
    {
        ProgramConfig {
            num_lines: 16,
            num_registers: 16,
            operators: Operator::all(),
            actions: Action::all(),
        }
    }
}

/// Configuration of the interpreter.
#[derive(Clone, Debug)]
pub struct Config {
    /// Configuration of the execution environment.
    pub env: EnvConfig,
    /// Configuration of the program.
    pub program: ProgramConfig,
}

impl Default for Config {
    /// The default configuration combines the two defaults.
    fn default() -> (r: Config)
        ensures
            r.env == (EnvConfig { relax_register_types: false, field_default_on_error: true }),
            r.program.num_lines == 16,
            r.program.num_registers == 16,
            r.program.operators@ == Operator::spec_all(),
            r.program.actions@ == Action::spec_all(),
    {
        Config { env: Default::default(), program: Default::default() }
    }
}

} // verus!
