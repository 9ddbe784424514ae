//! The program model: an ordered list of lines, each an optional condition
//! and an operation over registers, literals and packet fields, together
//! with its execution semantics.
//!
//! Lines execute top to bottom; the first non-default `Return` wins and
//! ends the packet's processing. Division and modulus by zero yield zero,
//! and integer arithmetic wraps.

use vstd::prelude::*;
use vstd::string::StringExecFns;

use crate::packet::{Packet, PacketModel};
use crate::program::env::{
    spec_reg_get,
    spec_reg_set,
    EnvFields,
    RegisterWriteError,
    Registers,
    RegistersModel,
};
use crate::program::field::{Field, FieldError};
use crate::text::{spec_decimal, usize_to_string};

verus! {

/// A value a register or input can take.
#[derive(Clone, Copy, Debug, PartialEq, Eq, Structural)]
pub enum Value {
    Int(i64),
    Bool(bool),
}

impl Value {
    /// A value read as a condition operand: an integer is true when it is
    /// not zero.
    pub open spec fn spec_as_bool(self) -> bool {
        match self {
            Value::Int(i) => i != 0,
            Value::Bool(b) => b,
        }
    }

    pub fn as_bool(&self) -> (r: bool)
        ensures
            r == self.spec_as_bool(),
    {
        match self {
            Value::Int(i) => *i != 0,
            Value::Bool(b) => *b,
        }
    }
}

/// The two register banks.
#[derive(Clone, Copy, Debug, PartialEq, Eq, Structural)]
pub enum RegisterType {
    Int,
    Bool,
}

/// A reference to one register of one bank.
#[derive(Clone, Copy, Debug, PartialEq, Eq, Structural)]
pub struct Register {
    pub ty: RegisterType,
    pub index: usize,
}

impl Register {
    /// The label of this register in rendered form.
    pub open spec fn spec_to_label(self) -> Seq<char> {
        "reg_"@ + (match self.ty {
            RegisterType::Int => "i"@,
            RegisterType::Bool => "b"@,
        }) + "_"@ + spec_decimal(self.index as int)
    }

    pub fn to_label(&self) -> (r: String)
        ensures
            r@ == self.spec_to_label(),
    {
        let mut r = String::from_str("reg_");
        match self.ty {
            RegisterType::Int => r.append("i"),
            RegisterType::Bool => r.append("b"),
        }
        r.append("_");
        let digits = usize_to_string(self.index);
        r.append(digits.as_str());
        r
    }

    /// The value a register of this bank holds before anything is written
    /// to it.
    pub open spec fn spec_uninitialized_value(self) -> Value {
        match self.ty {
            RegisterType::Int => Value::Int(0),
            RegisterType::Bool => Value::Bool(false),
        }
    }

    pub fn as_uninitialized_value(&self) -> (r: Value)
        ensures
            r == self.spec_uninitialized_value(),
    {
        match self.ty {
            RegisterType::Int => Value::Int(0),
            RegisterType::Bool => Value::Bool(false),
        }
    }
}

/// What a program returns for one packet.
#[derive(Clone, Copy, Debug, PartialEq, Eq, Structural)]
pub enum Action {
    /// Let this packet through and keep processing later ones.
    Allow,
    /// Let this and every later packet of the flow through unexamined.
    AllowAll,
    /// Terminate the flow: this and every later packet.
    TerminateAll,
}

impl Default for Action {
    /// The default action lets the packet through.
    fn default() -> (r: Action)
        ensures
            r == Action::Allow,
    {
        Action::Allow
    }
}

impl Action {
    pub open spec fn spec_all() -> Seq<Action> {
        seq![Action::Allow, Action::AllowAll, Action::TerminateAll]
    }

    pub fn all() -> (r: Vec<Action>)
        ensures
            r@ == Action::spec_all(),
    {
        let r = vec![Action::Allow, Action::AllowAll, Action::TerminateAll];
        proof {
            assert(r@ =~= Action::spec_all());
        }
        r
    }
}

/// Why an input could not be evaluated.
#[derive(Clone, Copy, Debug, PartialEq, Eq, Structural)]
pub enum InputError {
    /// A field extraction failed.
    FieldError(FieldError),
    /// A register reference points outside its bank.
    RegisterIndex(usize),
}

/// An operand of a condition or operation: a field extractor, a register
/// reference, or a literal.
#[derive(Clone, Copy, Debug, PartialEq, Eq, Structural)]
pub enum Input {
    Field(Field),
    Register(Register),
    Int(i64),
    Bool(bool),
}

impl Input {
    /// The literal value of this input, where it is one.
    pub open spec fn spec_const_value(self) -> Option<Value> {
        match self {
            Input::Int(i) => Some(Value::Int(i)),
            Input::Bool(b) => Some(Value::Bool(b)),
            _ => None,
        }
    }

    pub fn const_value(&self) -> (r: Option<Value>)
        ensures
            r == self.spec_const_value(),
    {
        match self {
            Input::Int(i) => Some(Value::Int(*i)),
            Input::Bool(b) => Some(Value::Bool(*b)),
            _ => None,
        }
    }

    /// What evaluating this input yields.
    pub open spec fn spec_eval(
        self,
        p: PacketModel,
        regs: RegistersModel,
        fields: EnvFields,
        default_on_error: bool,
    ) -> Result<Value, InputError> {
        match self {
            Input::Field(f) => match f.spec_eval(p, fields, default_on_error) {
                Ok(v) => Ok(v),
                Err(e) => Err(InputError::FieldError(e)),
            },
            Input::Register(r) => match spec_reg_get(regs, r) {
                Some(v) => Ok(v),
                None => Err(InputError::RegisterIndex(r.index)),
            },
            Input::Int(i) => Ok(Value::Int(i)),
            Input::Bool(b) => Ok(Value::Bool(b)),
        }
    }

    pub fn eval(
        &self,
        packet: &Packet,
        registers: &Registers,
        fields: &EnvFields,
        default_on_error: bool,
    ) -> (r: Result<Value, InputError>)
        ensures
            r == self.spec_eval(packet@, registers@, *fields, default_on_error),
    {
        match self {
            Input::Field(f) => match f.eval(packet, fields, default_on_error) {
                Ok(v) => Ok(v),
                Err(e) => Err(InputError::FieldError(e)),
            },
            Input::Register(r) => match registers.get(r) {
                Some(v) => Ok(v),
                None => Err(InputError::RegisterIndex(r.index)),
            },
            Input::Int(i) => Ok(Value::Int(*i)),
            Input::Bool(b) => Ok(Value::Bool(*b)),
        }
    }
}

/// A comparison between two operands.
#[derive(Clone, Copy, Debug, PartialEq, Eq, Structural)]
pub enum ComparisonOperator {
    Less,
    LessEqual,
    NotEqual,
    Equal,
    Greater,
    GreaterEqual,
}

/// The comparison on integers.
pub open spec fn spec_cmp_int(op: ComparisonOperator, l: int, r: int) -> bool {
    match op {
        ComparisonOperator::Less => l < r,
        ComparisonOperator::LessEqual => l <= r,
        ComparisonOperator::NotEqual => l != r,
        ComparisonOperator::Equal => l == r,
        ComparisonOperator::Greater => l > r,
        ComparisonOperator::GreaterEqual => l >= r,
    }
}

/// The comparison on booleans, with false below true.
pub open spec fn spec_cmp_bool(op: ComparisonOperator, l: bool, r: bool) -> bool {
    match op {
        ComparisonOperator::Less => !l && r,
        ComparisonOperator::LessEqual => !l || r,
        ComparisonOperator::NotEqual => l != r,
        ComparisonOperator::Equal => l == r,
        ComparisonOperator::Greater => l && !r,
        ComparisonOperator::GreaterEqual => l || !r,
    }
}

impl ComparisonOperator {
    pub fn call_int(&self, lhs: i64, rhs: i64) -> (r: bool)
        ensures
            r == spec_cmp_int(*self, lhs as int, rhs as int),
    {
        match self {
            ComparisonOperator::Less => lhs < rhs,
            ComparisonOperator::LessEqual => lhs <= rhs,
            ComparisonOperator::NotEqual => lhs != rhs,
            ComparisonOperator::Equal => lhs == rhs,
            ComparisonOperator::Greater => lhs > rhs,
            ComparisonOperator::GreaterEqual => lhs >= rhs,
        }
    }

    pub fn call_bool(&self, lhs: bool, rhs: bool) -> (r: bool)
        ensures
            r == spec_cmp_bool(*self, lhs, rhs),
    {
        match self {
            ComparisonOperator::Less => !lhs && rhs,
            ComparisonOperator::LessEqual => !lhs || rhs,
            ComparisonOperator::NotEqual => lhs != rhs,
            ComparisonOperator::Equal => lhs == rhs,
            ComparisonOperator::Greater => lhs && !rhs,
            ComparisonOperator::GreaterEqual => lhs || !rhs,
        }
    }

    /// The operator that says the same thing with its operands exchanged.
    pub open spec fn spec_invert(self) -> ComparisonOperator {
        match self {
            ComparisonOperator::Less => ComparisonOperator::Greater,
            ComparisonOperator::LessEqual => ComparisonOperator::GreaterEqual,
            ComparisonOperator::NotEqual => ComparisonOperator::NotEqual,
            ComparisonOperator::Equal => ComparisonOperator::Equal,
            ComparisonOperator::Greater => ComparisonOperator::Less,
            ComparisonOperator::GreaterEqual => ComparisonOperator::LessEqual,
        }
    }

    pub fn invert(&self) -> (r: ComparisonOperator)
        ensures
            r == self.spec_invert(),
    {
        match self {
            ComparisonOperator::Less => ComparisonOperator::Greater,
            ComparisonOperator::LessEqual => ComparisonOperator::GreaterEqual,
            ComparisonOperator::NotEqual => ComparisonOperator::NotEqual,
            ComparisonOperator::Equal => ComparisonOperator::Equal,
            ComparisonOperator::Greater => ComparisonOperator::Less,
            ComparisonOperator::GreaterEqual => ComparisonOperator::LessEqual,
        }
    }
}

/// A logical connective between two operands read as booleans.
#[derive(Clone, Copy, Debug, PartialEq, Eq, Structural)]
pub enum LogicOperator {
    And,
    Or,
    Xor,
    Nand,
    Nor,
    Xnor,
}

/// The connective on booleans.
pub open spec fn spec_logic(op: LogicOperator, l: bool, r: bool) -> bool {
    match op {
        LogicOperator::And => l && r,
        LogicOperator::Or => l || r,
        LogicOperator::Xor => l != r,
        LogicOperator::Nand => !(l && r),
        LogicOperator::Nor => !(l || r),
        LogicOperator::Xnor => l == r,
    }
}

impl LogicOperator {
    pub fn call(&self, lhs: bool, rhs: bool) -> (r: bool)
        ensures
            r == spec_logic(*self, lhs, rhs),
    {
        match self {
            LogicOperator::And => lhs && rhs,
            LogicOperator::Or => lhs || rhs,
            LogicOperator::Xor => lhs ^ rhs,
            LogicOperator::Nand => !(lhs && rhs),
            LogicOperator::Nor => !(lhs || rhs),
            LogicOperator::Xnor => !(lhs ^ rhs),
        }
    }

    /// Every connective says the same thing with its operands exchanged.
    pub open spec fn spec_invert(self) -> LogicOperator {
        self
    }

    pub fn invert(&self) -> (r: LogicOperator)
        ensures
            r == self.spec_invert(),
    {
        *self
    }
}

/// A condition operator: a comparison or a logical connective.
#[derive(Clone, Copy, Debug, PartialEq, Eq, Structural)]
pub enum Operator {
    Comparison(ComparisonOperator),
    Logic(LogicOperator),
}

/// One as an integer for a set flag, zero for a clear one.
pub open spec fn bool_to_int(b: bool) -> int {
    if b {
        1
    } else {
        0
    }
}

/// What an operator says of two values: operands of one kind compare
/// directly; a boolean beside an integer is read as zero or one; a logical
/// connective reads both operands as booleans.
pub open spec fn spec_operator_call(op: Operator, lhs: Value, rhs: Value) -> bool {
    match op {
        Operator::Comparison(c) => match (lhs, rhs) {
            (Value::Int(l), Value::Int(r)) => spec_cmp_int(c, l as int, r as int),
            (Value::Bool(l), Value::Bool(r)) => spec_cmp_bool(c, l, r),
            (Value::Int(l), Value::Bool(r)) => spec_cmp_int(c, l as int, bool_to_int(r)),
            (Value::Bool(l), Value::Int(r)) => spec_cmp_int(c, bool_to_int(l), r as int),
        },
        Operator::Logic(o) => spec_logic(o, lhs.spec_as_bool(), rhs.spec_as_bool()),
    }
}

impl Operator {
    pub fn call(&self, lhs: &Value, rhs: &Value) -> (r: bool)
        ensures
            r == spec_operator_call(*self, *lhs, *rhs),
    {
        match self {
            Operator::Comparison(c) => match (lhs, rhs) {
                (Value::Int(l), Value::Int(r)) => c.call_int(*l, *r),
                (Value::Bool(l), Value::Bool(r)) => c.call_bool(*l, *r),
                (Value::Int(l), Value::Bool(r)) => c.call_int(
                    *l,
                    if *r {
                        1
                    } else {
                        0
                    },
                ),
                (Value::Bool(l), Value::Int(r)) => c.call_int(
                    if *l {
                        1
                    } else {
                        0
                    },
                    *r,
                ),
            },
            Operator::Logic(o) => o.call(lhs.as_bool(), rhs.as_bool()),
        }
    }

    /// The operator that says the same thing with its operands exchanged.
    pub open spec fn spec_invert(self) -> Operator {
        match self {
            Operator::Comparison(c) => Operator::Comparison(c.spec_invert()),
            Operator::Logic(o) => Operator::Logic(o.spec_invert()),
        }
    }

    pub fn invert(&self) -> (r: Operator)
        ensures
            r == self.spec_invert(),
    {
        match self {
            Operator::Comparison(c) => Operator::Comparison(c.invert()),
            Operator::Logic(o) => Operator::Logic(o.invert()),
        }
    }

    pub open spec fn spec_all() -> Seq<Operator> {
        seq![
            Operator::Comparison(ComparisonOperator::Less),
            Operator::Comparison(ComparisonOperator::LessEqual),
            Operator::Comparison(ComparisonOperator::NotEqual),
            Operator::Comparison(ComparisonOperator::Equal),
            Operator::Comparison(ComparisonOperator::Greater),
            Operator::Comparison(ComparisonOperator::GreaterEqual),
            Operator::Logic(LogicOperator::And),
            Operator::Logic(LogicOperator::Or),
            Operator::Logic(LogicOperator::Xor),
            Operator::Logic(LogicOperator::Nand),
            Operator::Logic(LogicOperator::Nor),
            Operator::Logic(LogicOperator::Xnor),
        ]
    }

    pub fn all() -> (r: Vec<Operator>)
        ensures
            r@ == Operator::spec_all(),
    {
        let r = vec![
            Operator::Comparison(ComparisonOperator::Less),
            Operator::Comparison(ComparisonOperator::LessEqual),
            Operator::Comparison(ComparisonOperator::NotEqual),
            Operator::Comparison(ComparisonOperator::Equal),
            Operator::Comparison(ComparisonOperator::Greater),
            Operator::Comparison(ComparisonOperator::GreaterEqual),
            Operator::Logic(LogicOperator::And),
            Operator::Logic(LogicOperator::Or),
            Operator::Logic(LogicOperator::Xor),
            Operator::Logic(LogicOperator::Nand),
            Operator::Logic(LogicOperator::Nor),
            Operator::Logic(LogicOperator::Xnor),
        ];
        proof {
            assert(r@ =~= Operator::spec_all());
        }
        r
    }
}

/// A numeric operation of an arithmetic line.
#[derive(Clone, Copy, Debug, PartialEq, Eq, Structural)]
pub enum MathOperatorNumeric {
    Add,
    Sub,
    Mul,
    Div,
    Mod,
}

/// The numeric operation on signed integers: addition, subtraction and
/// multiplication wrap; division and modulus yield zero for a zero divisor
/// and at the one overflowing pair.
pub open spec fn spec_math_i64(op: MathOperatorNumeric, l: i64, r: i64) -> i64 {
    match op {
        MathOperatorNumeric::Add => vstd::wrapping::i64_specs::wrapping_add(l, r),
        MathOperatorNumeric::Sub => vstd::wrapping::i64_specs::wrapping_sub(l, r),
        MathOperatorNumeric::Mul => vstd::wrapping::i64_specs::wrapping_mul(l, r),
        MathOperatorNumeric::Div => match l.checked_div(r) {
            Some(v) => v,
            None => 0,
        },
        MathOperatorNumeric::Mod => match l.checked_rem(r) {
            Some(v) => v,
            None => 0,
        },
    }
}

/// The numeric operation on two booleans read as bytes; subtraction wraps.
pub open spec fn spec_math_u8(op: MathOperatorNumeric, l: u8, r: u8) -> u8 {
    match op {
        MathOperatorNumeric::Add => vstd::wrapping::u8_specs::wrapping_add(l, r),
        MathOperatorNumeric::Sub => vstd::wrapping::u8_specs::wrapping_sub(l, r),
        MathOperatorNumeric::Mul => vstd::wrapping::u8_specs::wrapping_mul(l, r),
        MathOperatorNumeric::Div => if r == 0 {
            0
        } else {
            (l / r) as u8
        },
        MathOperatorNumeric::Mod => if r == 0 {
            0
        } else {
            (l % r) as u8
        },
    }
}

impl MathOperatorNumeric {
    pub fn call_i64(&self, lhs: i64, rhs: i64) -> (r: i64)
        ensures
            r == spec_math_i64(*self, lhs, rhs),
    {
        match self {
            MathOperatorNumeric::Add => lhs.wrapping_add(rhs),
            MathOperatorNumeric::Sub => lhs.wrapping_sub(rhs),
            MathOperatorNumeric::Mul => lhs.wrapping_mul(rhs),
            MathOperatorNumeric::Div => match lhs.checked_div(rhs) {
                Some(v) => v,
                None => 0,
            },
            MathOperatorNumeric::Mod => match lhs.checked_rem(rhs) {
                Some(v) => v,
                None => 0,
            },
        }
    }

    pub fn call_u8(&self, lhs: u8, rhs: u8) -> (r: u8)
        ensures
            r == spec_math_u8(*self, lhs, rhs),
    {
        match self {
            MathOperatorNumeric::Add => lhs.wrapping_add(rhs),
            MathOperatorNumeric::Sub => lhs.wrapping_sub(rhs),
            MathOperatorNumeric::Mul => lhs.wrapping_mul(rhs),
            MathOperatorNumeric::Div => if rhs == 0 {
                0
            } else {
                lhs / rhs
            },
            MathOperatorNumeric::Mod => if rhs == 0 {
                0
            } else {
                lhs % rhs
            },
        }
    }
}

/// The operation an arithmetic or logical line applies.
#[derive(Clone, Copy, Debug, PartialEq, Eq, Structural)]
pub enum MathOperator {
    Numeric(MathOperatorNumeric),
    Logic(LogicOperator),
}

/// What a numeric operation yields of two values: integers operate
/// directly, two booleans operate as bytes, and a boolean beside an
/// integer is read as zero or one.
pub open spec fn spec_math_num(op: MathOperatorNumeric, lhs: Value, rhs: Value) -> Value {
    match (lhs, rhs) {
        (Value::Int(l), Value::Int(r)) => Value::Int(spec_math_i64(op, l, r)),
        (Value::Bool(l), Value::Bool(r)) => Value::Int(
            spec_math_u8(
                op,
                if l {
                    1u8
                } else {
                    0u8
                },
                if r {
                    1u8
                } else {
                    0u8
                },
            ) as i64,
        ),
        (Value::Int(l), Value::Bool(r)) => Value::Int(
            spec_math_i64(
                op,
                l,
                if r {
                    1i64
                } else {
                    0i64
                },
            ),
        ),
        (Value::Bool(l), Value::Int(r)) => Value::Int(
            spec_math_i64(
                op,
                if l {
                    1i64
                } else {
                    0i64
                },
                r,
            ),
        ),
    }
}

/// What an operation yields of two values: a logical operation reads both
/// as booleans.
pub open spec fn spec_math_call(op: MathOperator, lhs: Value, rhs: Value) -> Value {
    match op {
        MathOperator::Numeric(n) => spec_math_num(n, lhs, rhs),
        MathOperator::Logic(o) => Value::Bool(
            spec_logic(o, lhs.spec_as_bool(), rhs.spec_as_bool()),
        ),
    }
}

impl MathOperator {
    pub fn call(&self, lhs: &Value, rhs: &Value) -> (r: Value)
        ensures
            r == spec_math_call(*self, *lhs, *rhs),
    {
        match self {
            MathOperator::Numeric(op) => match (lhs, rhs) {
                (Value::Int(l), Value::Int(r)) => Value::Int(op.call_i64(*l, *r)),
                (Value::Bool(l), Value::Bool(r)) => {
                    let li: u8 = if *l {
                        1
                    } else {
                        0
                    };
                    let ri: u8 = if *r {
                        1
                    } else {
                        0
                    };
                    Value::Int(op.call_u8(li, ri) as i64)
                },
                (Value::Int(l), Value::Bool(r)) => Value::Int(
                    op.call_i64(
                        *l,
                        if *r {
                            1
                        } else {
                            0
                        },
                    ),
                ),
                (Value::Bool(l), Value::Int(r)) => Value::Int(
                    op.call_i64(
                        if *l {
                            1
                        } else {
                            0
                        },
                        *r,
                    ),
                ),
            },
            MathOperator::Logic(op) => Value::Bool(op.call(lhs.as_bool(), rhs.as_bool())),
        }
    }
}

} // verus!

verus! {

/// Why a condition could not be evaluated.
#[derive(Clone, Copy, Debug, PartialEq, Eq, Structural)]
pub enum ConditionError {
    /// The left operand failed.
    Lhs(InputError),
    /// The right operand failed.
    Rhs(InputError),
}

/// Why a line could not be executed.
#[derive(Clone, Copy, Debug, PartialEq, Eq, Structural)]
pub enum LineExecutionError {
    /// Its condition failed.
    Condition(ConditionError),
    /// An operand failed.
    Input(InputError),
    /// The write to the output register failed.
    RegisterWrite(RegisterWriteError),
}

/// A guard on a line: two operands joined by an operator.
#[derive(Clone, Copy, Debug, PartialEq, Eq, Structural)]
pub struct Condition {
    pub lhs: Input,
    pub operator: Operator,
    pub rhs: Input,
}

impl Condition {
    /// What evaluating the condition yields: both operands, then the
    /// operator on their values.
    pub open spec fn spec_eval(
        self,
        p: PacketModel,
        regs: RegistersModel,
        fields: EnvFields,
        default_on_error: bool,
    ) -> Result<bool, ConditionError> {
        match self.lhs.spec_eval(p, regs, fields, default_on_error) {
            Err(e) => Err(ConditionError::Lhs(e)),
            Ok(l) => match self.rhs.spec_eval(p, regs, fields, default_on_error) {
                Err(e) => Err(ConditionError::Rhs(e)),
                Ok(r) => Ok(spec_operator_call(self.operator, l, r)),
            },
        }
    }

    /// Evaluate the condition.
    pub fn eval(
        &self,
        packet: &Packet,
        registers: &Registers,
        fields: &EnvFields,
        default_on_error: bool,
    ) -> (r: Result<bool, ConditionError>)
        ensures
            r == self.spec_eval(packet@, registers@, *fields, default_on_error),
    {
        match self.lhs.eval(packet, registers, fields, default_on_error) {
            Err(e) => Err(ConditionError::Lhs(e)),
            Ok(l) => match self.rhs.eval(packet, registers, fields, default_on_error) {
                Err(e) => Err(ConditionError::Rhs(e)),
                Ok(r) => Ok(self.operator.call(&l, &r)),
            },
        }
    }

    /// The value the condition provably takes on every packet: known
    /// exactly when both operands are literals.
    pub open spec fn spec_proven_value(self) -> Option<bool> {
        match (self.lhs.spec_const_value(), self.rhs.spec_const_value()) {
            (Some(l), Some(r)) => Some(spec_operator_call(self.operator, l, r)),
            _ => None,
        }
    }

    pub fn proven_value(&self) -> (r: Option<bool>)
        ensures
            r == self.spec_proven_value(),
    {
        if let Some(l) = self.lhs.const_value() {
            match self.rhs.const_value() {
                Some(r) => Some(self.operator.call(&l, &r)),
                None => None,
            }
        } else {
            None
        }
    }

    /// The condition read more naturally: a literal on the left of a field
    /// or register moves to the right, under the exchanged operator.
    pub open spec fn spec_enhance_readability(self) -> Condition {
        match self.lhs {
            Input::Int(_) | Input::Bool(_) => match self.rhs {
                Input::Field(_) | Input::Register(_) => Condition {
                    lhs: self.rhs,
                    operator: self.operator.spec_invert(),
                    rhs: self.lhs,
                },
                _ => self,
            },
            _ => self,
        }
    }

    /// Make the condition less painful to read.
    pub fn enhance_readability(&mut self)
        ensures
            *final(self) == old(self).spec_enhance_readability(),
    {
        match self.lhs {
            Input::Int(_) | Input::Bool(_) => match self.rhs {
                Input::Field(_) | Input::Register(_) => {
                    let tmp = self.lhs;
                    self.lhs = self.rhs;
                    self.rhs = tmp;
                    self.operator = self.operator.invert();
                },
                _ => {},
            },
            _ => {},
        }
    }
}

/// The operation of a line.
#[derive(Clone, Copy, Debug, PartialEq, Eq, Structural)]
pub enum Operation {
    Copy { from: Input, to: Register },
    Add { lhs: Input, rhs: Input, out: Register },
    Sub { lhs: Input, rhs: Input, out: Register },
    Mul { lhs: Input, rhs: Input, out: Register },
    Div { lhs: Input, rhs: Input, out: Register },
    Mod { lhs: Input, rhs: Input, out: Register },
    And { lhs: Input, rhs: Input, out: Register },
    Or { lhs: Input, rhs: Input, out: Register },
    Xor { lhs: Input, rhs: Input, out: Register },
    Return(Action),
    Noop,
    Model,
}

/// The arithmetic or logical shape of an operation, where it has one.
pub open spec fn spec_operation_math(op: Operation) -> Option<(MathOperator, Input, Input, Register)> {
    match op {
        Operation::Add { lhs, rhs, out } => Some(
            (MathOperator::Numeric(MathOperatorNumeric::Add), lhs, rhs, out),
        ),
        Operation::Sub { lhs, rhs, out } => Some(
            (MathOperator::Numeric(MathOperatorNumeric::Sub), lhs, rhs, out),
        ),
        Operation::Mul { lhs, rhs, out } => Some(
            (MathOperator::Numeric(MathOperatorNumeric::Mul), lhs, rhs, out),
        ),
        Operation::Div { lhs, rhs, out } => Some(
            (MathOperator::Numeric(MathOperatorNumeric::Div), lhs, rhs, out),
        ),
        Operation::Mod { lhs, rhs, out } => Some(
            (MathOperator::Numeric(MathOperatorNumeric::Mod), lhs, rhs, out),
        ),
        Operation::And { lhs, rhs, out } => Some(
            (MathOperator::Logic(LogicOperator::And), lhs, rhs, out),
        ),
        Operation::Or { lhs, rhs, out } => Some(
            (MathOperator::Logic(LogicOperator::Or), lhs, rhs, out),
        ),
        Operation::Xor { lhs, rhs, out } => Some(
            (MathOperator::Logic(LogicOperator::Xor), lhs, rhs, out),
        ),
        _ => None,
    }
}

impl Operation {
    /// The constant value an arithmetic or logical operation provably
    /// writes, where both operands are literals.
    pub open spec fn spec_has_constant_math_value(self) -> Option<(Value, Register)> {
        match spec_operation_math(self) {
            Some((k, lhs, rhs, out)) => match (lhs.spec_const_value(), rhs.spec_const_value()) {
                (Some(l), Some(r)) => Some((spec_math_call(k, l, r), out)),
                _ => None,
            },
            None => None,
        }
    }

    pub fn has_constant_math_value(&self) -> (r: Option<(Value, Register)>)
        ensures
            r == self.spec_has_constant_math_value(),
    {
        let (k, lhs, rhs, out): (MathOperator, &Input, &Input, &Register) = match self {
            Operation::Add { lhs, rhs, out } => (
                MathOperator::Numeric(MathOperatorNumeric::Add),
                lhs,
                rhs,
                out,
            ),
            Operation::Sub { lhs, rhs, out } => (
                MathOperator::Numeric(MathOperatorNumeric::Sub),
                lhs,
                rhs,
                out,
            ),
            Operation::Mul { lhs, rhs, out } => (
                MathOperator::Numeric(MathOperatorNumeric::Mul),
                lhs,
                rhs,
                out,
            ),
            Operation::Div { lhs, rhs, out } => (
                MathOperator::Numeric(MathOperatorNumeric::Div),
                lhs,
                rhs,
                out,
            ),
            Operation::Mod { lhs, rhs, out } => (
                MathOperator::Numeric(MathOperatorNumeric::Mod),
                lhs,
                rhs,
                out,
            ),
            Operation::And { lhs, rhs, out } => (MathOperator::Logic(LogicOperator::And), lhs, rhs, out),
            Operation::Or { lhs, rhs, out } => (MathOperator::Logic(LogicOperator::Or), lhs, rhs, out),
            Operation::Xor { lhs, rhs, out } => (MathOperator::Logic(LogicOperator::Xor), lhs, rhs, out),
            _ => {
                return None;
            },
        };
        if let Some(l) = lhs.const_value() {
            match rhs.const_value() {
                Some(r) => Some((k.call(&l, &r), *out)),
                None => None,
            }
        } else {
            None
        }
    }
}

/// One line of a program: an optional condition and an operation.
#[derive(Clone, Copy, Debug, PartialEq, Eq, Structural)]
pub struct Line {
    pub condition: Option<Condition>,
    pub operation: Operation,
}

/// What one arithmetic step yields: both operands, the operation, and the
/// write to the output register; on an error the registers are unchanged.
pub open spec fn spec_math_step(
    k: MathOperator,
    lhs: Input,
    rhs: Input,
    out: Register,
    p: PacketModel,
    regs: RegistersModel,
    fields: EnvFields,
    default_on_error: bool,
) -> (RegistersModel, Result<(), LineExecutionError>) {
    match lhs.spec_eval(p, regs, fields, default_on_error) {
        Err(e) => (regs, Err(LineExecutionError::Input(e))),
        Ok(l) => match rhs.spec_eval(p, regs, fields, default_on_error) {
            Err(e) => (regs, Err(LineExecutionError::Input(e))),
            Ok(r) => match spec_reg_set(regs, out, spec_math_call(k, l, r)) {
                Err(e) => (regs, Err(LineExecutionError::RegisterWrite(e))),
                Ok(regs2) => (regs2, Ok(())),
            },
        },
    }
}

/// What running one line yields: nothing when its condition is false or
/// fails; otherwise its operation, whose `Return` ends the packet's
/// processing with its action and whose other operations yield the
/// default action.
pub open spec fn spec_line_run(
    line: Line,
    p: PacketModel,
    regs: RegistersModel,
    fields: EnvFields,
    default_on_error: bool,
) -> (RegistersModel, Result<Action, LineExecutionError>) {
    let cond = match line.condition {
        Some(c) => c.spec_eval(p, regs, fields, default_on_error),
        None => Ok(true),
    };
    match cond {
        Err(e) => (regs, Err(LineExecutionError::Condition(e))),
        Ok(false) => (regs, Ok(Action::Allow)),
        Ok(true) => match line.operation {
            Operation::Copy { from, to } => match from.spec_eval(p, regs, fields, default_on_error) {
                Err(e) => (regs, Err(LineExecutionError::Input(e))),
                Ok(v) => match spec_reg_set(regs, to, v) {
                    Err(e) => (regs, Err(LineExecutionError::RegisterWrite(e))),
                    Ok(regs2) => (regs2, Ok(Action::Allow)),
                },
            },
            Operation::Return(a) => (regs, Ok(a)),
            Operation::Noop => (regs, Ok(Action::Allow)),
            Operation::Model => (regs, Ok(Action::Allow)),
            op => match spec_operation_math(op) {
                Some((k, lhs, rhs, out)) => {
                    let step = spec_math_step(k, lhs, rhs, out, p, regs, fields, default_on_error);
                    match step.1 {
                        Err(e) => (step.0, Err(e)),
                        Ok(()) => (step.0, Ok(Action::Allow)),
                    }
                },
                None => (regs, Ok(Action::Allow)),
            },
        },
    }
}

impl Line {
    /// The registers the line reads: condition operands first, then
    /// operation operands.
    pub open spec fn spec_input_registers(self) -> Seq<Register> {
        let cond_regs = match self.condition {
            Some(c) => (match c.lhs {
                Input::Register(r) => seq![r],
                _ => Seq::empty(),
            }) + (match c.rhs {
                Input::Register(r) => seq![r],
                _ => Seq::empty(),
            }),
            None => Seq::empty(),
        };
        let op_regs = match self.operation {
            Operation::Copy { from: Input::Register(r), .. } => seq![r],
            op => match spec_operation_math(op) {
                Some((k, lhs, rhs, out)) => (match lhs {
                    Input::Register(r) => seq![r],
                    _ => Seq::empty(),
                }) + (match rhs {
                    Input::Register(r) => seq![r],
                    _ => Seq::empty(),
                }),
                None => Seq::empty(),
            },
        };
        cond_regs + op_regs
    }

    pub fn input_registers(&self) -> (r: Vec<Register>)
        ensures
            r@ == self.spec_input_registers(),
    {
        let mut registers: Vec<Register> = Vec::new();
        if let Some(cond) = &self.condition {
            if let Input::Register(reg) = &cond.lhs {
                registers.push(*reg);
            }
            if let Input::Register(reg) = &cond.rhs {
                registers.push(*reg);
            }
        }
        match &self.operation {
            Operation::Copy { from: Input::Register(reg), .. } => {
                registers.push(*reg);
            },
            Operation::Add { lhs, rhs, .. }
            | Operation::Sub { lhs, rhs, .. }
            | Operation::Mul { lhs, rhs, .. }
            | Operation::Div { lhs, rhs, .. }
            | Operation::Mod { lhs, rhs, .. }
            | Operation::And { lhs, rhs, .. }
            | Operation::Or { lhs, rhs, .. }
            | Operation::Xor { lhs, rhs, .. } => {
                if let Input::Register(reg) = lhs {
                    registers.push(*reg);
                }
                if let Input::Register(reg) = rhs {
                    registers.push(*reg);
                }
            },
            _ => {},
        }
        proof {
            assert(registers@ =~= self.spec_input_registers());
        }
        registers
    }

    /// The register the line writes, where it writes one.
    pub open spec fn spec_output_register(self) -> Option<Register> {
        match self.operation {
            Operation::Copy { to, .. } => Some(to),
            op => match spec_operation_math(op) {
                Some((k, lhs, rhs, out)) => Some(out),
                None => None,
            },
        }
    }

    pub fn output_register(&self) -> (r: Option<Register>)
        ensures
            r == self.spec_output_register(),
    {
        match &self.operation {
            Operation::Copy { to, .. } => Some(*to),
            Operation::Add { out, .. }
            | Operation::Sub { out, .. }
            | Operation::Mul { out, .. }
            | Operation::Div { out, .. }
            | Operation::Mod { out, .. }
            | Operation::And { out, .. }
            | Operation::Or { out, .. }
            | Operation::Xor { out, .. } => Some(*out),
            _ => None,
        }
    }

    /// Run one arithmetic or logical operation.
    fn run_math_operator(
        packet: &Packet,
        registers: &mut Registers,
        fields: &EnvFields,
        math_operator: MathOperator,
        lhs: &Input,
        rhs: &Input,
        out: &Register,
        default_on_error: bool,
    ) -> (r: Result<(), LineExecutionError>)
        ensures
            ({
                let step = spec_math_step(
                    math_operator,
                    *lhs,
                    *rhs,
                    *out,
                    packet@,
                    old(registers)@,
                    *fields,
                    default_on_error,
                );
                final(registers)@ == step.0 && r == step.1
            }),
    {
        let l = match lhs.eval(packet, registers, fields, default_on_error) {
            Ok(v) => v,
            Err(e) => {
                return Err(LineExecutionError::Input(e));
            },
        };
        let r = match rhs.eval(packet, registers, fields, default_on_error) {
            Ok(v) => v,
            Err(e) => {
                return Err(LineExecutionError::Input(e));
            },
        };
        let val = math_operator.call(&l, &r);
        match registers.set(out, &val) {
            Ok(()) => Ok(()),
            Err(e) => Err(LineExecutionError::RegisterWrite(e)),
        }
    }

    /// Run one line against a packet.
    pub fn run(
        &self,
        packet: &Packet,
        registers: &mut Registers,
        fields: &EnvFields,
        default_on_error: bool,
    ) -> (r: Result<Action, LineExecutionError>)
        ensures
            ({
                let t = spec_line_run(*self, packet@, old(registers)@, *fields, default_on_error);
                final(registers)@ == t.0 && r == t.1
            }),
    {
        let run_op = match &self.condition {
            Some(cond) => match cond.eval(packet, registers, fields, default_on_error) {
                Ok(b) => b,
                Err(e) => {
                    return Err(LineExecutionError::Condition(e));
                },
            },
            None => true,
        };
        if !run_op {
            return Ok(Action::Allow);
        }
        match &self.operation {
            Operation::Copy { from, to } => {
                let val = match from.eval(packet, registers, fields, default_on_error) {
                    Ok(v) => v,
                    Err(e) => {
                        return Err(LineExecutionError::Input(e));
                    },
                };
                match registers.set(to, &val) {
                    Ok(()) => Ok(Action::Allow),
                    Err(e) => Err(LineExecutionError::RegisterWrite(e)),
                }
            },
            Operation::Add { lhs, rhs, out } => {
                Line::run_math_operator(
                    packet,
                    registers,
                    fields,
                    MathOperator::Numeric(MathOperatorNumeric::Add),
                    lhs,
                    rhs,
                    out,
                    default_on_error,
                )?;
                Ok(Action::Allow)
            },
            Operation::Sub { lhs, rhs, out } => {
                Line::run_math_operator(
                    packet,
                    registers,
                    fields,
                    MathOperator::Numeric(MathOperatorNumeric::Sub),
                    lhs,
                    rhs,
                    out,
                    default_on_error,
                )?;
                Ok(Action::Allow)
            },
            Operation::Mul { lhs, rhs, out } => {
                Line::run_math_operator(
                    packet,
                    registers,
                    fields,
                    MathOperator::Numeric(MathOperatorNumeric::Mul),
                    lhs,
                    rhs,
                    out,
                    default_on_error,
                )?;
                Ok(Action::Allow)
            },
            Operation::Div { lhs, rhs, out } => {
                Line::run_math_operator(
                    packet,
                    registers,
                    fields,
                    MathOperator::Numeric(MathOperatorNumeric::Div),
                    lhs,
                    rhs,
                    out,
                    default_on_error,
                )?;
                Ok(Action::Allow)
            },
            Operation::Mod { lhs, rhs, out } => {
                Line::run_math_operator(
                    packet,
                    registers,
                    fields,
                    MathOperator::Numeric(MathOperatorNumeric::Mod),
                    lhs,
                    rhs,
                    out,
                    default_on_error,
                )?;
                Ok(Action::Allow)
            },
            Operation::And { lhs, rhs, out } => {
                Line::run_math_operator(
                    packet,
                    registers,
                    fields,
                    MathOperator::Logic(LogicOperator::And),
                    lhs,
                    rhs,
                    out,
                    default_on_error,
                )?;
                Ok(Action::Allow)
            },
            Operation::Or { lhs, rhs, out } => {
                Line::run_math_operator(
                    packet,
                    registers,
                    fields,
                    MathOperator::Logic(LogicOperator::Or),
                    lhs,
                    rhs,
                    out,
                    default_on_error,
                )?;
                Ok(Action::Allow)
            },
            Operation::Xor { lhs, rhs, out } => {
                Line::run_math_operator(
                    packet,
                    registers,
                    fields,
                    MathOperator::Logic(LogicOperator::Xor),
                    lhs,
                    rhs,
                    out,
                    default_on_error,
                )?;
                Ok(Action::Allow)
            },
            Operation::Return(action) => Ok(*action),
            Operation::Noop => Ok(Action::Allow),
            Operation::Model => Ok(Action::Allow),
        }
    }
}

/// What running a list of lines yields: lines run top to bottom, the first
/// error or non-default action ends the run, and a run off the end yields
/// the default action.
pub open spec fn spec_program_run(
    lines: Seq<Line>,
    p: PacketModel,
    regs: RegistersModel,
    fields: EnvFields,
    default_on_error: bool,
) -> (RegistersModel, Result<Action, LineExecutionError>)
    decreases lines.len(),
{
    if lines.len() == 0 {
        (regs, Ok(Action::Allow))
    } else {
        let t = spec_line_run(lines[0], p, regs, fields, default_on_error);
        match t.1 {
            Err(e) => (t.0, Err(e)),
            Ok(a) => if a != Action::Allow {
                (t.0, Ok(a))
            } else {
                spec_program_run(lines.skip(1), p, t.0, fields, default_on_error)
            },
        }
    }
}

/// A program: an ordered list of lines.
#[derive(Clone, Debug)]
pub struct Program {
    pub lines: Vec<Line>,
}

impl View for Program {
    type V = Seq<Line>;

    open spec fn view(&self) -> Seq<Line> {
        self.lines@
    }
}

impl Program {
    /// Run the program against one packet.
    pub fn run(
        &self,
        packet: &Packet,
        registers: &mut Registers,
        fields: &EnvFields,
        field_default_on_error: bool,
    ) -> (r: Result<Action, LineExecutionError>)
        ensures
            ({
                let t = spec_program_run(
                    self@,
                    packet@,
                    old(registers)@,
                    *fields,
                    field_default_on_error,
                );
                final(registers)@ == t.0 && r == t.1
            }),
    {
        let ghost orig_regs = registers@;
        let n = self.lines.len();
        let mut i: usize = 0;
        proof {
            assert(self@.skip(0) =~= self@);
        }
        while i < n
            invariant
                i <= n,
                n == self@.len(),
                orig_regs == old(registers)@,
                spec_program_run(self@, packet@, orig_regs, *fields, field_default_on_error)
                    == spec_program_run(
                    self@.skip(i as int),
                    packet@,
                    registers@,
                    *fields,
                    field_default_on_error,
                ),
            decreases n - i,
        {
            let ghost pre_regs = registers@;
            let line = &self.lines[i];
            proof {
                assert(self@.skip(i as int)[0] == self@[i as int]);
                assert(self@.skip(i as int).skip(1) =~= self@.skip(i + 1));
            }
            let action = line.run(packet, registers, fields, field_default_on_error);
            proof {
                let t = spec_line_run(
                    self@[i as int],
                    packet@,
                    pre_regs,
                    *fields,
                    field_default_on_error,
                );
                assert(registers@ == t.0);
            }
            match action {
                Err(e) => {
                    proof {
                        assert(spec_program_run(
                            self@.skip(i as int),
                            packet@,
                            pre_regs,
                            *fields,
                            field_default_on_error,
                        ) == (registers@, Err::<Action, LineExecutionError>(e)));
                    }
                    return Err(e);
                },
                Ok(a) => {
                    if !matches!(a, Action::Allow) {
                        proof {
                            assert(spec_program_run(
                                self@.skip(i as int),
                                packet@,
                                pre_regs,
                                *fields,
                                field_default_on_error,
                            ) == (registers@, Ok::<Action, LineExecutionError>(a)));
                        }
                        return Ok(a);
                    }
                },
            }
            i = i + 1;
        }
        proof {
            assert(self@.skip(n as int) =~= Seq::<Line>::empty());
        }
        Ok(Action::Allow)
    }
}

} // verus!

verus! {

/// The input carrying a literal value.
pub open spec fn spec_input_from_value(v: Value) -> Input {
    match v {
        Value::Int(i) => Input::Int(i),
        Value::Bool(b) => Input::Bool(b),
    }
}

/// Whether an input is a register reference with the given index.
pub open spec fn spec_input_uses(inp: Input, idx: usize) -> bool {
    match inp {
        Input::Register(r) => r.index == idx,
        _ => false,
    }
}

/// Whether an input is a register reference.
pub open spec fn spec_input_is_reg(inp: Input) -> int {
    match inp {
        Input::Register(_) => 1,
        _ => 0,
    }
}

/// How many register references an operation holds among its operands.
pub open spec fn spec_op_reg_inputs(op: Operation) -> int {
    match op {
        Operation::Copy { from, .. } => spec_input_is_reg(from),
        o => match spec_operation_math(o) {
            Some((k, lhs, rhs, out)) => spec_input_is_reg(lhs) + spec_input_is_reg(rhs),
            None => 0,
        },
    }
}

/// How many register references a line holds among its operands.
pub open spec fn spec_line_reg_inputs(l: Line) -> int {
    (match l.condition {
        Some(c) => spec_input_is_reg(c.lhs) + spec_input_is_reg(c.rhs),
        None => 0,
    }) + spec_op_reg_inputs(l.operation)
}

/// The weight of one line: its condition, its arithmetic shape, and its
/// register operands.
pub open spec fn spec_line_weight(l: Line) -> int {
    (match l.condition {
        Some(_) => 1int,
        None => 0int,
    }) + (match spec_operation_math(l.operation) {
        Some(_) => 1int,
        None => 0int,
    }) + spec_line_reg_inputs(l)
}

/// The weight of a program: every pass of the optimizer leaves it no
/// larger, and a pass that changes anything shrinks it by the end of the
/// round.
pub open spec fn spec_weight(lines: Seq<Line>) -> int
    decreases lines.len(),
{
    if lines.len() == 0 {
        0
    } else {
        3 + spec_line_weight(lines[0]) + spec_weight(lines.skip(1))
    }
}

/// Whether a line's operation is the no-op.
pub open spec fn spec_is_noop(l: Line) -> bool {
    l.operation is Noop
}

/// Whether no line of the program is a no-op.
pub open spec fn spec_noop_free(lines: Seq<Line>) -> bool {
    forall|i: int| 0 <= i < lines.len() ==> !spec_is_noop(#[trigger] lines[i])
}

/// The program without its no-op lines.
pub open spec fn spec_strip_noops(lines: Seq<Line>) -> Seq<Line>
    decreases lines.len(),
{
    if lines.len() == 0 {
        Seq::empty()
    } else if spec_is_noop(lines[0]) {
        spec_strip_noops(lines.skip(1))
    } else {
        seq![lines[0]] + spec_strip_noops(lines.skip(1))
    }
}

/// One line simplified: a condition provably true is removed; a line whose
/// condition is provably false becomes a no-op; an operation on two
/// literals becomes a copy of its constant value.
pub open spec fn spec_simplify_line(l: Line) -> Line {
    let l1 = match l.condition {
        Some(c) => match c.spec_proven_value() {
            Some(true) => Line { condition: None, operation: l.operation },
            Some(false) => Line { condition: l.condition, operation: Operation::Noop },
            None => l,
        },
        None => l,
    };
    match l1.operation.spec_has_constant_math_value() {
        Some((v, out)) => Line {
            condition: l1.condition,
            operation: Operation::Copy { from: spec_input_from_value(v), to: out },
        },
        None => l1,
    }
}

/// The program with every line simplified.
pub open spec fn spec_simplify(lines: Seq<Line>) -> Seq<Line>
    decreases lines.len(),
{
    if lines.len() == 0 {
        Seq::empty()
    } else {
        seq![spec_simplify_line(lines[0])] + spec_simplify(lines.skip(1))
    }
}

/// Whether a line writes the register index.
pub open spec fn spec_writes_index(l: Line, idx: usize) -> bool {
    match l.spec_output_register() {
        Some(r) => r.index == idx,
        None => false,
    }
}

/// Whether any line of the program writes the register index.
pub open spec fn spec_written_in(lines: Seq<Line>, idx: usize) -> bool {
    exists|j: int| 0 <= j < lines.len() && spec_writes_index(#[trigger] lines[j], idx)
}

/// An operand rewritten: a reference to a register that no line writes
/// reads its zero value, so it becomes that literal.
pub open spec fn spec_fix_input(inp: Input, src: Seq<Line>) -> Input {
    match inp {
        Input::Register(r) => if spec_written_in(src, r.index) {
            inp
        } else {
            spec_input_from_value(r.spec_uninitialized_value())
        },
        _ => inp,
    }
}

/// An operation with its operands rewritten against the written set of
/// `src`.
pub open spec fn spec_fix_operation(op: Operation, src: Seq<Line>) -> Operation {
    match op {
        Operation::Copy { from, to } => Operation::Copy { from: spec_fix_input(from, src), to },
        Operation::Add { lhs, rhs, out } => Operation::Add {
            lhs: spec_fix_input(lhs, src),
            rhs: spec_fix_input(rhs, src),
            out,
        },
        Operation::Sub { lhs, rhs, out } => Operation::Sub {
            lhs: spec_fix_input(lhs, src),
            rhs: spec_fix_input(rhs, src),
            out,
        },
        Operation::Mul { lhs, rhs, out } => Operation::Mul {
            lhs: spec_fix_input(lhs, src),
            rhs: spec_fix_input(rhs, src),
            out,
        },
        Operation::Div { lhs, rhs, out } => Operation::Div {
            lhs: spec_fix_input(lhs, src),
            rhs: spec_fix_input(rhs, src),
            out,
        },
        Operation::Mod { lhs, rhs, out } => Operation::Mod {
            lhs: spec_fix_input(lhs, src),
            rhs: spec_fix_input(rhs, src),
            out,
        },
        Operation::And { lhs, rhs, out } => Operation::And {
            lhs: spec_fix_input(lhs, src),
            rhs: spec_fix_input(rhs, src),
            out,
        },
        Operation::Or { lhs, rhs, out } => Operation::Or {
            lhs: spec_fix_input(lhs, src),
            rhs: spec_fix_input(rhs, src),
            out,
        },
        Operation::Xor { lhs, rhs, out } => Operation::Xor {
            lhs: spec_fix_input(lhs, src),
            rhs: spec_fix_input(rhs, src),
            out,
        },
        o => o,
    }
}

/// A line with its operands rewritten against the written set of `src`.
pub open spec fn spec_fix_line(l: Line, src: Seq<Line>) -> Line {
    Line {
        condition: match l.condition {
            Some(c) => Some(
                Condition {
                    lhs: spec_fix_input(c.lhs, src),
                    operator: c.operator,
                    rhs: spec_fix_input(c.rhs, src),
                },
            ),
            None => None,
        },
        operation: spec_fix_operation(l.operation, src),
    }
}

/// The program with operands rewritten against the written set of `src`.
pub open spec fn spec_fix_lines(lines: Seq<Line>, src: Seq<Line>) -> Seq<Line>
    decreases lines.len(),
{
    if lines.len() == 0 {
        Seq::empty()
    } else {
        seq![spec_fix_line(lines[0], src)] + spec_fix_lines(lines.skip(1), src)
    }
}

/// The program with reads of never-written registers rewritten to their
/// zero values.
pub open spec fn spec_fix(lines: Seq<Line>) -> Seq<Line> {
    spec_fix_lines(lines, lines)
}

/// Whether a line reads the register index among its operands.
pub open spec fn spec_reads_index(l: Line, idx: usize) -> bool {
    (match l.condition {
        Some(c) => spec_input_uses(c.lhs, idx) || spec_input_uses(c.rhs, idx),
        None => false,
    }) || (match l.operation {
        Operation::Copy { from, .. } => spec_input_uses(from, idx),
        op => match spec_operation_math(op) {
            Some((k, lhs, rhs, out)) => spec_input_uses(lhs, idx) || spec_input_uses(rhs, idx),
            None => false,
        },
    })
}

/// Whether any line of the program reads the register index.
pub open spec fn spec_read_in(lines: Seq<Line>, idx: usize) -> bool {
    exists|j: int| 0 <= j < lines.len() && spec_reads_index(#[trigger] lines[j], idx)
}

/// A line whose written register no line reads becomes a no-op.
pub open spec fn spec_dead_line(l: Line, src: Seq<Line>) -> Line {
    match l.spec_output_register() {
        Some(r) => if spec_read_in(src, r.index) {
            l
        } else {
            Line { condition: l.condition, operation: Operation::Noop }
        },
        None => l,
    }
}

/// The program with dead stores against the read set of `src` replaced by
/// no-ops.
pub open spec fn spec_dead_lines(lines: Seq<Line>, src: Seq<Line>) -> Seq<Line>
    decreases lines.len(),
{
    if lines.len() == 0 {
        Seq::empty()
    } else {
        seq![spec_dead_line(lines[0], src)] + spec_dead_lines(lines.skip(1), src)
    }
}

/// The program with its dead stores replaced by no-ops.
pub open spec fn spec_dead(lines: Seq<Line>) -> Seq<Line> {
    spec_dead_lines(lines, lines)
}

/// Whether a line is an unconditional return.
pub open spec fn spec_is_uncond_return(l: Line) -> bool {
    l.condition is None && l.operation is Return
}

/// The program cut after its first unconditional return.
pub open spec fn spec_truncate(lines: Seq<Line>) -> Seq<Line>
    decreases lines.len(),
{
    if lines.len() == 0 {
        Seq::empty()
    } else if spec_is_uncond_return(lines[0]) {
        seq![lines[0]]
    } else {
        seq![lines[0]] + spec_truncate(lines.skip(1))
    }
}

/// One round of the optimizer.
pub open spec fn spec_round(lines: Seq<Line>) -> Seq<Line> {
    spec_truncate(
        spec_strip_noops(spec_dead(spec_fix(spec_strip_noops(spec_simplify(spec_strip_noops(lines)))))),
    )
}

/// One line canonicalized: a literal on the left of a field or register
/// moves to the right of the exchanged operator.
pub open spec fn spec_canon_line(l: Line) -> Line {
    Line {
        condition: match l.condition {
            Some(c) => Some(c.spec_enhance_readability()),
            None => None,
        },
        operation: l.operation,
    }
}

/// The program canonicalized.
pub open spec fn spec_canon(lines: Seq<Line>) -> Seq<Line>
    decreases lines.len(),
{
    if lines.len() == 0 {
        Seq::empty()
    } else {
        seq![spec_canon_line(lines[0])] + spec_canon(lines.skip(1))
    }
}

} // verus!

verus! {

/// Program weight is never negative.
pub proof fn lemma_weight_nonneg(x: Seq<Line>)
    ensures
        spec_weight(x) >= 0,
    decreases x.len(),
{
    if x.len() > 0 {
        lemma_weight_nonneg(x.skip(1));
    }
}

/// Stripping no-ops never grows the weight, shrinks it when it changes
/// anything, leaves a no-op-free program alone, and leaves no no-op
/// behind.
pub proof fn lemma_strip_weight(x: Seq<Line>)
    ensures
        spec_weight(spec_strip_noops(x)) <= spec_weight(x),
        spec_strip_noops(x) != x ==> spec_weight(spec_strip_noops(x)) < spec_weight(x),
        spec_noop_free(spec_strip_noops(x)),
        spec_noop_free(x) ==> spec_strip_noops(x) == x,
    decreases x.len(),
{
    lemma_weight_nonneg(x);
    if x.len() == 0 {
        assert(spec_strip_noops(x) =~= x);
    } else {
        let h = x[0];
        let t = x.skip(1);
        lemma_strip_weight(t);
        lemma_weight_nonneg(t);
        assert(forall|i: int| 0 <= i < t.len() ==> t[i] == x[i + 1]);
        if spec_is_noop(h) {
            assert(spec_strip_noops(x) == spec_strip_noops(t));
            assert(spec_weight(spec_strip_noops(x)) < spec_weight(x));
            assert(spec_strip_noops(x) != x) by {
                if spec_strip_noops(x) == x {
                    assert(spec_weight(x) < spec_weight(x));
                }
            }
        } else {
            let s2 = seq![h] + spec_strip_noops(t);
            assert(s2[0] == h);
            assert(s2.skip(1) =~= spec_strip_noops(t));
            assert(spec_weight(s2) == 3 + spec_line_weight(h) + spec_weight(spec_strip_noops(t)));
            assert(spec_noop_free(s2)) by {
                assert(forall|i: int|
                    0 < i < s2.len() ==> s2[i] == spec_strip_noops(t)[i - 1]);
            }
            if spec_strip_noops(t) == t {
                assert(s2 =~= x);
            } else {
                assert(spec_weight(s2) < spec_weight(x));
                assert(s2 != x) by {
                    if s2 == x {
                        assert(spec_weight(x) < spec_weight(x));
                    }
                }
            }
            if spec_noop_free(x) {
                assert(spec_noop_free(t));
            }
        }
    }
}

/// Simplifying one line never grows its weight; a change either leaves a
/// no-op for the next strip or shrinks the weight.
#[verifier::rlimit(100)]
#[verifier::spinoff_prover]
proof fn lemma_simplify_line_weight(l: Line)
    requires
        !spec_is_noop(l),
    ensures
        spec_line_weight(spec_simplify_line(l)) <= spec_line_weight(l),
        spec_simplify_line(l) != l ==> (spec_is_noop(spec_simplify_line(l)) || spec_line_weight(
            spec_simplify_line(l),
        ) < spec_line_weight(l)),
{
}

/// Simplifying then stripping never grows the weight, and shrinks it when
/// simplification changes anything.
pub proof fn lemma_simp_strip_weight(x: Seq<Line>)
    requires
        spec_noop_free(x),
    ensures
        spec_weight(spec_strip_noops(spec_simplify(x))) <= spec_weight(x),
        spec_simplify(x) != x ==> spec_weight(spec_strip_noops(spec_simplify(x))) < spec_weight(x),
    decreases x.len(),
{
    lemma_weight_nonneg(x);
    if x.len() == 0 {
        assert(spec_simplify(x) =~= x);
    } else {
        let h = x[0];
        let t = x.skip(1);
        assert(!spec_is_noop(h));
        assert(spec_noop_free(t)) by {
            assert(forall|i: int| 0 <= i < t.len() ==> t[i] == x[i + 1]);
        }
        lemma_simp_strip_weight(t);
        lemma_simplify_line_weight(h);
        lemma_weight_nonneg(t);
        lemma_weight_nonneg(spec_strip_noops(spec_simplify(t)));
        let sh = spec_simplify_line(h);
        let m = spec_simplify(x);
        assert(m[0] == sh);
        assert(m.skip(1) =~= spec_simplify(t));
        if spec_is_noop(sh) {
            assert(spec_strip_noops(m) == spec_strip_noops(spec_simplify(t)));
            assert(sh != h);
            assert(spec_weight(spec_strip_noops(m)) < spec_weight(x));
        } else {
            let s2 = seq![sh] + spec_strip_noops(spec_simplify(t));
            assert(spec_strip_noops(m) == s2);
            assert(s2[0] == sh);
            assert(s2.skip(1) =~= spec_strip_noops(spec_simplify(t)));
            assert(spec_weight(s2) == 3 + spec_line_weight(sh) + spec_weight(
                spec_strip_noops(spec_simplify(t)),
            ));
            if m != x {
                assert(sh != h || spec_simplify(t) != t) by {
                    if sh == h && spec_simplify(t) == t {
                        assert(m =~= x);
                    }
                }
                if sh != h {
                    assert(spec_line_weight(sh) < spec_line_weight(h));
                } else {
                    assert(spec_weight(spec_strip_noops(spec_simplify(t))) < spec_weight(t));
                }
                assert(spec_weight(s2) < spec_weight(x));
            }
        }
    }
}

/// Rewriting one operand never grows its register count, and shrinks it
/// when it changes the operand.
proof fn lemma_fix_input_weight(inp: Input, src: Seq<Line>)
    ensures
        spec_input_is_reg(spec_fix_input(inp, src)) <= spec_input_is_reg(inp),
        spec_fix_input(inp, src) != inp ==> spec_input_is_reg(spec_fix_input(inp, src))
            < spec_input_is_reg(inp),
{
}

/// Rewriting an operation's operands never grows its register count,
/// shrinks it when it changes anything, and keeps the operation's shape.
#[verifier::rlimit(100)]
#[verifier::spinoff_prover]
proof fn lemma_fix_operation_weight(op: Operation, src: Seq<Line>)
    ensures
        spec_op_reg_inputs(spec_fix_operation(op, src)) <= spec_op_reg_inputs(op),
        spec_fix_operation(op, src) != op ==> spec_op_reg_inputs(spec_fix_operation(op, src))
            < spec_op_reg_inputs(op),
        (spec_operation_math(spec_fix_operation(op, src)) is Some) == (spec_operation_math(op) is Some),
        (spec_fix_operation(op, src) is Noop) == (op is Noop),
{
    match op {
        Operation::Copy { from, to } => {
            lemma_fix_input_weight(from, src);
        },
        Operation::Add { lhs, rhs, out } => {
            lemma_fix_input_weight(lhs, src);
            lemma_fix_input_weight(rhs, src);
        },
        Operation::Sub { lhs, rhs, out } => {
            lemma_fix_input_weight(lhs, src);
            lemma_fix_input_weight(rhs, src);
        },
        Operation::Mul { lhs, rhs, out } => {
            lemma_fix_input_weight(lhs, src);
            lemma_fix_input_weight(rhs, src);
        },
        Operation::Div { lhs, rhs, out } => {
            lemma_fix_input_weight(lhs, src);
            lemma_fix_input_weight(rhs, src);
        },
        Operation::Mod { lhs, rhs, out } => {
            lemma_fix_input_weight(lhs, src);
            lemma_fix_input_weight(rhs, src);
        },
        Operation::And { lhs, rhs, out } => {
            lemma_fix_input_weight(lhs, src);
            lemma_fix_input_weight(rhs, src);
        },
        Operation::Or { lhs, rhs, out } => {
            lemma_fix_input_weight(lhs, src);
            lemma_fix_input_weight(rhs, src);
        },
        Operation::Xor { lhs, rhs, out } => {
            lemma_fix_input_weight(lhs, src);
            lemma_fix_input_weight(rhs, src);
        },
        _ => {},
    }
}

/// Rewriting one line's operands never grows its weight, shrinks it when
/// it changes anything, and keeps the operation's shape.
#[verifier::rlimit(100)]
#[verifier::spinoff_prover]
proof fn lemma_fix_line_weight(l: Line, src: Seq<Line>)
    ensures
        spec_line_weight(spec_fix_line(l, src)) <= spec_line_weight(l),
        spec_fix_line(l, src) != l ==> spec_line_weight(spec_fix_line(l, src)) < spec_line_weight(
            l,
        ),
        spec_is_noop(spec_fix_line(l, src)) == spec_is_noop(l),
{
    lemma_fix_operation_weight(l.operation, src);
    match l.condition {
        Some(c) => {
            lemma_fix_input_weight(c.lhs, src);
            lemma_fix_input_weight(c.rhs, src);
        },
        None => {},
    }
}

/// Rewriting operands never grows the weight and shrinks it when anything
/// changes; no-op-freedom is kept.
pub proof fn lemma_fix_weight(x: Seq<Line>, src: Seq<Line>)
    ensures
        spec_weight(spec_fix_lines(x, src)) <= spec_weight(x),
        spec_fix_lines(x, src) != x ==> spec_weight(spec_fix_lines(x, src)) < spec_weight(x),
        spec_noop_free(x) ==> spec_noop_free(spec_fix_lines(x, src)),
    decreases x.len(),
{
    if x.len() == 0 {
        assert(spec_fix_lines(x, src) =~= x);
    } else {
        let h = x[0];
        let t = x.skip(1);
        lemma_fix_weight(t, src);
        lemma_fix_line_weight(h, src);
        let fh = spec_fix_line(h, src);
        let m = spec_fix_lines(x, src);
        assert(m[0] == fh);
        assert(m.skip(1) =~= spec_fix_lines(t, src));
        assert(spec_weight(m) == 3 + spec_line_weight(fh) + spec_weight(spec_fix_lines(t, src)));
        if m != x {
            assert(fh != h || spec_fix_lines(t, src) != t) by {
                if fh == h && spec_fix_lines(t, src) == t {
                    assert(m =~= x);
                }
            }
        }
        if spec_noop_free(x) {
            assert(spec_noop_free(t)) by {
                assert(forall|i: int| 0 <= i < t.len() ==> t[i] == x[i + 1]);
            }
            assert(spec_noop_free(m)) by {
                assert(forall|i: int|
                    0 < i < m.len() ==> m[i] == spec_fix_lines(t, src)[i - 1]);
            }
        }
    }
}

/// A line a dead-store pass changes becomes a no-op and was none before,
/// without growing in weight.
proof fn lemma_dead_line_weight(l: Line, src: Seq<Line>)
    ensures
        spec_line_weight(spec_dead_line(l, src)) <= spec_line_weight(l),
        spec_dead_line(l, src) != l ==> (spec_is_noop(spec_dead_line(l, src)) && !spec_is_noop(l)),
{
}

/// Replacing dead stores then stripping never grows the weight, and
/// shrinks it when the pass changes anything.
pub proof fn lemma_dead_strip_weight(x: Seq<Line>, src: Seq<Line>)
    requires
        spec_noop_free(x),
    ensures
        spec_weight(spec_strip_noops(spec_dead_lines(x, src))) <= spec_weight(x),
        spec_dead_lines(x, src) != x ==> spec_weight(spec_strip_noops(spec_dead_lines(x, src)))
            < spec_weight(x),
    decreases x.len(),
{
    lemma_weight_nonneg(x);
    if x.len() == 0 {
        assert(spec_dead_lines(x, src) =~= x);
    } else {
        let h = x[0];
        let t = x.skip(1);
        assert(!spec_is_noop(h));
        assert(spec_noop_free(t)) by {
            assert(forall|i: int| 0 <= i < t.len() ==> t[i] == x[i + 1]);
        }
        lemma_dead_strip_weight(t, src);
        lemma_dead_line_weight(h, src);
        lemma_weight_nonneg(t);
        lemma_weight_nonneg(spec_strip_noops(spec_dead_lines(t, src)));
        let dh = spec_dead_line(h, src);
        let m = spec_dead_lines(x, src);
        assert(m[0] == dh);
        assert(m.skip(1) =~= spec_dead_lines(t, src));
        if spec_is_noop(dh) {
            assert(spec_strip_noops(m) == spec_strip_noops(spec_dead_lines(t, src)));
            assert(dh != h);
            assert(spec_weight(spec_strip_noops(m)) < spec_weight(x));
        } else {
            let s2 = seq![dh] + spec_strip_noops(spec_dead_lines(t, src));
            assert(spec_strip_noops(m) == s2);
            assert(s2[0] == dh);
            assert(s2.skip(1) =~= spec_strip_noops(spec_dead_lines(t, src)));
            assert(spec_weight(s2) == 3 + spec_line_weight(dh) + spec_weight(
                spec_strip_noops(spec_dead_lines(t, src)),
            ));
            assert(dh == h);
            if m != x {
                assert(spec_dead_lines(t, src) != t) by {
                    if spec_dead_lines(t, src) == t {
                        assert(m =~= x);
                    }
                }
                assert(spec_weight(s2) < spec_weight(x));
            }
        }
    }
}

/// Truncation never grows the weight and shrinks it when it cuts anything.
pub proof fn lemma_truncate_weight(x: Seq<Line>)
    ensures
        spec_weight(spec_truncate(x)) <= spec_weight(x),
        spec_truncate(x) != x ==> spec_weight(spec_truncate(x)) < spec_weight(x),
    decreases x.len(),
{
    lemma_weight_nonneg(x);
    if x.len() == 0 {
        assert(spec_truncate(x) =~= x);
    } else {
        let h = x[0];
        let t = x.skip(1);
        lemma_truncate_weight(t);
        lemma_weight_nonneg(t);
        lemma_weight_nonneg(spec_truncate(t));
        if spec_is_uncond_return(h) {
            let s2 = seq![h];
            assert(s2[0] == h);
            assert(s2.skip(1) =~= Seq::<Line>::empty());
            assert(spec_weight(Seq::<Line>::empty()) == 0);
            assert(spec_weight(s2) == 3 + spec_line_weight(h));
            if t.len() == 0 {
                assert(s2 =~= x);
            } else {
                assert(spec_weight(t) >= 3 + spec_line_weight(t[0]) + spec_weight(t.skip(1)));
                assert(spec_line_weight(t[0]) >= 0);
                lemma_weight_nonneg(t.skip(1));
                assert(spec_weight(t) > 0);
                assert(spec_weight(s2) < spec_weight(x));
                assert(s2 != x) by {
                    assert(s2.len() == 1 && x.len() > 1);
                }
            }
        } else {
            let s2 = seq![h] + spec_truncate(t);
            assert(s2[0] == h);
            assert(s2.skip(1) =~= spec_truncate(t));
            assert(spec_weight(s2) == 3 + spec_line_weight(h) + spec_weight(spec_truncate(t)));
            if spec_truncate(t) == t {
                assert(s2 =~= x);
            } else {
                assert(spec_weight(s2) < spec_weight(x));
                assert(s2 != x) by {
                    if s2 == x {
                        assert(spec_weight(x) < spec_weight(x));
                    }
                }
            }
        }
    }
}

/// One round never grows the weight and shrinks it when it changes the
/// program: the ground of the optimizer's termination.
pub proof fn lemma_round_weight(x: Seq<Line>)
    ensures
        spec_weight(spec_round(x)) <= spec_weight(x),
        spec_round(x) != x ==> spec_weight(spec_round(x)) < spec_weight(x),
{
    let s1 = spec_strip_noops(x);
    let s3 = spec_strip_noops(spec_simplify(s1));
    let s4 = spec_fix_lines(s3, s3);
    let s6 = spec_strip_noops(spec_dead_lines(s4, s4));
    let s7 = spec_truncate(s6);
    lemma_strip_weight(x);
    lemma_simp_strip_weight(s1);
    lemma_strip_weight(spec_simplify(s1));
    lemma_fix_weight(s3, s3);
    lemma_strip_weight(spec_dead_lines(s4, s4));
    lemma_dead_strip_weight(s4, s4);
    lemma_truncate_weight(s6);
    if spec_round(x) != x {
        if s1 != x {
        } else if spec_simplify(s1) != s1 {
        } else {
            assert(s3 == s1);
            if s4 != s3 {
            } else {
                if spec_dead_lines(s4, s4) != s4 {
                } else {
                    assert(s6 == s4);
                    if s7 != s6 {
                    } else {
                        assert(spec_round(x) == x);
                    }
                }
            }
        }
    }
}

} // verus!

verus! {

/// The optimizer's fixpoint: rounds run until one changes nothing, then
/// the program is canonicalized.
pub open spec fn spec_optimise(lines: Seq<Line>) -> Seq<Line>
    decreases spec_weight(lines),
    via spec_optimise_decreases
{
    if spec_round(lines) == lines {
        spec_canon(lines)
    } else {
        spec_optimise(spec_round(lines))
    }
}

#[via_fn]
proof fn spec_optimise_decreases(lines: Seq<Line>) {
    lemma_round_weight(lines);
    lemma_weight_nonneg(spec_round(lines));
}

/// The input carrying a literal value.
fn input_from_value(v: &Value) -> (r: Input)
    ensures
        r == spec_input_from_value(*v),
{
    match v {
        Value::Int(i) => Input::Int(*i),
        Value::Bool(b) => Input::Bool(*b),
    }
}

/// Whether any line of the program writes the register index.
fn lines_write_index(lines: &Vec<Line>, idx: usize) -> (r: bool)
    ensures
        r == spec_written_in(lines@, idx),
{
    let n = lines.len();
    let mut j: usize = 0;
    while j < n
        invariant
            j <= n,
            n == lines@.len(),
            forall|jj: int| 0 <= jj < j ==> !spec_writes_index(#[trigger] lines@[jj], idx),
        decreases n - j,
    {
        if let Some(reg) = lines[j].output_register() {
            if reg.index == idx {
                proof {
                    assert(spec_writes_index(lines@[j as int], idx));
                }
                return true;
            }
        }
        j = j + 1;
    }
    proof {
        if spec_written_in(lines@, idx) {
            let jj = choose|jj: int|
                0 <= jj < lines@.len() && spec_writes_index(#[trigger] lines@[jj], idx);
            assert(!spec_writes_index(lines@[jj], idx));
        }
    }
    false
}

/// Whether an input is a register reference with the given index.
fn input_uses(inp: &Input, idx: usize) -> (r: bool)
    ensures
        r == spec_input_uses(*inp, idx),
{
    match inp {
        Input::Register(reg) => reg.index == idx,
        _ => false,
    }
}

/// Whether a line reads the register index among its operands.
fn line_reads_index(l: &Line, idx: usize) -> (r: bool)
    ensures
        r == spec_reads_index(*l, idx),
{
    let in_cond = match &l.condition {
        Some(c) => input_uses(&c.lhs, idx) || input_uses(&c.rhs, idx),
        None => false,
    };
    if in_cond {
        return true;
    }
    match &l.operation {
        Operation::Copy { from, .. } => input_uses(from, idx),
        Operation::Add { lhs, rhs, .. }
        | Operation::Sub { lhs, rhs, .. }
        | Operation::Mul { lhs, rhs, .. }
        | Operation::Div { lhs, rhs, .. }
        | Operation::Mod { lhs, rhs, .. }
        | Operation::And { lhs, rhs, .. }
        | Operation::Or { lhs, rhs, .. }
        | Operation::Xor { lhs, rhs, .. } => input_uses(lhs, idx) || input_uses(rhs, idx),
        _ => false,
    }
}

/// Whether any line of the program reads the register index.
fn lines_read_index(lines: &Vec<Line>, idx: usize) -> (r: bool)
    ensures
        r == spec_read_in(lines@, idx),
{
    let n = lines.len();
    let mut j: usize = 0;
    while j < n
        invariant
            j <= n,
            n == lines@.len(),
            forall|jj: int| 0 <= jj < j ==> !spec_reads_index(#[trigger] lines@[jj], idx),
        decreases n - j,
    {
        if line_reads_index(&lines[j], idx) {
            return true;
        }
        j = j + 1;
    }
    proof {
        if spec_read_in(lines@, idx) {
            let jj = choose|jj: int|
                0 <= jj < lines@.len() && spec_reads_index(#[trigger] lines@[jj], idx);
            assert(!spec_reads_index(lines@[jj], idx));
        }
    }
    false
}

/// Strip the no-op lines out of the program.
fn strip_noops_vec(x: &Vec<Line>) -> (r: Vec<Line>)
    ensures
        r@ == spec_strip_noops(x@),
{
    let n = x.len();
    let mut r: Vec<Line> = Vec::new();
    let mut i: usize = 0;
    proof {
        assert(x@.skip(0) =~= x@);
        assert(Seq::<Line>::empty() + spec_strip_noops(x@) =~= spec_strip_noops(x@));
    }
    while i < n
        invariant
            i <= n,
            n == x@.len(),
            spec_strip_noops(x@) == r@ + spec_strip_noops(x@.skip(i as int)),
        decreases n - i,
    {
        proof {
            assert(x@.skip(i as int)[0] == x@[i as int]);
            assert(x@.skip(i as int).skip(1) =~= x@.skip(i + 1));
        }
        if !matches!(x[i].operation, Operation::Noop) {
            r.push(x[i]);
            proof {
                assert(r@ + spec_strip_noops(x@.skip(i + 1)) =~= r@.drop_last() + (seq![
                    x@[i as int],
                ] + spec_strip_noops(x@.skip(i + 1))));
            }
        }
        i = i + 1;
    }
    proof {
        assert(x@.skip(n as int) =~= Seq::<Line>::empty());
        assert(r@ + spec_strip_noops(Seq::<Line>::empty()) =~= r@);
    }
    r
}

/// Simplify one line.
fn simplify_line(l: &Line) -> (r: Line)
    ensures
        r == spec_simplify_line(*l),
{
    let l1 = match &l.condition {
        Some(c) => match c.proven_value() {
            Some(true) => Line { condition: None, operation: l.operation },
            Some(false) => Line { condition: l.condition, operation: Operation::Noop },
            None => *l,
        },
        None => *l,
    };
    match l1.operation.has_constant_math_value() {
        Some((v, out)) => Line {
            condition: l1.condition,
            operation: Operation::Copy { from: input_from_value(&v), to: out },
        },
        None => l1,
    }
}

/// Rewrite one operand against the written set of `src`.
fn fix_input(inp: &Input, src: &Vec<Line>) -> (r: Input)
    ensures
        r == spec_fix_input(*inp, src@),
{
    match inp {
        Input::Register(reg) => {
            if lines_write_index(src, reg.index) {
                *inp
            } else {
                input_from_value(&reg.as_uninitialized_value())
            }
        },
        _ => *inp,
    }
}

/// Rewrite an operation's operands against the written set of `src`.
fn fix_operation(op: &Operation, src: &Vec<Line>) -> (r: Operation)
    ensures
        r == spec_fix_operation(*op, src@),
{
    match op {
        Operation::Copy { from, to } => Operation::Copy { from: fix_input(from, src), to: *to },
        Operation::Add { lhs, rhs, out } => Operation::Add {
            lhs: fix_input(lhs, src),
            rhs: fix_input(rhs, src),
            out: *out,
        },
        Operation::Sub { lhs, rhs, out } => Operation::Sub {
            lhs: fix_input(lhs, src),
            rhs: fix_input(rhs, src),
            out: *out,
        },
        Operation::Mul { lhs, rhs, out } => Operation::Mul {
            lhs: fix_input(lhs, src),
            rhs: fix_input(rhs, src),
            out: *out,
        },
        Operation::Div { lhs, rhs, out } => Operation::Div {
            lhs: fix_input(lhs, src),
            rhs: fix_input(rhs, src),
            out: *out,
        },
        Operation::Mod { lhs, rhs, out } => Operation::Mod {
            lhs: fix_input(lhs, src),
            rhs: fix_input(rhs, src),
            out: *out,
        },
        Operation::And { lhs, rhs, out } => Operation::And {
            lhs: fix_input(lhs, src),
            rhs: fix_input(rhs, src),
            out: *out,
        },
        Operation::Or { lhs, rhs, out } => Operation::Or {
            lhs: fix_input(lhs, src),
            rhs: fix_input(rhs, src),
            out: *out,
        },
        Operation::Xor { lhs, rhs, out } => Operation::Xor {
            lhs: fix_input(lhs, src),
            rhs: fix_input(rhs, src),
            out: *out,
        },
        o => *o,
    }
}

/// Rewrite one line's operands against the written set of `src`.
fn fix_line(l: &Line, src: &Vec<Line>) -> (r: Line)
    ensures
        r == spec_fix_line(*l, src@),
{
    Line {
        condition: match &l.condition {
            Some(c) => Some(
                Condition {
                    lhs: fix_input(&c.lhs, src),
                    operator: c.operator,
                    rhs: fix_input(&c.rhs, src),
                },
            ),
            None => None,
        },
        operation: fix_operation(&l.operation, src),
    }
}

/// Turn one dead store against the read set of `src` into a no-op.
fn dead_line(l: &Line, src: &Vec<Line>) -> (r: Line)
    ensures
        r == spec_dead_line(*l, src@),
{
    match l.output_register() {
        Some(reg) => {
            if lines_read_index(src, reg.index) {
                *l
            } else {
                Line { condition: l.condition, operation: Operation::Noop }
            }
        },
        None => *l,
    }
}

/// Canonicalize one line.
fn canon_line(l: &Line) -> (r: Line)
    ensures
        r == spec_canon_line(*l),
{
    match &l.condition {
        Some(c) => {
            let mut c2 = *c;
            c2.enhance_readability();
            Line { condition: Some(c2), operation: l.operation }
        },
        None => *l,
    }
}

/// Whether two programs hold the same lines.
fn lines_equal(a: &Vec<Line>, b: &Vec<Line>) -> (r: bool)
    ensures
        r == (a@ == b@),
{
    let n = a.len();
    if n != b.len() {
        return false;
    }
    let mut i: usize = 0;
    while i < n
        invariant
            i <= n,
            n == a@.len(),
            n == b@.len(),
            forall|k: int| 0 <= k < i ==> a@[k] == b@[k],
        decreases n - i,
    {
        if a[i] != b[i] {
            proof {
                if a@ == b@ {
                    assert(a@[i as int] == b@[i as int]);
                }
            }
            return false;
        }
        i = i + 1;
    }
    proof {
        assert(a@ =~= b@);
    }
    true
}

/// The program cut after its first unconditional return equals the prefix
/// up to and including that return.
proof fn lemma_truncate_shape(x: Seq<Line>, k: int)
    requires
        0 <= k < x.len(),
        spec_is_uncond_return(x[k]),
        forall|j: int| 0 <= j < k ==> !spec_is_uncond_return(#[trigger] x[j]),
    ensures
        spec_truncate(x) == x.take(k + 1),
    decreases k,
{
    if k == 0 {
        assert(seq![x[0]] =~= x.take(1));
    } else {
        let t = x.skip(1);
        assert(forall|j: int| 0 <= j < k - 1 ==> t[j] == x[j + 1]);
        assert(t[k - 1] == x[k]);
        lemma_truncate_shape(t, k - 1);
        assert(seq![x[0]] + t.take(k) =~= x.take(k + 1));
    }
}

/// A program without an unconditional return is not cut.
proof fn lemma_truncate_none(x: Seq<Line>)
    requires
        forall|j: int| 0 <= j < x.len() ==> !spec_is_uncond_return(#[trigger] x[j]),
    ensures
        spec_truncate(x) == x,
    decreases x.len(),
{
    if x.len() == 0 {
        assert(spec_truncate(x) =~= x);
    } else {
        let t = x.skip(1);
        assert(forall|j: int| 0 <= j < t.len() ==> t[j] == x[j + 1]);
        lemma_truncate_none(t);
        assert(seq![x[0]] + t =~= x);
    }
}

/// The index of the first unconditional return, where the program has
/// one.
fn first_uncond_return(x: &Vec<Line>) -> (r: Option<usize>)
    ensures
        match r {
            Some(k) => k < x@.len() && spec_is_uncond_return(x@[k as int]) && (forall|j: int|
                0 <= j < k ==> !spec_is_uncond_return(#[trigger] x@[j])),
            None => forall|j: int| 0 <= j < x@.len() ==> !spec_is_uncond_return(#[trigger] x@[j]),
        },
{
    let n = x.len();
    let mut i: usize = 0;
    while i < n
        invariant
            i <= n,
            n == x@.len(),
            forall|j: int| 0 <= j < i ==> !spec_is_uncond_return(#[trigger] x@[j]),
        decreases n - i,
    {
        if x[i].condition.is_none() && matches!(x[i].operation, Operation::Return(_)) {
            return Some(i);
        }
        i = i + 1;
    }
    None
}

/// Cut the program after its first unconditional return.
fn truncate_vec(x: &Vec<Line>) -> (r: Vec<Line>)
    ensures
        r@ == spec_truncate(x@),
{
    let n = x.len();
    let end: usize = match first_uncond_return(x) {
        Some(k) => {
            proof {
                lemma_truncate_shape(x@, k as int);
            }
            k + 1
        },
        None => {
            proof {
                lemma_truncate_none(x@);
            }
            n
        },
    };
    let mut r: Vec<Line> = Vec::new();
    let mut k: usize = 0;
    while k < end
        invariant
            k <= end,
            end <= n,
            n == x@.len(),
            r@ == x@.take(k as int),
        decreases end - k,
    {
        r.push(x[k]);
        proof {
            assert(r@ =~= x@.take(k + 1));
        }
        k = k + 1;
    }
    proof {
        if end == n {
            assert(x@.take(n as int) =~= x@);
        }
    }
    r
}

/// Run one map-shaped pass over the program is done pass by pass below.
fn map_simplify_vec(x: &Vec<Line>) -> (r: Vec<Line>)
    ensures
        r@ == spec_simplify(x@),
{
    let n = x.len();
    let mut r: Vec<Line> = Vec::new();
    let mut i: usize = 0;
    proof {
        assert(x@.skip(0) =~= x@);
        assert(Seq::<Line>::empty() + spec_simplify(x@) =~= spec_simplify(x@));
    }
    while i < n
        invariant
            i <= n,
            n == x@.len(),
            spec_simplify(x@) == r@ + spec_simplify(x@.skip(i as int)),
        decreases n - i,
    {
        proof {
            assert(x@.skip(i as int)[0] == x@[i as int]);
            assert(x@.skip(i as int).skip(1) =~= x@.skip(i + 1));
        }
        r.push(simplify_line(&x[i]));
        proof {
            assert(r@ + spec_simplify(x@.skip(i + 1)) =~= r@.drop_last() + (seq![
                spec_simplify_line(x@[i as int]),
            ] + spec_simplify(x@.skip(i + 1))));
        }
        i = i + 1;
    }
    proof {
        assert(x@.skip(n as int) =~= Seq::<Line>::empty());
        assert(r@ + spec_simplify(Seq::<Line>::empty()) =~= r@);
    }
    r
}

/// Rewrite every line's operands against the program's own written set.
fn map_fix_vec(x: &Vec<Line>) -> (r: Vec<Line>)
    ensures
        r@ == spec_fix(x@),
{
    let n = x.len();
    let mut r: Vec<Line> = Vec::new();
    let mut i: usize = 0;
    proof {
        assert(x@.skip(0) =~= x@);
        assert(Seq::<Line>::empty() + spec_fix_lines(x@, x@) =~= spec_fix_lines(x@, x@));
    }
    while i < n
        invariant
            i <= n,
            n == x@.len(),
            spec_fix_lines(x@, x@) == r@ + spec_fix_lines(x@.skip(i as int), x@),
        decreases n - i,
    {
        proof {
            assert(x@.skip(i as int)[0] == x@[i as int]);
            assert(x@.skip(i as int).skip(1) =~= x@.skip(i + 1));
        }
        r.push(fix_line(&x[i], x));
        proof {
            assert(r@ + spec_fix_lines(x@.skip(i + 1), x@) =~= r@.drop_last() + (seq![
                spec_fix_line(x@[i as int], x@),
            ] + spec_fix_lines(x@.skip(i + 1), x@)));
        }
        i = i + 1;
    }
    proof {
        assert(x@.skip(n as int) =~= Seq::<Line>::empty());
        assert(r@ + spec_fix_lines(Seq::<Line>::empty(), x@) =~= r@);
    }
    r
}

/// Replace every dead store against the program's own read set.
fn map_dead_vec(x: &Vec<Line>) -> (r: Vec<Line>)
    ensures
        r@ == spec_dead(x@),
{
    let n = x.len();
    let mut r: Vec<Line> = Vec::new();
    let mut i: usize = 0;
    proof {
        assert(x@.skip(0) =~= x@);
        assert(Seq::<Line>::empty() + spec_dead_lines(x@, x@) =~= spec_dead_lines(x@, x@));
    }
    while i < n
        invariant
            i <= n,
            n == x@.len(),
            spec_dead_lines(x@, x@) == r@ + spec_dead_lines(x@.skip(i as int), x@),
        decreases n - i,
    {
        proof {
            assert(x@.skip(i as int)[0] == x@[i as int]);
            assert(x@.skip(i as int).skip(1) =~= x@.skip(i + 1));
        }
        r.push(dead_line(&x[i], x));
        proof {
            assert(r@ + spec_dead_lines(x@.skip(i + 1), x@) =~= r@.drop_last() + (seq![
                spec_dead_line(x@[i as int], x@),
            ] + spec_dead_lines(x@.skip(i + 1), x@)));
        }
        i = i + 1;
    }
    proof {
        assert(x@.skip(n as int) =~= Seq::<Line>::empty());
        assert(r@ + spec_dead_lines(Seq::<Line>::empty(), x@) =~= r@);
    }
    r
}

/// Canonicalize every line.
fn map_canon_vec(x: &Vec<Line>) -> (r: Vec<Line>)
    ensures
        r@ == spec_canon(x@),
{
    let n = x.len();
    let mut r: Vec<Line> = Vec::new();
    let mut i: usize = 0;
    proof {
        assert(x@.skip(0) =~= x@);
        assert(Seq::<Line>::empty() + spec_canon(x@) =~= spec_canon(x@));
    }
    while i < n
        invariant
            i <= n,
            n == x@.len(),
            spec_canon(x@) == r@ + spec_canon(x@.skip(i as int)),
        decreases n - i,
    {
        proof {
            assert(x@.skip(i as int)[0] == x@[i as int]);
            assert(x@.skip(i as int).skip(1) =~= x@.skip(i + 1));
        }
        r.push(canon_line(&x[i]));
        proof {
            assert(r@ + spec_canon(x@.skip(i + 1)) =~= r@.drop_last() + (seq![
                spec_canon_line(x@[i as int]),
            ] + spec_canon(x@.skip(i + 1))));
        }
        i = i + 1;
    }
    proof {
        assert(x@.skip(n as int) =~= Seq::<Line>::empty());
        assert(r@ + spec_canon(Seq::<Line>::empty()) =~= r@);
    }
    r
}

/// Run one round of the optimizer.
fn round_vec(x: &Vec<Line>) -> (r: Vec<Line>)
    ensures
        r@ == spec_round(x@),
{
    let s1 = strip_noops_vec(x);
    let s2 = map_simplify_vec(&s1);
    let s3 = strip_noops_vec(&s2);
    let s4 = map_fix_vec(&s3);
    let s5 = map_dead_vec(&s4);
    let s6 = strip_noops_vec(&s5);
    truncate_vec(&s6)
}

impl Program {
    /// Optimize the program: iterate the round to its fixpoint, then
    /// canonicalize.
    pub fn optimise(&mut self)
        ensures
            final(self)@ == spec_optimise(old(self)@),
    {
        let ghost orig = self@;
        let mut next = round_vec(&self.lines);
        let mut done = lines_equal(&self.lines, &next);
        while !done
            invariant
                next@ == spec_round(self@),
                done == (self@ == next@),
                spec_optimise(orig) == spec_optimise(self@),
            decreases spec_weight(self@),
        {
            proof {
                lemma_round_weight(self@);
                lemma_weight_nonneg(spec_round(self@));
            }
            self.lines = next;
            next = round_vec(&self.lines);
            done = lines_equal(&self.lines, &next);
        }
        self.lines = map_canon_vec(&self.lines);
    }

    /// Build a program from its lines and optimize it.
    pub fn new(lines: Vec<Line>) -> (r: Program)
        ensures
            r@ == spec_optimise(lines@),
    {
        let mut program = Program { lines };
        program.optimise();
        program
    }
}

} // verus!

verus! {

/// Canonicalization maps the program pointwise.
proof fn lemma_canon_index(y: Seq<Line>)
    ensures
        spec_canon(y).len() == y.len(),
        forall|i: int| 0 <= i < y.len() ==> spec_canon(y)[i] == spec_canon_line(#[trigger] y[i]),
    decreases y.len(),
{
    if y.len() > 0 {
        let t = y.skip(1);
        lemma_canon_index(t);
        assert(spec_canon(y)[0] == spec_canon_line(y[0]));
        assert(forall|i: int|
            0 < i < y.len() ==> spec_canon(y)[i] == spec_canon(t)[i - 1] && t[i - 1] == y[i]);
    }
}

/// Simplification maps the program pointwise.
proof fn lemma_simplify_index(y: Seq<Line>)
    ensures
        spec_simplify(y).len() == y.len(),
        forall|i: int|
            0 <= i < y.len() ==> spec_simplify(y)[i] == spec_simplify_line(#[trigger] y[i]),
    decreases y.len(),
{
    if y.len() > 0 {
        let t = y.skip(1);
        lemma_simplify_index(t);
        assert(spec_simplify(y)[0] == spec_simplify_line(y[0]));
        assert(forall|i: int|
            0 < i < y.len() ==> spec_simplify(y)[i] == spec_simplify(t)[i - 1] && t[i - 1] == y[i]);
    }
}

/// Operand rewriting maps the program pointwise.
proof fn lemma_fix_index(y: Seq<Line>, src: Seq<Line>)
    ensures
        spec_fix_lines(y, src).len() == y.len(),
        forall|i: int|
            0 <= i < y.len() ==> spec_fix_lines(y, src)[i] == spec_fix_line(
                #[trigger] y[i],
                src,
            ),
    decreases y.len(),
{
    if y.len() > 0 {
        let t = y.skip(1);
        lemma_fix_index(t, src);
        assert(spec_fix_lines(y, src)[0] == spec_fix_line(y[0], src));
        assert(forall|i: int|
            0 < i < y.len() ==> spec_fix_lines(y, src)[i] == spec_fix_lines(t, src)[i - 1] && t[i
                - 1] == y[i]);
    }
}

/// Dead-store replacement maps the program pointwise.
proof fn lemma_dead_index(y: Seq<Line>, src: Seq<Line>)
    ensures
        spec_dead_lines(y, src).len() == y.len(),
        forall|i: int|
            0 <= i < y.len() ==> spec_dead_lines(y, src)[i] == spec_dead_line(
                #[trigger] y[i],
                src,
            ),
    decreases y.len(),
{
    if y.len() > 0 {
        let t = y.skip(1);
        lemma_dead_index(t, src);
        assert(spec_dead_lines(y, src)[0] == spec_dead_line(y[0], src));
        assert(forall|i: int|
            0 < i < y.len() ==> spec_dead_lines(y, src)[i] == spec_dead_lines(t, src)[i - 1] && t[i
                - 1] == y[i]);
    }
}

/// A round-fixed program is fixed by every pass of the round.
proof fn lemma_round_fix_stages(y: Seq<Line>)
    requires
        spec_round(y) == y,
    ensures
        spec_strip_noops(y) == y,
        spec_noop_free(y),
        spec_simplify(y) == y,
        spec_fix_lines(y, y) == y,
        spec_dead_lines(y, y) == y,
        spec_truncate(y) == y,
{
    let s1 = spec_strip_noops(y);
    lemma_strip_weight(y);
    lemma_simp_strip_weight(s1);
    lemma_strip_weight(spec_simplify(s1));
    let s3 = spec_strip_noops(spec_simplify(s1));
    lemma_fix_weight(s3, s3);
    let s4 = spec_fix_lines(s3, s3);
    lemma_dead_strip_weight(s4, s4);
    lemma_strip_weight(spec_dead_lines(s4, s4));
    let s6 = spec_strip_noops(spec_dead_lines(s4, s4));
    lemma_truncate_weight(s6);
    if s1 != y {
        assert(spec_weight(spec_round(y)) < spec_weight(y));
    }
    assert(s1 == y);
    if spec_simplify(y) != y {
        assert(spec_weight(spec_round(y)) < spec_weight(y));
    }
    assert(spec_simplify(s1) == y);
    assert(s3 == y);
    if spec_fix_lines(y, y) != y {
        assert(spec_weight(spec_round(y)) < spec_weight(y));
    }
    assert(s4 == y);
    if spec_dead_lines(y, y) != y {
        assert(spec_weight(spec_round(y)) < spec_weight(y));
    }
    assert(s6 == y);
    if spec_truncate(y) != y {
        assert(spec_weight(spec_round(y)) < spec_weight(y));
    }
}

/// Canonicalizing a line keeps its operation, and so its no-op and
/// unconditional-return shape, its written register, and its reads.
proof fn lemma_canon_line_props(l: Line, idx: usize)
    ensures
        spec_canon_line(l).operation == l.operation,
        spec_is_noop(spec_canon_line(l)) == spec_is_noop(l),
        spec_is_uncond_return(spec_canon_line(l)) == spec_is_uncond_return(l),
        spec_canon_line(l).spec_output_register() == l.spec_output_register(),
        spec_writes_index(spec_canon_line(l), idx) == spec_writes_index(l, idx),
        spec_reads_index(spec_canon_line(l), idx) == spec_reads_index(l, idx),
{
}

/// Canonicalizing a line twice is canonicalizing it once.
proof fn lemma_canon_line_idempotent(l: Line)
    ensures
        spec_canon_line(spec_canon_line(l)) == spec_canon_line(l),
{
}

/// Canonicalization keeps the written set.
proof fn lemma_canon_written(y: Seq<Line>, idx: usize)
    ensures
        spec_written_in(spec_canon(y), idx) == spec_written_in(y, idx),
{
    lemma_canon_index(y);
    if spec_written_in(y, idx) {
        let j = choose|j: int| 0 <= j < y.len() && spec_writes_index(#[trigger] y[j], idx);
        lemma_canon_line_props(y[j], idx);
        assert(spec_writes_index(spec_canon(y)[j], idx));
    }
    if spec_written_in(spec_canon(y), idx) {
        let j = choose|j: int|
            0 <= j < spec_canon(y).len() && spec_writes_index(#[trigger] spec_canon(y)[j], idx);
        lemma_canon_line_props(y[j], idx);
        assert(spec_writes_index(y[j], idx));
    }
}

/// Canonicalization keeps the read set.
proof fn lemma_canon_read(y: Seq<Line>, idx: usize)
    ensures
        spec_read_in(spec_canon(y), idx) == spec_read_in(y, idx),
{
    lemma_canon_index(y);
    if spec_read_in(y, idx) {
        let j = choose|j: int| 0 <= j < y.len() && spec_reads_index(#[trigger] y[j], idx);
        lemma_canon_line_props(y[j], idx);
        assert(spec_reads_index(spec_canon(y)[j], idx));
    }
    if spec_read_in(spec_canon(y), idx) {
        let j = choose|j: int|
            0 <= j < spec_canon(y).len() && spec_reads_index(#[trigger] spec_canon(y)[j], idx);
        lemma_canon_line_props(y[j], idx);
        assert(spec_reads_index(y[j], idx));
    }
}

/// A line that simplification leaves alone stays alone after
/// canonicalization.
#[verifier::rlimit(100)]
#[verifier::spinoff_prover]
proof fn lemma_canon_simplify_line(l: Line)
    requires
        spec_simplify_line(l) == l,
    ensures
        spec_simplify_line(spec_canon_line(l)) == spec_canon_line(l),
{
}

/// Rewriting an operand looks only at the written set.
proof fn lemma_fix_input_src(inp: Input, src1: Seq<Line>, src2: Seq<Line>)
    requires
        forall|idx: usize| spec_written_in(src1, idx) == spec_written_in(src2, idx),
    ensures
        spec_fix_input(inp, src1) == spec_fix_input(inp, src2),
{
    match inp {
        Input::Register(r) => {
            assert(spec_written_in(src1, r.index) == spec_written_in(src2, r.index));
        },
        _ => {},
    }
}

/// A line that operand rewriting leaves alone stays alone after
/// canonicalization, against the canonicalized source.
#[verifier::rlimit(100)]
#[verifier::spinoff_prover]
proof fn lemma_canon_fix_line(l: Line, y: Seq<Line>)
    requires
        spec_fix_line(l, y) == l,
    ensures
        spec_fix_line(spec_canon_line(l), spec_canon(y)) == spec_canon_line(l),
{
    assert forall|idx: usize|
        spec_written_in(spec_canon(y), idx) == spec_written_in(y, idx) by {
        lemma_canon_written(y, idx);
    }
    assert(spec_fix_operation(l.operation, y) == l.operation);
    match l.operation {
        Operation::Copy { from, to } => {
            lemma_fix_input_src(from, y, spec_canon(y));
        },
        Operation::Add { lhs, rhs, out } => {
            lemma_fix_input_src(lhs, y, spec_canon(y));
            lemma_fix_input_src(rhs, y, spec_canon(y));
        },
        Operation::Sub { lhs, rhs, out } => {
            lemma_fix_input_src(lhs, y, spec_canon(y));
            lemma_fix_input_src(rhs, y, spec_canon(y));
        },
        Operation::Mul { lhs, rhs, out } => {
            lemma_fix_input_src(lhs, y, spec_canon(y));
            lemma_fix_input_src(rhs, y, spec_canon(y));
        },
        Operation::Div { lhs, rhs, out } => {
            lemma_fix_input_src(lhs, y, spec_canon(y));
            lemma_fix_input_src(rhs, y, spec_canon(y));
        },
        Operation::Mod { lhs, rhs, out } => {
            lemma_fix_input_src(lhs, y, spec_canon(y));
            lemma_fix_input_src(rhs, y, spec_canon(y));
        },
        Operation::And { lhs, rhs, out } => {
            lemma_fix_input_src(lhs, y, spec_canon(y));
            lemma_fix_input_src(rhs, y, spec_canon(y));
        },
        Operation::Or { lhs, rhs, out } => {
            lemma_fix_input_src(lhs, y, spec_canon(y));
            lemma_fix_input_src(rhs, y, spec_canon(y));
        },
        Operation::Xor { lhs, rhs, out } => {
            lemma_fix_input_src(lhs, y, spec_canon(y));
            lemma_fix_input_src(rhs, y, spec_canon(y));
        },
        _ => {},
    }
    match l.condition {
        Some(c) => {
            lemma_fix_input_src(c.lhs, y, spec_canon(y));
            lemma_fix_input_src(c.rhs, y, spec_canon(y));
        },
        None => {},
    }
}

/// A line that the dead-store pass leaves alone stays alone after
/// canonicalization, against the canonicalized source.
proof fn lemma_canon_dead_line(l: Line, y: Seq<Line>)
    requires
        spec_dead_line(l, y) == l,
    ensures
        spec_dead_line(spec_canon_line(l), spec_canon(y)) == spec_canon_line(l),
{
    lemma_canon_line_props(l, 0);
    match l.spec_output_register() {
        Some(r) => {
            lemma_canon_read(y, r.index);
            assert(spec_read_in(y, r.index)) by {
                if !spec_read_in(y, r.index) {
                    assert(spec_dead_line(l, y).operation is Noop);
                    assert(l.operation is Noop);
                    assert(l.spec_output_register() is None);
                }
            }
        },
        None => {},
    }
}

/// A truncation-fixed program stays fixed after canonicalization.
proof fn lemma_canon_truncate(y: Seq<Line>)
    requires
        spec_truncate(y) == y,
    ensures
        spec_truncate(spec_canon(y)) == spec_canon(y),
    decreases y.len(),
{
    lemma_canon_index(y);
    if y.len() == 0 {
        assert(spec_canon(y) =~= y);
        assert(spec_truncate(spec_canon(y)) =~= spec_canon(y));
    } else {
        let h = y[0];
        let t = y.skip(1);
        lemma_canon_line_props(h, 0);
        let cy = spec_canon(y);
        assert(cy[0] == spec_canon_line(h));
        assert(cy.skip(1) =~= spec_canon(t)) by {
            lemma_canon_index(t);
            assert(forall|i: int| 0 <= i < t.len() ==> t[i] == y[i + 1]);
        }
        if spec_is_uncond_return(h) {
            assert(spec_truncate(y) == seq![h]);
            assert(y.len() == 1);
            assert(h.condition is None);
            assert(spec_canon_line(h) == h);
            assert(spec_truncate(cy) == seq![h]);
            assert(cy =~= seq![h]);
        } else {
            assert(seq![h] + spec_truncate(t) == y);
            assert(spec_truncate(t) =~= t) by {
                assert((seq![h] + spec_truncate(t)).skip(1) =~= spec_truncate(t));
                assert(y.skip(1) =~= t);
            }
            lemma_canon_truncate(t);
            assert(!spec_is_uncond_return(cy[0]));
            assert(spec_truncate(cy) == seq![cy[0]] + spec_truncate(cy.skip(1)));
            assert(seq![cy[0]] + spec_canon(t) =~= cy);
        }
    }
}

/// A round-fixed program, canonicalized, is a fixpoint of the round and of
/// canonicalization.
proof fn lemma_canon_round_fixpoint(y: Seq<Line>)
    requires
        spec_round(y) == y,
    ensures
        spec_round(spec_canon(y)) == spec_canon(y),
        spec_canon(spec_canon(y)) == spec_canon(y),
{
    lemma_round_fix_stages(y);
    lemma_canon_index(y);
    let cy = spec_canon(y);
    assert(spec_noop_free(cy)) by {
        assert forall|i: int| 0 <= i < cy.len() implies !spec_is_noop(cy[i]) by {
            lemma_canon_line_props(y[i], 0);
        }
    }
    lemma_strip_weight(cy);
    assert(spec_strip_noops(cy) == cy);
    assert(spec_simplify(cy) == cy) by {
        lemma_simplify_index(cy);
        lemma_simplify_index(y);
        assert forall|i: int| 0 <= i < cy.len() implies spec_simplify(cy)[i] == cy[i] by {
            assert(spec_simplify_line(y[i]) == y[i]);
            lemma_canon_simplify_line(y[i]);
        }
        assert(spec_simplify(cy) =~= cy);
    }
    assert(spec_fix_lines(cy, cy) == cy) by {
        lemma_fix_index(cy, cy);
        lemma_fix_index(y, y);
        assert forall|i: int| 0 <= i < cy.len() implies spec_fix_lines(cy, cy)[i] == cy[i] by {
            assert(spec_fix_line(y[i], y) == y[i]);
            lemma_canon_fix_line(y[i], y);
        }
        assert(spec_fix_lines(cy, cy) =~= cy);
    }
    assert(spec_dead_lines(cy, cy) == cy) by {
        lemma_dead_index(cy, cy);
        lemma_dead_index(y, y);
        assert forall|i: int| 0 <= i < cy.len() implies spec_dead_lines(cy, cy)[i] == cy[i] by {
            assert(spec_dead_line(y[i], y) == y[i]);
            lemma_canon_dead_line(y[i], y);
        }
        assert(spec_dead_lines(cy, cy) =~= cy);
    }
    lemma_canon_truncate(y);
    assert(spec_round(cy) == cy);
    assert(spec_canon(cy) == cy) by {
        lemma_canon_index(cy);
        assert forall|i: int| 0 <= i < cy.len() implies spec_canon(cy)[i] == cy[i] by {
            lemma_canon_line_idempotent(y[i]);
        }
        assert(spec_canon(cy) =~= cy);
    }
}

/// The optimizer is idempotent: optimizing an optimized program changes
/// nothing.
pub proof fn lemma_optimise_idempotent(x: Seq<Line>)
    ensures
        spec_optimise(spec_optimise(x)) == spec_optimise(x),
    decreases spec_weight(x),
{
    lemma_weight_nonneg(x);
    if spec_round(x) == x {
        lemma_canon_round_fixpoint(x);
        assert(spec_optimise(x) == spec_canon(x));
        assert(spec_optimise(spec_canon(x)) == spec_canon(spec_canon(x)));
    } else {
        lemma_round_weight(x);
        lemma_weight_nonneg(spec_round(x));
        lemma_optimise_idempotent(spec_round(x));
        assert(spec_optimise(x) == spec_optimise(spec_round(x)));
    }
}

} // verus!

verus! {

/// Whether a line is an unconditional return of the default action. The
/// optimizer's truncation treats such a line as an end of the program,
/// though execution would run past it; programs that hold one are the one
/// class truncation can change.
pub open spec fn spec_is_uncond_default_return(l: Line) -> bool {
    l.condition is None && l.operation == Operation::Return(Action::Allow)
}

/// Truncation preserves behavior: cutting the program after its first
/// unconditional return changes what no packet's run yields, provided no
/// line is an unconditional return of the default action.
pub proof fn lemma_truncate_preserves_run(
    x: Seq<Line>,
    p: PacketModel,
    regs: RegistersModel,
    fields: EnvFields,
    default_on_error: bool,
)
    requires
        forall|i: int| 0 <= i < x.len() ==> !spec_is_uncond_default_return(#[trigger] x[i]),
    ensures
        spec_program_run(spec_truncate(x), p, regs, fields, default_on_error) == spec_program_run(
            x,
            p,
            regs,
            fields,
            default_on_error,
        ),
    decreases x.len(),
{
    if x.len() == 0 {
        assert(spec_truncate(x) =~= x);
    } else {
        let h = x[0];
        let t = x.skip(1);
        assert(!spec_is_uncond_default_return(h));
        assert(forall|i: int| 0 <= i < t.len() ==> t[i] == x[i + 1]);
        let step = spec_line_run(h, p, regs, fields, default_on_error);
        if spec_is_uncond_return(h) {
            let s2 = seq![h];
            assert(spec_truncate(x) == s2);
            assert(s2[0] == h);
            match step.1 {
                Err(_) => {},
                Ok(a) => {
                    assert(h.operation is Return);
                    assert(a != Action::Allow) by {
                        if a == Action::Allow {
                            assert(h.operation == Operation::Return(Action::Allow));
                        }
                    }
                },
            }
        } else {
            let s2 = seq![h] + spec_truncate(t);
            assert(spec_truncate(x) == s2);
            assert(s2[0] == h);
            assert(s2.skip(1) =~= spec_truncate(t));
            match step.1 {
                Err(_) => {},
                Ok(a) => {
                    if a == Action::Allow {
                        lemma_truncate_preserves_run(t, p, step.0, fields, default_on_error);
                    }
                },
            }
        }
    }
}

} // verus!

verus! {

/// Whether an operand can be evaluated against banks of the given widths:
/// a register reference must point into its bank.
pub open spec fn spec_input_in_bounds(inp: Input, int_len: int, bool_len: int) -> bool {
    match inp {
        Input::Register(r) => match r.ty {
            RegisterType::Int => r.index < int_len,
            RegisterType::Bool => r.index < bool_len,
        },
        _ => true,
    }
}

/// Whether a line's condition can be evaluated against banks of the given
/// widths.
pub open spec fn spec_cond_in_bounds(l: Line, int_len: int, bool_len: int) -> bool {
    match l.condition {
        Some(c) => spec_input_in_bounds(c.lhs, int_len, bool_len) && spec_input_in_bounds(
            c.rhs,
            int_len,
            bool_len,
        ),
        None => true,
    }
}

/// Running a line keeps the widths of the register banks.
proof fn lemma_line_run_banks(
    l: Line,
    p: PacketModel,
    regs: RegistersModel,
    fields: EnvFields,
    default_on_error: bool,
)
    ensures
        ({
            let step = spec_line_run(l, p, regs, fields, default_on_error);
            step.0.int.len() == regs.int.len() && step.0.bool.len() == regs.bool.len()
                && step.0.relax_register_types == regs.relax_register_types
        }),
{
}

/// With the error default on, an in-bounds condition always evaluates.
proof fn lemma_cond_total(
    c: Condition,
    p: PacketModel,
    regs: RegistersModel,
    fields: EnvFields,
)
    requires
        spec_input_in_bounds(c.lhs, regs.int.len() as int, regs.bool.len() as int),
        spec_input_in_bounds(c.rhs, regs.int.len() as int, regs.bool.len() as int),
    ensures
        c.spec_eval(p, regs, fields, true) is Ok,
{
}

/// Stripping no-ops preserves behavior, with the error default on, as long
/// as every no-op line's condition stays inside the register banks: a
/// conditioned no-op evaluates its guard and does nothing either way.
pub proof fn lemma_strip_noops_preserves_run(
    x: Seq<Line>,
    p: PacketModel,
    regs: RegistersModel,
    fields: EnvFields,
)
    requires
        forall|i: int|
            0 <= i < x.len() && spec_is_noop(#[trigger] x[i]) ==> spec_cond_in_bounds(
                x[i],
                regs.int.len() as int,
                regs.bool.len() as int,
            ),
    ensures
        spec_program_run(spec_strip_noops(x), p, regs, fields, true) == spec_program_run(
            x,
            p,
            regs,
            fields,
            true,
        ),
    decreases x.len(),
{
    if x.len() == 0 {
        assert(spec_strip_noops(x) =~= x);
    } else {
        let h = x[0];
        let t = x.skip(1);
        assert(forall|i: int| 0 <= i < t.len() ==> t[i] == x[i + 1]);
        let step = spec_line_run(h, p, regs, fields, true);
        if spec_is_noop(h) {
            assert(spec_cond_in_bounds(h, regs.int.len() as int, regs.bool.len() as int));
            match h.condition {
                Some(c) => {
                    lemma_cond_total(c, p, regs, fields);
                },
                None => {},
            }
            assert(step == (regs, Ok::<Action, LineExecutionError>(Action::Allow)));
            assert(spec_strip_noops(x) == spec_strip_noops(t));
            lemma_strip_noops_preserves_run(t, p, regs, fields);
        } else {
            let s2 = seq![h] + spec_strip_noops(t);
            assert(spec_strip_noops(x) == s2);
            assert(s2[0] == h);
            assert(s2.skip(1) =~= spec_strip_noops(t));
            match step.1 {
                Err(_) => {},
                Ok(a) => {
                    if a == Action::Allow {
                        lemma_line_run_banks(h, p, regs, fields, true);
                        lemma_strip_noops_preserves_run(t, p, step.0, fields);
                    }
                },
            }
        }
    }
}

} // verus!

verus! {

/// Simplifying one line preserves what running it yields: a proven
/// condition evaluates to its proven value, a folded operation writes the
/// same constant, and a line turned no-op was already skipped.
#[verifier::rlimit(100)]
#[verifier::spinoff_prover]
proof fn lemma_simplify_line_preserves_run(
    l: Line,
    p: PacketModel,
    regs: RegistersModel,
    fields: EnvFields,
    default_on_error: bool,
)
    ensures
        spec_line_run(spec_simplify_line(l), p, regs, fields, default_on_error) == spec_line_run(
            l,
            p,
            regs,
            fields,
            default_on_error,
        ),
{
}

/// Simplification preserves behavior: removing proven conditions, turning
/// provably skipped lines into no-ops and folding constant arithmetic
/// changes what no packet's run yields.
pub proof fn lemma_simplify_preserves_run(
    x: Seq<Line>,
    p: PacketModel,
    regs: RegistersModel,
    fields: EnvFields,
    default_on_error: bool,
)
    ensures
        spec_program_run(spec_simplify(x), p, regs, fields, default_on_error) == spec_program_run(
            x,
            p,
            regs,
            fields,
            default_on_error,
        ),
    decreases x.len(),
{
    if x.len() == 0 {
        assert(spec_simplify(x) =~= x);
    } else {
        let h = x[0];
        let t = x.skip(1);
        let s2 = spec_simplify(x);
        assert(s2[0] == spec_simplify_line(h));
        assert(s2.skip(1) =~= spec_simplify(t));
        lemma_simplify_line_preserves_run(h, p, regs, fields, default_on_error);
        let step = spec_line_run(h, p, regs, fields, default_on_error);
        match step.1 {
            Err(_) => {},
            Ok(a) => {
                if a == Action::Allow {
                    lemma_simplify_preserves_run(t, p, step.0, fields, default_on_error);
                }
            },
        }
    }
}

} // verus!

verus! {

/// Whether registers unwritten by `src` still hold their zero values.
pub open spec fn spec_unwritten_zeroed(src: Seq<Line>, regs: RegistersModel) -> bool {
    forall|idx: usize|
        !spec_written_in(src, idx) ==> ((idx < regs.int.len() ==> regs.int[idx as int] == 0) && (
        idx < regs.bool.len() ==> !regs.bool[idx as int]))
}

/// Whether every operand of every line points into the register banks.
pub open spec fn spec_lines_in_bounds(x: Seq<Line>, int_len: int, bool_len: int) -> bool {
    forall|i: int|
        0 <= i < x.len() ==> (spec_cond_in_bounds(#[trigger] x[i], int_len, bool_len) && (
        match spec_operation_math(x[i].operation) {
            Some((k, lhs, rhs, out)) => spec_input_in_bounds(lhs, int_len, bool_len)
                && spec_input_in_bounds(rhs, int_len, bool_len),
            None => match x[i].operation {
                Operation::Copy { from, .. } => spec_input_in_bounds(from, int_len, bool_len),
                _ => true,
            },
        }))
}

/// Whether every register a line of `x` writes is in the written set of
/// `src`.
pub open spec fn spec_writes_within(x: Seq<Line>, src: Seq<Line>) -> bool {
    forall|i: int|
        0 <= i < x.len() ==> (match (#[trigger] x[i]).spec_output_register() {
            Some(r) => spec_written_in(src, r.index),
            None => true,
        })
}

/// Rewriting one operand reads the same value, where the banks hold their
/// zero values at unwritten indices.
proof fn lemma_fix_input_preserves_eval(
    inp: Input,
    src: Seq<Line>,
    p: PacketModel,
    regs: RegistersModel,
    fields: EnvFields,
    default_on_error: bool,
)
    requires
        spec_unwritten_zeroed(src, regs),
        spec_input_in_bounds(inp, regs.int.len() as int, regs.bool.len() as int),
    ensures
        spec_fix_input(inp, src).spec_eval(p, regs, fields, default_on_error) == inp.spec_eval(
            p,
            regs,
            fields,
            default_on_error,
        ),
{
}

/// Rewriting one line's operands preserves what running it yields, and a
/// write keeps the unwritten banks zeroed.
#[verifier::rlimit(100)]
#[verifier::spinoff_prover]
proof fn lemma_fix_line_preserves_run(
    l: Line,
    src: Seq<Line>,
    p: PacketModel,
    regs: RegistersModel,
    fields: EnvFields,
    default_on_error: bool,
)
    requires
        spec_unwritten_zeroed(src, regs),
        spec_cond_in_bounds(l, regs.int.len() as int, regs.bool.len() as int),
        match spec_operation_math(l.operation) {
            Some((k, lhs, rhs, out)) => spec_input_in_bounds(
                lhs,
                regs.int.len() as int,
                regs.bool.len() as int,
            ) && spec_input_in_bounds(rhs, regs.int.len() as int, regs.bool.len() as int),
            None => match l.operation {
                Operation::Copy { from, .. } => spec_input_in_bounds(
                    from,
                    regs.int.len() as int,
                    regs.bool.len() as int,
                ),
                _ => true,
            },
        },
        match l.spec_output_register() {
            Some(r) => spec_written_in(src, r.index),
            None => true,
        },
    ensures
        spec_line_run(spec_fix_line(l, src), p, regs, fields, default_on_error) == spec_line_run(
            l,
            p,
            regs,
            fields,
            default_on_error,
        ),
        spec_unwritten_zeroed(src, spec_line_run(l, p, regs, fields, default_on_error).0),
{
    match l.condition {
        Some(c) => {
            lemma_fix_input_preserves_eval(c.lhs, src, p, regs, fields, default_on_error);
            lemma_fix_input_preserves_eval(c.rhs, src, p, regs, fields, default_on_error);
        },
        None => {},
    }
    match spec_operation_math(l.operation) {
        Some((k, lhs, rhs, out)) => {
            lemma_fix_input_preserves_eval(lhs, src, p, regs, fields, default_on_error);
            lemma_fix_input_preserves_eval(rhs, src, p, regs, fields, default_on_error);
        },
        None => {
            match l.operation {
                Operation::Copy { from, .. } => {
                    lemma_fix_input_preserves_eval(from, src, p, regs, fields, default_on_error);
                },
                _ => {},
            }
        },
    }
}

/// Rewriting reads of never-written registers to their zero values
/// preserves behavior, for register banks that still hold their zero
/// values at those registers and a program whose operands stay inside the
/// banks.
pub proof fn lemma_fix_preserves_run(
    x: Seq<Line>,
    src: Seq<Line>,
    p: PacketModel,
    regs: RegistersModel,
    fields: EnvFields,
    default_on_error: bool,
)
    requires
        spec_unwritten_zeroed(src, regs),
        spec_lines_in_bounds(x, regs.int.len() as int, regs.bool.len() as int),
        spec_writes_within(x, src),
    ensures
        spec_program_run(spec_fix_lines(x, src), p, regs, fields, default_on_error)
            == spec_program_run(x, p, regs, fields, default_on_error),
    decreases x.len(),
{
    if x.len() == 0 {
        assert(spec_fix_lines(x, src) =~= x);
    } else {
        let h = x[0];
        let t = x.skip(1);
        assert(forall|i: int| 0 <= i < t.len() ==> t[i] == x[i + 1]);
        let s2 = spec_fix_lines(x, src);
        assert(s2[0] == spec_fix_line(h, src));
        assert(s2.skip(1) =~= spec_fix_lines(t, src));
        lemma_fix_line_preserves_run(h, src, p, regs, fields, default_on_error);
        let step = spec_line_run(h, p, regs, fields, default_on_error);
        match step.1 {
            Err(_) => {},
            Ok(a) => {
                if a == Action::Allow {
                    lemma_line_run_banks(h, p, regs, fields, default_on_error);
                    lemma_fix_preserves_run(t, src, p, step.0, fields, default_on_error);
                }
            },
        }
    }
}

/// Every register a program's own lines write is in its own written set,
/// so the pass of the optimizer that rewrites against the program itself
/// preserves behavior on zeroed banks.
pub proof fn lemma_fix_self_preserves_run(
    x: Seq<Line>,
    p: PacketModel,
    regs: RegistersModel,
    fields: EnvFields,
    default_on_error: bool,
)
    requires
        spec_unwritten_zeroed(x, regs),
        spec_lines_in_bounds(x, regs.int.len() as int, regs.bool.len() as int),
    ensures
        spec_program_run(spec_fix(x), p, regs, fields, default_on_error) == spec_program_run(
            x,
            p,
            regs,
            fields,
            default_on_error,
        ),
{
    assert(spec_writes_within(x, x)) by {
        assert forall|i: int| 0 <= i < x.len() implies (match (#[trigger] x[i]).spec_output_register() {
            Some(r) => spec_written_in(x, r.index),
            None => true,
        }) by {
            match x[i].spec_output_register() {
                Some(r) => {
                    assert(spec_writes_index(x[i], r.index));
                },
                None => {},
            }
        }
    }
    lemma_fix_preserves_run(x, x, p, regs, fields, default_on_error);
}

} // verus!

verus! {

/// An operator says the same thing of exchanged operands under its
/// exchanged form: comparisons flip their direction, and every logical
/// connective is symmetric.
proof fn lemma_operator_invert_swap(op: Operator, a: Value, b: Value)
    ensures
        spec_operator_call(op.spec_invert(), b, a) == spec_operator_call(op, a, b),
{
}

/// Canonicalizing one line preserves what running it yields, with the
/// error default on and its condition operands inside the banks: the
/// exchanged operands evaluate to the same pair, read under the
/// exchanged operator.
proof fn lemma_canon_line_preserves_run(
    l: Line,
    p: PacketModel,
    regs: RegistersModel,
    fields: EnvFields,
)
    requires
        spec_cond_in_bounds(l, regs.int.len() as int, regs.bool.len() as int),
    ensures
        spec_line_run(spec_canon_line(l), p, regs, fields, true) == spec_line_run(
            l,
            p,
            regs,
            fields,
            true,
        ),
{
    match l.condition {
        Some(c) => {
            lemma_cond_total(c, p, regs, fields);
            let c2 = c.spec_enhance_readability();
            lemma_cond_total(c2, p, regs, fields);
            match (c.lhs.spec_eval(p, regs, fields, true), c.rhs.spec_eval(p, regs, fields, true)) {
                (Ok(a), Ok(b)) => {
                    lemma_operator_invert_swap(c.operator, a, b);
                },
                _ => {},
            }
        },
        None => {},
    }
}

/// Canonicalization preserves behavior, with the error default on and
/// every condition operand inside the banks.
pub proof fn lemma_canon_preserves_run(
    x: Seq<Line>,
    p: PacketModel,
    regs: RegistersModel,
    fields: EnvFields,
)
    requires
        forall|i: int|
            0 <= i < x.len() ==> spec_cond_in_bounds(
                #[trigger] x[i],
                regs.int.len() as int,
                regs.bool.len() as int,
            ),
    ensures
        spec_program_run(spec_canon(x), p, regs, fields, true) == spec_program_run(
            x,
            p,
            regs,
            fields,
            true,
        ),
    decreases x.len(),
{
    if x.len() == 0 {
        assert(spec_canon(x) =~= x);
    } else {
        let h = x[0];
        let t = x.skip(1);
        assert(forall|i: int| 0 <= i < t.len() ==> t[i] == x[i + 1]);
        let s2 = spec_canon(x);
        assert(s2[0] == spec_canon_line(h));
        assert(s2.skip(1) =~= spec_canon(t));
        lemma_canon_line_preserves_run(h, p, regs, fields);
        let step = spec_line_run(h, p, regs, fields, true);
        match step.1 {
            Err(_) => {},
            Ok(a) => {
                if a == Action::Allow {
                    lemma_line_run_banks(h, p, regs, fields, true);
                    lemma_canon_preserves_run(t, p, step.0, fields);
                }
            },
        }
    }
}

} // verus!

verus! {

/// Whether every register a line of `x` writes points into banks of the
/// given widths.
pub open spec fn spec_outs_in_bounds(x: Seq<Line>, int_len: int, bool_len: int) -> bool {
    forall|i: int|
        0 <= i < x.len() ==> (match (#[trigger] x[i]).spec_output_register() {
            Some(r) => r.index < int_len && r.index < bool_len,
            None => true,
        })
}

/// Whether every register a line of `x` reads is in the read set of
/// `src`.
pub open spec fn spec_reads_within(x: Seq<Line>, src: Seq<Line>) -> bool {
    forall|i: int, idx: usize|
        0 <= i < x.len() && #[trigger] spec_reads_index(x[i], idx) ==> spec_read_in(src, idx)
}

/// Whether two register files agree wherever `src` reads: equal widths,
/// the same typing mode, and equal values at every read index of either
/// bank.
pub open spec fn spec_regs_agree(src: Seq<Line>, r1: RegistersModel, r2: RegistersModel) -> bool {
    &&& r1.int.len() == r2.int.len()
    &&& r1.bool.len() == r2.bool.len()
    &&& r1.relax_register_types == r2.relax_register_types
    &&& forall|idx: usize|
        spec_read_in(src, idx) ==> ((idx < r1.int.len() ==> r1.int[idx as int] == r2.int[idx as int])
            && (idx < r1.bool.len() ==> r1.bool[idx as int] == r2.bool[idx as int]))
}

/// An operand whose register `src` reads evaluates alike in agreeing
/// register files.
proof fn lemma_input_eval_agree(
    inp: Input,
    src: Seq<Line>,
    p: PacketModel,
    r1: RegistersModel,
    r2: RegistersModel,
    fields: EnvFields,
)
    requires
        spec_regs_agree(src, r1, r2),
        match inp {
            Input::Register(r) => spec_read_in(src, r.index),
            _ => true,
        },
    ensures
        inp.spec_eval(p, r1, fields, true) == inp.spec_eval(p, r2, fields, true),
{
}

/// A line whose reads `src` covers steps alike from agreeing register
/// files, and the files agree afterwards, under relaxed typing and
/// in-bounds operands.
#[verifier::rlimit(100)]
#[verifier::spinoff_prover]
proof fn lemma_line_step_agree(
    l: Line,
    src: Seq<Line>,
    p: PacketModel,
    r1: RegistersModel,
    r2: RegistersModel,
    fields: EnvFields,
)
    requires
        spec_regs_agree(src, r1, r2),
        r1.relax_register_types == true,
        spec_cond_in_bounds(l, r1.int.len() as int, r1.bool.len() as int),
        match spec_operation_math(l.operation) {
            Some((k, lhs, rhs, out)) => spec_input_in_bounds(
                lhs,
                r1.int.len() as int,
                r1.bool.len() as int,
            ) && spec_input_in_bounds(rhs, r1.int.len() as int, r1.bool.len() as int),
            None => match l.operation {
                Operation::Copy { from, .. } => spec_input_in_bounds(
                    from,
                    r1.int.len() as int,
                    r1.bool.len() as int,
                ),
                _ => true,
            },
        },
        match l.spec_output_register() {
            Some(r) => r.index < r1.int.len() && r.index < r1.bool.len(),
            None => true,
        },
        forall|idx: usize| spec_reads_index(l, idx) ==> spec_read_in(src, idx),
    ensures
        ({
            let s1 = spec_line_run(l, p, r1, fields, true);
            let s2 = spec_line_run(l, p, r2, fields, true);
            s1.1 == s2.1 && spec_regs_agree(src, s1.0, s2.0)
        }),
{
    match l.condition {
        Some(c) => {
            lemma_input_eval_agree(c.lhs, src, p, r1, r2, fields);
            lemma_input_eval_agree(c.rhs, src, p, r1, r2, fields);
        },
        None => {},
    }
    match spec_operation_math(l.operation) {
        Some((k, lhs, rhs, out)) => {
            lemma_input_eval_agree(lhs, src, p, r1, r2, fields);
            lemma_input_eval_agree(rhs, src, p, r1, r2, fields);
        },
        None => {
            match l.operation {
                Operation::Copy { from, .. } => {
                    lemma_input_eval_agree(from, src, p, r1, r2, fields);
                },
                _ => {},
            }
        },
    }
}

/// A dropped dead store steps to the default action on both sides, and
/// the files still agree: the original's write lands on an index `src`
/// never reads.
#[verifier::rlimit(100)]
#[verifier::spinoff_prover]
proof fn lemma_dead_step_agree(
    l: Line,
    src: Seq<Line>,
    p: PacketModel,
    r1: RegistersModel,
    r2: RegistersModel,
    fields: EnvFields,
)
    requires
        spec_regs_agree(src, r1, r2),
        r1.relax_register_types == true,
        spec_dead_line(l, src) != l,
        spec_cond_in_bounds(l, r1.int.len() as int, r1.bool.len() as int),
        match spec_operation_math(l.operation) {
            Some((k, lhs, rhs, out)) => spec_input_in_bounds(
                lhs,
                r1.int.len() as int,
                r1.bool.len() as int,
            ) && spec_input_in_bounds(rhs, r1.int.len() as int, r1.bool.len() as int),
            None => match l.operation {
                Operation::Copy { from, .. } => spec_input_in_bounds(
                    from,
                    r1.int.len() as int,
                    r1.bool.len() as int,
                ),
                _ => true,
            },
        },
        match l.spec_output_register() {
            Some(r) => r.index < r1.int.len() && r.index < r1.bool.len(),
            None => true,
        },
        forall|idx: usize| spec_reads_index(l, idx) ==> spec_read_in(src, idx),
    ensures
        ({
            let s1 = spec_line_run(l, p, r1, fields, true);
            let s2 = spec_line_run(spec_dead_line(l, src), p, r2, fields, true);
            s1.1 == s2.1 && s1.1 == Ok::<Action, LineExecutionError>(Action::Allow)
                && spec_regs_agree(src, s1.0, s2.0)
        }),
{
    let out = l.spec_output_register()->Some_0;
    assert(!spec_read_in(src, out.index));
    match l.condition {
        Some(c) => {
            lemma_cond_total(c, p, r1, fields);
            match c.lhs {
                Input::Register(r) => {
                    assert(spec_reads_index(l, r.index));
                },
                _ => {},
            }
            match c.rhs {
                Input::Register(r) => {
                    assert(spec_reads_index(l, r.index));
                },
                _ => {},
            }
            lemma_input_eval_agree(c.lhs, src, p, r1, r2, fields);
            lemma_input_eval_agree(c.rhs, src, p, r1, r2, fields);
        },
        None => {},
    }
}

} // verus!

verus! {

/// Replacing the dead stores of `x` against the read set of `src`
/// preserves the run's outcome from agreeing register files, and the
/// files agree afterwards: under the error default, relaxed typing, and
/// in-bounds operands and outputs.
proof fn lemma_dead_lines_preserve_run(
    x: Seq<Line>,
    src: Seq<Line>,
    p: PacketModel,
    r1: RegistersModel,
    r2: RegistersModel,
    fields: EnvFields,
)
    requires
        spec_regs_agree(src, r1, r2),
        r1.relax_register_types == true,
        spec_lines_in_bounds(x, r1.int.len() as int, r1.bool.len() as int),
        spec_outs_in_bounds(x, r1.int.len() as int, r1.bool.len() as int),
        spec_reads_within(x, src),
    ensures
        ({
            let a = spec_program_run(x, p, r1, fields, true);
            let b = spec_program_run(spec_dead_lines(x, src), p, r2, fields, true);
            a.1 == b.1 && spec_regs_agree(src, a.0, b.0)
        }),
    decreases x.len(),
{
    if x.len() == 0 {
        assert(spec_dead_lines(x, src) =~= x);
    } else {
        let h = x[0];
        let t = x.skip(1);
        assert(forall|i: int| 0 <= i < t.len() ==> t[i] == x[i + 1]);
        assert(spec_reads_within(t, src)) by {
            assert forall|i: int, idx: usize|
                0 <= i < t.len() && #[trigger] spec_reads_index(t[i], idx) implies spec_read_in(
                src,
                idx,
            ) by {
                assert(spec_reads_index(x[i + 1], idx));
            }
        }
        let s2 = spec_dead_lines(x, src);
        assert(s2[0] == spec_dead_line(h, src));
        assert(s2.skip(1) =~= spec_dead_lines(t, src));
        let step1 = spec_line_run(h, p, r1, fields, true);
        let dh = spec_dead_line(h, src);
        let step2 = spec_line_run(dh, p, r2, fields, true);
        assert(forall|idx: usize| spec_reads_index(h, idx) ==> spec_read_in(src, idx)) by {
            assert(forall|idx: usize|
                spec_reads_index(x[0], idx) ==> spec_read_in(src, idx));
        }
        if dh == h {
            lemma_line_step_agree(h, src, p, r1, r2, fields);
        } else {
            lemma_dead_step_agree(h, src, p, r1, r2, fields);
        }
        assert(step1.1 == step2.1);
        match step1.1 {
            Err(_) => {},
            Ok(a) => {
                if a == Action::Allow {
                    lemma_line_run_banks(h, p, r1, fields, true);
                    lemma_line_run_banks(dh, p, r2, fields, true);
                    lemma_dead_lines_preserve_run(t, src, p, step1.0, step2.0, fields);
                }
            },
        }
    }
}

/// Dead-store elimination preserves behavior: against the program's own
/// read set, the run's action or error is unchanged, and the registers
/// agree wherever the program reads. Stated under the error default,
/// relaxed register typing, and operands and outputs inside the banks.
pub proof fn lemma_dead_self_preserves_run(
    x: Seq<Line>,
    p: PacketModel,
    regs: RegistersModel,
    fields: EnvFields,
)
    requires
        regs.relax_register_types == true,
        spec_lines_in_bounds(x, regs.int.len() as int, regs.bool.len() as int),
        spec_outs_in_bounds(x, regs.int.len() as int, regs.bool.len() as int),
    ensures
        ({
            let a = spec_program_run(x, p, regs, fields, true);
            let b = spec_program_run(spec_dead(x), p, regs, fields, true);
            a.1 == b.1 && spec_regs_agree(x, a.0, b.0)
        }),
{
    assert(spec_reads_within(x, x)) by {
        assert forall|i: int, idx: usize|
            0 <= i < x.len() && #[trigger] spec_reads_index(x[i], idx) implies spec_read_in(
            x,
            idx,
        ) by {
        }
    }
    lemma_dead_lines_preserve_run(x, x, p, regs, regs, fields);
}

} // verus!

verus! {

/// A program the preservation theorems speak of: every operand and
/// written register inside banks of the given widths, and no line
/// returning the default action (truncation treats such a return as an
/// end of the program, though execution would run past it).
pub open spec fn spec_opt_ok(x: Seq<Line>, int_len: int, bool_len: int) -> bool {
    &&& spec_lines_in_bounds(x, int_len, bool_len)
    &&& spec_outs_in_bounds(x, int_len, bool_len)
    &&& forall|i: int|
        0 <= i < x.len() ==> (#[trigger] x[i]).operation != Operation::Return(Action::Allow)
}

/// Stripping no-ops keeps a program acceptable.
proof fn lemma_strip_opt_ok(x: Seq<Line>, int_len: int, bool_len: int)
    requires
        spec_opt_ok(x, int_len, bool_len),
    ensures
        spec_opt_ok(spec_strip_noops(x), int_len, bool_len),
    decreases x.len(),
{
    if x.len() > 0 {
        let t = x.skip(1);
        assert(forall|i: int| 0 <= i < t.len() ==> t[i] == x[i + 1]);
        lemma_strip_opt_ok(t, int_len, bool_len);
        if !spec_is_noop(x[0]) {
            let s2 = seq![x[0]] + spec_strip_noops(t);
            assert(forall|i: int|
                0 < i < s2.len() ==> s2[i] == spec_strip_noops(t)[i - 1]);
            assert(s2[0] == x[0]);
        }
    } else {
        assert(spec_strip_noops(x) =~= x);
    }
}

/// Simplification keeps a program acceptable.
proof fn lemma_simplify_opt_ok(x: Seq<Line>, int_len: int, bool_len: int)
    requires
        spec_opt_ok(x, int_len, bool_len),
    ensures
        spec_opt_ok(spec_simplify(x), int_len, bool_len),
{
    lemma_simplify_index(x);
    let y = spec_simplify(x);
    assert forall|i: int| 0 <= i < y.len() implies (spec_cond_in_bounds(
        #[trigger] y[i],
        int_len,
        bool_len,
    ) && (match spec_operation_math(y[i].operation) {
        Some((k, lhs, rhs, out)) => spec_input_in_bounds(lhs, int_len, bool_len)
            && spec_input_in_bounds(rhs, int_len, bool_len),
        None => match y[i].operation {
            Operation::Copy { from, .. } => spec_input_in_bounds(from, int_len, bool_len),
            _ => true,
        },
    })) by {
        assert(spec_cond_in_bounds(x[i], int_len, bool_len));
        assert(match spec_operation_math(x[i].operation) {
            Some((k, lhs, rhs, out)) => spec_input_in_bounds(lhs, int_len, bool_len)
                && spec_input_in_bounds(rhs, int_len, bool_len),
            None => match x[i].operation {
                Operation::Copy { from, .. } => spec_input_in_bounds(from, int_len, bool_len),
                _ => true,
            },
        });
    }
    assert forall|i: int| 0 <= i < y.len() implies (match (#[trigger] y[i]).spec_output_register() {
        Some(r) => r.index < int_len && r.index < bool_len,
        None => true,
    }) by {
        assert(match x[i].spec_output_register() {
            Some(r) => r.index < int_len && r.index < bool_len,
            None => true,
        });
    }
    assert forall|i: int| 0 <= i < y.len() implies (#[trigger] y[i]).operation != Operation::Return(
        Action::Allow,
    ) by {
        assert(x[i].operation != Operation::Return(Action::Allow));
    }
}

/// Operand rewriting keeps a program acceptable.
proof fn lemma_fix_opt_ok(x: Seq<Line>, src: Seq<Line>, int_len: int, bool_len: int)
    requires
        spec_opt_ok(x, int_len, bool_len),
    ensures
        spec_opt_ok(spec_fix_lines(x, src), int_len, bool_len),
{
    lemma_fix_index(x, src);
    let y = spec_fix_lines(x, src);
    assert forall|i: int| 0 <= i < y.len() implies (spec_cond_in_bounds(
        #[trigger] y[i],
        int_len,
        bool_len,
    ) && (match spec_operation_math(y[i].operation) {
        Some((k, lhs, rhs, out)) => spec_input_in_bounds(lhs, int_len, bool_len)
            && spec_input_in_bounds(rhs, int_len, bool_len),
        None => match y[i].operation {
            Operation::Copy { from, .. } => spec_input_in_bounds(from, int_len, bool_len),
            _ => true,
        },
    })) by {
        assert(spec_cond_in_bounds(x[i], int_len, bool_len));
        assert(match spec_operation_math(x[i].operation) {
            Some((k, lhs, rhs, out)) => spec_input_in_bounds(lhs, int_len, bool_len)
                && spec_input_in_bounds(rhs, int_len, bool_len),
            None => match x[i].operation {
                Operation::Copy { from, .. } => spec_input_in_bounds(from, int_len, bool_len),
                _ => true,
            },
        });
    }
    assert forall|i: int| 0 <= i < y.len() implies (match (#[trigger] y[i]).spec_output_register() {
        Some(r) => r.index < int_len && r.index < bool_len,
        None => true,
    }) by {
        assert(match x[i].spec_output_register() {
            Some(r) => r.index < int_len && r.index < bool_len,
            None => true,
        });
    }
    assert forall|i: int| 0 <= i < y.len() implies (#[trigger] y[i]).operation != Operation::Return(
        Action::Allow,
    ) by {
        assert(x[i].operation != Operation::Return(Action::Allow));
    }
}

/// Dead-store replacement keeps a program acceptable.
proof fn lemma_dead_opt_ok(x: Seq<Line>, src: Seq<Line>, int_len: int, bool_len: int)
    requires
        spec_opt_ok(x, int_len, bool_len),
    ensures
        spec_opt_ok(spec_dead_lines(x, src), int_len, bool_len),
{
    lemma_dead_index(x, src);
    let y = spec_dead_lines(x, src);
    assert forall|i: int| 0 <= i < y.len() implies (spec_cond_in_bounds(
        #[trigger] y[i],
        int_len,
        bool_len,
    ) && (match spec_operation_math(y[i].operation) {
        Some((k, lhs, rhs, out)) => spec_input_in_bounds(lhs, int_len, bool_len)
            && spec_input_in_bounds(rhs, int_len, bool_len),
        None => match y[i].operation {
            Operation::Copy { from, .. } => spec_input_in_bounds(from, int_len, bool_len),
            _ => true,
        },
    })) by {
        assert(spec_cond_in_bounds(x[i], int_len, bool_len));
        assert(match spec_operation_math(x[i].operation) {
            Some((k, lhs, rhs, out)) => spec_input_in_bounds(lhs, int_len, bool_len)
                && spec_input_in_bounds(rhs, int_len, bool_len),
            None => match x[i].operation {
                Operation::Copy { from, .. } => spec_input_in_bounds(from, int_len, bool_len),
                _ => true,
            },
        });
    }
    assert forall|i: int| 0 <= i < y.len() implies (match (#[trigger] y[i]).spec_output_register() {
        Some(r) => r.index < int_len && r.index < bool_len,
        None => true,
    }) by {
        assert(match x[i].spec_output_register() {
            Some(r) => r.index < int_len && r.index < bool_len,
            None => true,
        });
    }
    assert forall|i: int| 0 <= i < y.len() implies (#[trigger] y[i]).operation != Operation::Return(
        Action::Allow,
    ) by {
        assert(x[i].operation != Operation::Return(Action::Allow));
    }
}

/// Truncation keeps a program acceptable.
proof fn lemma_truncate_opt_ok(x: Seq<Line>, int_len: int, bool_len: int)
    requires
        spec_opt_ok(x, int_len, bool_len),
    ensures
        spec_opt_ok(spec_truncate(x), int_len, bool_len),
    decreases x.len(),
{
    if x.len() > 0 {
        let t = x.skip(1);
        assert(forall|i: int| 0 <= i < t.len() ==> t[i] == x[i + 1]);
        lemma_truncate_opt_ok(t, int_len, bool_len);
        if spec_is_uncond_return(x[0]) {
            assert(seq![x[0]][0] == x[0]);
        } else {
            let s2 = seq![x[0]] + spec_truncate(t);
            assert(forall|i: int| 0 < i < s2.len() ==> s2[i] == spec_truncate(t)[i - 1]);
            assert(s2[0] == x[0]);
        }
    } else {
        assert(spec_truncate(x) =~= x);
    }
}

/// Canonicalization keeps a program acceptable.
proof fn lemma_canon_opt_ok(x: Seq<Line>, int_len: int, bool_len: int)
    requires
        spec_opt_ok(x, int_len, bool_len),
    ensures
        spec_opt_ok(spec_canon(x), int_len, bool_len),
{
    lemma_canon_index(x);
    let y = spec_canon(x);
    assert forall|i: int| 0 <= i < y.len() implies (spec_cond_in_bounds(
        #[trigger] y[i],
        int_len,
        bool_len,
    ) && (match spec_operation_math(y[i].operation) {
        Some((k, lhs, rhs, out)) => spec_input_in_bounds(lhs, int_len, bool_len)
            && spec_input_in_bounds(rhs, int_len, bool_len),
        None => match y[i].operation {
            Operation::Copy { from, .. } => spec_input_in_bounds(from, int_len, bool_len),
            _ => true,
        },
    })) by {
        assert(spec_cond_in_bounds(x[i], int_len, bool_len));
        assert(match spec_operation_math(x[i].operation) {
            Some((k, lhs, rhs, out)) => spec_input_in_bounds(lhs, int_len, bool_len)
                && spec_input_in_bounds(rhs, int_len, bool_len),
            None => match x[i].operation {
                Operation::Copy { from, .. } => spec_input_in_bounds(from, int_len, bool_len),
                _ => true,
            },
        });
    }
    assert forall|i: int| 0 <= i < y.len() implies (match (#[trigger] y[i]).spec_output_register() {
        Some(r) => r.index < int_len && r.index < bool_len,
        None => true,
    }) by {
        assert(match x[i].spec_output_register() {
            Some(r) => r.index < int_len && r.index < bool_len,
            None => true,
        });
    }
    assert forall|i: int| 0 <= i < y.len() implies (#[trigger] y[i]).operation != Operation::Return(
        Action::Allow,
    ) by {
        assert(x[i].operation != Operation::Return(Action::Allow));
    }
}

/// Whether every register of both banks holds its zero value.
pub open spec fn spec_regs_zeroed(regs: RegistersModel) -> bool {
    &&& forall|i: int| 0 <= i < regs.int.len() ==> regs.int[i] == 0
    &&& forall|i: int| 0 <= i < regs.bool.len() ==> !regs.bool[i]
}

/// One round of the optimizer preserves behavior: from zeroed banks under
/// relaxed typing, with the error default on, an acceptable program's run
/// yields the same action or error after the round.
proof fn lemma_round_preserves_run(x: Seq<Line>, p: PacketModel, regs: RegistersModel, fields: EnvFields)
    requires
        regs.relax_register_types == true,
        spec_regs_zeroed(regs),
        spec_opt_ok(x, regs.int.len() as int, regs.bool.len() as int),
    ensures
        spec_program_run(spec_round(x), p, regs, fields, true).1 == spec_program_run(
            x,
            p,
            regs,
            fields,
            true,
        ).1,
{
    let il = regs.int.len() as int;
    let bl = regs.bool.len() as int;
    let s1 = spec_strip_noops(x);
    let s2 = spec_simplify(s1);
    let s3 = spec_strip_noops(s2);
    let s4 = spec_fix_lines(s3, s3);
    let s5 = spec_dead_lines(s4, s4);
    let s6 = spec_strip_noops(s5);
    lemma_strip_opt_ok(x, il, bl);
    lemma_simplify_opt_ok(s1, il, bl);
    lemma_strip_opt_ok(s2, il, bl);
    lemma_fix_opt_ok(s3, s3, il, bl);
    lemma_dead_opt_ok(s4, s4, il, bl);
    lemma_strip_opt_ok(s5, il, bl);
    lemma_strip_noops_preserves_run(x, p, regs, fields);
    lemma_simplify_preserves_run(s1, p, regs, fields, true);
    lemma_strip_noops_preserves_run(s2, p, regs, fields);
    assert(spec_unwritten_zeroed(s3, regs));
    lemma_fix_self_preserves_run(s3, p, regs, fields, true);
    lemma_dead_self_preserves_run(s4, p, regs, fields);
    lemma_strip_noops_preserves_run(s5, p, regs, fields);
    assert(forall|i: int|
        0 <= i < s6.len() ==> !spec_is_uncond_default_return(#[trigger] s6[i]));
    lemma_truncate_preserves_run(s6, p, regs, fields, true);
}

/// The optimizer preserves behavior: from zeroed banks under relaxed
/// typing, with the error default on, an acceptable program's run yields
/// the same action or error after optimization.
pub proof fn lemma_optimise_preserves_run(
    x: Seq<Line>,
    p: PacketModel,
    regs: RegistersModel,
    fields: EnvFields,
)
    requires
        regs.relax_register_types == true,
        spec_regs_zeroed(regs),
        spec_opt_ok(x, regs.int.len() as int, regs.bool.len() as int),
    ensures
        spec_program_run(spec_optimise(x), p, regs, fields, true).1 == spec_program_run(
            x,
            p,
            regs,
            fields,
            true,
        ).1,
    decreases spec_weight(x),
{
    let il = regs.int.len() as int;
    let bl = regs.bool.len() as int;
    lemma_weight_nonneg(x);
    if spec_round(x) == x {
        assert(forall|i: int|
            0 <= i < x.len() ==> spec_cond_in_bounds(#[trigger] x[i], il, bl));
        lemma_canon_preserves_run(x, p, regs, fields);
    } else {
        let s1 = spec_strip_noops(x);
        let s2 = spec_simplify(s1);
        let s3 = spec_strip_noops(s2);
        let s4 = spec_fix_lines(s3, s3);
        let s5 = spec_dead_lines(s4, s4);
        let s6 = spec_strip_noops(s5);
        lemma_strip_opt_ok(x, il, bl);
        lemma_simplify_opt_ok(s1, il, bl);
        lemma_strip_opt_ok(s2, il, bl);
        lemma_fix_opt_ok(s3, s3, il, bl);
        lemma_dead_opt_ok(s4, s4, il, bl);
        lemma_strip_opt_ok(s5, il, bl);
        lemma_truncate_opt_ok(s6, il, bl);
        lemma_round_preserves_run(x, p, regs, fields);
        lemma_round_weight(x);
        lemma_weight_nonneg(spec_round(x));
        lemma_optimise_preserves_run(spec_round(x), p, regs, fields);
    }
}

} // verus!
