//! The firewall tap: the rule text that sends traffic to the two queues.
//! The comment in the rule is load-bearing: a restart finds and removes a
//! prior instance by it, so it must be kept verbatim. Installing and
//! removing rules is OS glue and stays outside the verified core.

use vstd::prelude::*;
use vstd::string::StringExecFns;

use crate::text::{spec_decimal, u16_to_string};

verus! {

/// The comment that tags every rule this censor installs.
pub open spec fn spec_rule_comment() -> Seq<char> {
    "CENSORLAB NFQ TAP"@
}

/// The comment that tags every rule this censor installs.
pub fn rule_comment() -> (r: &'static str)
    ensures
        r@ == spec_rule_comment(),
{
    "CENSORLAB NFQ TAP"
}

/// Where the tap intercepts: the table, the two chains, and the two queue
/// numbers.
#[derive(Clone, Debug)]
pub struct IpTablesArgs {
    /// The table to intercept at.
    pub table: String,
    /// The chain for inbound packets.
    pub chain_in: String,
    /// The chain for outbound packets.
    pub chain_out: String,
    /// The queue number for inbound packets.
    pub queue_num_in: u16,
    /// The queue number for outbound packets.
    pub queue_num_out: u16,
}

/// One rule: a table, a chain, and a queue number.
#[derive(Clone, Debug)]
pub struct IpTablesRule {
    pub table: String,
    pub chain: String,
    pub queue_num: u16,
}

/// Why a rule could not be installed.
#[derive(Clone, Copy, Debug, PartialEq, Eq, Structural)]
pub enum IpTablesError {
    /// The firewall interface failed.
    IpTables,
    /// The chain does not exist in the given table.
    IpTablesChainDoesNotExist,
    /// A conflicting rule was found.
    IpTablesConflictingRule,
}

impl IpTablesArgs {
    /// The rule for inbound packets.
    pub fn rule_inbound(&self) -> (r: IpTablesRule)
        ensures
            r.table@ == self.table@,
            r.chain@ == self.chain_in@,
            r.queue_num == self.queue_num_in,
    {
        IpTablesRule {
            table: self.table.clone(),
            chain: self.chain_in.clone(),
            queue_num: self.queue_num_in,
        }
    }

    /// The rule for outbound packets.
    pub fn rule_outbound(&self) -> (r: IpTablesRule)
        ensures
            r.table@ == self.table@,
            r.chain@ == self.chain_out@,
            r.queue_num == self.queue_num_out,
    {
        IpTablesRule {
            table: self.table.clone(),
            chain: self.chain_out.clone(),
            queue_num: self.queue_num_out,
        }
    }
}

/// The text of a rule: jump to the queue, tagged with the verbatim
/// comment.
pub open spec fn spec_rule_string(queue_num: u16) -> Seq<char> {
    "-j NFQUEUE --queue-num "@ + spec_decimal(queue_num as int)
        + " -m comment --comment \""@ + spec_rule_comment() + "\""@
}

impl IpTablesRule {
    /// Render the rule text.
    pub fn rule_string(&self) -> (r: String)
        ensures
            r@ == spec_rule_string(self.queue_num),
    {
        let mut r = String::from_str("-j NFQUEUE --queue-num ");
        let digits = u16_to_string(self.queue_num);
        r.append(digits.as_str());
        r.append(" -m comment --comment \"");
        r.append(rule_comment());
        r.append("\"");
        r
    }
}

} // verus!
