//! Managing policies.

use vstd::prelude::*;
use vstd::string::StringExecFns;

verus! {

/// Create a policy.
pub struct CreateCommand {}

impl CreateCommand {
    /// What this command is called.
    pub fn name(&self) -> (r: String)
        ensures
            r@ == "policy create"@,
    {
        String::from_str("policy create")
    }
}

/// Show a policy.
pub struct ShowCommand {}

impl ShowCommand {
    /// What this command is called.
    pub fn name(&self) -> (r: String)
        ensures
            r@ == "policy show"@,
    {
        String::from_str("policy show")
    }
}

/// Delete a policy.
pub struct DeleteCommand {}

impl DeleteCommand {
    /// What this command is called.
    pub fn name(&self) -> (r: String)
        ensures
            r@ == "policy delete"@,
    {
        String::from_str("policy delete")
    }
}

/// List policies.
pub struct ListCommand {}

impl ListCommand {
    /// What this command is called.
    pub fn name(&self) -> (r: String)
        ensures
            r@ == "policy list"@,
    {
        String::from_str("policy list")
    }
}

/// The policy operations.
pub enum PolicySubcommand {
    Create(CreateCommand),
    Show(ShowCommand),
    Delete(DeleteCommand),
    List(ListCommand),
}

/// What a policy subcommand is called.
pub open spec fn policy_subcommand_name(s: &PolicySubcommand) -> Seq<char> {
    match s {
        PolicySubcommand::Create(_) => "policy create"@,
        PolicySubcommand::Show(_) => "policy show"@,
        PolicySubcommand::Delete(_) => "policy delete"@,
        PolicySubcommand::List(_) => "policy list"@,
    }
}

impl PolicySubcommand {
    /// What this subcommand is called.
    pub fn name(&self) -> (r: String)
        ensures
            r@ == policy_subcommand_name(self),
    {
        match self {
            PolicySubcommand::Create(c) => c.name(),
            PolicySubcommand::Show(c) => c.name(),
            PolicySubcommand::Delete(c) => c.name(),
            PolicySubcommand::List(c) => c.name(),
        }
    }
}

/// Manage policies.
pub struct PolicyCommand {
    /// The operation asked for.
    pub subcommand: PolicySubcommand,
}

impl PolicyCommand {
    /// What this command is called: what its subcommand is.
    pub fn name(&self) -> (r: String)
        ensures
            r@ == policy_subcommand_name(&self.subcommand),
    {
        self.subcommand.name()
    }
}

} // verus!
