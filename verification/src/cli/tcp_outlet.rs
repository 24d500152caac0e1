//! Managing TCP outlets.

use vstd::prelude::*;
use vstd::string::StringExecFns;

verus! {

/// Create a TCP outlet.
pub struct CreateCommand {}

impl CreateCommand {
    /// What this command is called.
    pub fn name(&self) -> (r: String)
        ensures
            r@ == "tcp-outlet create"@,
    {
        String::from_str("tcp-outlet create")
    }
}

/// Delete a TCP outlet.
pub struct DeleteCommand {}

impl DeleteCommand {
    /// What this command is called.
    pub fn name(&self) -> (r: String)
        ensures
            r@ == "tcp-outlet delete"@,
    {
        String::from_str("tcp-outlet delete")
    }
}

/// List TCP outlets.
pub struct ListCommand {}

impl ListCommand {
    /// What this command is called.
    pub fn name(&self) -> (r: String)
        ensures
            r@ == "tcp-outlet list"@,
    {
        String::from_str("tcp-outlet list")
    }
}

/// Show a TCP outlet.
pub struct ShowCommand {}

impl ShowCommand {
    /// What this command is called.
    pub fn name(&self) -> (r: String)
        ensures
            r@ == "tcp-outlet show"@,
    {
        String::from_str("tcp-outlet show")
    }
}

/// The outlet operations.
pub enum TcpOutletSubCommand {
    Create(CreateCommand),
    Delete(DeleteCommand),
    List(ListCommand),
    Show(ShowCommand),
}

/// What an outlet subcommand is called.
pub open spec fn outlet_subcommand_name(s: &TcpOutletSubCommand) -> Seq<char> {
    match s {
        TcpOutletSubCommand::Create(_) => "tcp-outlet create"@,
        TcpOutletSubCommand::Delete(_) => "tcp-outlet delete"@,
        TcpOutletSubCommand::List(_) => "tcp-outlet list"@,
        TcpOutletSubCommand::Show(_) => "tcp-outlet show"@,
    }
}

/// Manage TCP outlets.
pub struct TcpOutletCommand {
    /// The operation asked for.
    pub subcommand: TcpOutletSubCommand,
}

impl TcpOutletCommand {
    /// What this command is called: what its subcommand is.
    pub fn name(&self) -> (r: String)
        ensures
            r@ == outlet_subcommand_name(&self.subcommand),
    {
        match &self.subcommand {
            TcpOutletSubCommand::Create(c) => c.name(),
            TcpOutletSubCommand::Delete(c) => c.name(),
            TcpOutletSubCommand::List(c) => c.name(),
            TcpOutletSubCommand::Show(c) => c.name(),
        }
    }
}

} // verus!
