//! Managing addons of a project.

use vstd::prelude::*;
use vstd::string::StringExecFns;

verus! {

/// List the addons of a project.
pub struct AddonListSubcommand {}

impl AddonListSubcommand {
    /// What this subcommand is called.
    pub fn name(&self) -> (r: String)
        ensures
            r@ == "list addons"@,
    {
        String::from_str("list addons")
    }
}

/// Disable an addon of a project.
pub struct AddonDisableSubcommand {}

impl AddonDisableSubcommand {
    /// What this subcommand is called.
    pub fn name(&self) -> (r: String)
        ensures
            r@ == "disable addon"@,
    {
        String::from_str("disable addon")
    }
}

/// What the kafka-flavoured configure subcommands share: the project and
/// the bootstrap server to configure.
pub struct KafkaCommandConfig {
    /// The project name.
    pub project_name: String,
    /// The bootstrap server address.
    pub bootstrap_server: String,
}

/// Configure the Apache Kafka addon.
pub struct AddonConfigureKafkaSubcommand {
    /// The project and bootstrap server to configure.
    pub config: KafkaCommandConfig,
}

impl AddonConfigureKafkaSubcommand {
    /// What this subcommand is called.
    pub fn name(&self) -> (r: String)
        ensures
            r@ == "configure kafka addon"@,
    {
        String::from_str("configure kafka addon")
    }
}

/// Configure the Okta addon.
pub struct AddonConfigureOktaSubcommand {}

impl AddonConfigureOktaSubcommand {
    /// What this subcommand is called.
    pub fn name(&self) -> (r: String)
        ensures
            r@ == "configure okta addon"@,
    {
        String::from_str("configure okta addon")
    }
}

/// Configure the InfluxDB addon.
pub struct AddonConfigureInfluxdbSubcommand {}

impl AddonConfigureInfluxdbSubcommand {
    /// What this subcommand is called.
    pub fn name(&self) -> (r: String)
        ensures
            r@ == "configure influxdb addon"@,
    {
        String::from_str("configure influxdb addon")
    }
}

/// Configure the Confluent addon.
pub struct AddonConfigureConfluentSubcommand {
    /// The project and bootstrap server to configure.
    pub config: KafkaCommandConfig,
}

impl AddonConfigureConfluentSubcommand {
    /// What this subcommand is called.
    pub fn name(&self) -> (r: String)
        ensures
            r@ == "configure confluent addon"@,
    {
        String::from_str("configure confluent addon")
    }
}

/// Configure the Instaclustr addon.
pub struct AddonConfigureInstaclustrSubcommand {
    /// The project and bootstrap server to configure.
    pub config: KafkaCommandConfig,
}

impl AddonConfigureInstaclustrSubcommand {
    /// What this subcommand is called.
    pub fn name(&self) -> (r: String)
        ensures
            r@ == "configure instaclustr addon"@,
    {
        String::from_str("configure instaclustr addon")
    }
}

/// Configure the Aiven addon.
pub struct AddonConfigureAivenSubcommand {
    /// The project and bootstrap server to configure.
    pub config: KafkaCommandConfig,
}

impl AddonConfigureAivenSubcommand {
    /// What this subcommand is called.
    pub fn name(&self) -> (r: String)
        ensures
            r@ == "configure aiven addon"@,
    {
        String::from_str("configure aiven addon")
    }
}

/// Configure the Redpanda addon.
pub struct AddonConfigureRedpandaSubcommand {
    /// The project and bootstrap server to configure.
    pub config: KafkaCommandConfig,
}

impl AddonConfigureRedpandaSubcommand {
    /// What this subcommand is called.
    pub fn name(&self) -> (r: String)
        ensures
            r@ == "configure redpanda addon"@,
    {
        String::from_str("configure redpanda addon")
    }
}

/// Configure the Warpstream addon.
pub struct AddonConfigureWarpstreamSubcommand {
    /// The project and bootstrap server to configure.
    pub config: KafkaCommandConfig,
}

impl AddonConfigureWarpstreamSubcommand {
    /// What this subcommand is called.
    pub fn name(&self) -> (r: String)
        ensures
            r@ == "configure warpstream addon"@,
    {
        String::from_str("configure warpstream addon")
    }
}

/// Configure an addon for a project.
pub enum ConfigureAddonCommand {
    Okta(AddonConfigureOktaSubcommand),
    Influxdb(AddonConfigureInfluxdbSubcommand),
    Confluent(AddonConfigureConfluentSubcommand),
    InstaclustrKafka(AddonConfigureInstaclustrSubcommand),
    AivenKafka(AddonConfigureAivenSubcommand),
    Redpanda(AddonConfigureRedpandaSubcommand),
    Warpstream(AddonConfigureWarpstreamSubcommand),
    Kafka(AddonConfigureKafkaSubcommand),
}

/// What a configure subcommand is called.
pub open spec fn configure_addon_name(s: &ConfigureAddonCommand) -> Seq<char> {
    match s {
        ConfigureAddonCommand::Okta(_) => "configure okta addon"@,
        ConfigureAddonCommand::Influxdb(_) => "configure influxdb addon"@,
        ConfigureAddonCommand::Confluent(_) => "configure confluent addon"@,
        ConfigureAddonCommand::InstaclustrKafka(_) => "configure instaclustr addon"@,
        ConfigureAddonCommand::AivenKafka(_) => "configure aiven addon"@,
        ConfigureAddonCommand::Redpanda(_) => "configure redpanda addon"@,
        ConfigureAddonCommand::Warpstream(_) => "configure warpstream addon"@,
        ConfigureAddonCommand::Kafka(_) => "configure kafka addon"@,
    }
}

impl ConfigureAddonCommand {
    /// What this subcommand is called.
    pub fn name(&self) -> (r: String)
        ensures
            r@ == configure_addon_name(self),
    {
        match self {
            ConfigureAddonCommand::Okta(c) => c.name(),
            ConfigureAddonCommand::Influxdb(c) => c.name(),
            ConfigureAddonCommand::Confluent(c) => c.name(),
            ConfigureAddonCommand::InstaclustrKafka(c) => c.name(),
            ConfigureAddonCommand::AivenKafka(c) => c.name(),
            ConfigureAddonCommand::Redpanda(c) => c.name(),
            ConfigureAddonCommand::Warpstream(c) => c.name(),
            ConfigureAddonCommand::Kafka(c) => c.name(),
        }
    }
}

/// The addon operations.
pub enum AddonSubcommand {
    List(AddonListSubcommand),
    Disable(AddonDisableSubcommand),
    Configure(ConfigureAddonCommand),
}

/// What an addon subcommand is called.
pub open spec fn addon_subcommand_name(s: &AddonSubcommand) -> Seq<char> {
    match s {
        AddonSubcommand::List(_) => "list addons"@,
        AddonSubcommand::Disable(_) => "disable addon"@,
        AddonSubcommand::Configure(c) => configure_addon_name(c),
    }
}

/// Manage the addons of a project.
pub struct AddonCommand {
    /// The operation asked for.
    pub subcommand: AddonSubcommand,
}

impl AddonCommand {
    /// What this command is called: what its subcommand is.
    pub fn name(&self) -> (r: String)
        ensures
            r@ == addon_subcommand_name(&self.subcommand),
    {
        match &self.subcommand {
            AddonSubcommand::List(c) => c.name(),
            AddonSubcommand::Disable(c) => c.name(),
            AddonSubcommand::Configure(c) => c.name(),
        }
    }
}

} // verus!
