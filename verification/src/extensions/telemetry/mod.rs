//! Tracing telemetry: which exporter, under which service name, to which agent.
use vstd::prelude::*;

verus! {

/// Where spans are exported.
#[derive(Debug, Clone, Copy, PartialEq, Eq, Structural)]
pub enum TelemetryProvider {
    /// No exporter (`none` in config files).
    Off,
    Datadog,
    Jaeger,
}

#[derive(Debug, Clone)]
pub struct TelemetryConfig {
    pub provider: TelemetryProvider,
    pub service_name: Option<String>,
    pub agent_endpoint: Option<String>,
}

/// The exporter to set up.
#[derive(Debug)]
pub struct TelemetryPlan {
    pub provider: TelemetryProvider,
    pub service_name: String,
    pub agent_endpoint: Option<String>,
}

/// The exporter that a configuration asks for: none for the provider `Off`; else
/// the configured service name (`subway` by default) and agent. For Datadog the agent
/// given by the environment (`DATADOG_AGENT_ENDPOINT`, passed in as
/// `datadog_env_endpoint`) comes before the configured one.
pub fn telemetry_plan(config: &TelemetryConfig, datadog_env_endpoint: Option<String>) -> (p: Option<TelemetryPlan>)
    ensures
        config.provider == TelemetryProvider::Off ==> p is None,
        config.provider != TelemetryProvider::Off ==> (p matches Some(plan)
            && plan.provider == config.provider
            && plan.service_name@ == match config.service_name { Some(s) => s@, None => "subway"@ }
            && plan.agent_endpoint == if config.provider == TelemetryProvider::Datadog && datadog_env_endpoint is Some {
                datadog_env_endpoint
            } else {
                config.agent_endpoint
            }),
{
    let service_name = match &config.service_name {
        Some(s) => s.clone(),
        None => String::from_str("subway"),
    };
    match config.provider {
        TelemetryProvider::Off => None,
        TelemetryProvider::Jaeger => Some(TelemetryPlan {
            provider: TelemetryProvider::Jaeger,
            service_name,
            agent_endpoint: config.agent_endpoint.clone(),
        }),
        TelemetryProvider::Datadog => {
            let agent_endpoint = match datadog_env_endpoint {
                Some(e) => Some(e),
                None => config.agent_endpoint.clone(),
            };
            Some(TelemetryPlan { provider: TelemetryProvider::Datadog, service_name, agent_endpoint })
        },
    }
}

} // verus!
