//! The reality map over the engine's integrations: which collaborators run
//! against live services and which are simulated in-process.
use vstd::prelude::*;

verus! {

/// Whether an integration works on live data or simulates it.
#[derive(Clone, Copy, Debug, PartialEq, Eq, Structural)]
pub enum DataReality {
    Real,
    Simulated,
}

/// One integration's reality entry.
pub struct IntegrationReality {
    pub component: String,
    pub reality: DataReality,
    pub description: String,
}

/// The component names of the reality matrix, in presentation order.
pub open spec fn reality_components() -> Seq<Seq<char>> {
    seq!["flywheel"@, "monorepo"@, "kpi"@, "ui"@, "telemetry"@]
}

/// The description shown for each component of the reality matrix, in the
/// same order as the components.
pub open spec fn reality_descriptions() -> Seq<Seq<char>> {
    seq![
        "Search results are mocked locally; no external embeddings or APIs are queried."@,
        "Pull request IDs and CI checks are generated in-memory for demonstration purposes."@,
        "KPI dashboards and planning goals are heuristics derived from hard-coded sample data."@,
        "Dashboard aggregates reuse recent run state and mock analytics instead of live services."@,
        "Telemetry events are stored in-process and not forwarded to any production pipeline."@,
    ]
}

/// The fixed reality map: every integration of this build is simulated,
/// each entry saying so for its component.
pub fn integration_reality_matrix() -> (m: Vec<IntegrationReality>)
    ensures
        m@.len() == reality_components().len(),
        forall|i: int|
            0 <= i < m@.len() ==> m@[i].component@ == reality_components()[i] && m@[i].reality
                == DataReality::Simulated && m@[i].description@ == reality_descriptions()[i],
{
    let mut m: Vec<IntegrationReality> = Vec::new();
    m.push(
        IntegrationReality {
            component: String::from_str("flywheel"),
            reality: DataReality::Simulated,
            description: String::from_str(
                "Search results are mocked locally; no external embeddings or APIs are queried.",
            ),
        },
    );
    m.push(
        IntegrationReality {
            component: String::from_str("monorepo"),
            reality: DataReality::Simulated,
            description: String::from_str(
                "Pull request IDs and CI checks are generated in-memory for demonstration purposes.",
            ),
        },
    );
    m.push(
        IntegrationReality {
            component: String::from_str("kpi"),
            reality: DataReality::Simulated,
            description: String::from_str(
                "KPI dashboards and planning goals are heuristics derived from hard-coded sample data.",
            ),
        },
    );
    m.push(
        IntegrationReality {
            component: String::from_str("ui"),
            reality: DataReality::Simulated,
            description: String::from_str(
                "Dashboard aggregates reuse recent run state and mock analytics instead of live services.",
            ),
        },
    );
    m.push(
        IntegrationReality {
            component: String::from_str("telemetry"),
            reality: DataReality::Simulated,
            description: String::from_str(
                "Telemetry events are stored in-process and not forwarded to any production pipeline.",
            ),
        },
    );
    assert(m@.len() == reality_components().len());
    m
}

} // verus!
