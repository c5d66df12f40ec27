//! Aggregation of per-component health reports: each registered
//! component is pinged in order, and the first failure decides the
//! overall verdict.

use vstd::prelude::*;
use vstd::string::*;

verus! {

/// What pinging one component yielded.
#[derive(Debug)]
pub enum PingOutcome {
    /// The component answered that it is healthy.
    Healthy,
    /// The component answered that it is unhealthy, with its reason.
    Unhealthy(String),
    /// The component could not be reached at all.
    Unreachable,
}

/// Mathematical model of a [`PingOutcome`].
pub enum PingOutcomeView {
    Healthy,
    Unhealthy(Seq<char>),
    Unreachable,
}

impl View for PingOutcome {
    type V = PingOutcomeView;

    open spec fn view(&self) -> PingOutcomeView {
        match self {
            PingOutcome::Healthy => PingOutcomeView::Healthy,
            PingOutcome::Unhealthy(err) => PingOutcomeView::Unhealthy(err@),
            PingOutcome::Unreachable => PingOutcomeView::Unreachable,
        }
    }
}

/// The verdict of one health query.
#[derive(Debug)]
pub enum HealthVerdict {
    /// Every component answered healthy.
    AllHealthy,
    /// A component answered unhealthy; the message names it.
    ComponentUnhealthy(String),
    /// A component could not be reached: the service itself is broken.
    Fatal,
}

/// Mathematical model of a [`HealthVerdict`].
pub enum HealthVerdictView {
    AllHealthy,
    ComponentUnhealthy(Seq<char>),
    Fatal,
}

impl View for HealthVerdict {
    type V = HealthVerdictView;

    open spec fn view(&self) -> HealthVerdictView {
        match self {
            HealthVerdict::AllHealthy => HealthVerdictView::AllHealthy,
            HealthVerdict::ComponentUnhealthy(m) => HealthVerdictView::ComponentUnhealthy(m@),
            HealthVerdict::Fatal => HealthVerdictView::Fatal,
        }
    }
}

/// The message reported for the first unhealthy component.
pub open spec fn spec_unhealthy_message(name: Seq<char>, err: Seq<char>) -> Seq<char> {
    "component `"@ + name + "` is unhealthy: "@ + err
}

/// The verdict over the pings, in registration order: the first
/// unreachable component is fatal, the first unhealthy one names
/// itself, and a clean pass is healthy.
pub open spec fn spec_health_verdict(pings: Seq<(Seq<char>, PingOutcomeView)>) -> HealthVerdictView
    decreases pings.len(),
{
    if pings.len() == 0 {
        HealthVerdictView::AllHealthy
    } else {
        match pings[0].1 {
            PingOutcomeView::Unreachable => HealthVerdictView::Fatal,
            PingOutcomeView::Unhealthy(err) => HealthVerdictView::ComponentUnhealthy(
                spec_unhealthy_message(pings[0].0, err),
            ),
            PingOutcomeView::Healthy => spec_health_verdict(pings.skip(1)),
        }
    }
}

/// Law: when every component answers healthy, the verdict is healthy.
pub proof fn lemma_all_healthy(pings: Seq<(Seq<char>, PingOutcomeView)>)
    requires
        forall|i: int| 0 <= i < pings.len() ==> pings[i].1 is Healthy,
    ensures
        spec_health_verdict(pings) is AllHealthy,
    decreases pings.len(),
{
    if pings.len() > 0 {
        assert(forall|i: int|
            0 <= i < pings.skip(1).len() ==> #[trigger] pings.skip(1)[i] == pings[i + 1]);
        lemma_all_healthy(pings.skip(1));
    }
}

/// The view of a ping list.
pub open spec fn spec_pings_view(pings: Seq<(String, PingOutcome)>) -> Seq<
    (Seq<char>, PingOutcomeView),
> {
    pings.map_values(|p: (String, PingOutcome)| (p.0@, p.1@))
}

/// Serves one health query from the named ping outcomes, gathered in
/// registration order.
pub fn evaluate_health(pings: &Vec<(String, PingOutcome)>) -> (r: HealthVerdict)
    ensures
        r@ == spec_health_verdict(spec_pings_view(pings@)),
{
    let ghost pv = spec_pings_view(pings@);
    let n = pings.len();
    let mut i: usize = 0;
    proof {
        assert(pv.skip(0) =~= pv);
    }
    while i < n
        invariant
            n == pings.len(),
            i <= n,
            pv == spec_pings_view(pings@),
            spec_health_verdict(pv) == spec_health_verdict(pv.skip(i as int)),
        decreases n - i,
    {
        proof {
            assert(pv.skip(i as int)[0] == pv[i as int]);
            assert(pv.skip(i as int).skip(1) =~= pv.skip(i as int + 1));
        }
        match &pings[i].1 {
            PingOutcome::Healthy => {},
            PingOutcome::Unhealthy(err) => {
                let mut message = String::new();
                message.append("component `");
                message.append(pings[i].0.as_str());
                message.append("` is unhealthy: ");
                message.append(err.as_str());
                proof {
                    assert(message@ =~= spec_unhealthy_message(pv[i as int].0, err@));
                }
                return HealthVerdict::ComponentUnhealthy(message);
            },
            PingOutcome::Unreachable => {
                return HealthVerdict::Fatal;
            },
        }
        i += 1;
    }
    proof {
        assert(pv.skip(n as int) =~= Seq::<(Seq<char>, PingOutcomeView)>::empty());
    }
    HealthVerdict::AllHealthy
}

} // verus!
