//! Gateway health from `configctl interface gateways status`.
use vstd::prelude::*;

use crate::plugin::output::{LocalSection, LocalState, RowView};
use crate::text::{append_str, chars_of, eq_str, string_of};

verus! {

/// The gateway check.
pub struct Gateway;

impl Gateway {
    pub fn name(&self) -> (r: &'static str)
        ensures
            r@ == "gateway"@,
    {
        "gateway"
    }
}

/// A gateway's status as dpinger reports it.
#[derive(Debug, Clone, Copy, PartialEq, Eq, Structural)]
pub enum GatewayStatus {
    Online,
    OfflineForced,
    Offline,
    Latency,
    PacketLoss,
    LatencyAndPacketLoss,
    Pending,
}

/// The status a report code stands for; unknown codes are pending.
pub open spec fn status_of_code(code: Seq<char>) -> GatewayStatus {
    if code == "none"@ {
        GatewayStatus::Online
    } else if code == "force_down"@ {
        GatewayStatus::OfflineForced
    } else if code == "down"@ {
        GatewayStatus::Offline
    } else if code == "delay"@ {
        GatewayStatus::Latency
    } else if code == "loss"@ {
        GatewayStatus::PacketLoss
    } else if code == "delay+loss"@ {
        GatewayStatus::LatencyAndPacketLoss
    } else {
        GatewayStatus::Pending
    }
}

/// The state a status maps to: online is fine; forced down, latency or loss
/// warn; down, or latency with loss, is critical; pending is unknown.
pub open spec fn status_state(s: GatewayStatus) -> LocalState {
    match s {
        GatewayStatus::Online => LocalState::Okay,
        GatewayStatus::OfflineForced | GatewayStatus::Latency | GatewayStatus::PacketLoss => LocalState::Warn,
        GatewayStatus::Offline | GatewayStatus::LatencyAndPacketLoss => LocalState::Crit,
        GatewayStatus::Pending => LocalState::Unknown,
    }
}

pub open spec fn status_name(s: GatewayStatus) -> Seq<char> {
    match s {
        GatewayStatus::Online => "Online"@,
        GatewayStatus::OfflineForced => "OfflineForced"@,
        GatewayStatus::Offline => "Offline"@,
        GatewayStatus::Latency => "Latency"@,
        GatewayStatus::PacketLoss => "PacketLoss"@,
        GatewayStatus::LatencyAndPacketLoss => "LatencyAndPacketLoss"@,
        GatewayStatus::Pending => "Pending"@,
    }
}

/// The report code a status is written as, the way the status script
/// spells it.
pub open spec fn status_code(s: GatewayStatus) -> Option<Seq<char>> {
    match s {
        GatewayStatus::Online => Some("none"@),
        GatewayStatus::OfflineForced => Some("force_down"@),
        GatewayStatus::Offline => Some("down"@),
        GatewayStatus::Latency => Some("delay"@),
        GatewayStatus::PacketLoss => Some("loss"@),
        GatewayStatus::LatencyAndPacketLoss => Some("delay+loss"@),
        GatewayStatus::Pending => None,
    }
}

/// Reading a report code and spelling the status back gives the code again,
/// for every known code, and unknown codes are pending; and the state of
/// a gateway follows its code: OK only for `none`, critical exactly for
/// `down` and `delay+loss`, a warning for `force_down`, `delay` and `loss`,
/// unknown otherwise. So `down` and `force_down` never meet.
pub proof fn lemma_codes_round_trip(code: Seq<char>)
    ensures
        status_code(status_of_code(code)) matches Some(c) ==> c == code,
        status_code(status_of_code(code)) is None <==> status_of_code(code) == GatewayStatus::Pending,
        status_state(status_of_code(code)) == LocalState::Okay <==> code == "none"@,
        status_state(status_of_code(code)) == LocalState::Crit <==> (code == "down"@ || code
            == "delay+loss"@),
        status_state(status_of_code(code)) == LocalState::Warn <==> (code == "force_down"@ || code
            == "delay"@ || code == "loss"@),
{
    reveal_strlit("none");
    reveal_strlit("force_down");
    reveal_strlit("down");
    reveal_strlit("delay");
    reveal_strlit("loss");
    reveal_strlit("delay+loss");
    assert("none"@[0] != "down"@[0] && "none"@[0] != "loss"@[0] && "down"@[0] != "loss"@[0]);
    assert("force_down"@[0] != "delay+loss"@[0]);
    assert("none"@ != "down"@ && "none"@ != "loss"@ && "down"@ != "loss"@);
    assert("force_down"@ != "delay+loss"@);
    assert("delay"@.len() != "none"@.len() && "delay"@.len() != "force_down"@.len());
}

impl GatewayStatus {
    /// The status for a report code.
    pub fn from_code(code: &str) -> (r: Self)
        ensures
            r == status_of_code(code@),
    {
        let c = chars_of(code);
        let s = c.as_slice();
        if eq_str(s, "none") {
            GatewayStatus::Online
        } else if eq_str(s, "force_down") {
            GatewayStatus::OfflineForced
        } else if eq_str(s, "down") {
            GatewayStatus::Offline
        } else if eq_str(s, "delay") {
            GatewayStatus::Latency
        } else if eq_str(s, "loss") {
            GatewayStatus::PacketLoss
        } else if eq_str(s, "delay+loss") {
            GatewayStatus::LatencyAndPacketLoss
        } else {
            GatewayStatus::Pending
        }
    }

    /// The status's name, as the summary shows it.
    pub fn name(self) -> (r: &'static str)
        ensures
            r@ == status_name(self),
    {
        match self {
            GatewayStatus::Online => "Online",
            GatewayStatus::OfflineForced => "OfflineForced",
            GatewayStatus::Offline => "Offline",
            GatewayStatus::Latency => "Latency",
            GatewayStatus::PacketLoss => "PacketLoss",
            GatewayStatus::LatencyAndPacketLoss => "LatencyAndPacketLoss",
            GatewayStatus::Pending => "Pending",
        }
    }

    pub fn local_state(self) -> (r: LocalState)
        ensures
            r == status_state(self),
    {
        match self {
            GatewayStatus::Online => LocalState::Okay,
            GatewayStatus::OfflineForced | GatewayStatus::Latency | GatewayStatus::PacketLoss => LocalState::Warn,
            GatewayStatus::Offline | GatewayStatus::LatencyAndPacketLoss => LocalState::Crit,
            GatewayStatus::Pending => LocalState::Unknown,
        }
    }
}

impl From<GatewayStatus> for LocalState {
    fn from(value: GatewayStatus) -> (r: Self) {
        value.local_state()
    }
}

impl vstd::std_specs::convert::FromSpecImpl<GatewayStatus> for LocalState {
    open spec fn obeys_from_spec() -> bool {
        true
    }

    open spec fn from_spec(v: GatewayStatus) -> LocalState {
        status_state(v)
    }
}

/// The row of a gateway; `delay` and `stddev` are milliseconds and `loss`
/// the packet loss, written out.
pub open spec fn gateway_row(
    name: Seq<char>,
    status: GatewayStatus,
    address: Seq<char>,
    delay: Seq<char>,
    stddev: Seq<char>,
    loss: Seq<char>,
) -> RowView {
    RowView {
        state: status_state(status),
        service: "Gateway "@ + name,
        metrics: seq![("rtt"@, delay + "ms"@), ("rttsd"@, stddev + "ms"@), ("loss"@, loss)],
        summary: status_name(status) + " -> "@ + address + ", RTT "@ + delay + "ms"@,
    }
}

pub fn write_gateway(
    out: &mut LocalSection,
    name: &str,
    status: GatewayStatus,
    address: &str,
    delay: &str,
    stddev: &str,
    loss: &str,
)
    ensures
        final(out)@ == old(out)@.push(gateway_row(name@, status, address@, delay@, stddev@, loss@)),
{
    let mut service = chars_of("Gateway ");
    append_str(&mut service, name);
    let mut summary = chars_of(status.name());
    append_str(&mut summary, " -> ");
    append_str(&mut summary, address);
    append_str(&mut summary, ", RTT ");
    append_str(&mut summary, delay);
    append_str(&mut summary, "ms");
    let mut rtt = chars_of(delay);
    append_str(&mut rtt, "ms");
    let mut rttsd = chars_of(stddev);
    append_str(&mut rttsd, "ms");
    let sv = string_of(service.as_slice());
    let smv = string_of(summary.as_slice());
    let rv = string_of(rtt.as_slice());
    let dv = string_of(rttsd.as_slice());
    out.row(LocalState::from(status), sv.as_str(), smv.as_str()).with_metric("rtt", rv.as_str()).with_metric(
        "rttsd",
        dv.as_str(),
    ).with_metric("loss", loss);
    proof {
        let row = gateway_row(name@, status, address@, delay@, stddev@, loss@);
        assert(out@.last().metrics =~= row.metrics);
        assert(out@.last().service =~= row.service);
        assert(out@.last().summary =~= row.summary);
        assert(out@ =~= old(out)@.push(row));
    }
}

} // verus!
