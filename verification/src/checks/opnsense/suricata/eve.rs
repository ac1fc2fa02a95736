//! Suricata EVE events: which ones matter, whether they were blocked, and
//! the one-line summaries that the check reports.
use vstd::prelude::*;

use crate::text::{append_chars, append_str, chars_of, decimal, decimal_u64, string_of};

verus! {

/// The `event_type` of an EVE record.
#[derive(Debug, Copy, Clone, PartialEq, Eq, Structural)]
pub enum EventType {
    Alert,
    Drop,
    Other,
}

impl Default for EventType {
    fn default() -> (r: Self)
        ensures
            r == EventType::Other,
    {
        EventType::Other
    }
}

pub open spec fn event_type_text(t: EventType) -> Seq<char> {
    match t {
        EventType::Alert => seq!['a', 'l', 'e', 'r', 't'],
        EventType::Drop => seq!['d', 'r', 'o', 'p'],
        EventType::Other => seq!['e', 'v', 'e', 'n', 't'],
    }
}

impl EventType {
    pub fn as_str(&self) -> (r: &'static str)
        ensures
            r@ == event_type_text(*self),
    {
        proof {
            reveal_strlit("alert");
            reveal_strlit("drop");
            reveal_strlit("event");
        }
        match self {
            EventType::Alert => "alert",
            EventType::Drop => "drop",
            EventType::Other => "event",
        }
    }
}

/// The action an alert reports.
#[derive(Debug, Copy, Clone, PartialEq, Eq, Structural)]
pub enum EveAction {
    Allowed,
    Blocked,
    Other,
}

/// The action of a verdict.
#[derive(Debug, Copy, Clone, PartialEq, Eq, Structural)]
pub enum VerdictAction {
    Alert,
    Pass,
    Drop,
    Other,
}

pub struct EveAlert {
    pub action: Option<EveAction>,
    pub signature_id: Option<u64>,
    pub signature: Option<String>,
    pub category: Option<String>,
    pub severity: Option<u8>,
}

pub struct EveVerdict {
    pub action: Option<VerdictAction>,
}

pub struct EveEvent {
    pub timestamp: Option<String>,
    pub flow_id: Option<u64>,
    pub event_type: EventType,
    pub in_iface: Option<String>,
    pub src_ip: Option<String>,
    pub src_port: Option<u16>,
    pub dest_ip: Option<String>,
    pub dest_port: Option<u16>,
    pub proto: Option<String>,
    pub alert: Option<EveAlert>,
    pub verdict: Option<EveVerdict>,
}

/// The summary of one event and whether it was blocked.
pub struct EventSummary {
    pub blocked: bool,
    pub text: String,
}

pub open spec fn opt_text(o: Option<String>) -> Option<Seq<char>> {
    match o {
        Some(s) => Some(s@),
        None => None,
    }
}

/// `sid <id> <signature>` (or just the signature), then ` / <category>` and
/// ` sev <severity>` when the alert has them.
pub open spec fn signature_summary_spec(a: EveAlert) -> Seq<char> {
    let signature = match a.signature {
        Some(s) => s@,
        None => "unknown signature"@,
    };
    let base = match a.signature_id {
        Some(id) => seq!['s', 'i', 'd', ' '] + decimal(id as nat) + seq![' '] + signature,
        None => signature,
    };
    let with_category = match a.category {
        Some(c) => base + seq![' ', '/', ' '] + c@,
        None => base,
    };
    match a.severity {
        Some(sev) => with_category + seq![' ', 's', 'e', 'v', ' '] + decimal(sev as nat),
        None => with_category,
    }
}

/// Alerts and drops are the events the check reports.
pub open spec fn is_interesting_spec(e: EveEvent) -> bool {
    e.event_type == EventType::Alert || e.event_type == EventType::Drop
}

/// An event was blocked when it is a drop, its alert says blocked, or its
/// verdict says drop.
pub open spec fn is_blocked_spec(e: EveEvent) -> bool {
    ||| e.event_type == EventType::Drop
    ||| (e.alert matches Some(a) && a.action == Some(EveAction::Blocked))
    ||| (e.verdict matches Some(v) && v.action == Some(VerdictAction::Drop))
}

/// `ip:port`, or just `ip`, when there is an address.
pub open spec fn endpoint_spec(ip: Option<String>, port: Option<u16>) -> Option<Seq<char>> {
    match ip {
        Some(ip) => match port {
            Some(p) => Some(ip@ + seq![':'] + decimal(p as nat)),
            None => Some(ip@),
        },
        None => None,
    }
}

/// `source -> destination [proto]` when both ends are known, else nothing.
pub open spec fn endpoint_summary_spec(e: EveEvent) -> Seq<char> {
    match (endpoint_spec(e.src_ip, e.src_port), endpoint_spec(e.dest_ip, e.dest_port)) {
        (Some(s), Some(d)) => match e.proto {
            Some(p) => s + seq![' ', '-', '>', ' '] + d + seq![' '] + p@,
            None => s + seq![' ', '-', '>', ' '] + d,
        },
        _ => Seq::empty(),
    }
}

/// `[timestamp ]blocked|allowed signature[ on iface] endpoints`.
pub open spec fn summary_spec(e: EveEvent) -> Seq<char> {
    let action = if is_blocked_spec(e) {
        "blocked"@
    } else {
        "allowed"@
    };
    let signature = match e.alert {
        Some(a) => signature_summary_spec(a),
        None => event_type_text(e.event_type),
    };
    let endpoint = endpoint_summary_spec(e);
    let head = match e.timestamp {
        Some(t) => t@ + seq![' '] + action,
        None => action,
    };
    let iface = match e.in_iface {
        Some(i) => seq![' ', 'o', 'n', ' '] + i@,
        None => Seq::empty(),
    };
    head + seq![' '] + signature + iface + seq![' '] + endpoint
}

impl EveAlert {
    pub fn signature_summary(&self) -> (r: String)
        ensures
            r@ == signature_summary_spec(*self),
    {
        let signature: Vec<char> = match &self.signature {
            Some(s) => chars_of(s.as_str()),
            None => chars_of("unknown signature"),
        };
        let mut summary: Vec<char> = match self.signature_id {
            Some(id) => {
                let mut v = chars_of("sid ");
                append_chars(&mut v, decimal_u64(id).as_slice());
                v.push(' ');
                append_chars(&mut v, signature.as_slice());
                proof {
                    reveal_strlit("sid ");
                    assert(("sid ")@ =~= seq!['s', 'i', 'd', ' ']);
                }
                v
            },
            None => signature,
        };
        if let Some(category) = &self.category {
            append_str(&mut summary, " / ");
            append_str(&mut summary, category.as_str());
            proof {
                reveal_strlit(" / ");
                assert((" / ")@ =~= seq![' ', '/', ' ']);
            }
        }
        if let Some(severity) = self.severity {
            append_str(&mut summary, " sev ");
            append_chars(&mut summary, decimal_u64(severity as u64).as_slice());
            proof {
                reveal_strlit(" sev ");
                assert((" sev ")@ =~= seq![' ', 's', 'e', 'v', ' ']);
            }
        }
        proof {
            assert(summary@ =~= signature_summary_spec(*self));
        }
        string_of(summary.as_slice())
    }
}

/// `ip:port`, or just `ip`, when there is an address.
pub fn format_endpoint(ip: &Option<String>, port: Option<u16>) -> (r: Option<String>)
    ensures
        r matches Some(s) ==> endpoint_spec(*ip, port) == Some(s@),
        r is None ==> endpoint_spec(*ip, port) is None,
{
    match ip {
        Some(ip) => match port {
            Some(p) => {
                let mut v = chars_of(ip.as_str());
                v.push(':');
                append_chars(&mut v, decimal_u64(p as u64).as_slice());
                Some(string_of(v.as_slice()))
            },
            None => Some(ip.clone()),
        },
        None => None,
    }
}

impl EveEvent {
    pub fn is_interesting(&self) -> (r: bool)
        ensures
            r == is_interesting_spec(*self),
    {
        match self.event_type {
            EventType::Alert | EventType::Drop => true,
            EventType::Other => false,
        }
    }

    pub fn is_blocked(&self) -> (r: bool)
        ensures
            r == is_blocked_spec(*self),
    {
        let dropped = match self.event_type {
            EventType::Drop => true,
            _ => false,
        };
        let alert_blocked = match &self.alert {
            Some(a) => match a.action {
                Some(EveAction::Blocked) => true,
                _ => false,
            },
            None => false,
        };
        let verdict_drop = match &self.verdict {
            Some(v) => match v.action {
                Some(VerdictAction::Drop) => true,
                _ => false,
            },
            None => false,
        };
        dropped || alert_blocked || verdict_drop
    }

    pub fn endpoint_summary(&self) -> (r: String)
        ensures
            r@ == endpoint_summary_spec(*self),
    {
        let source = format_endpoint(&self.src_ip, self.src_port);
        let destination = format_endpoint(&self.dest_ip, self.dest_port);
        match (source, destination) {
            (Some(s), Some(d)) => {
                let mut v = chars_of(s.as_str());
                append_str(&mut v, " -> ");
                append_str(&mut v, d.as_str());
                if let Some(p) = &self.proto {
                    v.push(' ');
                    append_str(&mut v, p.as_str());
                }
                proof {
                    reveal_strlit(" -> ");
                    assert((" -> ")@ =~= seq![' ', '-', '>', ' ']);
                    assert(v@ =~= endpoint_summary_spec(*self));
                }
                string_of(v.as_slice())
            },
            _ => String::new(),
        }
    }

    pub fn summary(&self) -> (r: String)
        ensures
            r@ == summary_spec(*self),
    {
        let action = if self.is_blocked() {
            "blocked"
        } else {
            "allowed"
        };
        let signature = match &self.alert {
            Some(a) => a.signature_summary(),
            None => self.event_type.as_str().to_owned(),
        };
        let endpoint = self.endpoint_summary();
        let mut v: Vec<char> = Vec::new();
        if let Some(t) = &self.timestamp {
            append_str(&mut v, t.as_str());
            v.push(' ');
        }
        append_str(&mut v, action);
        v.push(' ');
        append_str(&mut v, signature.as_str());
        if let Some(i) = &self.in_iface {
            append_str(&mut v, " on ");
            append_str(&mut v, i.as_str());
            proof {
                reveal_strlit(" on ");
                assert((" on ")@ =~= seq![' ', 'o', 'n', ' ']);
            }
        }
        v.push(' ');
        append_str(&mut v, endpoint.as_str());
        proof {
            assert(v@ =~= summary_spec(*self));
        }
        string_of(v.as_slice())
    }
}

} // verus!
