use vstd::prelude::*;

use crate::consts::NAT;
use crate::host::{Host, HostView};
use crate::response::{Response, ResponseView};

verus! {

/// Which test discovery waits on.
#[derive(Debug, Clone, Copy, PartialEq, Eq, Structural)]
pub enum Stage {
    /// Test I against the server.
    Test1,
    /// Test II (change IP and port) against the server.
    Test2,
    /// Test I against the server's alternate endpoint.
    ChangedTest1,
    /// Test III (change port) against the server.
    Test3,
    /// A classification was reported.
    Finished,
}

/// What discovery does next: send a test, or report its result.
#[derive(Debug)]
pub enum Step {
    Send { dest: Host, change_ip: bool, change_port: bool },
    Done { kind: NAT, result: Result<Host, String> },
}

/// What a `Step` stands for; a failure's reason is left out.
pub enum StepView {
    Send { dest: HostView, change_ip: bool, change_port: bool },
    Done { kind: NAT, host: Option<HostView> },
}

impl View for Step {
    type V = StepView;

    open spec fn view(&self) -> StepView {
        match self {
            Step::Send { dest, change_ip, change_port } => StepView::Send {
                dest: dest@,
                change_ip: *change_ip,
                change_port: *change_port,
            },
            Step::Done { kind, result } => StepView::Done {
                kind: *kind,
                host: match result {
                    Ok(h) => Some(h@),
                    Err(_) => None,
                },
            },
        }
    }
}

/// The classic RFC 3489 discovery against one server: the tests made so far
/// and what they showed.
#[derive(Debug)]
pub struct Discovery {
    pub server: Host,
    pub stage: Stage,
    pub mapped: Option<Host>,
    pub identical: bool,
    pub change: Option<Host>,
}

/// What a `Discovery` stands for.
pub struct DiscoveryView {
    pub server: HostView,
    pub stage: Stage,
    pub mapped: Option<HostView>,
    pub identical: bool,
    pub change: Option<HostView>,
}

impl View for Discovery {
    type V = DiscoveryView;

    open spec fn view(&self) -> DiscoveryView {
        DiscoveryView {
            server: self.server@,
            stage: self.stage,
            mapped: crate::host::host_opt_view(self.mapped),
            identical: self.identical,
            change: crate::host::host_opt_view(self.change),
        }
    }
}

/// A reply that came from neither the server's IP address nor its port.
pub open spec fn moved_both(source: Option<HostView>, server: HostView) -> bool {
    source matches Some(h) && h.ip != server.ip && h.port != server.port
}

/// Two endpoints with the same IP address and port.
pub open spec fn same_endpoint(a: HostView, b: HostView) -> bool {
    a.ip == b.ip && a.port == b.port
}

/// Past Test I the mapped and the alternate addresses are known.
pub open spec fn discovery_wf(d: DiscoveryView) -> bool {
    (d.stage == Stage::Test2 || d.stage == Stage::ChangedTest1 || d.stage == Stage::Test3)
        ==> d.mapped is Some && d.change is Some
}

/// Discovery stops with `kind` and a failure.
pub open spec fn fail(d: DiscoveryView, kind: NAT) -> (DiscoveryView, StepView) {
    (DiscoveryView { stage: Stage::Finished, ..d }, StepView::Done { kind, host: None })
}

/// Discovery stops with `kind` and the mapped address of Test I.
pub open spec fn finish(d: DiscoveryView, kind: NAT) -> (DiscoveryView, StepView) {
    (DiscoveryView { stage: Stage::Finished, ..d }, StepView::Done { kind, host: d.mapped })
}

/// Discovery moves to `stage` and sends a test with the given flags to `dest`.
pub open spec fn send(d: DiscoveryView, stage: Stage, dest: HostView, change_ip: bool, change_port: bool) -> (DiscoveryView, StepView) {
    (DiscoveryView { stage, ..d }, StepView::Send { dest, change_ip, change_port })
}

/// The decision tree: where discovery goes from `d` when the test it waits
/// on got `reply` (none: it timed out).
pub open spec fn transition(d: DiscoveryView, reply: Option<ResponseView>) -> (DiscoveryView, StepView) {
    match d.stage {
        Stage::Test1 => match reply {
            None => fail(d, NAT::NATBlocked),
            Some(r) => if r.server_addr != Some(d.server) || r.mapped_addr is None
                || (r.changed_addr is None && r.other_addr is None) {
                fail(d, NAT::NATError)
            } else {
                let change = if r.changed_addr is Some { r.changed_addr } else { r.other_addr };
                send(
                    DiscoveryView { mapped: r.mapped_addr, identical: r.identical, change, ..d },
                    Stage::Test2, d.server, true, true,
                )
            },
        },
        Stage::Test2 => match reply {
            Some(r) => if !moved_both(r.server_addr, d.server) {
                fail(d, NAT::NATError)
            } else if d.identical {
                finish(d, NAT::NATNone)
            } else {
                finish(d, NAT::NATFull)
            },
            None => if d.identical {
                finish(d, NAT::SymmetricUDPFirewall)
            } else {
                send(d, Stage::ChangedTest1, d.change.unwrap(), false, false)
            },
        },
        Stage::ChangedTest1 => match reply {
            None => finish(d, NAT::NATUnknown),
            Some(r) => match r.mapped_addr {
                None => fail(d, NAT::NATError),
                Some(m) => if same_endpoint(m, d.mapped.unwrap()) {
                    send(d, Stage::Test3, d.server, false, true)
                } else {
                    finish(d, NAT::NATSymmetric)
                },
            },
        },
        Stage::Test3 => match reply {
            None => finish(d, NAT::NATPortRestricted),
            Some(r) => if moved_both(r.server_addr, d.server) {
                finish(d, NAT::NATRestricted)
            } else {
                fail(d, NAT::NATError)
            },
        },
        Stage::Finished => (d, StepView::Done { kind: NAT::NATError, host: None }),
    }
}

impl Discovery {
    /// Discovery against `server`, and its first step: Test I against it.
    pub fn new(server: Host) -> (r: (Discovery, Step))
        ensures
            r.0@ == (DiscoveryView { server: server@, stage: Stage::Test1, mapped: None, identical: false, change: None }),
            r.1@ == (StepView::Send { dest: server@, change_ip: false, change_port: false }),
    {
        let dest = server.copied();
        (
            Discovery { server, stage: Stage::Test1, mapped: None, identical: false, change: None },
            Step::Send { dest, change_ip: false, change_port: false },
        )
    }

    fn fail(&mut self, kind: NAT, reason: &str) -> (r: Step)
        ensures
            (final(self)@, r@) == fail(old(self)@, kind),
    {
        self.stage = Stage::Finished;
        Step::Done { kind, result: Err(String::from_str(reason)) }
    }

    fn finish(&mut self, kind: NAT) -> (r: Step)
        requires
            old(self)@.mapped is Some,
        ensures
            (final(self)@, r@) == finish(old(self)@, kind),
    {
        self.stage = Stage::Finished;
        match &self.mapped {
            Some(m) => Step::Done { kind, result: Ok(m.copied()) },
            None => Step::Done { kind, result: Err(String::from_str("no mapped address")) },
        }
    }

    fn send(&mut self, stage: Stage, dest: Host, change_ip: bool, change_port: bool) -> (r: Step)
        ensures
            (final(self)@, r@) == send(old(self)@, stage, dest@, change_ip, change_port),
    {
        self.stage = stage;
        Step::Send { dest, change_ip, change_port }
    }

    /// Takes the outcome of the test in flight (none: it timed out) and
    /// returns the next step.
    pub fn step(&mut self, reply: Option<Response>) -> (r: Step)
        requires
            discovery_wf(old(self)@),
            old(self)@.stage != Stage::Finished,
        ensures
            discovery_wf(final(self)@),
            (final(self)@, r@) == transition(old(self)@, match reply { Some(x) => Some(x@), None => None }),
    {
        match self.stage {
            Stage::Test1 => match reply {
                None => self.fail(NAT::NATBlocked, "no reply to Test I: UDP is blocked"),
                Some(r) => {
                    let from_server = match &r.server_addr {
                        Some(h) => *h == self.server,
                        None => false,
                    };
                    if !from_server {
                        return self.fail(NAT::NATError, "Server error: response IP/port");
                    }
                    let Response { server_addr: _, changed_addr, mapped_addr, other_addr, identical, packet: _ } = r;
                    let mapped = match mapped_addr {
                        Some(m) => m,
                        None => return self.fail(NAT::NATError, "Server error: no mapped address"),
                    };
                    let change = match changed_addr {
                        Some(c) => c,
                        None => match other_addr {
                            Some(o) => o,
                            None => return self.fail(NAT::NATError, "Server error: no changed address"),
                        },
                    };
                    self.mapped = Some(mapped);
                    self.identical = identical;
                    self.change = Some(change);
                    let dest = self.server.copied();
                    self.send(Stage::Test2, dest, true, true)
                },
            },
            Stage::Test2 => match reply {
                Some(r) => {
                    if !self.moved_both(&r.server_addr) {
                        self.fail(NAT::NATError, "Server error: response IP/port")
                    } else if self.identical {
                        self.finish(NAT::NATNone)
                    } else {
                        self.finish(NAT::NATFull)
                    }
                },
                None => {
                    if self.identical {
                        self.finish(NAT::SymmetricUDPFirewall)
                    } else {
                        let dest = match &self.change {
                            Some(c) => c.copied(),
                            None => return self.fail(NAT::NATError, "no changed address"),
                        };
                        self.send(Stage::ChangedTest1, dest, false, false)
                    }
                },
            },
            Stage::ChangedTest1 => match reply {
                None => self.finish(NAT::NATUnknown),
                Some(r) => match &r.mapped_addr {
                    None => self.fail(NAT::NATError, "Server error: no mapped address"),
                    Some(m) => {
                        let same = match &self.mapped {
                            Some(first) => m.ip == first.ip && m.port == first.port,
                            None => false,
                        };
                        if same {
                            let dest = self.server.copied();
                            self.send(Stage::Test3, dest, false, true)
                        } else {
                            self.finish(NAT::NATSymmetric)
                        }
                    },
                },
            },
            Stage::Test3 => match reply {
                None => self.finish(NAT::NATPortRestricted),
                Some(r) => {
                    if self.moved_both(&r.server_addr) {
                        self.finish(NAT::NATRestricted)
                    } else {
                        self.fail(NAT::NATError, "Server error: response IP/port")
                    }
                },
            },
            Stage::Finished => self.fail(NAT::NATError, "discovery already finished"),
        }
    }

    fn moved_both(&self, source: &Option<Host>) -> (r: bool)
        ensures
            r == moved_both(crate::host::host_opt_view(*source), self.server@),
    {
        match source {
            Some(h) => !(h.ip == self.server.ip) && h.port != self.server.port,
            None => false,
        }
    }
}

/// Whether a reply from `host` moved away from `addr` exactly as asked: its
/// IP address differs iff `change_ip`, its port iff `change_port`.
pub fn addr_compare(host: &Host, addr: &Host, change_ip: bool, change_port: bool) -> (r: bool)
    ensures
        r == ((host@.ip != addr@.ip) == change_ip && (host@.port != addr@.port) == change_port),
{
    let is_ip_change = !(host.ip == addr.ip);
    let is_port_change = host.port != addr.port;
    is_ip_change == change_ip && is_port_change == change_port
}

/// The outcome of a test that checks where its reply came from: an error
/// when no reply came, or when the reply's source did not move away from
/// `addr` exactly as `change_ip` and `change_port` asked; else the reply.
pub fn send_with_log_result(reply: Option<Response>, addr: &Host, change_ip: bool, change_port: bool) -> (r: Result<Response, String>)
    ensures
        reply is None ==> r is Err,
        reply matches Some(x) ==> (r is Ok <==> (x@.server_addr matches Some(h) ==> (
            (h.ip != addr@.ip) == change_ip && (h.port != addr@.port) == change_port))),
        r matches Ok(x) ==> reply == Some(x),
{
    match reply {
        None => {
            if !change_ip && !change_port {
                Err(String::from_str("NAT BLOCKED"))
            } else {
                Err(String::from_str("no reply"))
            }
        },
        Some(resp) => {
            let moved_as_asked = match &resp.server_addr {
                Some(h) => addr_compare(h, addr, change_ip, change_port),
                None => true,
            };
            if moved_as_asked {
                Ok(resp)
            } else {
                Err(String::from_str("Server error: response IP/port"))
            }
        },
    }
}

} // verus!
