//! The report that callers watch.

use crate::addr::SocketAddr;
use crate::net_report::latencies::{with_sample, LatencySample, Probe, RelayLatencies, RelayUrl};
use crate::net_report::qad::{AddrFamily, QadProbeReport};
use crate::time::Duration;
use vstd::prelude::*;

verus! {

/// What an HTTPS probe found: the latency of a GET request to a relay.
#[derive(Debug, Clone, Copy, PartialEq, Eq, Structural)]
pub struct HttpsProbeReport {
    pub relay_url: RelayUrl,
    pub latency: Duration,
}

/// What is known about the network.
pub struct Report {
    /// A QAD round trip completed over IPv4.
    pub udp_v4: bool,
    /// A QAD round trip completed over IPv6.
    pub udp_v6: bool,
    /// Whether the public IPv4 address depends on who is asked.
    pub mapping_varies_by_dest_ipv4: Option<bool>,
    /// Whether the public IPv6 address depends on who is asked.
    pub mapping_varies_by_dest_ipv6: Option<bool>,
    /// The relay to be reached at, if one is preferred.
    pub preferred_relay: Option<RelayUrl>,
    /// Latencies to the relays.
    pub relay_latency: RelayLatencies,
    /// The public IPv4 address.
    pub global_v4: Option<SocketAddr>,
    /// The public IPv6 address.
    pub global_v6: Option<SocketAddr>,
    /// Whether a captive portal intercepts HTTP.
    pub captive_portal: Option<bool>,
}

/// The mathematical value of a [`Report`].
pub struct ReportView {
    pub udp_v4: bool,
    pub udp_v6: bool,
    pub mapping_varies_by_dest_ipv4: Option<bool>,
    pub mapping_varies_by_dest_ipv6: Option<bool>,
    pub preferred_relay: Option<RelayUrl>,
    pub relay_latency: Seq<LatencySample>,
    pub global_v4: Option<SocketAddr>,
    pub global_v6: Option<SocketAddr>,
    pub captive_portal: Option<bool>,
}

impl View for Report {
    type V = ReportView;

    open spec fn view(&self) -> ReportView {
        ReportView {
            udp_v4: self.udp_v4,
            udp_v6: self.udp_v6,
            mapping_varies_by_dest_ipv4: self.mapping_varies_by_dest_ipv4,
            mapping_varies_by_dest_ipv6: self.mapping_varies_by_dest_ipv6,
            preferred_relay: self.preferred_relay,
            relay_latency: self.relay_latency@,
            global_v4: self.global_v4,
            global_v6: self.global_v6,
            captive_portal: self.captive_portal,
        }
    }
}

/// Whether the mapping varies, given what was known of it and of the public
/// address before a relay reported `addr`: two relays that see the same
/// address say that it does not, two that differ say that it does.
pub open spec fn mapping_varies(
    known: Option<bool>,
    global: Option<SocketAddr>,
    addr: SocketAddr,
) -> Option<bool> {
    match global {
        None => known,
        Some(g) => if g != addr {
            Some(true)
        } else if known is None {
            Some(false)
        } else {
            known
        },
    }
}

impl ReportView {
    /// The report that knows nothing.
    pub open spec fn empty() -> ReportView {
        ReportView {
            udp_v4: false,
            udp_v6: false,
            mapping_varies_by_dest_ipv4: None,
            mapping_varies_by_dest_ipv6: None,
            preferred_relay: None,
            relay_latency: Seq::empty(),
            global_v4: None,
            global_v6: None,
            captive_portal: None,
        }
    }

    /// Whether UDP is known to work.
    pub open spec fn has_udp(self) -> bool {
        self.udp_v4 || self.udp_v6
    }

    /// Whether a probe found anything.
    pub open spec fn has_data(self) -> bool {
        ||| self.has_udp()
        ||| self.relay_latency.len() > 0
        ||| self.global_v4 is Some
        ||| self.global_v6 is Some
        ||| self.captive_portal is Some
    }

    /// The public address in one family.
    pub open spec fn global(self, family: AddrFamily) -> Option<SocketAddr> {
        match family {
            AddrFamily::V4 => self.global_v4,
            AddrFamily::V6 => self.global_v6,
        }
    }

    /// The report with a latency sample taken in.
    pub open spec fn with_latency(self, x: LatencySample) -> ReportView {
        ReportView { relay_latency: with_sample(self.relay_latency, x), ..self }
    }

    /// The report after a QAD probe of `family` found `r`.
    pub open spec fn after_qad_result(self, family: AddrFamily, r: QadProbeReport) -> ReportView {
        match family {
            AddrFamily::V4 => ReportView {
                udp_v4: true,
                mapping_varies_by_dest_ipv4: mapping_varies(
                    self.mapping_varies_by_dest_ipv4,
                    self.global_v4,
                    r.addr,
                ),
                global_v4: Some(self.global_v4.unwrap_or(r.addr)),
                ..self
            },
            AddrFamily::V6 => ReportView {
                udp_v6: true,
                mapping_varies_by_dest_ipv6: mapping_varies(
                    self.mapping_varies_by_dest_ipv6,
                    self.global_v6,
                    r.addr,
                ),
                global_v6: Some(self.global_v6.unwrap_or(r.addr)),
                ..self
            },
        }.with_latency(qad_sample(family, r))
    }

    /// The report after the open QAD connection of `family` observed `r`.
    pub open spec fn after_qad_observation(
        self,
        family: AddrFamily,
        r: QadProbeReport,
    ) -> ReportView {
        match family {
            AddrFamily::V4 => ReportView { udp_v4: true, global_v4: Some(r.addr), ..self },
            AddrFamily::V6 => ReportView { udp_v6: true, global_v6: Some(r.addr), ..self },
        }.with_latency(qad_sample(family, r))
    }

    /// The report after an HTTPS probe found `r`.
    pub open spec fn after_https_result(self, r: HttpsProbeReport) -> ReportView {
        self.with_latency(
            LatencySample { probe: Probe::Https, url: r.relay_url, latency: r.latency },
        )
    }
}

/// The latency sample in what a QAD probe of `family` found.
pub open spec fn qad_sample(family: AddrFamily, r: QadProbeReport) -> LatencySample {
    LatencySample {
        probe: match family {
            AddrFamily::V4 => Probe::QadIpv4,
            AddrFamily::V6 => Probe::QadIpv6,
        },
        url: r.relay_url,
        latency: r.latency,
    }
}

impl Default for Report {
    fn default() -> (r: Self)
        ensures
            r@ == ReportView::empty(),
    {
        Report {
            udp_v4: false,
            udp_v6: false,
            mapping_varies_by_dest_ipv4: None,
            mapping_varies_by_dest_ipv6: None,
            preferred_relay: None,
            relay_latency: RelayLatencies::default(),
            global_v4: None,
            global_v6: None,
            captive_portal: None,
        }
    }
}

impl Clone for Report {
    fn clone(&self) -> (r: Self)
        ensures
            r@ == self@,
    {
        Report {
            udp_v4: self.udp_v4,
            udp_v6: self.udp_v6,
            mapping_varies_by_dest_ipv4: self.mapping_varies_by_dest_ipv4,
            mapping_varies_by_dest_ipv6: self.mapping_varies_by_dest_ipv6,
            preferred_relay: self.preferred_relay,
            relay_latency: self.relay_latency.clone(),
            global_v4: self.global_v4,
            global_v6: self.global_v6,
            captive_portal: self.captive_portal,
        }
    }
}

/// Computes whether the mapping varies after a relay reported `addr`.
fn decide_mapping(known: Option<bool>, global: Option<SocketAddr>, addr: SocketAddr) -> (r: Option<
    bool,
>)
    ensures
        r == mapping_varies(known, global, addr),
{
    match global {
        None => known,
        Some(g) => {
            if g != addr {
                Some(true)
            } else if known.is_none() {
                Some(false)
            } else {
                known
            }
        },
    }
}

impl Report {
    /// Returns `true` if UDP is known to work.
    pub fn has_udp(&self) -> (r: bool)
        ensures
            r == self@.has_udp(),
    {
        self.udp_v4 || self.udp_v6
    }

    /// Returns `true` if a probe found anything.
    pub fn has_data(&self) -> (r: bool)
        ensures
            r == self@.has_data(),
    {
        self.has_udp() || self.relay_latency.len() > 0 || self.global_v4.is_some()
            || self.global_v6.is_some() || self.captive_portal.is_some()
    }

    /// Accumulates the result of a QAD probe: the first one sets the public
    /// address, a second one from another relay decides whether the mapping
    /// varies by destination.
    pub fn apply_qad_result(&mut self, family: AddrFamily, r: &QadProbeReport)
        ensures
            final(self)@ == old(self)@.after_qad_result(family, *r),
    {
        match family {
            AddrFamily::V4 => {
                self.udp_v4 = true;
                self.mapping_varies_by_dest_ipv4 = decide_mapping(
                    self.mapping_varies_by_dest_ipv4,
                    self.global_v4,
                    r.addr,
                );
                if self.global_v4.is_none() {
                    self.global_v4 = Some(r.addr);
                }
                self.relay_latency.update_relay(r.relay_url, r.latency, Probe::QadIpv4);
            },
            AddrFamily::V6 => {
                self.udp_v6 = true;
                self.mapping_varies_by_dest_ipv6 = decide_mapping(
                    self.mapping_varies_by_dest_ipv6,
                    self.global_v6,
                    r.addr,
                );
                if self.global_v6.is_none() {
                    self.global_v6 = Some(r.addr);
                }
                self.relay_latency.update_relay(r.relay_url, r.latency, Probe::QadIpv6);
            },
        }
    }

    /// Updates the public address in place with what an open QAD connection
    /// observed.
    pub fn apply_qad_observation(&mut self, family: AddrFamily, r: &QadProbeReport)
        ensures
            final(self)@ == old(self)@.after_qad_observation(family, *r),
    {
        match family {
            AddrFamily::V4 => {
                self.udp_v4 = true;
                self.global_v4 = Some(r.addr);
                self.relay_latency.update_relay(r.relay_url, r.latency, Probe::QadIpv4);
            },
            AddrFamily::V6 => {
                self.udp_v6 = true;
                self.global_v6 = Some(r.addr);
                self.relay_latency.update_relay(r.relay_url, r.latency, Probe::QadIpv6);
            },
        }
    }

    /// Takes in the latency that an HTTPS probe measured.
    pub fn apply_https_result(&mut self, r: &HttpsProbeReport)
        ensures
            final(self)@ == old(self)@.after_https_result(*r),
    {
        self.relay_latency.update_relay(r.relay_url, r.latency, Probe::Https);
    }
}

} // verus!
