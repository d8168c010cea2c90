//! The per-interface counters record and its delta accessors.

use vstd::prelude::*;

use crate::addr::IfAddress;
use crate::addr::Ipv4Address;
use crate::addr::MacAddress;
use crate::addr::unspecified_ipv4;
use crate::addr::unspecified_mac;

verus! {

/// Subtraction of cumulative counters, floored at zero: a counter reset or
/// wraparound yields a delta of exactly zero, never a negative or huge value.
pub open spec fn sat_sub(a: u64, b: u64) -> u64 {
    if a >= b {
        (a - b) as u64
    } else {
        0
    }
}

/// The six cumulative counters observed for one interface in one refresh.
#[derive(Clone, Copy, PartialEq, Eq, Structural, Debug)]
pub struct CounterSample {
    pub in_bytes: u64,
    pub out_bytes: u64,
    pub packets_in: u64,
    pub packets_out: u64,
    pub errors_in: u64,
    pub errors_out: u64,
}

/// One interface's collected state: the latest observed cumulative counters,
/// the values observed at the prior refresh (for deltas), a presence flag
/// used while reconciling, and the merged addresses.
#[derive(Clone, Copy, PartialEq, Eq, Structural, Debug)]
pub struct NetworkData {
    pub current_in: u64,
    pub old_in: u64,
    pub current_out: u64,
    pub old_out: u64,
    pub packets_in: u64,
    pub old_packets_in: u64,
    pub packets_out: u64,
    pub old_packets_out: u64,
    pub errors_in: u64,
    pub old_errors_in: u64,
    pub errors_out: u64,
    pub old_errors_out: u64,
    pub updated: bool,
    pub mac_addr: MacAddress,
    pub ipv4_addr: Ipv4Address,
    pub ipv4_mask: Ipv4Address,
}

/// The record created the first time an interface name is seen: current and
/// previous counters both equal the first observation, so every first delta
/// is zero, and the addresses are unspecified.
pub open spec fn fresh_entry(c: CounterSample) -> NetworkData {
    NetworkData {
        current_in: c.in_bytes,
        old_in: c.in_bytes,
        current_out: c.out_bytes,
        old_out: c.out_bytes,
        packets_in: c.packets_in,
        old_packets_in: c.packets_in,
        packets_out: c.packets_out,
        old_packets_out: c.packets_out,
        errors_in: c.errors_in,
        old_errors_in: c.errors_in,
        errors_out: c.errors_out,
        old_errors_out: c.errors_out,
        updated: true,
        mac_addr: unspecified_mac(),
        ipv4_addr: unspecified_ipv4(),
        ipv4_mask: unspecified_ipv4(),
    }
}

/// One refresh step on an existing record: each current counter moves to its
/// previous slot and is replaced by the new observation; addresses are kept
/// and the record is marked present.
pub open spec fn shift_entry(d: NetworkData, c: CounterSample) -> NetworkData {
    NetworkData {
        current_in: c.in_bytes,
        old_in: d.current_in,
        current_out: c.out_bytes,
        old_out: d.current_out,
        packets_in: c.packets_in,
        old_packets_in: d.packets_in,
        packets_out: c.packets_out,
        old_packets_out: d.packets_out,
        errors_in: c.errors_in,
        old_errors_in: d.errors_in,
        errors_out: c.errors_out,
        old_errors_out: d.errors_out,
        updated: true,
        mac_addr: d.mac_addr,
        ipv4_addr: d.ipv4_addr,
        ipv4_mask: d.ipv4_mask,
    }
}

/// The same record with its presence flag cleared, as at the start of a
/// reconciling refresh.
pub open spec fn clear_entry(d: NetworkData) -> NetworkData {
    NetworkData { updated: false, ..d }
}

/// The record after one tagged address value is merged into it: a link-layer
/// value overwrites the MAC address, an IPv4 value overwrites the address
/// and netmask pair; counters and the presence flag are untouched.
pub open spec fn merge_entry(d: NetworkData, a: IfAddress) -> NetworkData {
    match a {
        IfAddress::Mac(mac) => NetworkData { mac_addr: mac, ..d },
        IfAddress::Ipv4(ip, mask) => NetworkData { ipv4_addr: ip, ipv4_mask: mask, ..d },
    }
}

impl CounterSample {
    pub fn new(
        in_bytes: u64,
        out_bytes: u64,
        packets_in: u64,
        packets_out: u64,
        errors_in: u64,
        errors_out: u64,
    ) -> (r: Self)
        ensures
            r == (CounterSample { in_bytes, out_bytes, packets_in, packets_out, errors_in, errors_out }),
    {
        CounterSample { in_bytes, out_bytes, packets_in, packets_out, errors_in, errors_out }
    }
}

impl NetworkData {
    /// Bytes received since the previous refresh, floored at zero.
    pub fn received(&self) -> (r: u64)
        ensures
            r == sat_sub(self.current_in, self.old_in),
    {
        if self.current_in >= self.old_in {
            self.current_in - self.old_in
        } else {
            0
        }
    }

    /// Cumulative bytes received, as last observed.
    pub fn total_received(&self) -> (r: u64)
        ensures
            r == self.current_in,
    {
        self.current_in
    }

    /// Bytes transmitted since the previous refresh, floored at zero.
    pub fn transmitted(&self) -> (r: u64)
        ensures
            r == sat_sub(self.current_out, self.old_out),
    {
        if self.current_out >= self.old_out {
            self.current_out - self.old_out
        } else {
            0
        }
    }

    /// Cumulative bytes transmitted, as last observed.
    pub fn total_transmitted(&self) -> (r: u64)
        ensures
            r == self.current_out,
    {
        self.current_out
    }

    /// Packets received since the previous refresh, floored at zero.
    pub fn packets_received(&self) -> (r: u64)
        ensures
            r == sat_sub(self.packets_in, self.old_packets_in),
    {
        if self.packets_in >= self.old_packets_in {
            self.packets_in - self.old_packets_in
        } else {
            0
        }
    }

    /// Cumulative packets received, as last observed.
    pub fn total_packets_received(&self) -> (r: u64)
        ensures
            r == self.packets_in,
    {
        self.packets_in
    }

    /// Packets transmitted since the previous refresh, floored at zero.
    pub fn packets_transmitted(&self) -> (r: u64)
        ensures
            r == sat_sub(self.packets_out, self.old_packets_out),
    {
        if self.packets_out >= self.old_packets_out {
            self.packets_out - self.old_packets_out
        } else {
            0
        }
    }

    /// Cumulative packets transmitted, as last observed.
    pub fn total_packets_transmitted(&self) -> (r: u64)
        ensures
            r == self.packets_out,
    {
        self.packets_out
    }

    /// Receive errors since the previous refresh, floored at zero.
    pub fn errors_on_received(&self) -> (r: u64)
        ensures
            r == sat_sub(self.errors_in, self.old_errors_in),
    {
        if self.errors_in >= self.old_errors_in {
            self.errors_in - self.old_errors_in
        } else {
            0
        }
    }

    /// Cumulative receive errors, as last observed.
    pub fn total_errors_on_received(&self) -> (r: u64)
        ensures
            r == self.errors_in,
    {
        self.errors_in
    }

    /// Transmit errors since the previous refresh, floored at zero.
    pub fn errors_on_transmitted(&self) -> (r: u64)
        ensures
            r == sat_sub(self.errors_out, self.old_errors_out),
    {
        if self.errors_out >= self.old_errors_out {
            self.errors_out - self.old_errors_out
        } else {
            0
        }
    }

    /// Cumulative transmit errors, as last observed.
    pub fn total_errors_on_transmitted(&self) -> (r: u64)
        ensures
            r == self.errors_out,
    {
        self.errors_out
    }

    /// The merged link-layer address, or the all-zero one if none was merged.
    pub fn mac_address(&self) -> (r: MacAddress)
        ensures
            r == self.mac_addr,
    {
        self.mac_addr
    }

    /// The merged IPv4 address, or 0.0.0.0 if none was merged.
    pub fn ipv4_address(&self) -> (r: Ipv4Address)
        ensures
            r == self.ipv4_addr,
    {
        self.ipv4_addr
    }

    /// The merged IPv4 netmask, or 0.0.0.0 if none was merged.
    pub fn ipv4_netmask(&self) -> (r: Ipv4Address)
        ensures
            r == self.ipv4_mask,
    {
        self.ipv4_mask
    }
}

/// Saturating law: a delta equals the plain difference while the counter
/// moved forward, and is exactly zero when it moved backward.
pub proof fn lemma_saturating_delta(current: u64, previous: u64)
    ensures
        current >= previous ==> sat_sub(current, previous) == current - previous,
        current < previous ==> sat_sub(current, previous) == 0,
{
}

/// A brand-new interface's first deltas are all exactly zero: the record
/// created on first sight carries equal current and previous counters.
pub proof fn lemma_fresh_entry_zero_deltas(c: CounterSample)
    ensures
        sat_sub(fresh_entry(c).current_in, fresh_entry(c).old_in) == 0,
        sat_sub(fresh_entry(c).current_out, fresh_entry(c).old_out) == 0,
        sat_sub(fresh_entry(c).packets_in, fresh_entry(c).old_packets_in) == 0,
        sat_sub(fresh_entry(c).packets_out, fresh_entry(c).old_packets_out) == 0,
        sat_sub(fresh_entry(c).errors_in, fresh_entry(c).old_errors_in) == 0,
        sat_sub(fresh_entry(c).errors_out, fresh_entry(c).old_errors_out) == 0,
{
}

} // verus!
