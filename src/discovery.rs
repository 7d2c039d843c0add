//! Picking the server to connect to from a service-discovery response.

use vstd::prelude::*;

verus! {

/// An IP address: IPv4 as its 32-bit number, IPv6 as its 128-bit number.
#[derive(Clone, Copy, Debug, PartialEq, Eq, Structural)]
pub enum HostAddr {
    V4(u32),
    V6(u128),
}

/// The records of a discovery response that matter here.
#[derive(Clone, Copy, Debug, PartialEq, Eq, Structural)]
pub enum Record {
    Srv { port: u16 },
    A(u32),
    Aaaa(u128),
    Other,
}

/// The address and port that the records give, read in order: the last SRV
/// record gives the port; an A record sets the address, while an AAAA record
/// gives it only if none was set before, so IPv4 wins over IPv6.
pub open spec fn scan(rs: Seq<Record>) -> (Option<HostAddr>, Option<u16>)
    decreases rs.len(),
{
    if rs.len() == 0 {
        (None, None)
    } else {
        let (a, p) = scan(rs.drop_last());
        match rs.last() {
            Record::Srv { port } => (a, Some(port)),
            Record::A(ip) => (Some(HostAddr::V4(ip)), p),
            Record::Aaaa(ip) => (
                if a is Some {
                    a
                } else {
                    Some(HostAddr::V6(ip))
                },
                p,
            ),
            Record::Other => (a, p),
        }
    }
}

/// The server to connect to from one discovery response, if it names both
/// an address and a port.
pub fn connect_target(records: &[Record]) -> (r: Option<(HostAddr, u16)>)
    ensures
        r == match scan(records@) {
            (Some(a), Some(p)) => Some((a, p)),
            _ => None,
        },
{
    let mut addr: Option<HostAddr> = None;
    let mut port: Option<u16> = None;
    let mut i: usize = 0;
    while i < records.len()
        invariant
            i <= records@.len(),
            (addr, port) == scan(records@.subrange(0, i as int)),
        decreases records@.len() - i,
    {
        proof {
            assert(records@.subrange(0, i as int + 1).drop_last() =~= records@.subrange(0, i as int));
        }
        match records[i] {
            Record::Srv { port: p } => {
                port = Some(p);
            },
            Record::A(ip) => {
                addr = Some(HostAddr::V4(ip));
            },
            Record::Aaaa(ip) => {
                if addr.is_none() {
                    addr = Some(HostAddr::V6(ip));
                }
            },
            Record::Other => {},
        }
        i = i + 1;
    }
    assert(records@.subrange(0, records@.len() as int) =~= records@);
    match (addr, port) {
        (Some(a), Some(p)) => Some((a, p)),
        _ => None,
    }
}

} // verus!
