//! The scanner's configuration: the resolved targets, the expanded port
//! list, and the run parameters. Built from raw specification strings (for
//! CIDR and literal targets) or from an already-resolved address list, it
//! hands the run over to a [`Scheduler`].

use vstd::prelude::*;
use vstd::string::StringSliceAdditionalSpecFns;

use crate::enumerate::task_space;
use crate::ip::Ip;
use crate::ports::{ports_parse, spec_ports_parse};
use crate::resolve::{addresses_parse, spec_addresses};
use crate::scheduler::Scheduler;
use crate::ConfigError;

verus! {

/// A configured scan run: its targets, ports, concurrency ceiling,
/// per-attempt timeout and retry budget.
#[derive(Debug)]
pub struct QScanner {
    ips: Vec<Ip>,
    ports: Vec<u16>,
    batch: u16,
    timeout_ms: u64,
    tries: u8,
}

impl QScanner {
    pub closed spec fn ips_seq(&self) -> Seq<Ip> {
        self.ips@
    }

    pub closed spec fn ports_seq(&self) -> Seq<u16> {
        self.ports@
    }

    pub closed spec fn batch_spec(&self) -> int {
        self.batch as int
    }

    pub closed spec fn timeout_ms_spec(&self) -> int {
        self.timeout_ms as int
    }

    pub closed spec fn tries_spec(&self) -> int {
        self.tries as int
    }

    /// The ceiling and the retry budget are positive.
    pub closed spec fn wf(&self) -> bool {
        self.batch >= 1 && self.tries >= 1
    }

    /// Configures a run from raw specification strings: the address tokens
    /// that are CIDR blocks or literals become the targets (others need the
    /// caller's resolution chain and contribute nothing here), and the port
    /// specification is expanded. A malformed port specification, a zero
    /// batch or a zero retry budget is a configuration error.
    pub fn new(addresses: &str, ports: &str, batch: u16, to_ms: u64, tries: u8) -> (r: Result<
        QScanner,
        ConfigError,
    >)
        ensures
            match r {
                Ok(s) => {
                    &&& batch >= 1 && tries >= 1
                    &&& s.wf()
                    &&& s.ips_seq() == spec_addresses(addresses.spec_bytes())
                    &&& spec_ports_parse(ports.spec_bytes()) == Some(s.ports_seq())
                    &&& s.batch_spec() == batch
                    &&& s.timeout_ms_spec() == to_ms
                    &&& s.tries_spec() == tries
                },
                Err(e) => {
                    &&& (e == ConfigError::ZeroBatch || e == ConfigError::ZeroTries || e
                        == ConfigError::MalformedPortSpec)
                    &&& (e == ConfigError::ZeroBatch <==> batch == 0)
                    &&& (e == ConfigError::ZeroTries <==> batch >= 1 && tries == 0)
                    &&& (e == ConfigError::MalformedPortSpec <==> batch >= 1 && tries >= 1
                        && spec_ports_parse(ports.spec_bytes()) is None)
                },
            },
    {
        if batch == 0 {
            return Err(ConfigError::ZeroBatch);
        }
        if tries == 0 {
            return Err(ConfigError::ZeroTries);
        }
        let pv = match ports_parse(ports) {
            Ok(pv) => pv,
            Err(e) => {
                return Err(e);
            },
        };
        let ips = addresses_parse(addresses);
        Ok(QScanner { ips, ports: pv, batch, timeout_ms: to_ms, tries })
    }

    /// Configures a run from an already-resolved address list, as the
    /// caller's resolution chain produces it.
    pub fn from_parts(ips: Vec<Ip>, ports: Vec<u16>, batch: u16, to_ms: u64, tries: u8) -> (r:
        Result<QScanner, ConfigError>)
        ensures
            match r {
                Ok(s) => {
                    &&& batch >= 1 && tries >= 1
                    &&& s.wf()
                    &&& s.ips_seq() == ips@
                    &&& s.ports_seq() == ports@
                    &&& s.batch_spec() == batch
                    &&& s.timeout_ms_spec() == to_ms
                    &&& s.tries_spec() == tries
                },
                Err(e) => {
                    &&& (e == ConfigError::ZeroBatch || e == ConfigError::ZeroTries)
                    &&& (e == ConfigError::ZeroBatch <==> batch == 0)
                    &&& (e == ConfigError::ZeroTries <==> batch >= 1 && tries == 0)
                },
            },
    {
        if batch == 0 {
            return Err(ConfigError::ZeroBatch);
        }
        if tries == 0 {
            return Err(ConfigError::ZeroTries);
        }
        Ok(QScanner { ips, ports, batch, timeout_ms: to_ms, tries })
    }

    pub fn ips(&self) -> (r: &Vec<Ip>)
        ensures
            r@ == self.ips_seq(),
    {
        &self.ips
    }

    pub fn ports(&self) -> (r: &Vec<u16>)
        ensures
            r@ == self.ports_seq(),
    {
        &self.ports
    }

    pub fn batch(&self) -> (r: u16)
        ensures
            r == self.batch_spec(),
    {
        self.batch
    }

    pub fn timeout_ms(&self) -> (r: u64)
        ensures
            r == self.timeout_ms_spec(),
    {
        self.timeout_ms
    }

    pub fn tries(&self) -> (r: u8)
        ensures
            r == self.tries_spec(),
    {
        self.tries
    }

    /// Opens the run: a fresh scheduler over this configuration's target
    /// space, bounded by its batch.
    pub fn into_scheduler(self) -> (s: Scheduler)
        requires
            self.wf(),
        ensures
            s.wf(),
            s.space() == task_space(self.ports_seq(), self.ips_seq()),
            s.batch_spec() == self.batch_spec(),
            s.launched() == 0,
            s.in_flight_seq() == Seq::<crate::ScanTask>::empty(),
            s.results_seq() == Seq::<crate::ScanOutcome>::empty(),
            !s.is_fatal_spec(),
    {
        Scheduler::new(self.ips, self.ports, self.batch as usize)
    }
}

} // verus!
