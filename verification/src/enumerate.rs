//! Lazy enumeration of the target space: the cartesian product of the port
//! list and the address list, in port-major order, produced one pair at a
//! time from two cursors so that a space of tens of millions of pairs costs
//! no more memory than the two input lists.

use vstd::prelude::*;

use vstd::arithmetic::div_mod::lemma_fundamental_div_mod_converse;

use crate::ip::Ip;
use crate::ScanTask;

verus! {

/// The whole target space, in port-major order: for each port in turn, that
/// port paired with every address, in order.
pub open spec fn task_space(ports: Seq<u16>, ips: Seq<Ip>) -> Seq<ScanTask> {
    if ips.len() == 0 {
        Seq::empty()
    } else {
        Seq::new(
            ports.len() * ips.len(),
            |k: int| ScanTask { ip: ips[k % ips.len() as int], port: ports[k / ips.len() as int] },
        )
    }
}

/// Law: the target space is in port-major order — pair `k` carries port
/// `k / |ips|` against address `k % |ips|`, so each port is tried against
/// every address before the next port is touched.
pub proof fn lemma_port_major_order(ports: Seq<u16>, ips: Seq<Ip>, k: int)
    requires
        ips.len() > 0,
        0 <= k < ports.len() * ips.len(),
    ensures
        task_space(ports, ips).len() == ports.len() * ips.len(),
        task_space(ports, ips)[k] == (ScanTask {
            ip: ips[k % ips.len() as int],
            port: ports[k / ips.len() as int],
        }),
{
}

/// The pull-one-or-exhausted producer over the target space.
pub struct SockIter {
    ports: Vec<u16>,
    ips: Vec<Ip>,
    pi: usize,
    ii: usize,
}

impl SockIter {
    pub closed spec fn wf(&self) -> bool {
        if self.ips@.len() == 0 {
            self.pi == 0 && self.ii == 0
        } else {
            (self.pi < self.ports@.len() && self.ii < self.ips@.len()) || (self.pi
                == self.ports@.len() && self.ii == 0)
        }
    }

    /// The full pair sequence this producer walks.
    pub closed spec fn space(&self) -> Seq<ScanTask> {
        task_space(self.ports@, self.ips@)
    }

    /// How many pairs have been handed out so far.
    pub closed spec fn emitted(&self) -> int {
        self.pi * self.ips@.len() + self.ii
    }

    pub proof fn lemma_emitted_in_range(&self)
        requires
            self.wf(),
        ensures
            0 <= self.emitted() <= self.space().len(),
        {
            let p = self.ports@.len() as int;
            let l = self.ips@.len() as int;
            if l == 0 {
            } else if self.pi < p {
                assert(self.pi * l + self.ii < p * l) by (nonlinear_arith)
                    requires
                        0 <= self.pi < p,
                        0 <= self.ii < l,
                ;
                assert(self.pi * l + self.ii >= 0) by (nonlinear_arith)
                    requires
                        self.pi >= 0,
                        self.ii >= 0,
                        l >= 0,
                ;
            }
        }

    pub fn new(ips: Vec<Ip>, ports: Vec<u16>) -> (s: Self)
        ensures
            s.wf(),
            s.space() == task_space(ports@, ips@),
            s.emitted() == 0,
    {
        SockIter { ports, ips, pi: 0, ii: 0 }
    }

    /// Whether every pair has been handed out.
    pub fn exhausted(&self) -> (b: bool)
        requires
            self.wf(),
        ensures
            b == (self.emitted() >= self.space().len()),
    {
        proof {
            self.lemma_emitted_in_range();
            let p = self.ports@.len() as int;
            let l = self.ips@.len() as int;
            if l != 0 && self.pi < p {
                assert(self.pi * l + self.ii < p * l) by (nonlinear_arith)
                    requires
                        0 <= self.pi < p,
                        0 <= self.ii < l,
                ;
            }
        }
        self.ips.len() == 0 || self.pi >= self.ports.len()
    }

    /// Hands out the next pair, or reports the space exhausted. The `k`-th
    /// call yields exactly the `k`-th element of the port-major product.
    pub fn next(&mut self) -> (r: Option<ScanTask>)
        requires
            old(self).wf(),
        ensures
            final(self).wf(),
            final(self).space() == old(self).space(),
            old(self).emitted() < old(self).space().len() ==> {
                &&& r == Some(old(self).space()[old(self).emitted()])
                &&& final(self).emitted() == old(self).emitted() + 1
            },
            old(self).emitted() >= old(self).space().len() ==> r is None && final(self).emitted()
                == old(self).emitted(),
    {
        let ghost p = self.ports@.len() as int;
        let ghost l = self.ips@.len() as int;
        proof {
            self.lemma_emitted_in_range();
        }
        if self.ips.len() == 0 || self.pi >= self.ports.len() {
            proof {
                if l != 0 {
                    // pi == ports.len(), ii == 0: everything was emitted.
                    assert(self.emitted() == p * l);
                }
            }
            return None;
        }
        let task = ScanTask { ip: self.ips[self.ii], port: self.ports[self.pi] };
        proof {
            let e = self.emitted();
            assert(e == self.pi * l + self.ii);
            lemma_fundamental_div_mod_converse(e, l, self.pi as int, self.ii as int);
            assert(e < p * l) by (nonlinear_arith)
                requires
                    0 <= self.pi < p,
                    0 <= self.ii < l,
                    e == self.pi * l + self.ii,
            ;
            assert(self.space()[e] == task);
        }
        let ghost old_emitted = self.emitted();
        self.ii = self.ii + 1;
        if self.ii == self.ips.len() {
            self.ii = 0;
            self.pi = self.pi + 1;
            proof {
                assert((self.pi as int) * l == (self.pi - 1) * l + l) by (nonlinear_arith);
                assert(self.emitted() == old_emitted + 1);
            }
        }
        Some(task)
    }
}

} // verus!
