//! Solver certificate construction and verification.

use vstd::prelude::*;

use crate::collections::{value_of, with_value, OrderedKey, OrderedMap};
use crate::primitives::{b256, B256};

verus! {

/// Deterministic hard-rejection category.
#[derive(Clone, Copy, Debug, PartialEq, Eq, PartialOrd, Ord, Structural)]
pub enum RejectionReason {
    /// Exact sequential simulation rejected the candidate.
    Simulation,
    /// Immediate positive loss exceeded policy.
    ImmediateLoss,
    /// Portfolio spread worsened beyond policy.
    SpreadWorsening,
    /// Candidate failed episode direction/budget rules.
    Episode,
    /// Service constraints failed.
    Service,
}

impl RejectionReason {
    /// Place of the category in report order.
    pub open spec fn place(self) -> u8 {
        match self {
            RejectionReason::Simulation => 0,
            RejectionReason::ImmediateLoss => 1,
            RejectionReason::SpreadWorsening => 2,
            RejectionReason::Episode => 3,
            RejectionReason::Service => 4,
        }
    }

    fn ordinal(self) -> (r: u8)
        ensures
            r == self.place(),
    {
        match self {
            RejectionReason::Simulation => 0,
            RejectionReason::ImmediateLoss => 1,
            RejectionReason::SpreadWorsening => 2,
            RejectionReason::Episode => 3,
            RejectionReason::Service => 4,
        }
    }
}

impl OrderedKey for RejectionReason {
    open spec fn rank(self) -> int {
        self.place() as int
    }

    proof fn rank_injective(a: Self, b: Self) {
    }

    fn before(self, other: Self) -> (r: bool) {
        self.ordinal() < other.ordinal()
    }
}

/// Auditable bounded-search certificate independent of transaction encoding.
pub struct SearchCertificate {
    /// Hash of the frozen candidate lattice.
    pub candidate_lattice_hash: B256,
    /// Exact evaluated-node count.
    pub nodes_evaluated: u64,
    /// Configured hard node limit.
    pub node_limit: u64,
    /// Whether the complete frozen lattice was searched.
    pub search_complete: bool,
    /// Deterministic hard-rejection counts.
    pub rejection_counts: OrderedMap<RejectionReason, u64>,
}

/// What a search certificate holds.
pub ghost struct CertificateView {
    /// Hash of the frozen candidate lattice.
    pub candidate_lattice_hash: B256,
    /// Evaluated-node count.
    pub nodes_evaluated: u64,
    /// Hard node limit.
    pub node_limit: u64,
    /// Whether the complete frozen lattice was searched.
    pub search_complete: bool,
    /// Rejection counts in report order.
    pub rejection_counts: Seq<(RejectionReason, u64)>,
}

impl View for SearchCertificate {
    type V = CertificateView;

    open spec fn view(&self) -> CertificateView {
        CertificateView {
            candidate_lattice_hash: self.candidate_lattice_hash,
            nodes_evaluated: self.nodes_evaluated,
            node_limit: self.node_limit,
            search_complete: self.search_complete,
            rejection_counts: self.rejection_counts@,
        }
    }
}

impl CertificateView {
    /// Evidence before the first node of a bounded search.
    pub open spec fn begun(node_limit: u64) -> CertificateView {
        CertificateView {
            candidate_lattice_hash: b256(0),
            nodes_evaluated: 0,
            node_limit,
            search_complete: true,
            rejection_counts: Seq::empty(),
        }
    }

    /// The certificate of a search that was cut off.
    pub open spec fn incomplete(self) -> CertificateView {
        CertificateView { search_complete: false, ..self }
    }

    /// The certificate with one more node evaluated.
    pub open spec fn counted(self) -> CertificateView {
        CertificateView { nodes_evaluated: (self.nodes_evaluated + 1) as u64, ..self }
    }

    /// The certificate bound to a lattice.
    pub open spec fn over_lattice(self, hash: B256) -> CertificateView {
        CertificateView { candidate_lattice_hash: hash, ..self }
    }

    /// Count of one rejection category.
    pub open spec fn count(self, reason: RejectionReason) -> u64 {
        match value_of(self.rejection_counts, reason) {
            Some(count) => count,
            None => 0,
        }
    }

    /// The certificate after one more rejection. A counter at its limit stays there and the
    /// search is no longer complete.
    pub open spec fn rejected(self, reason: RejectionReason) -> CertificateView {
        if self.count(reason) == u64::MAX {
            CertificateView { search_complete: false, ..self }
        } else {
            CertificateView {
                rejection_counts: with_value(
                    self.rejection_counts,
                    reason,
                    (self.count(reason) + 1) as u64,
                ),
                ..self
            }
        }
    }
}

impl Clone for SearchCertificate {
    fn clone(&self) -> (r: Self)
        ensures
            r@ == self@,
    {
        SearchCertificate {
            candidate_lattice_hash: self.candidate_lattice_hash,
            nodes_evaluated: self.nodes_evaluated,
            node_limit: self.node_limit,
            search_complete: self.search_complete,
            rejection_counts: self.rejection_counts.clone(),
        }
    }
}

impl SearchCertificate {
    /// Evidence before the first node of a bounded search.
    pub fn begin(node_limit: u64) -> (r: SearchCertificate)
        ensures
            r@ == CertificateView::begun(node_limit),
    {
        SearchCertificate {
            candidate_lattice_hash: B256::zero(),
            nodes_evaluated: 0,
            node_limit,
            search_complete: true,
            rejection_counts: OrderedMap::new(),
        }
    }

    /// Increments one checked rejection counter; returns whether it could.
    pub fn reject(&mut self, reason: RejectionReason) -> (r: bool)
        ensures
            final(self)@ == old(self)@.rejected(reason),
            r == (old(self)@.count(reason) < u64::MAX),
    {
        let count: u64 = match self.rejection_counts.get(reason) {
            Some(count) => count,
            None => 0,
        };
        match count.checked_add(1) {
            Some(updated) => {
                self.rejection_counts.insert(reason, updated);
                true
            },
            None => {
                self.search_complete = false;
                false
            },
        }
    }

    /// Returns true only when an Execute-mode rate result searched its complete lattice.
    #[must_use]
    pub fn executable_rate_search(&self) -> (r: bool)
        ensures
            r == (self.search_complete && self.nodes_evaluated <= self.node_limit),
    {
        self.search_complete && self.nodes_evaluated <= self.node_limit
    }
}

/// A rejection counts once in its category and nowhere else, and never makes an incomplete search
/// complete.
pub proof fn rejection_counts_once(
    certificate: CertificateView,
    reason: RejectionReason,
    other: RejectionReason,
)
    requires
        crate::collections::ordered_entries(certificate.rejection_counts),
    ensures
        certificate.rejected(reason).search_complete ==> certificate.search_complete,
        certificate.rejected(reason).count(other) == certificate.count(other) + (if other == reason
            && certificate.count(reason) < u64::MAX {
            1int
        } else {
            0int
        }),
{
    crate::collections::value_of_with_value(
        certificate.rejection_counts,
        reason,
        (certificate.count(reason) + 1) as u64,
        other,
    );
}

} // verus!
