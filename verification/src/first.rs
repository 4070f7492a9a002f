//! The first finding in a list of checks.
use vstd::prelude::*;

verus! {

/// The first finding, where there is one.
pub open spec fn first_some<F>(findings: Seq<Option<F>>) -> Option<F>
    decreases findings.len(),
{
    if findings.len() == 0 {
        None
    } else if findings[0] is Some {
        findings[0]
    } else {
        first_some(findings.drop_first())
    }
}

/// The first finding of two checks.
pub open spec fn either<F>(a: Option<F>, b: Option<F>) -> Option<F> {
    if a is Some {
        a
    } else {
        b
    }
}

/// What comes after checks without a finding is the first finding.
pub proof fn lemma_first_at<F>(findings: Seq<Option<F>>, i: int)
    requires
        0 <= i < findings.len(),
        forall|j: int| 0 <= j < i ==> findings[j] is None,
        findings[i] is Some,
    ensures
        first_some(findings) == findings[i],
    decreases i,
{
    if i > 0 {
        assert(findings[0] is None);
        assert forall|j: int| 0 <= j < i - 1 implies findings.drop_first()[j] is None by {
            assert(findings.drop_first()[j] == findings[j + 1]);
        }
        assert(findings.drop_first()[i - 1] == findings[i]);
        lemma_first_at(findings.drop_first(), i - 1);
    }
}

/// Checks without a finding have no first finding.
pub proof fn lemma_first_none<F>(findings: Seq<Option<F>>)
    requires
        forall|j: int| 0 <= j < findings.len() ==> findings[j] is None,
    ensures
        first_some(findings) is None,
    decreases findings.len(),
{
    if findings.len() > 0 {
        assert(findings[0] is None);
        assert forall|j: int| 0 <= j < findings.len() - 1 implies findings.drop_first()[j] is None by {
            assert(findings.drop_first()[j] == findings[j + 1]);
        }
        lemma_first_none(findings.drop_first());
    }
}

/// A first finding is one of the findings, and none comes before it.
pub proof fn lemma_first_is_some<F>(findings: Seq<Option<F>>) -> (i: int)
    requires
        first_some(findings) is Some,
    ensures
        0 <= i < findings.len(),
        findings[i] == first_some(findings),
        forall|j: int| 0 <= j < i ==> findings[j] is None,
    decreases findings.len(),
{
    if findings[0] is Some {
        0
    } else {
        let k = lemma_first_is_some(findings.drop_first());
        assert forall|j: int| 0 <= j < k + 1 implies findings[j] is None by {
            if j > 0 {
                assert(findings.drop_first()[j - 1] == findings[j]);
            }
        }
        k + 1
    }
}

/// Without a first finding no check has a finding.
pub proof fn lemma_no_first<F>(findings: Seq<Option<F>>)
    requires
        first_some(findings) is None,
    ensures
        forall|j: int| 0 <= j < findings.len() ==> findings[j] is None,
    decreases findings.len(),
{
    if findings.len() > 0 {
        lemma_no_first(findings.drop_first());
        assert forall|j: int| 0 <= j < findings.len() implies findings[j] is None by {
            if j > 0 {
                assert(findings.drop_first()[j - 1] == findings[j]);
            }
        }
    }
}

/// There is no first finding exactly where no check has a finding.
pub proof fn no_first_finding_means_none<F>(findings: Seq<Option<F>>)
    ensures
        first_some(findings) is None <==> forall|j: int|
            0 <= j < findings.len() ==> (#[trigger] findings[j]) is None,
{
    if first_some(findings) is None {
        lemma_no_first(findings);
    }
    if forall|j: int| 0 <= j < findings.len() ==> (#[trigger] findings[j]) is None {
        lemma_first_none(findings);
    }
}

} // verus!
