//! Membership analysis: how many stargazers of a repository are members of
//! its owning organization, and which share of the stars that is.

use vstd::arithmetic::div_mod::{
    lemma_div_is_ordered, lemma_div_pos_is_pos, lemma_fundamental_div_mod_converse,
};
use vstd::prelude::*;

verus! {

/// Why no report was produced: the target account is not an organization, or
/// the repository has no stars at all, so no percentage can be computed.
#[derive(PartialEq, Eq, Structural, Debug, Clone, Copy)]
pub enum SkippedReason {
    TargetIsIndividualAccount,
    NoStars,
}

/// What the organization-members fetch came to: the member logins, or the
/// distinct, non-fatal outcome that the target account is not an organization
/// (the members endpoint answered "not found"/"unprocessable").
pub enum OrgMembershipOutcome {
    Members(Vec<String>),
    NotAnOrganization,
}

/// The derived report record.  `internal_stars + external_stars ==
/// total_stars` always holds, and `percentage_internal` is the ceiling of
/// `100 * internal_stars / total_stars`, a whole number between 0 and 100.
#[derive(PartialEq, Eq, Structural, Debug, Clone, Copy)]
pub struct AnalysisResult {
    pub total_stars: usize,
    pub internal_stars: usize,
    pub external_stars: usize,
    pub percentage_internal: usize,
}

/// Whether `login` occurs among `members` (case-sensitive exact match).
pub open spec fn is_member(members: Seq<Seq<char>>, login: Seq<char>) -> bool {
    members.contains(login)
}

/// How many of `stars` are members: each occurrence counts, so a login that
/// appears twice among the stars is counted twice.
pub open spec fn internal_count(stars: Seq<Seq<char>>, members: Seq<Seq<char>>) -> nat
    decreases stars.len(),
{
    if stars.len() == 0 {
        0
    } else {
        internal_count(stars.drop_last(), members) + (if is_member(members, stars.last()) {
            1nat
        } else {
            0nat
        })
    }
}

/// The ceiling of `100 * internal / total`, as a whole number.
pub open spec fn ceil_percentage(internal: nat, total: nat) -> int
    recommends
        total > 0,
{
    (100 * internal + total - 1) / (total as int)
}

/// The number of internal stars never exceeds the number of stars.
pub proof fn lemma_internal_count_le_len(stars: Seq<Seq<char>>, members: Seq<Seq<char>>)
    ensures
        internal_count(stars, members) <= stars.len(),
    decreases stars.len(),
{
    if stars.len() > 0 {
        lemma_internal_count_le_len(stars.drop_last(), members);
    }
}

/// The percentage of internal stars is a whole number between 0 and 100.
pub proof fn lemma_ceil_percentage_bounds(internal: nat, total: nat)
    requires
        0 < total,
        internal <= total,
    ensures
        0 <= ceil_percentage(internal, total) <= 100,
{
    let t = total as int;
    let num = 100 * (internal as int) + t - 1;
    lemma_div_pos_is_pos(num, t);
    lemma_div_is_ordered(num, 101 * t - 1, t);
    lemma_fundamental_div_mod_converse(101 * t - 1, t, 100, t - 1);
}

/// Whether `login` occurs among `members`, by a linear scan with exact string
/// comparison.
pub fn contains_login(members: &Vec<String>, login: &String) -> (found: bool)
    ensures
        found == is_member(members.deep_view(), login@),
{
    let mut i: usize = 0;
    while i < members.len()
        invariant
            i <= members@.len(),
            forall|j: int| 0 <= j < i ==> members.deep_view()[j] != login@,
        decreases members@.len() - i,
    {
        if members[i] == *login {
            proof {
                assert(members.deep_view()[i as int] == login@);
            }
            return true;
        }
        i = i + 1;
    }
    proof {
        assert(forall|j: int|
            0 <= j < members.deep_view().len() ==> members.deep_view()[j] != login@);
    }
    false
}

/// Derive the report from the stargazer logins and the outcome of the
/// organization-members fetch.  When the target is not an organization, or
/// when there are no stars, no result is produced: the corresponding
/// `SkippedReason` is returned instead, and the caller presents it as an
/// informative outcome, not as an error.
pub fn analyze(stars: &Vec<String>, members: &OrgMembershipOutcome) -> (r: Result<
    AnalysisResult,
    SkippedReason,
>)
    ensures
        match *members {
            OrgMembershipOutcome::NotAnOrganization => r == Err::<AnalysisResult, SkippedReason>(
                SkippedReason::TargetIsIndividualAccount,
            ),
            OrgMembershipOutcome::Members(ms) => {
                if stars@.len() == 0 {
                    r == Err::<AnalysisResult, SkippedReason>(SkippedReason::NoStars)
                } else {
                    &&& r is Ok
                    &&& r->Ok_0.total_stars == stars@.len()
                    &&& r->Ok_0.internal_stars == internal_count(
                        stars.deep_view(),
                        ms.deep_view(),
                    )
                    &&& r->Ok_0.internal_stars + r->Ok_0.external_stars == r->Ok_0.total_stars
                    &&& r->Ok_0.percentage_internal == ceil_percentage(
                        r->Ok_0.internal_stars as nat,
                        r->Ok_0.total_stars as nat,
                    )
                    &&& 0 <= r->Ok_0.percentage_internal <= 100
                }
            },
        },
{
    match members {
        OrgMembershipOutcome::NotAnOrganization => Err(SkippedReason::TargetIsIndividualAccount),
        OrgMembershipOutcome::Members(ms) => {
            if stars.len() == 0 {
                return Err(SkippedReason::NoStars);
            }
            let ghost sv = stars.deep_view();
            let ghost mv = ms.deep_view();
            let total = stars.len();
            let mut internal: usize = 0;
            let mut i: usize = 0;
            while i < total
                invariant
                    total == stars@.len(),
                    i <= total,
                    internal <= i,
                    sv == stars.deep_view(),
                    mv == ms.deep_view(),
                    internal == internal_count(sv.take(i as int), mv),
                decreases total - i,
            {
                let star_is_member = contains_login(ms, &stars[i]);
                proof {
                    assert(sv.take(i + 1).drop_last() =~= sv.take(i as int));
                    assert(sv.take(i + 1).last() == sv[i as int]);
                    assert(sv[i as int] == stars@[i as int]@);
                }
                if star_is_member {
                    internal = internal + 1;
                }
                i = i + 1;
            }
            proof {
                assert(sv.take(total as int) =~= sv);
                lemma_internal_count_le_len(sv, mv);
            }
            let external = total - internal;
            proof {
                lemma_ceil_percentage_bounds(internal as nat, total as nat);
            }
            let num: u128 = 100u128 * (internal as u128) + (total as u128) - 1;
            let pct128: u128 = num / (total as u128);
            proof {
                assert(pct128 == ceil_percentage(internal as nat, total as nat));
            }
            let percentage: usize = pct128 as usize;
            Ok(
                AnalysisResult {
                    total_stars: total,
                    internal_stars: internal,
                    external_stars: external,
                    percentage_internal: percentage,
                },
            )
        },
    }
}

} // verus!
