use stargazer_report::analyzer::{analyze, AnalysisResult, OrgMembershipOutcome, SkippedReason};

fn logins(names: &[&str]) -> Vec<String> {
    names.iter().map(|n| n.to_string()).collect()
}

#[test]
fn not_an_organization_is_a_skip_not_an_error() {
    let stars = logins(&["a", "b"]);
    let r = analyze(&stars, &OrgMembershipOutcome::NotAnOrganization);
    assert_eq!(r, Err(SkippedReason::TargetIsIndividualAccount));
}

#[test]
fn one_member_among_three_stars() {
    let stars = logins(&["a", "b", "c"]);
    let members = OrgMembershipOutcome::Members(logins(&["b"]));
    let r = analyze(&stars, &members).unwrap();
    assert_eq!(
        r,
        AnalysisResult {
            total_stars: 3,
            internal_stars: 1,
            external_stars: 2,
            percentage_internal: 34,
        }
    );
}

#[test]
fn no_stars_is_a_skip_with_no_division() {
    let stars: Vec<String> = Vec::new();
    let members = OrgMembershipOutcome::Members(Vec::new());
    let r = analyze(&stars, &members);
    assert_eq!(r, Err(SkippedReason::NoStars));
}

#[test]
fn no_stars_skip_takes_priority_over_nonempty_members() {
    let stars: Vec<String> = Vec::new();
    let members = OrgMembershipOutcome::Members(logins(&["m"]));
    let r = analyze(&stars, &members);
    assert_eq!(r, Err(SkippedReason::NoStars));
}

#[test]
fn all_stars_internal_is_one_hundred_percent() {
    let stars = logins(&["a", "b"]);
    let members = OrgMembershipOutcome::Members(logins(&["a", "b", "c"]));
    let r = analyze(&stars, &members).unwrap();
    assert_eq!(r.internal_stars, 2);
    assert_eq!(r.external_stars, 0);
    assert_eq!(r.percentage_internal, 100);
}

#[test]
fn no_stars_internal_is_zero_percent() {
    let stars = logins(&["a"]);
    let members = OrgMembershipOutcome::Members(Vec::new());
    let r = analyze(&stars, &members).unwrap();
    assert_eq!(r.internal_stars, 0);
    assert_eq!(r.external_stars, 1);
    assert_eq!(r.percentage_internal, 0);
}

#[test]
fn percentage_rounds_up_not_to_nearest() {
    // 2 of 3: exactly 66.66..%, which rounds up to 67.
    let stars = logins(&["a", "b", "c"]);
    let members = OrgMembershipOutcome::Members(logins(&["a", "b"]));
    let r = analyze(&stars, &members).unwrap();
    assert_eq!(r.internal_stars, 2);
    assert_eq!(r.percentage_internal, 67);
}

#[test]
fn duplicate_stargazers_count_each_occurrence() {
    let stars = logins(&["b", "b", "c"]);
    let members = OrgMembershipOutcome::Members(logins(&["b"]));
    let r = analyze(&stars, &members).unwrap();
    assert_eq!(r.internal_stars, 2);
    assert_eq!(r.external_stars, 1);
    assert_eq!(r.total_stars, 3);
}

#[test]
fn membership_is_case_sensitive() {
    let stars = logins(&["Alice"]);
    let members = OrgMembershipOutcome::Members(logins(&["alice"]));
    let r = analyze(&stars, &members).unwrap();
    assert_eq!(r.internal_stars, 0);
    assert_eq!(r.external_stars, 1);
}

#[test]
fn counts_always_add_up() {
    let cases: Vec<(Vec<String>, Vec<String>)> = vec![
        (logins(&["a"]), logins(&["a"])),
        (logins(&["a", "b", "c", "d"]), logins(&["b", "d", "e"])),
        (logins(&["x", "x", "y"]), logins(&["y"])),
    ];
    for (stars, members) in cases {
        let r = analyze(&stars, &OrgMembershipOutcome::Members(members)).unwrap();
        assert_eq!(r.internal_stars + r.external_stars, r.total_stars);
        assert!(r.percentage_internal <= 100);
    }
}
