use kiro_rs::available_profiles::{ListAvailableProfilesResponse, Profile};

fn profile(arn: &str) -> Profile {
    Profile {
        arn: arn.to_string(),
        profile_name: None,
    }
}

#[test]
fn test_region_from_arn_malformed() {
    let p = Profile {
        arn: "not-an-arn".to_string(),
        profile_name: None,
    };
    assert_eq!(p.region_from_arn(), None);
}

#[test]
fn region_is_fourth_field() {
    let p = profile("arn:aws:codewhisperer:us-east-1:610548660232:profile/VNECVYCYYAWN");
    assert_eq!(p.region_from_arn(), Some("us-east-1"));
    assert_eq!(profile("a:b:c:eu-west-1").region_from_arn(), Some("eu-west-1"));
    assert_eq!(profile("a:b:c::d").region_from_arn(), None);
    assert_eq!(profile("a:b:c").region_from_arn(), None);
    assert_eq!(profile("").region_from_arn(), None);
    let resp = ListAvailableProfilesResponse { profiles: vec![p] };
    assert_eq!(resp.profiles.len(), 1);
}
