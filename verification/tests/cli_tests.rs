use display_switch::cli::{Args, ParsedArgs};

fn base_args() -> Args {
    Args {
        spec_or_profile: None,
        spec: Vec::new(),
        exact: false,
        list: false,
        json: false,
        create_profile: None,
        profile: None,
        list_profiles: false,
        current: false,
    }
}

#[test]
fn test_parse_current_wins_over_everything() {
    let args = Args { current: true, list: true, json: true, ..base_args() };
    assert_eq!(args.into_parsed_args(), ParsedArgs::Current { json: true });
}

#[test]
fn test_parse_list_profiles() {
    let args = Args { list_profiles: true, ..base_args() };
    assert_eq!(args.into_parsed_args(), ParsedArgs::ListProfiles);
}

#[test]
fn test_parse_create_profile() {
    let args = Args {
        create_profile: Some("gaming".to_string()),
        spec: vec!["1920x1080@144hz".to_string()],
        ..base_args()
    };
    assert_eq!(
        args.into_parsed_args(),
        ParsedArgs::CreateProfile {
            name: "gaming".to_string(),
            spec: vec!["1920x1080@144hz".to_string()],
        }
    );
}

#[test]
fn test_parse_profile() {
    let args = Args { profile: Some("work".to_string()), ..base_args() };
    assert_eq!(args.into_parsed_args(), ParsedArgs::Profile { name: "work".to_string() });
}

#[test]
fn test_parse_list_takes_first_spec_as_filter() {
    let args = Args {
        list: true,
        json: true,
        spec: vec!["16:9".to_string(), "4:3".to_string()],
        ..base_args()
    };
    assert_eq!(
        args.into_parsed_args(),
        ParsedArgs::List { spec: Some("16:9".to_string()), json: true }
    );
    let bare = Args { list: true, ..base_args() };
    assert_eq!(bare.into_parsed_args(), ParsedArgs::List { spec: None, json: false });
}

#[test]
fn test_parse_positional_alone() {
    let args = Args {
        spec_or_profile: Some("1080p".to_string()),
        exact: true,
        ..base_args()
    };
    assert_eq!(
        args.into_parsed_args(),
        ParsedArgs::SpecOrProfile { value: "1080p".to_string(), exact: true }
    );
}

#[test]
fn test_parse_positional_combined_with_specs() {
    let args = Args {
        spec_or_profile: Some("1080p".to_string()),
        spec: vec!["720p".to_string()],
        ..base_args()
    };
    assert_eq!(
        args.into_parsed_args(),
        ParsedArgs::Switch {
            spec: vec!["1080p".to_string(), "720p".to_string()],
            exact: false,
        }
    );
}

#[test]
fn test_parse_plain_switch() {
    let args = Args {
        spec: vec!["1920x1080@60hz".to_string(), "1280x720".to_string()],
        exact: true,
        ..base_args()
    };
    assert_eq!(
        args.into_parsed_args(),
        ParsedArgs::Switch {
            spec: vec!["1920x1080@60hz".to_string(), "1280x720".to_string()],
            exact: true,
        }
    );
}
