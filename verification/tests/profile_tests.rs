use display_switch::display::DisplaySpec;
use display_switch::profile::{ProfileError, ProfileManager};

fn spec(width: u32, height: u32, refresh_millihertz: u32) -> DisplaySpec {
    DisplaySpec {
        width: Some(width),
        height: Some(height),
        refresh_millihertz: Some(refresh_millihertz),
        aspect_ratio: None,
    }
}

#[test]
fn test_create_and_get_profile() {
    let mut manager = ProfileManager::new();

    let specs = vec![spec(1920, 1080, 60_000)];

    manager.create_profile("test".to_string(), specs.clone()).unwrap();
    let retrieved_specs = manager.get_profile("test").unwrap();

    assert_eq!(specs, retrieved_specs);
}

#[test]
fn test_list_profiles() {
    let mut manager = ProfileManager::new();

    let specs1 = vec![spec(1920, 1080, 60_000)];
    let specs2 = vec![spec(2560, 1440, 144_000)];

    manager.create_profile("profile1".to_string(), specs1.clone()).unwrap();
    manager.create_profile("profile2".to_string(), specs2.clone()).unwrap();

    let profiles = manager.list_profiles();
    assert_eq!(profiles.len(), 2);

    // Should be sorted alphabetically
    assert_eq!(profiles[0].0, "profile1");
    assert_eq!(profiles[1].0, "profile2");
}

#[test]
fn test_delete_profile() {
    let mut manager = ProfileManager::new();

    let specs = vec![spec(1920, 1080, 60_000)];

    manager.create_profile("test".to_string(), specs).unwrap();
    assert!(manager.profile_exists("test"));

    manager.delete_profile("test").unwrap();
    assert!(!manager.profile_exists("test"));
}

#[test]
fn test_list_profiles_sorted_regardless_of_creation_order() {
    let mut manager = ProfileManager::new();
    manager.create_profile("work".to_string(), vec![spec(2560, 1440, 60_000)]).unwrap();
    manager.create_profile("gaming".to_string(), vec![spec(1920, 1080, 144_000)]).unwrap();
    manager.create_profile("movies".to_string(), vec![spec(3840, 2160, 24_000)]).unwrap();

    let profiles = manager.list_profiles();
    let names: Vec<&str> = profiles.iter().map(|p| p.0.as_str()).collect();
    assert_eq!(names, vec!["gaming", "movies", "work"]);
}

#[test]
fn test_create_profile_replaces_existing() {
    let mut manager = ProfileManager::new();
    manager.create_profile("main".to_string(), vec![spec(1920, 1080, 60_000)]).unwrap();
    manager.create_profile("main".to_string(), vec![spec(2560, 1440, 144_000)]).unwrap();

    let profiles = manager.list_profiles();
    assert_eq!(profiles.len(), 1);
    assert_eq!(manager.get_profile("main").unwrap(), vec![spec(2560, 1440, 144_000)]);
}

#[test]
fn test_create_profile_rejects_empty_spec_list() {
    let mut manager = ProfileManager::new();
    assert_eq!(
        manager.create_profile("empty".to_string(), Vec::new()),
        Err(ProfileError::EmptyProfile)
    );
    assert!(!manager.profile_exists("empty"));
}

#[test]
fn test_missing_profile_not_found() {
    let mut manager = ProfileManager::new();
    assert_eq!(manager.get_profile("nope"), Err(ProfileError::NotFound));
    assert_eq!(manager.delete_profile("nope"), Err(ProfileError::NotFound));
}
