use display_switch::display::{gcd, DisplayError, DisplayManager, DisplayMode, DisplaySpec};
use display_switch::parser::calculate_width_from_height;

fn mode(width: u32, height: u32, refresh_millihertz: u32) -> DisplayMode {
    DisplayMode { width, height, refresh_millihertz }
}

fn empty_spec() -> DisplaySpec {
    DisplaySpec { width: None, height: None, refresh_millihertz: None, aspect_ratio: None }
}

fn resolution_spec(width: u32, height: u32, refresh_millihertz: Option<u32>) -> DisplaySpec {
    DisplaySpec {
        width: Some(width),
        height: Some(height),
        refresh_millihertz,
        aspect_ratio: None,
    }
}

#[test]
fn test_display_spec_matches_filter() {
    let spec = DisplaySpec {
        width: Some(1920),
        height: Some(1080),
        refresh_millihertz: Some(60_000),
        aspect_ratio: None,
    };

    let filter1 = DisplaySpec {
        width: Some(1920),
        height: Some(1080),
        refresh_millihertz: None,
        aspect_ratio: None,
    };
    assert!(spec.matches_filter(&filter1));

    let filter2 = DisplaySpec {
        width: None,
        height: None,
        refresh_millihertz: Some(60_000),
        aspect_ratio: Some((16, 9)),
    };
    assert!(spec.matches_filter(&filter2));
}

#[test]
fn test_gcd() {
    assert_eq!(gcd(1920, 1080), 120);
    assert_eq!(gcd(16, 9), 1);
    assert_eq!(gcd(4, 3), 1);
}

#[test]
fn test_empty_filter_matches_any_mode() {
    let modes = [mode(1920, 1080, 60_000), mode(640, 480, 59_940), mode(7680, 4320, 240_000)];
    for m in modes {
        assert!(m.matches_filter(&empty_spec()));
    }
}

#[test]
fn test_mode_matches_own_resolution_filter() {
    let modes = [mode(1920, 1080, 60_000), mode(2560, 1080, 75_000), mode(1, 1, 1)];
    for m in modes {
        let filter = DisplaySpec {
            width: Some(m.width),
            height: Some(m.height),
            refresh_millihertz: None,
            aspect_ratio: None,
        };
        assert!(m.matches_filter(&filter));
    }
}

#[test]
fn test_mode_filter_mismatches() {
    let m = mode(1920, 1080, 60_000);
    // differing resolution
    assert!(!m.matches_filter(&resolution_spec(2560, 1440, None)));
    // differing aspect ratio
    let ultrawide = DisplaySpec {
        width: None,
        height: None,
        refresh_millihertz: None,
        aspect_ratio: Some((21, 9)),
    };
    assert!(!m.matches_filter(&ultrawide));
    // rate off by more than the 0.1 Hz tolerance
    let fast = DisplaySpec {
        width: None,
        height: None,
        refresh_millihertz: Some(60_101),
        aspect_ratio: None,
    };
    assert!(!m.matches_filter(&fast));
    // rate off by exactly the tolerance still matches
    let close = DisplaySpec {
        width: None,
        height: None,
        refresh_millihertz: Some(60_100),
        aspect_ratio: None,
    };
    assert!(m.matches_filter(&close));
}

#[test]
fn test_rounded_rate_within_tolerance() {
    // 59.94 Hz reported for a 60 Hz request differs by 0.06 Hz: within tolerance
    let m = mode(1920, 1080, 59_940);
    let f = DisplaySpec {
        width: None,
        height: None,
        refresh_millihertz: Some(60_000),
        aspect_ratio: None,
    };
    assert!(m.matches_filter(&f));
}

#[test]
fn test_resolution_first_exact_match() {
    let catalog = vec![
        mode(1920, 1080, 60_000),
        mode(1920, 1080, 144_000),
        mode(2560, 1440, 60_000),
    ];
    let spec = resolution_spec(1920, 1080, None);
    // no target rate: the max-rate mode at that resolution wins
    assert_eq!(spec.to_concrete_spec(&catalog), Some(mode(1920, 1080, 144_000)));
}

#[test]
fn test_refresh_rate_overshoot_preferred() {
    let catalog = vec![mode(1920, 1080, 50_000), mode(1920, 1080, 75_000)];
    let spec = resolution_spec(1920, 1080, Some(60_000));
    // the closest higher rate wins over a closer lower one
    assert_eq!(spec.to_concrete_spec(&catalog), Some(mode(1920, 1080, 75_000)));
}

#[test]
fn test_refresh_rate_undershoot_fallback() {
    let catalog = vec![mode(1920, 1080, 30_000), mode(1920, 1080, 50_000)];
    let spec = resolution_spec(1920, 1080, Some(90_000));
    // nothing higher: the highest rate below the target wins
    assert_eq!(spec.to_concrete_spec(&catalog), Some(mode(1920, 1080, 50_000)));
}

#[test]
fn test_refresh_rate_exact_within_tolerance() {
    let catalog = vec![mode(1920, 1080, 59_940), mode(1920, 1080, 75_000)];
    let spec = resolution_spec(1920, 1080, Some(60_000));
    // 59.94 is strictly within 0.1 Hz of 60: an exact rate match
    assert_eq!(spec.to_concrete_spec(&catalog), Some(mode(1920, 1080, 59_940)));
}

#[test]
fn test_no_resolution_match_distance_fallback() {
    let catalog = vec![mode(1280, 720, 60_000), mode(3840, 2160, 60_000)];
    let spec = resolution_spec(1920, 1080, None);
    // squared Euclidean distances from (1920, 1080):
    let d_small: u64 = (1920 - 1280u64).pow(2) + (1080 - 720u64).pow(2);
    let d_large: u64 = (3840 - 1920u64).pow(2) + (2160 - 1080u64).pow(2);
    assert_eq!(d_small, 539_200);
    assert_eq!(d_large, 4_852_800);
    assert!(d_small < d_large);
    // the nearer mode wins, keeping its own refresh rate
    assert_eq!(spec.to_concrete_spec(&catalog), Some(mode(1280, 720, 60_000)));
}

#[test]
fn test_distance_fallback_tie_prefers_first() {
    // both modes are equally far from (1920, 1080)
    let catalog = vec![mode(1920, 1280, 30_000), mode(1920, 880, 120_000)];
    let spec = resolution_spec(1920, 1080, None);
    assert_eq!(spec.to_concrete_spec(&catalog), Some(mode(1920, 1280, 30_000)));
}

#[test]
fn test_aspect_ratio_path() {
    // 2560x1080 reduces to 64:27, not 16:9
    let catalog = vec![mode(1920, 1080, 60_000), mode(2560, 1080, 60_000)];
    let spec = DisplaySpec {
        width: None,
        height: None,
        refresh_millihertz: None,
        aspect_ratio: Some((16, 9)),
    };
    assert_eq!(spec.to_concrete_spec(&catalog), Some(mode(1920, 1080, 60_000)));
}

#[test]
fn test_aspect_ratio_no_match() {
    let catalog = vec![mode(1920, 1080, 60_000)];
    let spec = DisplaySpec {
        width: None,
        height: None,
        refresh_millihertz: None,
        aspect_ratio: Some((21, 9)),
    };
    assert_eq!(spec.to_concrete_spec(&catalog), None);
}

#[test]
fn test_rate_only_spec_has_no_concrete_projection() {
    let catalog = vec![mode(1920, 1080, 60_000)];
    let spec = DisplaySpec {
        width: None,
        height: None,
        refresh_millihertz: Some(60_000),
        aspect_ratio: None,
    };
    assert_eq!(spec.to_concrete_spec(&catalog), None);
    // an all-absent spec matches everything as a filter, but has no
    // concrete projection
    assert_eq!(empty_spec().to_concrete_spec(&catalog), None);
}

#[test]
fn test_exact_match_rejects_closest_substitutes() {
    let manager = DisplayManager::new().unwrap();
    let catalog = vec![mode(1920, 1080, 60_000)];
    let spec = resolution_spec(1920, 1080, Some(75_000));
    // the exact policy refuses the 60 Hz mode outright...
    assert_eq!(manager.find_exact_match(&spec, &catalog), None);
    // ...where the closest policy would happily take it
    assert_eq!(spec.to_concrete_spec(&catalog), Some(mode(1920, 1080, 60_000)));
}

#[test]
fn test_exact_match_first_hit() {
    let manager = DisplayManager::new().unwrap();
    let catalog = vec![
        mode(2560, 1440, 60_000),
        mode(1920, 1080, 59_940),
        mode(1920, 1080, 144_000),
    ];
    let spec = resolution_spec(1920, 1080, Some(60_000));
    // 59.94 Hz is within tolerance of 60: the first agreeing mode wins
    assert_eq!(manager.find_exact_match(&spec, &catalog), Some(mode(1920, 1080, 59_940)));
}

#[test]
fn test_empty_catalog_yields_no_match() {
    let manager = DisplayManager::new().unwrap();
    let catalog: Vec<DisplayMode> = Vec::new();
    let specs = [
        empty_spec(),
        resolution_spec(1920, 1080, None),
        resolution_spec(1920, 1080, Some(60_000)),
        DisplaySpec {
            width: None,
            height: None,
            refresh_millihertz: None,
            aspect_ratio: Some((16, 9)),
        },
    ];
    for spec in specs {
        assert_eq!(spec.to_concrete_spec(&catalog), None);
        assert_eq!(manager.find_exact_match(&spec, &catalog), None);
    }
}

#[test]
fn test_switch_display_no_match_and_unsupported() {
    let manager = DisplayManager::new().unwrap();
    // the stub catalog has no 21:9 mode: the matcher reports no match
    let ultrawide = DisplaySpec {
        width: None,
        height: None,
        refresh_millihertz: None,
        aspect_ratio: Some((21, 9)),
    };
    assert_eq!(manager.switch_display(&ultrawide, false), Err(DisplayError::NoMatch));
    // a matching request reaches the stub backend, which cannot apply it
    let full_hd = resolution_spec(1920, 1080, None);
    assert_eq!(manager.switch_display(&full_hd, false), Err(DisplayError::Unsupported));
    // under the exact policy a rate no stub mode carries is a no-match
    let odd_rate = resolution_spec(1920, 1080, Some(75_000));
    assert_eq!(manager.switch_display(&odd_rate, true), Err(DisplayError::NoMatch));
}

#[test]
fn test_list_and_current_modes() {
    let manager = DisplayManager::new().unwrap();
    let modes = manager.list_available_modes().unwrap();
    assert_eq!(
        modes,
        vec![
            mode(1920, 1080, 60_000),
            mode(1920, 1080, 144_000),
            mode(2560, 1440, 60_000),
            mode(2560, 1440, 144_000),
            mode(3840, 2160, 60_000),
        ]
    );
    assert_eq!(manager.get_current_display_mode().unwrap(), mode(1920, 1080, 60_000));
}

#[test]
fn test_calculate_width_from_height() {
    assert_eq!(calculate_width_from_height(480), 640);
    assert_eq!(calculate_width_from_height(576), 768);
    assert_eq!(calculate_width_from_height(720), 1280);
    assert_eq!(calculate_width_from_height(1080), 1920);
    assert_eq!(calculate_width_from_height(1440), 2560);
    assert_eq!(calculate_width_from_height(2160), 3840);
    assert_eq!(calculate_width_from_height(4320), 7680);
    // anything else defaults to 16:9
    assert_eq!(calculate_width_from_height(900), 1600);
    assert_eq!(calculate_width_from_height(999), 1776);
}

#[test]
fn test_render_mode() {
    assert_eq!(mode(1920, 1080, 60_000).render(), "1920x1080@60hz");
    assert_eq!(mode(1920, 1080, 59_940).render(), "1920x1080@59.94hz");
    assert_eq!(mode(640, 480, 59_005).render(), "640x480@59.005hz");
    assert_eq!(mode(640, 480, 59_050).render(), "640x480@59.05hz");
    assert_eq!(mode(640, 480, 59_500).render(), "640x480@59.5hz");
}

#[test]
fn test_render_spec() {
    assert_eq!(resolution_spec(1920, 1080, Some(60_000)).render(), "1920x1080@60hz");
    assert_eq!(resolution_spec(2560, 1440, None).render(), "2560x1440");
    let ratio = DisplaySpec {
        width: None,
        height: None,
        refresh_millihertz: Some(120_000),
        aspect_ratio: Some((16, 9)),
    };
    assert_eq!(ratio.render(), "16:9@120hz");
    let rate_only = DisplaySpec {
        width: None,
        height: None,
        refresh_millihertz: Some(75_000),
        aspect_ratio: None,
    };
    assert_eq!(rate_only.render(), "75hz");
    assert_eq!(empty_spec().render(), "");
}
