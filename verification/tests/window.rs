use wfinfo::window::{find_game_window, window_area, WindowInfo};

fn w(title: &str, width: u32, height: u32) -> WindowInfo {
    WindowInfo { title: title.to_string(), width, height }
}

#[test]
fn no_window_with_the_title() {
    let ws = vec![w("Firefox", 800, 600), w("Terminal", 640, 480)];
    assert_eq!(find_game_window(&ws, &"Warframe".to_string()), None);
    assert_eq!(find_game_window(&Vec::new(), &"Warframe".to_string()), None);
}

#[test]
fn launcher_is_passed_over_for_the_game() {
    let ws = vec![w("Warframe", 600, 400), w("Firefox", 4000, 4000), w("Warframe", 2560, 1440)];
    assert_eq!(find_game_window(&ws, &"Warframe".to_string()), Some(2));
}

#[test]
fn largest_first_is_kept() {
    let ws = vec![w("Warframe", 2560, 1440), w("Warframe", 600, 400)];
    assert_eq!(find_game_window(&ws, &"Warframe".to_string()), Some(0));
}

#[test]
fn equal_areas_take_the_last() {
    let ws = vec![w("Warframe", 100, 200), w("Warframe", 200, 100), w("Other", 200, 100)];
    assert_eq!(find_game_window(&ws, &"Warframe".to_string()), Some(1));
}

#[test]
fn title_must_match_exactly() {
    let ws = vec![w("Warframe Launcher", 100, 100), w("warframe", 100, 100)];
    assert_eq!(find_game_window(&ws, &"Warframe".to_string()), None);
    assert_eq!(find_game_window(&ws, &"warframe".to_string()), Some(1));
}

#[test]
fn area_does_not_overflow() {
    assert_eq!(window_area(&w("x", u32::MAX, u32::MAX)), (u32::MAX as u64) * (u32::MAX as u64));
    assert_eq!(window_area(&w("x", 1920, 1080)), 2_073_600);
}
