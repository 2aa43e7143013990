use spotlight_dimmer::platform::{ActiveWindowInfo, DisplayInfo};

#[test]
fn test_display_info_creation() {
    let display = DisplayInfo {
        id: "display-1".to_string(),
        name: "Primary Monitor".to_string(),
        x: 0,
        y: 0,
        width: 1920,
        height: 1080,
        is_primary: true,
    };

    assert_eq!(display.id, "display-1");
    assert_eq!(display.name, "Primary Monitor");
    assert_eq!(display.x, 0);
    assert_eq!(display.y, 0);
    assert_eq!(display.width, 1920);
    assert_eq!(display.height, 1080);
    assert!(display.is_primary);
}

#[test]
fn test_display_info_clone() {
    let display1 = DisplayInfo {
        id: "display-1".to_string(),
        name: "Monitor 1".to_string(),
        x: 0,
        y: 0,
        width: 1920,
        height: 1080,
        is_primary: true,
    };

    let display2 = display1.clone();

    assert_eq!(display1.id, display2.id);
    assert_eq!(display1.width, display2.width);
    assert_eq!(display1.is_primary, display2.is_primary);
}

#[test]
fn test_active_window_info_creation() {
    let window = ActiveWindowInfo {
        handle: 12345678,
        display_id: "display-1".to_string(),
        process_name: "notepad.exe".to_string(),
        window_title: "Untitled - Notepad".to_string(),
    };

    assert_eq!(window.handle, 12345678);
    assert_eq!(window.display_id, "display-1");
    assert_eq!(window.process_name, "notepad.exe");
    assert_eq!(window.window_title, "Untitled - Notepad");
}

#[test]
fn test_active_window_info_clone() {
    let window1 = ActiveWindowInfo {
        handle: 98765,
        display_id: "display-2".to_string(),
        process_name: "chrome.exe".to_string(),
        window_title: "Google Chrome".to_string(),
    };

    let window2 = window1.clone();

    assert_eq!(window1.handle, window2.handle);
    assert_eq!(window1.display_id, window2.display_id);
    assert_eq!(window1.process_name, window2.process_name);
}

#[test]
fn test_display_info_negative_coordinates() {
    let display = DisplayInfo {
        id: "display-2".to_string(),
        name: "Secondary Monitor".to_string(),
        x: -1920,
        y: 0,
        width: 1920,
        height: 1080,
        is_primary: false,
    };

    assert_eq!(display.x, -1920);
    assert_eq!(display.y, 0);
    assert!(!display.is_primary);
}

#[test]
fn test_display_info_vertical_layout() {
    let display = DisplayInfo {
        id: "display-top".to_string(),
        name: "Top Monitor".to_string(),
        x: 0,
        y: -1080,
        width: 1920,
        height: 1080,
        is_primary: false,
    };

    assert_eq!(display.y, -1080);
}

#[test]
fn test_display_info_various_resolutions() {
    let display_4k = DisplayInfo {
        id: "4k".to_string(),
        name: "4K Monitor".to_string(),
        x: 0,
        y: 0,
        width: 3840,
        height: 2160,
        is_primary: true,
    };
    assert_eq!(display_4k.width, 3840);
    assert_eq!(display_4k.height, 2160);

    let display_1080p = DisplayInfo {
        id: "1080p".to_string(),
        name: "Full HD".to_string(),
        x: 0,
        y: 0,
        width: 1920,
        height: 1080,
        is_primary: false,
    };
    assert_eq!(display_1080p.width, 1920);

    let display_ultrawide = DisplayInfo {
        id: "ultrawide".to_string(),
        name: "Ultrawide".to_string(),
        x: 0,
        y: 0,
        width: 3440,
        height: 1440,
        is_primary: false,
    };
    assert_eq!(display_ultrawide.width, 3440);
    assert_eq!(display_ultrawide.height, 1440);
}

#[test]
fn test_active_window_info_empty_title() {
    let window = ActiveWindowInfo {
        handle: 1,
        display_id: "display-1".to_string(),
        process_name: "system.exe".to_string(),
        window_title: "".to_string(),
    };

    assert_eq!(window.window_title, "");
}

#[test]
fn test_active_window_info_special_characters() {
    let window = ActiveWindowInfo {
        handle: 1,
        display_id: "display-1".to_string(),
        process_name: "app.exe".to_string(),
        window_title: "File: C:\\Users\\Test\\Document.txt - Editor".to_string(),
    };

    assert!(window.window_title.contains("\\"));
    assert!(window.window_title.contains(":"));
}

#[test]
fn test_display_info_debug_format() {
    let display = DisplayInfo {
        id: "test".to_string(),
        name: "Test".to_string(),
        x: 0,
        y: 0,
        width: 800,
        height: 600,
        is_primary: true,
    };

    let debug_str = format!("{:?}", display);
    assert!(debug_str.contains("DisplayInfo"));
    assert!(debug_str.contains("test"));
}

#[test]
fn test_active_window_info_debug_format() {
    let window = ActiveWindowInfo {
        handle: 123,
        display_id: "test".to_string(),
        process_name: "test.exe".to_string(),
        window_title: "Test".to_string(),
    };

    let debug_str = format!("{:?}", window);
    assert!(debug_str.contains("ActiveWindowInfo"));
    assert!(debug_str.contains("123"));
}
