use avatar_core::camera::{frame_length, FRAME_TOO_LARGE, MAX_FRAME_BYTES};
use avatar_core::capture::ScreenCapture;
use avatar_core::memory::{long_term_query, HISTORY_LIMIT};
use avatar_core::system_monitor::{
    add_browser_title, battery_level, disk_totals, gpu_name, is_browser_process, is_charging, top_processes,
    MAX_LISTED_PROCESSES,
};

#[test]
fn camera_frame_headers() {
    assert_eq!(frame_length([0, 0, 1, 0]), Ok(256));
    assert_eq!(frame_length([0, 0x50, 0, 0]), Ok(MAX_FRAME_BYTES));
    assert_eq!(frame_length([0, 0x50, 0, 1]), Err(FRAME_TOO_LARGE));
    assert_eq!(frame_length([0xff, 0xff, 0xff, 0xff]), Err("Frame size too large (exceeds 5MB limit)"));
}

#[test]
fn screen_geometry_and_jpeg() {
    let s = ScreenCapture::new(4, 2);
    assert_eq!(s.dimensions(), (4, 2));
    assert_eq!(s.frame_buffer_len(), 32);
    let pixels = vec![128u8; 32];
    let jpeg = s.encode_jpeg(&pixels, 50).unwrap();
    assert_eq!(&jpeg[..2], &[0xff, 0xd8]);
    assert!(s.encode_jpeg(&pixels[..31], 50).is_err());
    assert!(ScreenCapture::new(0, 2).encode_jpeg(&pixels, 50).is_err());
}

#[test]
fn long_term_queries() {
    let (q, p) = long_term_query(Some("prefs"));
    assert_eq!(q, "SELECT fact FROM memory_long_term WHERE category = ?1 ORDER BY id DESC");
    assert_eq!(p, vec!["prefs".to_string()]);
    let (q, p) = long_term_query(None);
    assert_eq!(q, "SELECT fact FROM memory_long_term ORDER BY id DESC");
    assert!(p.is_empty());
    assert_eq!(HISTORY_LIMIT, 10);
}

#[test]
fn heaviest_processes_first_ties_in_order() {
    let mem = vec![10, 50, 30, 50, 5];
    assert_eq!(top_processes(&mem, 3), vec![1, 3, 2]);
    assert_eq!(top_processes(&mem, 15), vec![1, 3, 2, 0, 4]);
    assert_eq!(top_processes(&mem, 0), Vec::<usize>::new());
    let many: Vec<u64> = (0..40).collect();
    let top = top_processes(&many, MAX_LISTED_PROCESSES);
    assert_eq!(top, (25..40).rev().collect::<Vec<usize>>());
}

#[test]
fn browser_windows() {
    assert!(is_browser_process("Chrome.exe"));
    assert!(is_browser_process("msedge.exe"));
    assert!(!is_browser_process("notepad.exe"));
    let mut titles = Vec::new();
    add_browser_title(&mut titles, "  YouTube - Google Chrome ");
    add_browser_title(&mut titles, "YouTube - Google Chrome");
    add_browser_title(&mut titles, "   ");
    add_browser_title(&mut titles, "Inbox");
    assert_eq!(titles, vec!["YouTube - Google Chrome".to_string(), "Inbox".to_string()]);
}

#[test]
fn disks_battery_and_adapters() {
    assert_eq!(disk_totals(&vec![(100, 40), (50, 50)]), (150, 60));
    assert_eq!(disk_totals(&Vec::new()), (0, 0));
    assert_eq!(battery_level(255), 100);
    assert_eq!(battery_level(42), 42);
    assert!(is_charging(1, 0));
    assert!(is_charging(0, 8));
    assert!(!is_charging(0, 1));
    assert_eq!(gpu_name("\0\0NVIDIA GeForce\0\0\0"), "NVIDIA GeForce");
    assert_eq!(gpu_name("\0\0"), "");
}
