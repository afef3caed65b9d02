use window_harness::windows::{OpenWindows, WindowEvent};

fn three() -> OpenWindows {
    let mut windows = OpenWindows::new();
    assert!(windows.open(7));
    assert!(windows.open(3));
    assert!(windows.open(9));
    windows
}

#[test]
fn no_window_is_open_at_first() {
    let windows = OpenWindows::new();
    assert!(windows.is_empty());
    assert_eq!(windows.len(), 0);
    assert_eq!(windows.ids(), Vec::<u64>::new());
    assert!(!windows.is_open(0));
}

#[test]
fn windows_stay_in_the_order_of_opening() {
    let windows = three();
    assert_eq!(windows.ids(), vec![7, 3, 9]);
    assert_eq!(windows.len(), 3);
    assert!(!windows.is_empty());
    assert!(windows.is_open(3));
    assert!(!windows.is_open(4));
}

#[test]
fn opening_an_open_window_changes_nothing() {
    let mut windows = three();
    assert!(!windows.open(7));
    assert_eq!(windows.ids(), vec![7, 3, 9]);
}

#[test]
fn close_takes_one_window_out() {
    let mut windows = three();
    assert!(windows.close(3));
    assert_eq!(windows.ids(), vec![7, 9]);
    assert!(!windows.close(3));
    assert_eq!(windows.ids(), vec![7, 9]);
    assert!(windows.close(7));
    assert!(windows.close(9));
    assert!(windows.is_empty());
}

#[test]
fn a_close_request_closes_its_window() {
    let mut windows = three();
    assert_eq!(windows.handle(WindowEvent::CloseRequested { window: 9 }), Some(9));
    assert_eq!(windows.ids(), vec![7, 3]);
    assert_eq!(windows.handle(WindowEvent::CloseRequested { window: 9 }), None);
    assert_eq!(windows.handle(WindowEvent::CloseRequested { window: 100 }), None);
    assert_eq!(windows.ids(), vec![7, 3]);
}

#[test]
fn other_events_change_nothing() {
    let mut windows = three();
    assert_eq!(windows.handle(WindowEvent::CursorMoved { window: 7 }), None);
    assert_eq!(windows.handle(WindowEvent::CursorMoved { window: 8 }), None);
    assert_eq!(windows.handle(WindowEvent::Other), None);
    assert_eq!(windows.ids(), vec![7, 3, 9]);
}

#[test]
fn drawing_ends_when_the_last_window_closes() {
    let mut windows = three();
    let first = vec![
        WindowEvent::CursorMoved { window: 3 },
        WindowEvent::CloseRequested { window: 3 },
        WindowEvent::Other,
        WindowEvent::CloseRequested { window: 7 },
    ];
    assert!(!windows.handle_all(&first));
    assert_eq!(windows.ids(), vec![9]);
    assert!(!windows.handle_all(&vec![]));
    assert!(windows.handle_all(&vec![WindowEvent::CloseRequested { window: 9 }]));
    assert!(windows.is_empty());
}

#[test]
fn without_windows_drawing_ends_after_one_round() {
    let mut windows = OpenWindows::new();
    assert!(windows.handle_all(&vec![WindowEvent::Other]));
}

#[test]
fn a_closed_window_can_be_opened_again() {
    let mut windows = three();
    assert!(windows.close(7));
    assert!(windows.open(7));
    assert_eq!(windows.ids(), vec![3, 9, 7]);
}
