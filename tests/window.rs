use event::{NoWindow, Window, WindowSettings};

#[test]
fn default_settings() {
    let s = WindowSettings::default();
    assert_eq!(s.title, "Piston");
    assert_eq!(s.size, [640, 480]);
    assert_eq!(s.samples, 0);
    assert!(!s.fullscreen);
    assert!(s.exit_on_esc);
}

#[test]
fn no_window_closes_when_told() {
    let mut w = NoWindow::new(WindowSettings::default());
    assert!(!w.should_close());
    assert_eq!(w.get_settings().title, "Piston");
    assert_eq!(w.get_size(), (0, 0));
    assert_eq!(w.get_draw_size(), (0, 0));
    assert!(w.poll_event().is_none());
    w.close();
    assert!(w.should_close());
}

#[test]
fn no_window_keeps_its_settings_and_flag() {
    let mut w = NoWindow::new(WindowSettings::default());
    w.capture_cursor(true);
    w.swap_buffers();
    assert!(w.poll_event().is_none());
    assert!(!w.should_close());
    assert_eq!(w.get_size(), (0, 0));
    w.close();
    w.close();
    w.capture_cursor(false);
    assert!(w.should_close());
    let s = w.get_settings();
    assert_eq!(s.title, "Piston");
    assert_eq!(s.size, [640, 480]);
    assert_eq!(s.samples, 0);
    assert!(!s.fullscreen);
    assert!(s.exit_on_esc);
}
