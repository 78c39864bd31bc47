use asteria::logger::{decimal_u32, serial_frame, Level, LogFilter};

#[test]
fn decimal_digits() {
    assert_eq!(decimal_u32(0), b"0".to_vec());
    assert_eq!(decimal_u32(7), b"7".to_vec());
    assert_eq!(decimal_u32(10), b"10".to_vec());
    assert_eq!(decimal_u32(40213), b"40213".to_vec());
    assert_eq!(decimal_u32(u32::MAX), b"4294967295".to_vec());
}

#[test]
fn filter_levels() {
    let mut f = LogFilter::new();
    assert_eq!(f.min, Level::Info);
    assert!(f.enabled(Level::Error));
    assert!(f.enabled(Level::Info));
    assert!(!f.enabled(Level::Debug));
    f.set_level(Level::Trace);
    assert!(f.enabled(Level::Trace));
    f.set_level(Level::Error);
    assert!(!f.enabled(Level::Warn));
    assert_eq!(Level::Trace.as_u8(), 4);
}

#[test]
fn serial_frames() {
    let f = LogFilter::new();
    assert_eq!(
        serial_frame(&f, Level::Warn, "kernel/mem.rs", 42, "heap at 0x1000"),
        Some(b"[W] kernel/mem.rs:42 heap at 0x1000\r\n".to_vec())
    );
    assert_eq!(
        serial_frame(&f, Level::Error, "a.rs", 0, "one\ntwo"),
        Some(b"[E] a.rs:0 one\r\ntwo\r\n".to_vec())
    );
    assert_eq!(serial_frame(&f, Level::Debug, "a.rs", 1, "quiet"), None);
}
