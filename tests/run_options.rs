use little_shader_display::run_options::{Platform, RunOptions, StartupError};
use little_shader_display::st7789_driver::RaspberryDelay;

fn args(v: &[&str]) -> Vec<String> {
    v.iter().map(|s| s.to_string()).collect()
}

#[test]
fn flags_are_read_in_any_order() {
    let o = RunOptions::from_args(&args(&["prog", "--bluetooth", "--window"]));
    assert_eq!(o, RunOptions { use_window: true, use_st7789: false, use_bluetooth: true });
    let o = RunOptions::from_args(&args(&["prog", "--st7789", "--other", "--window"]));
    assert_eq!(o, RunOptions { use_window: true, use_st7789: true, use_bluetooth: false });
}

#[test]
fn no_flags() {
    let o = RunOptions::from_args(&args(&["prog"]));
    assert_eq!(o, RunOptions { use_window: false, use_st7789: false, use_bluetooth: false });
    let o = RunOptions::from_args(&args(&["--windows", "-window", "--st7789x"]));
    assert_eq!(o, RunOptions { use_window: false, use_st7789: false, use_bluetooth: false });
}

#[test]
fn display_choice_is_checked_per_platform() {
    let none = RunOptions { use_window: false, use_st7789: false, use_bluetooth: false };
    let window = RunOptions { use_window: true, use_st7789: false, use_bluetooth: false };
    let panel = RunOptions { use_window: false, use_st7789: true, use_bluetooth: false };
    let both = RunOptions { use_window: true, use_st7789: true, use_bluetooth: true };
    assert_eq!(none.check(Platform::Linux), Err(StartupError::NoDisplayOnLinux));
    assert_eq!(none.check(Platform::Windows), Err(StartupError::NoDisplayOnWindows));
    assert_eq!(none.check(Platform::Other), Ok(()));
    assert_eq!(panel.check(Platform::Windows), Err(StartupError::St7789OnWindows));
    assert_eq!(both.check(Platform::Windows), Err(StartupError::St7789OnWindows));
    assert_eq!(window.check(Platform::Windows), Ok(()));
    assert_eq!(panel.check(Platform::Linux), Ok(()));
    assert_eq!(both.check(Platform::Linux), Ok(()));
}

#[test]
fn delay_source_is_stateless() {
    assert_eq!(RaspberryDelay::new(), RaspberryDelay);
}
