use aurorawm::output::{Mode, OutputManager};

fn mode(width: u32, height: u32) -> Mode {
    Mode { width, height, refresh_rate: 60 }
}

#[test]
fn add_replace_remove() {
    let mut m = OutputManager::new();
    assert!(m.get_primary_output().is_none());
    m.add_output("DP-1".to_string(), mode(1920, 1080), 1);
    let o = m.get_primary_output().unwrap();
    assert_eq!(o.name, "DP-1");
    assert_eq!(o.size, (1920, 1080));
    assert_eq!(o.position, (0, 0));
    assert_eq!(o.scale, 1);
    m.add_output("DP-1".to_string(), mode(2560, 1440), 2);
    let o = m.get_primary_output().unwrap();
    assert_eq!(o.mode, mode(2560, 1440));
    assert_eq!(o.size, (2560, 1440));
    assert_eq!(o.scale, 2);
    m.remove_output("HDMI-1");
    assert!(m.get_primary_output().is_some());
    m.remove_output("DP-1");
    assert!(m.get_primary_output().is_none());
}

#[test]
fn two_outputs() {
    let mut m = OutputManager::new();
    m.add_output("A".to_string(), mode(800, 600), 1);
    m.add_output("B".to_string(), mode(1024, 768), 1);
    m.remove_output("A");
    assert_eq!(m.get_primary_output().unwrap().name, "B");
    m.remove_output("B");
    assert!(m.get_primary_output().is_none());
}
