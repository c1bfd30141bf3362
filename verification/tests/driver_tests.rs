use ev3_driver::attribute::Attribute;
use ev3_driver::driver::{DeviceEntry, Driver};
use ev3_driver::error::Ev3Error;
use ev3_driver::strutil::{contains_sub, str_eq};

fn entry(name: &str, address: &str, driver_name: &str) -> DeviceEntry {
    DeviceEntry::new(name, address, driver_name)
}

#[test]
fn describe_renders_identity() {
    let d = Driver::new("tacho-motor", "motor0");
    assert_eq!(d.describe(), "Driver { class_name: tacho-motor, name: motor0 }");
}

#[test]
fn attribute_path_follows_convention() {
    let a = Attribute::new("tacho-motor", "motor0", "address");
    assert_eq!(a.path(), "/sys/class/tacho-motor/motor0/address");
    assert_eq!(a.class_name(), "tacho-motor");
    assert_eq!(a.device_name(), "motor0");
    assert_eq!(a.attribute_name(), "address");
}

#[test]
fn cache_stability_same_path_twice() {
    let mut d = Driver::new("tacho-motor", "motor0");
    let a1 = d.get_attribute("position");
    let a2 = d.get_attribute("position");
    assert_eq!(a1.path(), a2.path());
    assert_eq!(a1.path(), "/sys/class/tacho-motor/motor0/position");
}

#[test]
fn cached_handle_survives_other_insertions() {
    let mut d = Driver::new("tacho-motor", "motor0");
    let a1 = d.get_attribute("position");
    let _ = d.get_attribute("speed");
    let _ = d.get_attribute("duty_cycle");
    let a2 = d.get_attribute("position");
    assert_eq!(a1.path(), a2.path());
}

#[test]
fn clone_shares_identity_with_empty_cache() {
    let mut d = Driver::new("tacho-motor", "motor0");
    let a1 = d.get_attribute("position");
    let mut c = d.clone();
    assert_eq!(c.describe(), d.describe());
    // The clone constructs its own handle afresh; it names the same file.
    let a2 = c.get_attribute("position");
    assert_eq!(a1.path(), a2.path());
}

#[test]
fn attribute_clone_keeps_identity() {
    let a = Attribute::new("lego-sensor", "sensor0", "value0");
    let b = a.clone();
    assert_eq!(a.path(), b.path());
}

#[test]
fn substring_match_examples() {
    assert!(contains_sub("ev3-ports:outA", "outA"));
    assert!(contains_sub("ev3-ports:outA", "ev3-ports:outA"));
    assert!(contains_sub("ev3-ports:outA", ""));
    assert!(!contains_sub("ev3-ports:outA", "outB"));
    assert!(!contains_sub("out", "outA"));
}

#[test]
fn string_equality_examples() {
    assert!(str_eq("lego-ev3-l-motor", "lego-ev3-l-motor"));
    assert!(!str_eq("lego-ev3-l-motor", "lego-ev3-m-motor"));
    assert!(!str_eq("lego-ev3", "lego-ev3-l-motor"));
    assert!(str_eq("", ""));
}

#[test]
fn unique_by_driver() {
    let devices = vec![
        entry("motor0", "ev3-ports:outA", "lego-ev3-l-motor"),
        entry("motor1", "ev3-ports:outB", "lego-ev3-m-motor"),
    ];
    let r = Driver::find_name_by_driver("lego-ev3-m-motor", &devices);
    assert_eq!(r, Ok("motor1".to_string()));
}

#[test]
fn multiple_matches_by_driver() {
    let devices = vec![
        entry("motor0", "ev3-ports:outA", "lego-ev3-l-motor"),
        entry("motor1", "ev3-ports:outB", "lego-ev3-l-motor"),
    ];
    let r = Driver::find_name_by_driver("lego-ev3-l-motor", &devices);
    assert_eq!(r, Err(Ev3Error::MultipleMatches));

    let mut names = Driver::find_names_by_driver("lego-ev3-l-motor", &devices);
    names.sort();
    assert_eq!(names, vec!["motor0".to_string(), "motor1".to_string()]);
}

#[test]
fn empty_class_directory_finds_nothing() {
    let devices: Vec<DeviceEntry> = Vec::new();
    assert_eq!(
        Driver::find_name_by_driver("lego-ev3-l-motor", &devices),
        Err(Ev3Error::NotFound)
    );
    assert_eq!(
        Driver::find_name_by_port("outA", &devices),
        Err(Ev3Error::NotFound)
    );
    assert_eq!(
        Driver::find_name_by_port_and_driver("outA", "lego-ev3-l-motor", &devices),
        Err(Ev3Error::NotFound)
    );
    let names = Driver::find_names_by_driver("lego-ev3-l-motor", &devices);
    assert!(names.is_empty());
}

#[test]
fn port_and_driver_picks_the_joint_match() {
    let devices = vec![
        entry("motor0", "ev3-ports:outA", "lego-ev3-l-motor"),
        entry("motor1", "ev3-ports:outB", "lego-ev3-l-motor"),
    ];
    let r = Driver::find_name_by_port_and_driver("outB", "lego-ev3-l-motor", &devices);
    assert_eq!(r, Ok("motor1".to_string()));
}

#[test]
fn port_match_is_substring_not_equality() {
    let devices = vec![entry("motor0", "ev3-ports:outA", "lego-ev3-l-motor")];
    assert_eq!(
        Driver::find_name_by_port("outA", &devices),
        Ok("motor0".to_string())
    );
    assert_eq!(
        Driver::find_name_by_port("outB", &devices),
        Err(Ev3Error::NotFound)
    );
}

#[test]
fn port_match_returns_first_in_enumeration_order() {
    let devices = vec![
        entry("motor0", "ev3-ports:outA", "lego-ev3-l-motor"),
        entry("motor1", "ev3-ports:outA", "lego-ev3-m-motor"),
    ];
    assert_eq!(
        Driver::find_name_by_port("outA", &devices),
        Ok("motor0".to_string())
    );
}

#[test]
fn driver_match_is_exact_not_prefix() {
    let devices = vec![entry("motor0", "ev3-ports:outA", "lego-ev3-l-motor")];
    assert_eq!(
        Driver::find_name_by_driver("lego-ev3", &devices),
        Err(Ev3Error::NotFound)
    );
    assert_eq!(
        Driver::find_name_by_port_and_driver("outA", "lego-ev3", &devices),
        Err(Ev3Error::NotFound)
    );
}

#[test]
fn names_by_driver_keeps_enumeration_order() {
    let devices = vec![
        entry("motor2", "ev3-ports:outC", "lego-ev3-l-motor"),
        entry("motor0", "ev3-ports:outA", "lego-ev3-m-motor"),
        entry("motor1", "ev3-ports:outB", "lego-ev3-l-motor"),
    ];
    let names = Driver::find_names_by_driver("lego-ev3-l-motor", &devices);
    assert_eq!(names, vec!["motor2".to_string(), "motor1".to_string()]);
}
