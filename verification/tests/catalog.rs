use logo_session::catalog::init_devices;
use logo_session::catalog::shown_before;
use logo_session::catalog::Catalog;
use logo_session::catalog::Device;
use logo_session::catalog::PixelFamily;
use logo_session::error::WorkflowError;

fn device(codename: &str, name: &str, width: u32, height: u32) -> Device {
    Device {
        codename: codename.to_string(),
        name: name.to_string(),
        family: PixelFamily { tag: "RGB565".to_string() },
        width,
        height,
    }
}

fn codenames(listing: &[Device]) -> Vec<String> {
    listing.iter().map(|d| d.codename.clone()).collect()
}

#[test]
fn new_accepts_distinct_codenames() {
    let catalog = Catalog::new(vec![device("a", "Alpha", 1, 2), device("b", "Alpha", 3, 4)]);
    assert_eq!(catalog.map(|c| c.len()), Some(2));
}

#[test]
fn new_accepts_no_devices() {
    let catalog = Catalog::new(Vec::new()).unwrap();
    assert_eq!(catalog.len(), 0);
    assert!(init_devices(&catalog).is_empty());
}

#[test]
fn new_rejects_a_repeated_codename() {
    let devices = vec![device("a", "Alpha", 1, 2), device("b", "Beta", 3, 4), device("a", "Gamma", 5, 6)];
    assert!(Catalog::new(devices).is_none());
}

#[test]
fn lookup_finds_the_device_of_a_codename() {
    let catalog = Catalog::new(vec![
        device("dev1", "Device One", 240, 320),
        device("dev2", "Device Two", 480, 800),
    ])
    .unwrap();
    assert_eq!(catalog.lookup("dev2"), Ok(&device("dev2", "Device Two", 480, 800)));
    assert_eq!(catalog.lookup("dev1"), Ok(&device("dev1", "Device One", 240, 320)));
}

#[test]
fn lookup_of_an_absent_codename_is_unknown_device() {
    let catalog = Catalog::new(vec![device("dev1", "Device One", 240, 320)]).unwrap();
    assert_eq!(catalog.lookup("unknown"), Err(WorkflowError::UnknownDevice("unknown".to_string())));
    assert_eq!(catalog.lookup("dev"), Err(WorkflowError::UnknownDevice("dev".to_string())));
    assert_eq!(catalog.lookup(""), Err(WorkflowError::UnknownDevice(String::new())));
}

#[test]
fn lookup_tells_letter_case_apart() {
    let catalog = Catalog::new(vec![device("dev1", "Device One", 240, 320)]).unwrap();
    assert!(catalog.lookup("Dev1").is_err());
}

#[test]
fn init_devices_orders_by_display_name() {
    let catalog = Catalog::new(vec![
        device("z", "Moto G", 1, 1),
        device("m", "Alcatel", 1, 1),
        device("a", "Xperia", 1, 1),
        device("k", "Galaxy", 1, 1),
    ])
    .unwrap();
    let listing = init_devices(&catalog);
    assert_eq!(codenames(&listing), vec!["m", "k", "z", "a"]);
    assert_eq!(listing[0], device("m", "Alcatel", 1, 1));
}

#[test]
fn init_devices_breaks_ties_by_codename() {
    let catalog = Catalog::new(vec![
        device("osprey", "Moto G", 1, 1),
        device("falcon", "Moto G", 1, 1),
        device("titan", "Moto G", 1, 1),
        device("athene", "Moto E", 1, 1),
    ])
    .unwrap();
    assert_eq!(codenames(&init_devices(&catalog)), vec!["athene", "falcon", "osprey", "titan"]);
}

#[test]
fn init_devices_puts_a_prefix_first_and_capitals_before_small_letters() {
    let catalog = Catalog::new(vec![
        device("1", "moto", 1, 1),
        device("2", "Moto G", 1, 1),
        device("3", "Moto", 1, 1),
        device("4", "", 1, 1),
    ])
    .unwrap();
    assert_eq!(codenames(&init_devices(&catalog)), vec!["4", "3", "2", "1"]);
}

#[test]
fn init_devices_agrees_with_the_order_of_strings() {
    let names = ["Émile", "Zed", "abc", "ab", "Ab", "éa", "日本", "a b", "a-b", "a", "~", "Z"];
    let devices: Vec<Device> =
        names.iter().enumerate().map(|(i, n)| device(&format!("c{}", i), n, 1, 1)).collect();
    let catalog = Catalog::new(devices).unwrap();
    let listed: Vec<String> = init_devices(&catalog).into_iter().map(|d| d.name).collect();
    let mut expected: Vec<String> = names.iter().map(|n| n.to_string()).collect();
    expected.sort();
    assert_eq!(listed, expected);
}

#[test]
fn init_devices_keeps_every_device() {
    let devices = vec![device("b", "B", 10, 20), device("a", "A", 30, 40), device("c", "A", 50, 60)];
    let catalog = Catalog::new(devices).unwrap();
    let listing = init_devices(&catalog);
    assert_eq!(listing, vec![device("a", "A", 30, 40), device("c", "A", 50, 60), device("b", "B", 10, 20)]);
    assert_eq!(catalog.len(), 3);
}

#[test]
fn shown_before_compares_name_then_codename() {
    assert!(shown_before(&device("z", "A", 1, 1), &device("a", "B", 1, 1)));
    assert!(!shown_before(&device("a", "B", 1, 1), &device("z", "A", 1, 1)));
    assert!(shown_before(&device("a", "A", 1, 1), &device("b", "A", 1, 1)));
    assert!(!shown_before(&device("b", "A", 1, 1), &device("a", "A", 1, 1)));
    assert!(shown_before(&device("a", "A", 1, 1), &device("a", "A", 9, 9)));
}

#[test]
fn clone_keeps_every_field() {
    let d = Device {
        codename: "dev1".to_string(),
        name: "Device One".to_string(),
        family: PixelFamily { tag: "RGB888".to_string() },
        width: 240,
        height: 320,
    };
    assert_eq!(d.clone(), d);
}
