use package_list::catalog::{build_inventory, describe, describe_all, find_entry, holds, Package};
use package_list::row::{PackageRow, PackageState};

fn texts(names: &[&str]) -> Vec<String> {
    names.iter().map(|n| n.to_string()).collect()
}

fn entry(name: &str, description: &str, list: &str, confidence: &str) -> Package {
    Package {
        name: name.to_string(),
        description: description.to_string(),
        list: list.to_string(),
        confidence: confidence.to_string(),
    }
}

fn catalog() -> Vec<Package> {
    vec![
        entry("com.google.maps", "Maps", "google", "safe"),
        entry("com.vendor.core", "Core services", "oem", "unsafe"),
        entry("com.google.maps", "A later entry", "misc", "advanced"),
    ]
}

#[test]
fn find_entry_gives_the_first_entry_of_the_name() {
    let c = catalog();
    assert_eq!(
        find_entry(&c, &"com.google.maps".to_string()),
        Some(&entry("com.google.maps", "Maps", "google", "safe"))
    );
    assert_eq!(
        find_entry(&c, &"com.vendor.core".to_string()),
        Some(&entry("com.vendor.core", "Core services", "oem", "unsafe"))
    );
}

#[test]
fn find_entry_gives_none_for_an_unknown_name() {
    let c = catalog();
    assert_eq!(find_entry(&c, &"com.google".to_string()), None);
    assert_eq!(find_entry(&c, &"COM.GOOGLE.MAPS".to_string()), None);
    assert_eq!(find_entry(&Vec::new(), &"com.google.maps".to_string()), None);
}

#[test]
fn holds_says_whether_the_name_is_in_the_list() {
    let names = texts(&["a", "b", "c"]);
    assert!(holds(&names, &"a".to_string()));
    assert!(holds(&names, &"c".to_string()));
    assert!(!holds(&names, &"d".to_string()));
    assert!(!holds(&names, &"A".to_string()));
    assert!(!holds(&Vec::new(), &"a".to_string()));
}

#[test]
fn describe_takes_the_catalog_entry() {
    let row = describe(&"com.google.maps".to_string(), &texts(&["com.google.maps"]), &catalog());
    assert_eq!(
        row,
        PackageRow::new("com.google.maps", PackageState::Installed, "Maps", "google", "safe", false)
    );
}

#[test]
fn describe_defaults_an_unknown_package() {
    let row = describe(&"org.unknown".to_string(), &texts(&["org.unknown"]), &catalog());
    assert_eq!(
        row,
        PackageRow::new(
            "org.unknown",
            PackageState::Installed,
            "[No description]",
            "unlisted",
            "",
            false
        )
    );
}

#[test]
fn describe_marks_a_package_uninstalled_when_not_among_the_installed() {
    let row = describe(&"com.vendor.core".to_string(), &texts(&["com.google.maps"]), &catalog());
    assert_eq!(row.state, PackageState::Uninstalled);
    assert_eq!(row.confidence, "unsafe");
    let none = describe(&"com.vendor.core".to_string(), &Vec::new(), &catalog());
    assert_eq!(none.state, PackageState::Uninstalled);
}

#[test]
fn describe_all_keeps_the_device_order() {
    let rows = describe_all(
        &texts(&["z.app", "com.google.maps", "a.app"]),
        &texts(&["a.app"]),
        &catalog(),
    );
    let names: Vec<&str> = rows.iter().map(|r| r.name.as_str()).collect();
    assert_eq!(names, vec!["z.app", "com.google.maps", "a.app"]);
    assert_eq!(rows[0].state, PackageState::Uninstalled);
    assert_eq!(rows[1].description, "Maps");
    assert_eq!(rows[2].state, PackageState::Installed);
    assert_eq!(rows[2].uad_list, "unlisted");
}

#[test]
fn build_inventory_orders_by_name_without_regard_to_case() {
    let rows = build_inventory(
        &texts(&["b.app", "C.app", "a.app", "D.app"]),
        &texts(&["b.app", "D.app"]),
        &Vec::new(),
    );
    let names: Vec<&str> = rows.iter().map(|r| r.name.as_str()).collect();
    assert_eq!(names, vec!["a.app", "b.app", "C.app", "D.app"]);
    assert_eq!(rows[0].state, PackageState::Uninstalled);
    assert_eq!(rows[1].state, PackageState::Installed);
    assert_eq!(rows[2].state, PackageState::Uninstalled);
    assert_eq!(rows[3].state, PackageState::Installed);
}

#[test]
fn build_inventory_keeps_device_order_for_names_that_differ_by_case_only() {
    let rows = build_inventory(&texts(&["X.App", "a", "x.app", "X.APP"]), &Vec::new(), &Vec::new());
    let names: Vec<&str> = rows.iter().map(|r| r.name.as_str()).collect();
    assert_eq!(names, vec!["a", "X.App", "x.app", "X.APP"]);
}

#[test]
fn build_inventory_of_no_packages_is_empty() {
    assert!(build_inventory(&Vec::new(), &texts(&["a"]), &catalog()).is_empty());
}

#[test]
fn build_inventory_describes_each_package_and_marks_none() {
    let rows = build_inventory(
        &texts(&["org.unknown", "com.vendor.core", "com.google.maps"]),
        &texts(&["com.vendor.core", "not.on.device"]),
        &catalog(),
    );
    assert_eq!(
        rows,
        vec![
            PackageRow::new(
                "com.google.maps",
                PackageState::Uninstalled,
                "Maps",
                "google",
                "safe",
                false
            ),
            PackageRow::new(
                "com.vendor.core",
                PackageState::Installed,
                "Core services",
                "oem",
                "unsafe",
                false
            ),
            PackageRow::new(
                "org.unknown",
                PackageState::Uninstalled,
                "[No description]",
                "unlisted",
                "",
                false
            ),
        ]
    );
}
