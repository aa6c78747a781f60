use metalfetch::config::{ColorsPatch, Config, ConfigPatch};

fn empty_patch() -> ConfigPatch {
    ConfigPatch {
        font: None,
        font_size: None,
        spacing: None,
        info_order: None,
        colors: None,
        show_logo: None,
    }
}

fn assert_default(c: &Config) {
    assert_eq!(c.font, "default");
    assert_eq!(c.font_size, 12);
    assert_eq!(c.spacing, 10);
    assert_eq!(
        c.info_order,
        vec![
            "OS", "Architecture", "Kernel", "Shell", "Desktop", "Packages", "Uptime", "WM",
            "Theme", "Icons", "Terminal"
        ]
    );
    assert_eq!(c.colors.label, "blue");
    assert_eq!(c.colors.value, "white");
    assert_eq!(c.colors.logo, "cyan");
    assert!(c.show_logo);
}

#[test]
fn default_config_holds_documented_values() {
    assert_default(&Config::default());
}

#[test]
fn missing_file_yields_defaults_and_asks_to_write_them() {
    let (c, write) = Config::settle(None);
    assert!(write);
    assert_default(&c);
}

#[test]
fn empty_record_completes_to_defaults() {
    let (c, write) = Config::settle(Some(empty_patch()));
    assert!(!write);
    assert_default(&c);
}

#[test]
fn partial_record_keeps_present_fields_and_defaults_the_rest() {
    let mut p = empty_patch();
    p.spacing = Some(3);
    p.info_order = Some(vec!["Shell".to_string(), "Bogus".to_string()]);
    p.colors = Some(ColorsPatch { label: Some("red".to_string()), value: None, logo: None });
    p.show_logo = Some(false);
    let (c, write) = Config::settle(Some(p));
    assert!(!write);
    assert_eq!(c.font, "default");
    assert_eq!(c.font_size, 12);
    assert_eq!(c.spacing, 3);
    assert_eq!(c.info_order, vec!["Shell", "Bogus"]);
    assert_eq!(c.colors.label, "red");
    assert_eq!(c.colors.value, "white");
    assert_eq!(c.colors.logo, "cyan");
    assert!(!c.show_logo);
}

#[test]
fn absent_colors_table_takes_all_default_colors() {
    let mut p = empty_patch();
    p.font = Some("mono".to_string());
    p.font_size = Some(14);
    let c = Config::from_patch(p);
    assert_eq!(c.font, "mono");
    assert_eq!(c.font_size, 14);
    assert_eq!(c.colors.label, "blue");
    assert_eq!(c.colors.value, "white");
    assert_eq!(c.colors.logo, "cyan");
}
