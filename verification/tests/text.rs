use tagbox::text::{comma_list, decimal_string, parse_i32, parse_usize, trim_str};
use tagbox::theme::{AppTheme, ThemeManager};

#[test]
fn numbers_round_trip() {
    assert_eq!(decimal_string(0), "0");
    assert_eq!(decimal_string(1234567), "1234567");
    assert_eq!(parse_usize(&decimal_string(98765)), Some(98765));
    assert_eq!(parse_i32("-2147483648"), Some(i32::MIN));
    assert_eq!(parse_i32("2147483648"), None);
    assert_eq!(parse_usize(""), None);
}

#[test]
fn trimming_and_lists() {
    assert_eq!(trim_str("\t a b \n"), "a b");
    assert_eq!(comma_list(" , ,"), Vec::<String>::new());
}

#[test]
fn themes_by_name() {
    assert_eq!(ThemeManager::parse_theme("DARK"), Some(AppTheme::Dark));
    assert_eq!(ThemeManager::parse_theme("Aqua"), Some(AppTheme::AquaClassic));
    assert_eq!(ThemeManager::parse_theme("nope"), None);
    let m = ThemeManager::new();
    assert_eq!(*m.get_current_theme(), AppTheme::Default);
    assert_eq!(ThemeManager::get_available_themes().len(), 7);
    assert_eq!(ThemeManager::theme_name(&AppTheme::Dark), "Dark");
}

#[test]
fn theme_names_parse_back() {
    for t in ThemeManager::get_available_themes() {
        let parsed = ThemeManager::parse_theme(ThemeManager::theme_name(&t));
        match t {
            AppTheme::AquaClassic | AppTheme::HighContrast => assert_eq!(parsed, None),
            _ => assert_eq!(parsed, Some(t)),
        }
    }
}
