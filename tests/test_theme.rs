use hardware_master::ui::theme::AppTheme;

#[test]
fn test_theme_next() {
    assert_eq!(AppTheme::System.next(), AppTheme::Light);
    assert_eq!(AppTheme::Light.next(), AppTheme::Dark);
    assert_eq!(AppTheme::Dark.next(), AppTheme::System);
}

#[test]
fn test_theme_from_str() {
    assert_eq!(AppTheme::from_str("系统"), AppTheme::System);
    assert_eq!(AppTheme::from_str("亮色"), AppTheme::Light);
    assert_eq!(AppTheme::from_str("暗色"), AppTheme::Dark);
    assert_eq!(AppTheme::from_str("未知"), AppTheme::System);
}

#[test]
fn test_theme_name() {
    assert_eq!(AppTheme::System.name(), "系统");
    assert_eq!(AppTheme::Light.name(), "亮色");
    assert_eq!(AppTheme::Dark.name(), "暗色");
}

#[test]
fn test_theme_display() {
    let theme = AppTheme::System;
    assert_eq!(format!("{}", theme.to_string()), "系统");
    assert_eq!(format!("{}", AppTheme::Light.to_string()), "亮色");
    assert_eq!(format!("{}", AppTheme::Dark.to_string()), "暗色");
}

#[test]
fn theme_default_and_cycle() {
    let t = AppTheme::default();
    assert_eq!(t, AppTheme::System);
    assert_eq!(t.next().next().next(), t);
    assert_eq!(AppTheme::from_str(AppTheme::Dark.name()), AppTheme::Dark);
}
