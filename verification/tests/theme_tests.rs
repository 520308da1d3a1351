use mailbox::display::selected_theme_label;
use mailbox::theme::{default_of, parse_color, Theme, ThemeAsset, ThemeColors, ThemeFile, ThemeInfo};

fn colors(background: &str) -> ThemeColors {
    ThemeColors {
        background: background.to_string(),
        surface: "#252526".to_string(),
        surface_hover: "#2d2d2d".to_string(),
        border: "#3c3c3c".to_string(),
        text: "#e6e6e6".to_string(),
        text_muted: "#b0b0b0".to_string(),
        text_inactive: "#707070".to_string(),
        selected: "#094771".to_string(),
        selected_text: "#ffffff".to_string(),
        selected_option: "not a colour".to_string(),
    }
}

fn asset(path: &str, file: Option<ThemeFile>) -> ThemeAsset {
    ThemeAsset { path: path.to_string(), file }
}

fn theme_file(name: &str, styles: Vec<ThemeColors>) -> Option<ThemeFile> {
    Some(ThemeFile { name: name.to_string(), style: styles })
}

fn catalog() -> Vec<ThemeAsset> {
    vec![
        asset("fonts/Lilex.ttf", None),
        asset("themes/solar.json", theme_file("Solarized", vec![colors("#002b36")])),
        asset("themes/zed.json", theme_file("", vec![colors("#1e1e1e")])),
        asset("themes/empty.json", theme_file("Empty", vec![])),
        asset("themes/broken.json", None),
        asset("themes/abyss.json", theme_file("Abyss", vec![colors("#000c18")])),
        asset("images/add.svg", None),
    ]
}

#[test]
fn parse_color_reads_hex() {
    assert_eq!(parse_color("#1e1e1e"), 0x1e1e1e);
    assert_eq!(parse_color("  #FFFFFF \n"), 0xffffff);
    assert_eq!(parse_color("##0a0b0c"), 0x0a0b0c);
    assert_eq!(parse_color("+ff"), 0xff);
    assert_eq!(parse_color("ffffffff"), 0xffffffff);
}

#[test]
fn parse_color_bad_values_are_magenta() {
    assert_eq!(parse_color(""), 0xff00ff);
    assert_eq!(parse_color("#"), 0xff00ff);
    assert_eq!(parse_color("-ff"), 0xff00ff);
    assert_eq!(parse_color("#12345g"), 0xff00ff);
    assert_eq!(parse_color("100000000"), 0xff00ff);
    assert_eq!(parse_color("+"), 0xff00ff);
}

#[test]
fn parse_color_agrees_with_from_str_radix() {
    let samples = ["0", "00ff00", "#abc", "fFfF", "+1", "++1", "1 2", "x", "0000000000ff", "1ffffffff"];
    for s in samples {
        let expected = u32::from_str_radix(s.trim().trim_start_matches('#'), 16).unwrap_or(0xff00ff);
        assert_eq!(parse_color(s), expected, "{s:?}");
    }
}

#[test]
fn available_lists_valid_themes_by_name() {
    let themes = Theme::available(&catalog());
    let names: Vec<(String, String)> = themes.iter().map(|t| (t.id.clone(), t.name.clone())).collect();
    assert_eq!(
        names,
        vec![
            ("abyss".to_string(), "Abyss".to_string()),
            ("solar".to_string(), "Solarized".to_string()),
            ("zed".to_string(), "zed".to_string()),
        ]
    );
}

#[test]
fn default_prefers_zed_then_first() {
    assert_eq!(Theme::default_name(&catalog()), Some("zed".to_string()));
    let no_zed: Vec<ThemeAsset> = catalog().into_iter().filter(|a| a.path != "themes/zed.json").collect();
    assert_eq!(Theme::default_name(&no_zed), Some("abyss".to_string()));
    assert_eq!(Theme::default_name(&Vec::new()), None);
    let infos = vec![
        ThemeInfo { id: "b".to_string(), name: "B".to_string() },
        ThemeInfo { id: "zed".to_string(), name: "Zed".to_string() },
    ];
    assert_eq!(default_of(&infos), Some("zed".to_string()));
}

#[test]
fn load_named_reads_the_first_style() {
    let t = Theme::load_named("solar", &catalog());
    assert_eq!(t.name, "solar");
    assert_eq!(t.background, 0x002b36);
    assert_eq!(t.surface, 0x252526);
    assert_eq!(t.selected_option, 0xff00ff);
}

#[test]
fn load_named_falls_back_to_default_then_builtin() {
    let t = Theme::load_named("missing", &catalog());
    assert_eq!(t.name, "zed");
    assert_eq!(t.background, 0x1e1e1e);
    let t = Theme::load_named("empty", &catalog());
    assert_eq!(t.name, "zed");
    let t = Theme::load_named("missing", &Vec::new());
    assert_eq!(t.name, "fallback");
    assert_eq!(t.background, 0x1e1e1e);
    assert_eq!(t.selected, 0x094771);
}

#[test]
fn load_uses_the_default_theme() {
    assert_eq!(Theme::load(&catalog()).name, "zed");
    let f = Theme::load(&Vec::new());
    assert_eq!(f.name, "fallback");
    assert_eq!(f.surface, 0x252526);
    assert_eq!(f.text, 0xe6e6e6);
}

#[test]
fn from_colors_parses_every_field() {
    let t = Theme::from_colors("x", colors("#010203"));
    assert_eq!((t.background, t.border, t.text_muted, t.text_inactive, t.selected_text), (0x010203, 0x3c3c3c, 0xb0b0b0, 0x707070, 0xffffff));
}

#[test]
fn theme_label_in_settings() {
    let themes = Theme::available(&catalog());
    assert_eq!(selected_theme_label(&themes, &"solar".to_string()), "Solarized");
    assert_eq!(selected_theme_label(&themes, &"nope".to_string()), "Unknown theme");
}

#[test]
fn stable_order_for_equal_names() {
    let assets = vec![
        asset("themes/b.json", theme_file("Same", vec![colors("#000001")])),
        asset("themes/a.json", theme_file("Same", vec![colors("#000002")])),
    ];
    let ids: Vec<String> = Theme::available(&assets).into_iter().map(|t| t.id).collect();
    assert_eq!(ids, vec!["b".to_string(), "a".to_string()]);
}

#[test]
fn offered_theme_ids_are_distinct() {
    let themes = Theme::available(&catalog());
    for (i, a) in themes.iter().enumerate() {
        for b in themes.iter().skip(i + 1) {
            assert_ne!(a.id, b.id);
        }
    }
}
