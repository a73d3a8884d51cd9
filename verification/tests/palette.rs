use hopscout::theme::{
    asn_color, builtins, default_true, gray, hex, Rgba, ThemeFile, STARTER_TOML,
};

fn rgb(r: u8, g: u8, b: u8) -> Rgba {
    Rgba { r, g, b, a: 255 }
}

fn text_of(t: &toml::Table, key: &str) -> String {
    t[key].as_str().expect("string").to_string()
}

fn theme_file(src: &str) -> ThemeFile {
    let t: toml::Table = toml::from_str(src).expect("starter parses");
    ThemeFile {
        name: text_of(&t, "name"),
        dark: t.get("dark").and_then(|v| v.as_bool()).unwrap_or_else(default_true),
        bg: text_of(&t, "bg"),
        panel: text_of(&t, "panel"),
        surface: text_of(&t, "surface"),
        text: text_of(&t, "text"),
        muted: text_of(&t, "muted"),
        accent: text_of(&t, "accent"),
        accent2: text_of(&t, "accent2"),
        good: text_of(&t, "good"),
        warn: text_of(&t, "warn"),
        bad: text_of(&t, "bad"),
        grid: text_of(&t, "grid"),
        flow: t["flow"]
            .as_array()
            .expect("array")
            .iter()
            .map(|v| v.as_str().expect("string").to_string())
            .collect(),
    }
}

#[test]
fn hex_parses() {
    assert_eq!(hex("#ff8000"), rgb(255, 128, 0));
    assert_eq!(hex("39d98a"), rgb(0x39, 0xd9, 0x8a));
}

#[test]
fn hex_edge_cases() {
    assert_eq!(hex("#11223344"), Rgba { r: 0x11, g: 0x22, b: 0x33, a: 0x44 });
    assert_eq!(hex("  ##abc  "), rgb(0, 0x0a, 0xbc));
    assert_eq!(hex("#ABCDEF"), rgb(0xab, 0xcd, 0xef));
    assert_eq!(hex("+ff"), rgb(0, 0, 0xff));
    assert_eq!(hex("nothex"), rgb(0, 0, 0));
    assert_eq!(hex(""), rgb(0, 0, 0));
    // Eight characters that are not hex read as transparent black.
    assert_eq!(hex("zzzzzzzz"), Rgba { r: 0, g: 0, b: 0, a: 0 });
    // Too large for 32 bits reads as 0.
    assert_eq!(hex("123456789"), rgb(0, 0, 0));
    // Eight bytes of UTF-8 (four two-byte characters) count as RGBA length.
    assert_eq!(hex("éééé"), Rgba { r: 0, g: 0, b: 0, a: 0 });
}

#[test]
fn starter_toml_is_valid() {
    let tf = theme_file(STARTER_TOML);
    let t = tf.into_theme();
    assert_eq!(t.name, "Custom Example");
    assert_eq!(t.accent, hex("#ff7a59"));
    assert!(t.dark);
    assert_eq!(t.flow[1], hex("#59b6ff"));
}

#[test]
fn theme_file_pads_flows_with_gray() {
    let mut tf = theme_file(STARTER_TOML);
    tf.flow.truncate(2);
    tf.dark = false;
    let t = tf.into_theme();
    assert!(!t.dark);
    assert_eq!(t.flow[0], hex("#ff7a59"));
    assert_eq!(t.flow[2], gray());
    assert_eq!(t.flow[5], rgb(160, 160, 160));
}

#[test]
fn all_includes_builtins() {
    let b = builtins();
    assert!(b.len() >= 6);
    let names: Vec<&str> = b.iter().map(|t| t.name.as_str()).collect();
    assert_eq!(names, vec!["Midnight", "Aurora", "Nord", "Solarized", "Paper", "Mono"]);
    assert!(b[0].dark);
    assert!(!b[4].dark);
    assert_eq!(b[0].bg, hex("#12161f"));
    assert_eq!(b[2].accent, rgb(0x88, 0xc0, 0xd0));
    assert_eq!(b[5].surface, rgb(0, 0, 0));
    assert_eq!(b[0].flow_color(7), b[0].flow[1]);
    assert_eq!(b[0].flow_color(6), b[0].flow_color(0));
}

#[test]
fn asn_colors() {
    let b = builtins();
    assert_eq!(asn_color(None, &b[0]), b[0].muted);
    let h = 15169u32.wrapping_mul(2_654_435_761);
    assert_eq!(
        asn_color(Some(15169), &b[0]),
        rgb(90 + (h & 0x6f) as u8, 90 + ((h >> 8) & 0x6f) as u8, 90 + ((h >> 16) & 0x6f) as u8)
    );
    let c = asn_color(Some(1), &b[0]);
    assert!(c.r >= 90 && c.g >= 90 && c.b >= 90 && c.r <= 201);
}
