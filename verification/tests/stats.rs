use doodlai::render_log::RenderLog;
use doodlai::stats::{push_decimal, render_stats_text};

#[test]
fn decimal_writing() {
    let mut s = String::new();
    push_decimal(&mut s, 0);
    s.push(' ');
    push_decimal(&mut s, 7);
    s.push(' ');
    push_decimal(&mut s, 1204);
    s.push(' ');
    push_decimal(&mut s, -35);
    s.push(' ');
    push_decimal(&mut s, i64::MIN);
    assert_eq!(s, format!("0 7 1204 -35 {}", i64::MIN));
}

#[test]
fn render_stats_overlay_text() {
    let mut log = RenderLog::new();
    log.on_texture();
    log.on_texture();
    log.on_texture_not_found();
    log.on_mesh();
    log.on_draw_call();
    let text = render_stats_text(&log, 12);
    assert_eq!(
        text,
        "Render:\n Elements  : 3\n Sprites   : 2\n Sprite not found: 1\n Meshes    : 1\n Texts     : 0\n Draw calls: 1\n In loading assets: TODO\n Task count: 12"
    );
}
