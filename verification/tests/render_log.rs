use doodlai::render_log::RenderLog;

fn sample() -> RenderLog {
    let mut log = RenderLog::new();
    log.on_texture();
    log.on_texture();
    log.on_texture_not_found();
    log.on_mesh();
    log.on_text();
    log.on_draw_call();
    log.on_draw_call();
    log
}

#[test]
fn new_log_is_empty() {
    let log = RenderLog::new();
    assert_eq!(log.elements(), 0);
    assert_eq!(log.textures(), 0);
    assert_eq!(log.meshes(), 0);
    assert_eq!(log.texts(), 0);
    assert_eq!(log.draw_calls(), 0);
    assert_eq!(log.textures_not_found(), 0);
}

#[test]
fn events_count_their_kind_and_elements() {
    let log = sample();
    assert_eq!(log.textures(), 2);
    assert_eq!(log.meshes(), 1);
    assert_eq!(log.texts(), 1);
    assert_eq!(log.elements(), 4);
    assert_eq!(log.draw_calls(), 2);
    assert_eq!(log.textures_not_found(), 1);
    assert_eq!(log.elements(), log.textures() + log.meshes() + log.texts());
}

#[test]
fn add_sums_fieldwise() {
    let a = sample();
    let mut b = RenderLog::new();
    b.on_mesh();
    b.on_draw_call();
    let s = a + b;
    assert_eq!(s.meshes(), 2);
    assert_eq!(s.elements(), 5);
    assert_eq!(s.draw_calls(), 3);
    assert_eq!(s.textures(), 2);
}

#[test]
fn add_then_sub_restores() {
    let a = sample();
    let mut b = RenderLog::new();
    b.on_text();
    b.on_texture();
    assert_eq!((a + b) - b, a);
    assert_eq!((a - b) + b, a);
}

#[test]
fn add_is_commutative_and_associative() {
    let a = sample();
    let mut b = RenderLog::new();
    b.on_text();
    let mut c = RenderLog::new();
    c.on_draw_call();
    c.on_texture_not_found();
    assert_eq!(a + b, b + a);
    assert_eq!((a + b) + c, a + (b + c));
}

#[test]
fn empty_log_is_neutral() {
    let a = sample();
    assert_eq!(a + RenderLog::new(), a);
    assert_eq!(a - RenderLog::new(), a);
}

#[test]
fn in_place_sum_and_difference() {
    let a = sample();
    let mut b = RenderLog::new();
    b.on_mesh();
    let mut acc = a;
    acc.add_assign(b);
    assert_eq!(acc, a + b);
    acc.sub_assign(b);
    assert_eq!(acc, a);
}

#[test]
fn difference_may_be_negative() {
    let a = RenderLog::new();
    let b = sample();
    let d = a - b;
    assert_eq!(d.textures(), -2);
    assert_eq!(d.elements(), -4);
}
