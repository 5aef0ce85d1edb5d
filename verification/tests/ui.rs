use doodlai::ui::anchor::{Align, Anchor, CenterForm, HalfForm};

fn eval(f: HalfForm, sw: i64, sh: i64, w: i64, h: i64) -> i64 {
    f.screen_w as i64 * sw + f.screen_h as i64 * sh + f.size_x as i64 * w + f.size_y as i64 * h
}

fn centre(c: CenterForm, sw: i64, sh: i64, w: i64, h: i64) -> (i64, i64) {
    (eval(c.x, sw, sh, w, h), eval(c.y, sw, sh, w, h))
}

const ALL: [Anchor; 9] = [
    Anchor::CenterCenter,
    Anchor::Topleft,
    Anchor::TopCenter,
    Anchor::TopRight,
    Anchor::RightCenter,
    Anchor::BotRight,
    Anchor::BotCenter,
    Anchor::BotLeft,
    Anchor::LeftCenter,
];

#[test]
fn computed_centres_in_halves() {
    // drawable 100 x 60, element 20 x 10: twice the centre
    let (sw, sh, w, h) = (100, 60, 20, 10);
    assert_eq!(centre(Anchor::CenterCenter.compute_form(), sw, sh, w, h), (100, 60));
    assert_eq!(centre(Anchor::Topleft.compute_form(), sw, sh, w, h), (20, 10));
    assert_eq!(centre(Anchor::TopCenter.compute_form(), sw, sh, w, h), (100, 10));
    assert_eq!(centre(Anchor::TopRight.compute_form(), sw, sh, w, h), (180, 10));
    assert_eq!(centre(Anchor::RightCenter.compute_form(), sw, sh, w, h), (180, 60));
    assert_eq!(centre(Anchor::BotRight.compute_form(), sw, sh, w, h), (180, 110));
    assert_eq!(centre(Anchor::BotCenter.compute_form(), sw, sh, w, h), (100, 110));
    assert_eq!(centre(Anchor::BotLeft.compute_form(), sw, sh, w, h), (20, 110));
    assert_eq!(centre(Anchor::LeftCenter.compute_form(), sw, sh, w, h), (20, 60));
}

#[test]
fn value_placement_is_the_computed_placement() {
    let (sw, sh, w, h) = (100, 60, 20, 10);
    for a in ALL {
        assert_eq!(a.as_value(), a.compute_form());
    }
    // left edge, vertically centred: half the screen height
    assert_eq!(centre(Anchor::LeftCenter.as_value(), sw, sh, w, h), (20, 60));
    // 800 x 600 screen, 20 x 10 element
    assert_eq!(centre(Anchor::LeftCenter.as_value(), 800, 600, 20, 10), (20, 600));
}

#[test]
fn anchored_elements_fit() {
    let (sw, sh, w, h) = (100, 60, 20, 10);
    for a in ALL {
        let (x2, y2) = centre(a.compute_form(), sw, sh, w, h);
        assert!(x2 - w >= 0 && x2 + w <= 2 * sw);
        assert!(y2 - h >= 0 && y2 + h <= 2 * sh);
    }
}

#[test]
fn alignments() {
    assert_eq!(Anchor::TopRight.horizontal(), Align::End);
    assert_eq!(Anchor::TopRight.vertical(), Align::Start);
    assert_eq!(Anchor::LeftCenter.horizontal(), Align::Start);
    assert_eq!(Anchor::LeftCenter.vertical(), Align::Middle);
}
