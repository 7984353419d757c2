use shape_render::geometry::Rect;
use shape_render::model::{BacklightCommand, UIFeaturesCommon};
use shape_render::model_mercury::ModelMercuryFeatures;
use shape_render::model_tt::{ModelTTFeatures, BACKLIGHT_DIM, BACKLIGHT_NORMAL};

#[test]
fn tt_screen_is_240_square() {
    assert_eq!(ModelTTFeatures::screen(), Rect { x: 0, y: 0, width: 240, height: 240 });
}

#[test]
fn mercury_screen_is_240_square() {
    assert_eq!(ModelMercuryFeatures::screen(), Rect { x: 0, y: 0, width: 240, height: 240 });
}

#[test]
fn tt_backlight_commands() {
    assert_eq!(
        ModelTTFeatures::fadein(),
        BacklightCommand::Fade { level: BACKLIGHT_NORMAL, duration_ms: 150 }
    );
    assert_eq!(
        ModelTTFeatures::fadeout(),
        BacklightCommand::Fade { level: BACKLIGHT_DIM, duration_ms: 150 }
    );
    assert_eq!(ModelTTFeatures::backlight_on(), BacklightCommand::SetLevel { level: BACKLIGHT_NORMAL });
}

#[test]
fn mercury_backlight_commands() {
    assert_eq!(ModelMercuryFeatures::fadein(), BacklightCommand::Fade { level: 150, duration_ms: 150 });
    assert_eq!(ModelMercuryFeatures::fadeout(), BacklightCommand::Fade { level: 5, duration_ms: 150 });
    assert_eq!(ModelMercuryFeatures::backlight_on(), BacklightCommand::SetLevel { level: 150 });
}

fn check_fatal_error<M: UIFeaturesCommon>(title_px: (u16, u16), msg_px: (u16, u16), footer_px: (u16, u16)) {
    let r = M::screen_fatal_error("Error", "Something failed", "Contact support");
    assert_eq!(r.cleaned, 4);
    assert_eq!(r.canvas.width(), 240);
    assert_eq!(r.canvas.height(), 240);
    let t = r.canvas.pixel(title_px.0, title_px.1);
    let m = r.canvas.pixel(msg_px.0, msg_px.1);
    let f = r.canvas.pixel(footer_px.0, footer_px.1);
    let bg = r.canvas.pixel(0, 0);
    assert!(t != bg && m != bg && f != bg);
    assert!(t != m && m != f && t != f);
}

#[test]
fn tt_fatal_error_screen() {
    check_fatal_error::<ModelTTFeatures>((20, 20), (20, 100), (20, 210));
    let r = ModelTTFeatures::screen_fatal_error("Error", "Something failed", "Contact support");
    assert_eq!(r.canvas.pixel(0, 0), 64);
    assert_eq!(r.canvas.pixel(10, 10), 255);
    assert_eq!(r.canvas.pixel(229, 39), 255);
    assert_eq!(r.canvas.pixel(230, 39), 64);
    assert_eq!(r.canvas.pixel(10, 45), 64);
    assert_eq!(r.canvas.pixel(10, 50), 200);
    assert_eq!(r.canvas.pixel(10, 229), 128);
}

#[test]
fn mercury_fatal_error_screen() {
    check_fatal_error::<ModelMercuryFeatures>((10, 50), (10, 100), (10, 210));
}

#[test]
fn boot_stage_2_screens() {
    let tt = ModelTTFeatures::screen_boot_stage_2();
    assert_eq!(tt.cleaned, 1);
    assert_eq!(tt.canvas.pixel(100, 100), 255);
    assert_eq!(tt.canvas.pixel(0, 0), 0);
    let mercury = ModelMercuryFeatures::screen_boot_stage_2();
    assert_eq!(mercury.cleaned, 2);
    assert_eq!(mercury.canvas.pixel(120, 120), 255);
    // the blur softens the logo edge
    let edge = mercury.canvas.pixel(88, 120);
    assert!(edge > 0 && edge < 255);
}
