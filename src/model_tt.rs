use vstd::prelude::*;

use crate::geometry::Rect;
use crate::model::{
    show, show_error, BacklightCommand, ErrorLayout, UIFeaturesCommon, FADE_DURATION_MS,
};
use crate::render::Renderer;
use crate::shape::{FillRect, Shape};

verus! {

/// Backlight level in normal operation.
pub const BACKLIGHT_NORMAL: u8 = 150;

/// Backlight level when the display is dimmed.
pub const BACKLIGHT_DIM: u8 = 5;

/// The 240 x 240 color touchscreen variant.
pub struct ModelTTFeatures;

fn error_layout() -> (r: ErrorLayout)
    ensures
        r == ModelTTFeatures::spec_error_layout(),
{
    ErrorLayout {
        background: 64,
        title_area: Rect { x: 10, y: 10, width: 220, height: 30 },
        title_color: 255,
        message_area: Rect { x: 10, y: 50, width: 220, height: 130 },
        message_color: 200,
        footer_area: Rect { x: 10, y: 195, width: 220, height: 35 },
        footer_color: 128,
    }
}

impl UIFeaturesCommon for ModelTTFeatures {
    open spec fn spec_screen() -> Rect {
        Rect { x: 0, y: 0, width: 240, height: 240 }
    }

    open spec fn spec_fadein() -> BacklightCommand {
        BacklightCommand::Fade { level: BACKLIGHT_NORMAL, duration_ms: FADE_DURATION_MS }
    }

    open spec fn spec_fadeout() -> BacklightCommand {
        BacklightCommand::Fade { level: BACKLIGHT_DIM, duration_ms: FADE_DURATION_MS }
    }

    open spec fn spec_backlight_on() -> BacklightCommand {
        BacklightCommand::SetLevel { level: BACKLIGHT_NORMAL }
    }

    open spec fn spec_error_layout() -> ErrorLayout {
        ErrorLayout {
            background: 64,
            title_area: Rect { x: 10, y: 10, width: 220, height: 30 },
            title_color: 255,
            message_area: Rect { x: 10, y: 50, width: 220, height: 130 },
            message_color: 200,
            footer_area: Rect { x: 10, y: 195, width: 220, height: 35 },
            footer_color: 128,
        }
    }

    open spec fn spec_boot_stage_2() -> Seq<Shape> {
        seq![Shape::Fill(FillRect { area: Rect { x: 88, y: 72, width: 64, height: 64 }, color: 255 })]
    }

    open spec fn spec_background() -> u8 {
        0
    }

    fn screen() -> (r: Rect) {
        Rect { x: 0, y: 0, width: 240, height: 240 }
    }

    fn fadein() -> (r: BacklightCommand) {
        BacklightCommand::Fade { level: BACKLIGHT_NORMAL, duration_ms: FADE_DURATION_MS }
    }

    fn fadeout() -> (r: BacklightCommand) {
        BacklightCommand::Fade { level: BACKLIGHT_DIM, duration_ms: FADE_DURATION_MS }
    }

    fn backlight_on() -> (r: BacklightCommand) {
        BacklightCommand::SetLevel { level: BACKLIGHT_NORMAL }
    }

    fn screen_fatal_error(title: &str, msg: &str, footer: &str) -> (r: Renderer) {
        show_error(Self::screen(), error_layout(), title, msg, footer)
    }

    fn screen_boot_stage_2() -> (r: Renderer) {
        let shapes = vec![
            Shape::Fill(FillRect { area: Rect { x: 88, y: 72, width: 64, height: 64 }, color: 255 }),
        ];
        assert(shapes@ =~= Self::spec_boot_stage_2());
        show(Self::screen(), 0, shapes)
    }
}

} // verus!
