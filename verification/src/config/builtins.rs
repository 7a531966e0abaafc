//! The settings every installation has.
use vstd::prelude::*;
use crate::config::registry::{ConfigField, ConfigRegistry, ConfigRisk, ConfigValue, FieldView, ValueView};
use crate::text::owned;

verus! {

broadcast use vstd::string::group_string_axioms;

/// The bits of the `f64` 1.0, the neutral font scale.
pub const ONE_F64_BITS: u64 = 0x3FF0_0000_0000_0000;

/// A font-scale setting: 1.0 now and by default, normal risk, revertable.
pub open spec fn font_scale_field(path: Seq<char>, display_name: Seq<char>, description: Seq<char>) -> FieldView {
    FieldView {
        path,
        display_name,
        description,
        value: ValueView::Float(ONE_F64_BITS),
        default: ValueView::Float(ONE_F64_BITS),
        risk: ConfigRisk::Normal,
        revertable: true,
    }
}

/// A font-scale setting.
fn font_scale(path: &str, display_name: &str, description: &str) -> (f: ConfigField)
    ensures
        f@ == font_scale_field(path@, display_name@, description@),
{
    ConfigField {
        path: owned(path),
        display_name: owned(display_name),
        description: owned(description),
        value: ConfigValue::Float(ONE_F64_BITS),
        default: ConfigValue::Float(ONE_F64_BITS),
        risk: ConfigRisk::Normal,
        revertable: true,
    }
}

/// Registers the built-in settings: the font scales of the chat composer,
/// the message bodies and the rest of the app (each from 0.70 to 1.50,
/// 1.0 by default).
pub fn register_builtins(registry: &mut ConfigRegistry)
    ensures
        final(registry)@ == old(registry)@.insert(
            "chat.inputFontSize"@,
            font_scale_field(
                "chat.inputFontSize"@,
                "Input font size"@,
                "Font size multiplier for the chat composer (0.70 to 1.50)."@,
            ),
        ).insert(
            "chat.messageFontSize"@,
            font_scale_field(
                "chat.messageFontSize"@,
                "Message font size"@,
                "Font size multiplier for message bodies (0.70 to 1.50)."@,
            ),
        ).insert(
            "appearance.appFontSize"@,
            font_scale_field(
                "appearance.appFontSize"@,
                "App font size"@,
                "Font size multiplier for general app text (0.70 to 1.50)."@,
            ),
        ),
{
    registry.register(font_scale(
        "chat.inputFontSize",
        "Input font size",
        "Font size multiplier for the chat composer (0.70 to 1.50).",
    ));
    registry.register(font_scale(
        "chat.messageFontSize",
        "Message font size",
        "Font size multiplier for message bodies (0.70 to 1.50).",
    ));
    registry.register(font_scale(
        "appearance.appFontSize",
        "App font size",
        "Font size multiplier for general app text (0.70 to 1.50).",
    ));
}

} // verus!
