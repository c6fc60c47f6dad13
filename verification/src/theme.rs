//! Color themes: the built-in palettes, theme files resolved against the
//! default palette, and the list of theme names.

use vstd::prelude::*;

use crate::config::opt_string;
use crate::sorting::{keyed_view, sort_by_key_stable, stable_sorted};
use crate::strings::{byte_len, byte_len_capped, chars_eq, chars_of, slice_to_vec};
use crate::viewed::texts;
use crate::highlight::StyleId;
use crate::render_helpers::{is_muted_rgb, muted_rgb};

verus! {

/// A terminal color given by its red, green and blue components.
#[derive(Debug, Clone, Copy, PartialEq, Eq, Hash, Structural)]
pub enum Color {
    /// 24-bit color.
    Rgb(u8, u8, u8),
}

/// A complete theme definition.
#[derive(Debug, Clone, Copy, PartialEq, Eq, Structural)]
pub struct Theme {
    /// The `bg_dark` color.
    pub bg_dark: Color,
    /// The `bg_surface` color.
    pub bg_surface: Color,
    /// The `bg_elevated` color.
    pub bg_elevated: Color,
    /// The `bg_selected` color.
    pub bg_selected: Color,
    /// The `border_dim` color.
    pub border_dim: Color,
    /// The `border_active` color.
    pub border_active: Color,
    /// The `gutter_sep` color.
    pub gutter_sep: Color,
    /// The `pane_divider` color.
    pub pane_divider: Color,
    /// The `text_faint` color.
    pub text_faint: Color,
    /// The `text_muted` color.
    pub text_muted: Color,
    /// The `text_dim` color.
    pub text_dim: Color,
    /// The `text_normal` color.
    pub text_normal: Color,
    /// The `text_bright` color.
    pub text_bright: Color,
    /// The `accent` color.
    pub accent: Color,
    /// The `accent_dim` color.
    pub accent_dim: Color,
    /// The `diff_delete_bg` color.
    pub diff_delete_bg: Color,
    /// The `diff_insert_bg` color.
    pub diff_insert_bg: Color,
    /// The `diff_empty_bg` color.
    pub diff_empty_bg: Color,
    /// The `inline_delete_bg` color.
    pub inline_delete_bg: Color,
    /// The `inline_insert_bg` color.
    pub inline_insert_bg: Color,
    /// The `success` color.
    pub success: Color,
    /// The `error` color.
    pub error: Color,
    /// The `warning` color.
    pub warning: Color,
    /// The `syn_keyword` color.
    pub syn_keyword: Color,
    /// The `syn_type` color.
    pub syn_type: Color,
    /// The `syn_function` color.
    pub syn_function: Color,
    /// The `syn_string` color.
    pub syn_string: Color,
    /// The `syn_number` color.
    pub syn_number: Color,
    /// The `syn_comment` color.
    pub syn_comment: Color,
    /// The `syn_operator` color.
    pub syn_operator: Color,
    /// The `syn_punctuation` color.
    pub syn_punctuation: Color,
    /// The `syn_constant` color.
    pub syn_constant: Color,
    /// The `syn_property` color.
    pub syn_property: Color,
    /// The `syn_attribute` color.
    pub syn_attribute: Color,
}

/// The colors of the built-in default theme.
pub open spec fn default_palette() -> Theme {
    Theme {
        bg_dark: Color::Rgb(18, 18, 22),
        bg_surface: Color::Rgb(26, 26, 32),
        bg_elevated: Color::Rgb(36, 36, 44),
        bg_selected: Color::Rgb(45, 45, 55),
        border_dim: Color::Rgb(50, 50, 60),
        border_active: Color::Rgb(80, 200, 200),
        gutter_sep: Color::Rgb(38, 38, 46),
        pane_divider: Color::Rgb(55, 55, 65),
        text_faint: Color::Rgb(55, 55, 65),
        text_muted: Color::Rgb(80, 80, 92),
        text_dim: Color::Rgb(110, 110, 125),
        text_normal: Color::Rgb(175, 175, 185),
        text_bright: Color::Rgb(230, 230, 235),
        accent: Color::Rgb(80, 200, 200),
        accent_dim: Color::Rgb(55, 130, 130),
        diff_delete_bg: Color::Rgb(45, 25, 30),
        diff_insert_bg: Color::Rgb(25, 45, 32),
        diff_empty_bg: Color::Rgb(22, 22, 26),
        inline_delete_bg: Color::Rgb(90, 40, 50),
        inline_insert_bg: Color::Rgb(40, 90, 55),
        success: Color::Rgb(85, 185, 105),
        error: Color::Rgb(215, 85, 85),
        warning: Color::Rgb(215, 175, 80),
        syn_keyword: Color::Rgb(198, 120, 221),
        syn_type: Color::Rgb(229, 192, 123),
        syn_function: Color::Rgb(97, 175, 239),
        syn_string: Color::Rgb(152, 195, 121),
        syn_number: Color::Rgb(209, 154, 102),
        syn_comment: Color::Rgb(92, 99, 112),
        syn_operator: Color::Rgb(171, 178, 191),
        syn_punctuation: Color::Rgb(120, 120, 135),
        syn_constant: Color::Rgb(86, 182, 194),
        syn_property: Color::Rgb(224, 108, 117),
        syn_attribute: Color::Rgb(229, 192, 123),
    }
}

/// The colors of the built-in ayu theme.
pub open spec fn ayu_palette() -> Theme {
    Theme {
        bg_dark: Color::Rgb(11, 14, 20),
        bg_surface: Color::Rgb(15, 19, 26),
        bg_elevated: Color::Rgb(19, 23, 33),
        bg_selected: Color::Rgb(31, 36, 48),
        border_dim: Color::Rgb(31, 36, 48),
        border_active: Color::Rgb(230, 180, 80),
        gutter_sep: Color::Rgb(21, 25, 34),
        pane_divider: Color::Rgb(31, 36, 48),
        text_faint: Color::Rgb(31, 36, 48),
        text_muted: Color::Rgb(92, 103, 115),
        text_dim: Color::Rgb(132, 137, 142),
        text_normal: Color::Rgb(191, 189, 182),
        text_bright: Color::Rgb(230, 225, 207),
        accent: Color::Rgb(230, 180, 80),
        accent_dim: Color::Rgb(142, 114, 56),
        diff_delete_bg: Color::Rgb(48, 27, 32),
        diff_insert_bg: Color::Rgb(32, 51, 34),
        diff_empty_bg: Color::Rgb(15, 19, 26),
        inline_delete_bg: Color::Rgb(89, 42, 45),
        inline_insert_bg: Color::Rgb(55, 91, 50),
        success: Color::Rgb(127, 217, 98),
        error: Color::Rgb(217, 87, 87),
        warning: Color::Rgb(230, 180, 80),
        syn_keyword: Color::Rgb(255, 143, 64),
        syn_type: Color::Rgb(89, 194, 255),
        syn_function: Color::Rgb(255, 180, 84),
        syn_string: Color::Rgb(170, 217, 76),
        syn_number: Color::Rgb(210, 166, 255),
        syn_comment: Color::Rgb(92, 103, 115),
        syn_operator: Color::Rgb(242, 150, 104),
        syn_punctuation: Color::Rgb(156, 159, 159),
        syn_constant: Color::Rgb(210, 166, 255),
        syn_property: Color::Rgb(57, 186, 230),
        syn_attribute: Color::Rgb(230, 182, 115),
    }
}

/// The colors of the built-in everforest theme.
pub open spec fn everforest_palette() -> Theme {
    Theme {
        bg_dark: Color::Rgb(45, 53, 59),
        bg_surface: Color::Rgb(39, 46, 51),
        bg_elevated: Color::Rgb(52, 63, 68),
        bg_selected: Color::Rgb(71, 82, 88),
        border_dim: Color::Rgb(71, 82, 88),
        border_active: Color::Rgb(167, 192, 128),
        gutter_sep: Color::Rgb(58, 68, 74),
        pane_divider: Color::Rgb(71, 82, 88),
        text_faint: Color::Rgb(71, 82, 88),
        text_muted: Color::Rgb(133, 146, 137),
        text_dim: Color::Rgb(164, 167, 150),
        text_normal: Color::Rgb(211, 198, 170),
        text_bright: Color::Rgb(228, 221, 200),
        accent: Color::Rgb(167, 192, 128),
        accent_dim: Color::Rgb(118, 136, 100),
        diff_delete_bg: Color::Rgb(78, 66, 71),
        diff_insert_bg: Color::Rgb(67, 78, 71),
        diff_empty_bg: Color::Rgb(39, 46, 51),
        inline_delete_bg: Color::Rgb(115, 81, 85),
        inline_insert_bg: Color::Rgb(91, 106, 85),
        success: Color::Rgb(167, 192, 128),
        error: Color::Rgb(230, 126, 128),
        warning: Color::Rgb(219, 188, 127),
        syn_keyword: Color::Rgb(230, 126, 128),
        syn_type: Color::Rgb(219, 188, 127),
        syn_function: Color::Rgb(167, 192, 128),
        syn_string: Color::Rgb(131, 192, 146),
        syn_number: Color::Rgb(214, 153, 182),
        syn_comment: Color::Rgb(133, 146, 137),
        syn_operator: Color::Rgb(230, 152, 117),
        syn_punctuation: Color::Rgb(184, 180, 158),
        syn_constant: Color::Rgb(214, 153, 182),
        syn_property: Color::Rgb(127, 187, 179),
        syn_attribute: Color::Rgb(219, 188, 127),
    }
}

/// The colors of the built-in github theme.
pub open spec fn github_palette() -> Theme {
    Theme {
        bg_dark: Color::Rgb(13, 17, 23),
        bg_surface: Color::Rgb(1, 4, 9),
        bg_elevated: Color::Rgb(22, 27, 34),
        bg_selected: Color::Rgb(48, 54, 61),
        border_dim: Color::Rgb(48, 54, 61),
        border_active: Color::Rgb(88, 166, 255),
        gutter_sep: Color::Rgb(30, 36, 42),
        pane_divider: Color::Rgb(48, 54, 61),
        text_faint: Color::Rgb(48, 54, 61),
        text_muted: Color::Rgb(139, 148, 158),
        text_dim: Color::Rgb(164, 172, 182),
        text_normal: Color::Rgb(201, 209, 217),
        text_bright: Color::Rgb(240, 246, 252),
        accent: Color::Rgb(88, 166, 255),
        accent_dim: Color::Rgb(58, 106, 162),
        diff_delete_bg: Color::Rgb(55, 29, 32),
        diff_insert_bg: Color::Rgb(22, 47, 33),
        diff_empty_bg: Color::Rgb(1, 4, 9),
        inline_delete_bg: Color::Rgb(102, 41, 42),
        inline_insert_bg: Color::Rgb(32, 81, 45),
        success: Color::Rgb(63, 185, 80),
        error: Color::Rgb(248, 81, 73),
        warning: Color::Rgb(210, 153, 34),
        syn_keyword: Color::Rgb(255, 123, 114),
        syn_type: Color::Rgb(255, 166, 87),
        syn_function: Color::Rgb(210, 168, 255),
        syn_string: Color::Rgb(165, 214, 255),
        syn_number: Color::Rgb(121, 192, 255),
        syn_comment: Color::Rgb(139, 148, 158),
        syn_operator: Color::Rgb(255, 123, 114),
        syn_punctuation: Color::Rgb(179, 188, 196),
        syn_constant: Color::Rgb(121, 192, 255),
        syn_property: Color::Rgb(121, 192, 255),
        syn_attribute: Color::Rgb(126, 231, 135),
    }
}

/// The colors of the built-in kanagawa theme.
pub open spec fn kanagawa_palette() -> Theme {
    Theme {
        bg_dark: Color::Rgb(31, 31, 40),
        bg_surface: Color::Rgb(22, 22, 29),
        bg_elevated: Color::Rgb(42, 42, 55),
        bg_selected: Color::Rgb(54, 54, 70),
        border_dim: Color::Rgb(54, 54, 70),
        border_active: Color::Rgb(127, 180, 202),
        gutter_sep: Color::Rgb(42, 42, 55),
        pane_divider: Color::Rgb(54, 54, 70),
        text_faint: Color::Rgb(54, 54, 70),
        text_muted: Color::Rgb(114, 113, 105),
        text_dim: Color::Rgb(156, 154, 137),
        text_normal: Color::Rgb(220, 215, 186),
        text_bright: Color::Rgb(242, 236, 188),
        accent: Color::Rgb(127, 180, 202),
        accent_dim: Color::Rgb(89, 120, 137),
        diff_delete_bg: Color::Rgb(67, 32, 39),
        diff_insert_bg: Color::Rgb(53, 59, 52),
        diff_empty_bg: Color::Rgb(22, 22, 29),
        inline_delete_bg: Color::Rgb(107, 33, 38),
        inline_insert_bg: Color::Rgb(77, 90, 66),
        success: Color::Rgb(152, 187, 108),
        error: Color::Rgb(232, 36, 36),
        warning: Color::Rgb(255, 158, 59),
        syn_keyword: Color::Rgb(149, 127, 184),
        syn_type: Color::Rgb(122, 168, 159),
        syn_function: Color::Rgb(126, 156, 216),
        syn_string: Color::Rgb(152, 187, 108),
        syn_number: Color::Rgb(210, 126, 153),
        syn_comment: Color::Rgb(114, 113, 105),
        syn_operator: Color::Rgb(192, 163, 110),
        syn_punctuation: Color::Rgb(183, 179, 158),
        syn_constant: Color::Rgb(255, 160, 102),
        syn_property: Color::Rgb(230, 195, 132),
        syn_attribute: Color::Rgb(230, 195, 132),
    }
}

/// The colors of the built-in monokai theme.
pub open spec fn monokai_palette() -> Theme {
    Theme {
        bg_dark: Color::Rgb(39, 40, 34),
        bg_surface: Color::Rgb(30, 31, 28),
        bg_elevated: Color::Rgb(62, 61, 50),
        bg_selected: Color::Rgb(73, 72, 62),
        border_dim: Color::Rgb(73, 72, 62),
        border_active: Color::Rgb(102, 217, 239),
        gutter_sep: Color::Rgb(56, 56, 48),
        pane_divider: Color::Rgb(73, 72, 62),
        text_faint: Color::Rgb(73, 72, 62),
        text_muted: Color::Rgb(117, 113, 94),
        text_dim: Color::Rgb(169, 167, 153),
        text_normal: Color::Rgb(248, 248, 242),
        text_bright: Color::Rgb(255, 255, 255),
        accent: Color::Rgb(102, 217, 239),
        accent_dim: Color::Rgb(77, 146, 157),
        diff_delete_bg: Color::Rgb(77, 40, 48),
        diff_insert_bg: Color::Rgb(62, 73, 36),
        diff_empty_bg: Color::Rgb(30, 31, 28),
        inline_delete_bg: Color::Rgb(119, 39, 64),
        inline_insert_bg: Color::Rgb(87, 111, 39),
        success: Color::Rgb(166, 226, 46),
        error: Color::Rgb(249, 38, 114),
        warning: Color::Rgb(253, 151, 31),
        syn_keyword: Color::Rgb(249, 38, 114),
        syn_type: Color::Rgb(102, 217, 239),
        syn_function: Color::Rgb(166, 226, 46),
        syn_string: Color::Rgb(230, 219, 116),
        syn_number: Color::Rgb(174, 129, 255),
        syn_comment: Color::Rgb(117, 113, 94),
        syn_operator: Color::Rgb(249, 38, 114),
        syn_punctuation: Color::Rgb(202, 201, 190),
        syn_constant: Color::Rgb(174, 129, 255),
        syn_property: Color::Rgb(253, 151, 31),
        syn_attribute: Color::Rgb(166, 226, 46),
    }
}

/// The colors of the built-in nightowl theme.
pub open spec fn nightowl_palette() -> Theme {
    Theme {
        bg_dark: Color::Rgb(1, 22, 39),
        bg_surface: Color::Rgb(1, 17, 29),
        bg_elevated: Color::Rgb(11, 41, 66),
        bg_selected: Color::Rgb(29, 59, 83),
        border_dim: Color::Rgb(29, 59, 83),
        border_active: Color::Rgb(127, 219, 202),
        gutter_sep: Color::Rgb(15, 40, 61),
        pane_divider: Color::Rgb(29, 59, 83),
        text_faint: Color::Rgb(29, 59, 83),
        text_muted: Color::Rgb(99, 119, 119),
        text_dim: Color::Rgb(145, 160, 165),
        text_normal: Color::Rgb(214, 222, 235),
        text_bright: Color::Rgb(255, 255, 255),
        accent: Color::Rgb(127, 219, 202),
        accent_dim: Color::Rgb(77, 140, 137),
        diff_delete_bg: Color::Rgb(44, 33, 46),
        diff_insert_bg: Color::Rgb(32, 57, 51),
        diff_empty_bg: Color::Rgb(1, 17, 29),
        inline_delete_bg: Color::Rgb(91, 45, 55),
        inline_insert_bg: Color::Rgb(66, 97, 63),
        success: Color::Rgb(173, 219, 103),
        error: Color::Rgb(239, 83, 80),
        warning: Color::Rgb(255, 202, 40),
        syn_keyword: Color::Rgb(199, 146, 234),
        syn_type: Color::Rgb(255, 203, 139),
        syn_function: Color::Rgb(130, 170, 255),
        syn_string: Color::Rgb(236, 196, 141),
        syn_number: Color::Rgb(247, 140, 108),
        syn_comment: Color::Rgb(99, 119, 119),
        syn_operator: Color::Rgb(127, 219, 202),
        syn_punctuation: Color::Rgb(174, 186, 194),
        syn_constant: Color::Rgb(255, 88, 116),
        syn_property: Color::Rgb(128, 203, 196),
        syn_attribute: Color::Rgb(173, 219, 103),
    }
}

/// The colors of the built-in palenight theme.
pub open spec fn palenight_palette() -> Theme {
    Theme {
        bg_dark: Color::Rgb(41, 45, 62),
        bg_surface: Color::Rgb(32, 35, 49),
        bg_elevated: Color::Rgb(52, 50, 74),
        bg_selected: Color::Rgb(68, 66, 103),
        border_dim: Color::Rgb(68, 66, 103),
        border_active: Color::Rgb(137, 221, 255),
        gutter_sep: Color::Rgb(54, 56, 82),
        pane_divider: Color::Rgb(68, 66, 103),
        text_faint: Color::Rgb(68, 66, 103),
        text_muted: Color::Rgb(103, 110, 149),
        text_dim: Color::Rgb(128, 135, 171),
        text_normal: Color::Rgb(166, 172, 205),
        text_bright: Color::Rgb(255, 255, 255),
        accent: Color::Rgb(137, 221, 255),
        accent_dim: Color::Rgb(99, 151, 178),
        diff_delete_bg: Color::Rgb(80, 52, 71),
        diff_insert_bg: Color::Rgb(69, 79, 76),
        diff_empty_bg: Color::Rgb(32, 35, 49),
        inline_delete_bg: Color::Rgb(122, 59, 81),
        inline_insert_bg: Color::Rgb(100, 116, 92),
        success: Color::Rgb(195, 232, 141),
        error: Color::Rgb(255, 83, 112),
        warning: Color::Rgb(255, 203, 107),
        syn_keyword: Color::Rgb(199, 146, 234),
        syn_type: Color::Rgb(255, 203, 107),
        syn_function: Color::Rgb(130, 170, 255),
        syn_string: Color::Rgb(195, 232, 141),
        syn_number: Color::Rgb(247, 140, 108),
        syn_comment: Color::Rgb(103, 110, 149),
        syn_operator: Color::Rgb(137, 221, 255),
        syn_punctuation: Color::Rgb(144, 150, 185),
        syn_constant: Color::Rgb(247, 140, 108),
        syn_property: Color::Rgb(240, 113, 120),
        syn_attribute: Color::Rgb(255, 203, 107),
    }
}

/// The colors of the built-in zenburn theme.
pub open spec fn zenburn_palette() -> Theme {
    Theme {
        bg_dark: Color::Rgb(63, 63, 63),
        bg_surface: Color::Rgb(56, 56, 56),
        bg_elevated: Color::Rgb(79, 79, 79),
        bg_selected: Color::Rgb(95, 95, 95),
        border_dim: Color::Rgb(95, 95, 95),
        border_active: Color::Rgb(140, 208, 211),
        gutter_sep: Color::Rgb(79, 79, 79),
        pane_divider: Color::Rgb(95, 95, 95),
        text_faint: Color::Rgb(95, 95, 95),
        text_muted: Color::Rgb(127, 159, 127),
        text_dim: Color::Rgb(164, 183, 158),
        text_normal: Color::Rgb(220, 220, 204),
        text_bright: Color::Rgb(255, 255, 239),
        accent: Color::Rgb(140, 208, 211),
        accent_dim: Color::Rgb(109, 150, 152),
        diff_delete_bg: Color::Rgb(88, 78, 78),
        diff_insert_bg: Color::Rgb(75, 80, 75),
        diff_empty_bg: Color::Rgb(56, 56, 56),
        inline_delete_bg: Color::Rgb(117, 95, 95),
        inline_insert_bg: Color::Rgb(87, 99, 87),
        success: Color::Rgb(127, 159, 127),
        error: Color::Rgb(204, 147, 147),
        warning: Color::Rgb(240, 223, 175),
        syn_keyword: Color::Rgb(240, 223, 175),
        syn_type: Color::Rgb(124, 184, 187),
        syn_function: Color::Rgb(239, 239, 143),
        syn_string: Color::Rgb(204, 147, 147),
        syn_number: Color::Rgb(140, 208, 211),
        syn_comment: Color::Rgb(127, 159, 127),
        syn_operator: Color::Rgb(240, 239, 208),
        syn_punctuation: Color::Rgb(187, 199, 177),
        syn_constant: Color::Rgb(220, 163, 163),
        syn_property: Color::Rgb(147, 224, 227),
        syn_attribute: Color::Rgb(227, 206, 171),
    }
}

/// The colors of the built-in dracula theme.
pub open spec fn dracula_palette() -> Theme {
    Theme {
        bg_dark: Color::Rgb(40, 42, 54),
        bg_surface: Color::Rgb(33, 34, 44),
        bg_elevated: Color::Rgb(68, 71, 90),
        bg_selected: Color::Rgb(68, 71, 90),
        border_dim: Color::Rgb(68, 71, 90),
        border_active: Color::Rgb(189, 147, 249),
        gutter_sep: Color::Rgb(50, 52, 62),
        pane_divider: Color::Rgb(68, 71, 90),
        text_faint: Color::Rgb(68, 71, 90),
        text_muted: Color::Rgb(98, 114, 164),
        text_dim: Color::Rgb(128, 134, 174),
        text_normal: Color::Rgb(248, 248, 242),
        text_bright: Color::Rgb(255, 255, 255),
        accent: Color::Rgb(139, 233, 253),
        accent_dim: Color::Rgb(80, 150, 170),
        diff_delete_bg: Color::Rgb(58, 26, 26),
        diff_insert_bg: Color::Rgb(26, 58, 26),
        diff_empty_bg: Color::Rgb(33, 34, 44),
        inline_delete_bg: Color::Rgb(100, 40, 40),
        inline_insert_bg: Color::Rgb(40, 100, 50),
        success: Color::Rgb(80, 250, 123),
        error: Color::Rgb(255, 85, 85),
        warning: Color::Rgb(241, 250, 140),
        syn_keyword: Color::Rgb(255, 121, 198),
        syn_type: Color::Rgb(139, 233, 253),
        syn_function: Color::Rgb(80, 250, 123),
        syn_string: Color::Rgb(241, 250, 140),
        syn_number: Color::Rgb(189, 147, 249),
        syn_comment: Color::Rgb(98, 114, 164),
        syn_operator: Color::Rgb(255, 121, 198),
        syn_punctuation: Color::Rgb(248, 248, 242),
        syn_constant: Color::Rgb(189, 147, 249),
        syn_property: Color::Rgb(139, 233, 253),
        syn_attribute: Color::Rgb(80, 250, 123),
    }
}

/// The colors of the built-in catppuccin theme.
pub open spec fn catppuccin_palette() -> Theme {
    Theme {
        bg_dark: Color::Rgb(30, 30, 46),
        bg_surface: Color::Rgb(36, 39, 58),
        bg_elevated: Color::Rgb(49, 50, 68),
        bg_selected: Color::Rgb(69, 71, 90),
        border_dim: Color::Rgb(69, 71, 90),
        border_active: Color::Rgb(137, 180, 250),
        gutter_sep: Color::Rgb(49, 50, 68),
        pane_divider: Color::Rgb(69, 71, 90),
        text_faint: Color::Rgb(88, 91, 112),
        text_muted: Color::Rgb(127, 132, 156),
        text_dim: Color::Rgb(166, 173, 200),
        text_normal: Color::Rgb(205, 214, 244),
        text_bright: Color::Rgb(255, 255, 255),
        accent: Color::Rgb(137, 180, 250),
        accent_dim: Color::Rgb(116, 199, 236),
        diff_delete_bg: Color::Rgb(50, 30, 40),
        diff_insert_bg: Color::Rgb(30, 50, 40),
        diff_empty_bg: Color::Rgb(36, 39, 58),
        inline_delete_bg: Color::Rgb(90, 50, 60),
        inline_insert_bg: Color::Rgb(50, 90, 60),
        success: Color::Rgb(166, 227, 161),
        error: Color::Rgb(243, 139, 168),
        warning: Color::Rgb(249, 226, 175),
        syn_keyword: Color::Rgb(203, 166, 247),
        syn_type: Color::Rgb(249, 226, 175),
        syn_function: Color::Rgb(137, 180, 250),
        syn_string: Color::Rgb(166, 227, 161),
        syn_number: Color::Rgb(250, 179, 135),
        syn_comment: Color::Rgb(127, 132, 156),
        syn_operator: Color::Rgb(148, 226, 213),
        syn_punctuation: Color::Rgb(147, 153, 178),
        syn_constant: Color::Rgb(250, 179, 135),
        syn_property: Color::Rgb(243, 139, 168),
        syn_attribute: Color::Rgb(249, 226, 175),
    }
}

/// The colors of the built-in nord theme.
pub open spec fn nord_palette() -> Theme {
    Theme {
        bg_dark: Color::Rgb(46, 52, 64),
        bg_surface: Color::Rgb(59, 66, 82),
        bg_elevated: Color::Rgb(67, 76, 94),
        bg_selected: Color::Rgb(76, 86, 106),
        border_dim: Color::Rgb(67, 76, 94),
        border_active: Color::Rgb(136, 192, 208),
        gutter_sep: Color::Rgb(59, 66, 82),
        pane_divider: Color::Rgb(67, 76, 94),
        text_faint: Color::Rgb(76, 86, 106),
        text_muted: Color::Rgb(96, 106, 126),
        text_dim: Color::Rgb(150, 160, 180),
        text_normal: Color::Rgb(216, 222, 233),
        text_bright: Color::Rgb(236, 239, 244),
        accent: Color::Rgb(136, 192, 208),
        accent_dim: Color::Rgb(129, 161, 193),
        diff_delete_bg: Color::Rgb(60, 45, 50),
        diff_insert_bg: Color::Rgb(45, 60, 55),
        diff_empty_bg: Color::Rgb(59, 66, 82),
        inline_delete_bg: Color::Rgb(90, 60, 65),
        inline_insert_bg: Color::Rgb(60, 90, 75),
        success: Color::Rgb(163, 190, 140),
        error: Color::Rgb(191, 97, 106),
        warning: Color::Rgb(235, 203, 139),
        syn_keyword: Color::Rgb(180, 142, 173),
        syn_type: Color::Rgb(143, 188, 187),
        syn_function: Color::Rgb(136, 192, 208),
        syn_string: Color::Rgb(163, 190, 140),
        syn_number: Color::Rgb(180, 142, 173),
        syn_comment: Color::Rgb(96, 106, 126),
        syn_operator: Color::Rgb(129, 161, 193),
        syn_punctuation: Color::Rgb(216, 222, 233),
        syn_constant: Color::Rgb(180, 142, 173),
        syn_property: Color::Rgb(136, 192, 208),
        syn_attribute: Color::Rgb(235, 203, 139),
    }
}

/// The colors of the built-in gruvbox theme.
pub open spec fn gruvbox_palette() -> Theme {
    Theme {
        bg_dark: Color::Rgb(40, 40, 40),
        bg_surface: Color::Rgb(50, 48, 47),
        bg_elevated: Color::Rgb(60, 56, 54),
        bg_selected: Color::Rgb(80, 73, 69),
        border_dim: Color::Rgb(60, 56, 54),
        border_active: Color::Rgb(215, 153, 33),
        gutter_sep: Color::Rgb(50, 48, 47),
        pane_divider: Color::Rgb(60, 56, 54),
        text_faint: Color::Rgb(80, 73, 69),
        text_muted: Color::Rgb(146, 131, 116),
        text_dim: Color::Rgb(168, 153, 132),
        text_normal: Color::Rgb(235, 219, 178),
        text_bright: Color::Rgb(251, 241, 199),
        accent: Color::Rgb(215, 153, 33),
        accent_dim: Color::Rgb(152, 151, 26),
        diff_delete_bg: Color::Rgb(60, 35, 35),
        diff_insert_bg: Color::Rgb(35, 55, 35),
        diff_empty_bg: Color::Rgb(50, 48, 47),
        inline_delete_bg: Color::Rgb(100, 50, 50),
        inline_insert_bg: Color::Rgb(50, 90, 50),
        success: Color::Rgb(152, 151, 26),
        error: Color::Rgb(204, 36, 29),
        warning: Color::Rgb(250, 189, 47),
        syn_keyword: Color::Rgb(204, 36, 29),
        syn_type: Color::Rgb(250, 189, 47),
        syn_function: Color::Rgb(184, 187, 38),
        syn_string: Color::Rgb(184, 187, 38),
        syn_number: Color::Rgb(211, 134, 155),
        syn_comment: Color::Rgb(146, 131, 116),
        syn_operator: Color::Rgb(254, 128, 25),
        syn_punctuation: Color::Rgb(168, 153, 132),
        syn_constant: Color::Rgb(211, 134, 155),
        syn_property: Color::Rgb(131, 165, 152),
        syn_attribute: Color::Rgb(250, 189, 47),
    }
}

/// The colors of the built-in tokyonight theme.
pub open spec fn tokyonight_palette() -> Theme {
    Theme {
        bg_dark: Color::Rgb(26, 27, 38),
        bg_surface: Color::Rgb(36, 40, 59),
        bg_elevated: Color::Rgb(41, 46, 66),
        bg_selected: Color::Rgb(51, 59, 81),
        border_dim: Color::Rgb(41, 46, 66),
        border_active: Color::Rgb(125, 207, 255),
        gutter_sep: Color::Rgb(36, 40, 59),
        pane_divider: Color::Rgb(41, 46, 66),
        text_faint: Color::Rgb(61, 66, 86),
        text_muted: Color::Rgb(86, 95, 137),
        text_dim: Color::Rgb(145, 152, 179),
        text_normal: Color::Rgb(192, 202, 245),
        text_bright: Color::Rgb(220, 230, 255),
        accent: Color::Rgb(125, 207, 255),
        accent_dim: Color::Rgb(65, 166, 181),
        diff_delete_bg: Color::Rgb(50, 30, 40),
        diff_insert_bg: Color::Rgb(30, 50, 40),
        diff_empty_bg: Color::Rgb(36, 40, 59),
        inline_delete_bg: Color::Rgb(90, 50, 60),
        inline_insert_bg: Color::Rgb(50, 90, 60),
        success: Color::Rgb(158, 206, 106),
        error: Color::Rgb(247, 118, 142),
        warning: Color::Rgb(224, 175, 104),
        syn_keyword: Color::Rgb(187, 154, 247),
        syn_type: Color::Rgb(42, 195, 222),
        syn_function: Color::Rgb(125, 207, 255),
        syn_string: Color::Rgb(158, 206, 106),
        syn_number: Color::Rgb(255, 158, 100),
        syn_comment: Color::Rgb(86, 95, 137),
        syn_operator: Color::Rgb(137, 221, 255),
        syn_punctuation: Color::Rgb(145, 152, 179),
        syn_constant: Color::Rgb(255, 158, 100),
        syn_property: Color::Rgb(115, 218, 202),
        syn_attribute: Color::Rgb(224, 175, 104),
    }
}

/// The colors of the built-in rosepine theme.
pub open spec fn rosepine_palette() -> Theme {
    Theme {
        bg_dark: Color::Rgb(25, 23, 36),
        bg_surface: Color::Rgb(31, 29, 46),
        bg_elevated: Color::Rgb(38, 35, 58),
        bg_selected: Color::Rgb(57, 53, 82),
        border_dim: Color::Rgb(38, 35, 58),
        border_active: Color::Rgb(196, 167, 231),
        gutter_sep: Color::Rgb(31, 29, 46),
        pane_divider: Color::Rgb(38, 35, 58),
        text_faint: Color::Rgb(57, 53, 82),
        text_muted: Color::Rgb(110, 106, 134),
        text_dim: Color::Rgb(144, 140, 170),
        text_normal: Color::Rgb(224, 222, 244),
        text_bright: Color::Rgb(255, 255, 255),
        accent: Color::Rgb(196, 167, 231),
        accent_dim: Color::Rgb(156, 207, 216),
        diff_delete_bg: Color::Rgb(50, 30, 35),
        diff_insert_bg: Color::Rgb(30, 50, 40),
        diff_empty_bg: Color::Rgb(31, 29, 46),
        inline_delete_bg: Color::Rgb(90, 50, 55),
        inline_insert_bg: Color::Rgb(50, 90, 60),
        success: Color::Rgb(156, 207, 216),
        error: Color::Rgb(235, 111, 146),
        warning: Color::Rgb(246, 193, 119),
        syn_keyword: Color::Rgb(49, 116, 143),
        syn_type: Color::Rgb(156, 207, 216),
        syn_function: Color::Rgb(235, 188, 186),
        syn_string: Color::Rgb(246, 193, 119),
        syn_number: Color::Rgb(234, 154, 151),
        syn_comment: Color::Rgb(110, 106, 134),
        syn_operator: Color::Rgb(144, 140, 170),
        syn_punctuation: Color::Rgb(144, 140, 170),
        syn_constant: Color::Rgb(234, 154, 151),
        syn_property: Color::Rgb(196, 167, 231),
        syn_attribute: Color::Rgb(156, 207, 216),
    }
}

/// The colors of the built-in onedark theme.
pub open spec fn onedark_palette() -> Theme {
    Theme {
        bg_dark: Color::Rgb(40, 44, 52),
        bg_surface: Color::Rgb(33, 37, 43),
        bg_elevated: Color::Rgb(50, 56, 66),
        bg_selected: Color::Rgb(60, 66, 76),
        border_dim: Color::Rgb(50, 56, 66),
        border_active: Color::Rgb(97, 175, 239),
        gutter_sep: Color::Rgb(40, 44, 52),
        pane_divider: Color::Rgb(50, 56, 66),
        text_faint: Color::Rgb(60, 66, 76),
        text_muted: Color::Rgb(92, 99, 112),
        text_dim: Color::Rgb(127, 132, 142),
        text_normal: Color::Rgb(171, 178, 191),
        text_bright: Color::Rgb(220, 223, 228),
        accent: Color::Rgb(97, 175, 239),
        accent_dim: Color::Rgb(86, 182, 194),
        diff_delete_bg: Color::Rgb(55, 35, 40),
        diff_insert_bg: Color::Rgb(35, 55, 40),
        diff_empty_bg: Color::Rgb(33, 37, 43),
        inline_delete_bg: Color::Rgb(95, 55, 60),
        inline_insert_bg: Color::Rgb(55, 95, 60),
        success: Color::Rgb(152, 195, 121),
        error: Color::Rgb(224, 108, 117),
        warning: Color::Rgb(229, 192, 123),
        syn_keyword: Color::Rgb(198, 120, 221),
        syn_type: Color::Rgb(229, 192, 123),
        syn_function: Color::Rgb(97, 175, 239),
        syn_string: Color::Rgb(152, 195, 121),
        syn_number: Color::Rgb(209, 154, 102),
        syn_comment: Color::Rgb(92, 99, 112),
        syn_operator: Color::Rgb(171, 178, 191),
        syn_punctuation: Color::Rgb(127, 132, 142),
        syn_constant: Color::Rgb(86, 182, 194),
        syn_property: Color::Rgb(224, 108, 117),
        syn_attribute: Color::Rgb(229, 192, 123),
    }
}

/// The colors of the built-in solarized theme.
pub open spec fn solarized_palette() -> Theme {
    Theme {
        bg_dark: Color::Rgb(0, 43, 54),
        bg_surface: Color::Rgb(7, 54, 66),
        bg_elevated: Color::Rgb(19, 66, 78),
        bg_selected: Color::Rgb(31, 78, 90),
        border_dim: Color::Rgb(19, 66, 78),
        border_active: Color::Rgb(38, 139, 210),
        gutter_sep: Color::Rgb(7, 54, 66),
        pane_divider: Color::Rgb(19, 66, 78),
        text_faint: Color::Rgb(88, 110, 117),
        text_muted: Color::Rgb(101, 123, 131),
        text_dim: Color::Rgb(131, 148, 150),
        text_normal: Color::Rgb(147, 161, 161),
        text_bright: Color::Rgb(253, 246, 227),
        accent: Color::Rgb(38, 139, 210),
        accent_dim: Color::Rgb(42, 161, 152),
        diff_delete_bg: Color::Rgb(40, 40, 50),
        diff_insert_bg: Color::Rgb(20, 60, 50),
        diff_empty_bg: Color::Rgb(7, 54, 66),
        inline_delete_bg: Color::Rgb(80, 50, 60),
        inline_insert_bg: Color::Rgb(40, 100, 80),
        success: Color::Rgb(133, 153, 0),
        error: Color::Rgb(220, 50, 47),
        warning: Color::Rgb(181, 137, 0),
        syn_keyword: Color::Rgb(203, 75, 22),
        syn_type: Color::Rgb(181, 137, 0),
        syn_function: Color::Rgb(38, 139, 210),
        syn_string: Color::Rgb(42, 161, 152),
        syn_number: Color::Rgb(108, 113, 196),
        syn_comment: Color::Rgb(88, 110, 117),
        syn_operator: Color::Rgb(133, 153, 0),
        syn_punctuation: Color::Rgb(101, 123, 131),
        syn_constant: Color::Rgb(108, 113, 196),
        syn_property: Color::Rgb(38, 139, 210),
        syn_attribute: Color::Rgb(181, 137, 0),
    }
}

/// `s` without its leading `#` characters (`str::trim_start_matches('#')`).
pub open spec fn strip_hashes(s: Seq<char>) -> Seq<char>
    decreases s.len(),
{
    if s.len() > 0 && s[0] == '#' {
        strip_hashes(s.drop_first())
    } else {
        s
    }
}

/// Byte offset `b` of the UTF-8 encoding of `t` falls between characters.
pub open spec fn char_boundary(t: Seq<char>, b: nat) -> bool {
    exists|k: int| 0 <= k <= t.len() && byte_len(#[trigger] t.subrange(0, k)) == b
}

/// Reading `s` as a hex color never cuts a character in two: when the
/// stripped text has six bytes, bytes 2 and 4 start characters.
pub open spec fn hex_safe(s: Seq<char>) -> bool {
    let t = strip_hashes(s);
    byte_len(t) == 6 ==> char_boundary(t, 2) && char_boundary(t, 4)
}

/// The value of a hexadecimal digit.
pub open spec fn hex_val(c: char) -> Option<u8> {
    if '0' <= c && c <= '9' {
        Some((c as u32 - '0' as u32) as u8)
    } else if 'a' <= c && c <= 'f' {
        Some((c as u32 - 'a' as u32 + 10) as u8)
    } else if 'A' <= c && c <= 'F' {
        Some((c as u32 - 'A' as u32 + 10) as u8)
    } else {
        None
    }
}

/// `u8::from_str_radix` in base 16 on the two ASCII characters `a`, `b`:
/// two hex digits, or a `+` sign and one digit.
pub open spec fn hex_pair(a: char, b: char) -> Option<u8> {
    if a == '+' {
        hex_val(b)
    } else {
        match (hex_val(a), hex_val(b)) {
            (Some(x), Some(y)) => Some((16 * x + y) as u8),
            _ => None,
        }
    }
}

/// The color written `#rrggbb` (any number of leading `#`), if it is one.
pub open spec fn parse_hex_spec(s: Seq<char>) -> Option<Color> {
    let t = strip_hashes(s);
    if t.len() == 6 && byte_len(t) == 6 {
        match (hex_pair(t[0], t[1]), hex_pair(t[2], t[3]), hex_pair(t[4], t[5])) {
            (Some(r), Some(g), Some(b)) => Some(Color::Rgb(r, g, b)),
            _ => None,
        }
    } else {
        None
    }
}

fn hex_digit(c: char) -> (r: Option<u8>)
    ensures
        r == hex_val(c),
{
    if '0' <= c && c <= '9' {
        Some((c as u32 - '0' as u32) as u8)
    } else if 'a' <= c && c <= 'f' {
        Some((c as u32 - 'a' as u32 + 10) as u8)
    } else if 'A' <= c && c <= 'F' {
        Some((c as u32 - 'A' as u32 + 10) as u8)
    } else {
        None
    }
}

fn hex_byte(a: char, b: char) -> (r: Option<u8>)
    ensures
        r == hex_pair(a, b),
{
    if a == '+' {
        return hex_digit(b);
    }
    match (hex_digit(a), hex_digit(b)) {
        (Some(x), Some(y)) => Some(16 * x + y),
        _ => None,
    }
}

/// Parse a hex color string (`#rrggbb`).
pub fn parse_hex(s: &str) -> (r: Option<Color>)
    requires
        hex_safe(s@),
    ensures
        r == parse_hex_spec(s@),
{
    let c = chars_of(s);
    let mut i: usize = 0;
    assert(c@.subrange(0, c@.len() as int) =~= c@);
    while i < c.len() && c[i] == '#'
        invariant
            c@ == s@,
            i <= c@.len(),
            strip_hashes(c@.subrange(i as int, c@.len() as int)) == strip_hashes(s@),
        decreases c@.len() - i,
    {
        assert(c@.subrange(i as int, c@.len() as int).drop_first() =~= c@.subrange(
            i + 1,
            c@.len() as int,
        ));
        i = i + 1;
    }
    let t = slice_to_vec(c.as_slice(), i, c.len());
    proof {
        let rest = c@.subrange(i as int, c@.len() as int);
        assert(t@ =~= rest);
        assert(rest.len() == 0 || rest[0] != '#');
        assert(strip_hashes(rest) == rest);
    }
    if t.len() != 6 {
        return None;
    }
    match byte_len_capped(t.as_slice(), 6) {
        None => {
            return None;
        },
        Some(_) => {},
    }
    proof {
        crate::strings::lemma_byte_len_bounds(t@);
    }
    let r = match hex_byte(t[0], t[1]) {
        Some(v) => v,
        None => {
            return None;
        },
    };
    let g = match hex_byte(t[2], t[3]) {
        Some(v) => v,
        None => {
            return None;
        },
    };
    let b = match hex_byte(t[4], t[5]) {
        Some(v) => v,
        None => {
            return None;
        },
    };
    Some(Color::Rgb(r, g, b))
}

/// The views of theme definitions, (name, value) entries.
pub open spec fn defs_view(v: Seq<(String, String)>) -> Seq<(Seq<char>, Seq<char>)> {
    v.map_values(|p: (String, String)| (p.0@, p.1@))
}

/// The value of the first definition named `key`.
pub open spec fn lookup_def(defs: Seq<(Seq<char>, Seq<char>)>, key: Seq<char>) -> Option<Seq<char>>
    decreases defs.len(),
{
    if defs.len() == 0 {
        None
    } else if defs[0].0 == key {
        Some(defs[0].1)
    } else {
        lookup_def(defs.drop_first(), key)
    }
}

/// `value` starts with `#`.
pub open spec fn is_hex_ref(value: Seq<char>) -> bool {
    value.len() > 0 && value[0] == '#'
}

/// The color a theme value names: a hex color when it starts with `#`, else
/// the hex color of the definition it names; `fallback` when that fails.
pub open spec fn resolved_color(value: Seq<char>, defs: Seq<(Seq<char>, Seq<char>)>, fallback: Color) -> Color {
    let parsed = if is_hex_ref(value) {
        parse_hex_spec(value)
    } else {
        match lookup_def(defs, value) {
            Some(d) => parse_hex_spec(d),
            None => None,
        }
    };
    match parsed {
        Some(c) => c,
        None => fallback,
    }
}

/// Resolving `value` reads only text that is safe to read as hex.
pub open spec fn color_safe(value: Seq<char>, defs: Seq<(Seq<char>, Seq<char>)>) -> bool {
    if is_hex_ref(value) {
        hex_safe(value)
    } else {
        match lookup_def(defs, value) {
            Some(d) => hex_safe(d),
            None => true,
        }
    }
}

fn find_def<'a>(defs: &'a Vec<(String, String)>, key: &str) -> (r: Option<&'a String>)
    ensures
        match r {
            Some(v) => lookup_def(defs_view(defs@), key@) == Some(v@),
            None => lookup_def(defs_view(defs@), key@) is None,
        },
{
    let kc = chars_of(key);
    let mut i: usize = 0;
    assert(defs_view(defs@).subrange(0, defs@.len() as int) =~= defs_view(defs@));
    while i < defs.len()
        invariant
            kc@ == key@,
            i <= defs@.len(),
            lookup_def(defs_view(defs@), key@) == lookup_def(
                defs_view(defs@).subrange(i as int, defs@.len() as int),
                key@,
            ),
        decreases defs@.len() - i,
    {
        let ghost rest = defs_view(defs@).subrange(i as int, defs@.len() as int);
        let nc = chars_of(defs[i].0.as_str());
        if chars_eq(nc.as_slice(), kc.as_slice()) {
            assert(rest[0] == (defs@[i as int].0@, defs@[i as int].1@));
            return Some(&defs[i].1);
        }
        assert(rest.drop_first() =~= defs_view(defs@).subrange(i + 1, defs@.len() as int));
        i = i + 1;
    }
    None
}

/// Resolve a color value (hex or reference).
pub fn resolve_color(value: &str, defs: &Vec<(String, String)>, fallback: Color) -> (r: Color)
    requires
        color_safe(value@, defs_view(defs@)),
    ensures
        r == resolved_color(value@, defs_view(defs@), fallback),
{
    let vc = chars_of(value);
    let parsed = if vc.len() > 0 && vc[0] == '#' {
        parse_hex(value)
    } else {
        match find_def(defs, value) {
            Some(d) => parse_hex(d.as_str()),
            None => None,
        }
    };
    match parsed {
        Some(c) => c,
        None => fallback,
    }
}

/// The color of an optional theme field: `fallback` when it is absent.
pub open spec fn resolved_field(v: Option<Seq<char>>, defs: Seq<(Seq<char>, Seq<char>)>, fallback: Color) -> Color {
    match v {
        Some(x) => resolved_color(x, defs, fallback),
        None => fallback,
    }
}

/// An optional theme field is safe to resolve.
pub open spec fn field_safe(v: Option<Seq<char>>, defs: Seq<(Seq<char>, Seq<char>)>) -> bool {
    match v {
        Some(x) => color_safe(x, defs),
        None => true,
    }
}

fn resolve_field(v: &Option<String>, defs: &Vec<(String, String)>, fallback: Color) -> (r: Color)
    requires
        field_safe(opt_string(*v), defs_view(defs@)),
    ensures
        r == resolved_field(opt_string(*v), defs_view(defs@), fallback),
{
    match v {
        Some(x) => resolve_color(x.as_str(), defs, fallback),
        None => fallback,
    }
}

/// Theme file format: named color definitions and the theme's colors.
#[derive(Debug)]
pub struct ThemeJson {
    /// Named colors (`#rrggbb`) that theme colors may refer to, as (name,
    /// value) entries; a name is looked up in its first entry.
    pub defs: Vec<(String, String)>,
    /// The theme's colors.
    pub theme: ThemeColorsJson,
}

/// The colors of a theme file, each optional.
#[derive(Debug)]
pub struct ThemeColorsJson {
    /// The `bg_dark` color: `#rrggbb` or the name of a definition.
    pub bg_dark: Option<String>,
    /// The `bg_surface` color: `#rrggbb` or the name of a definition.
    pub bg_surface: Option<String>,
    /// The `bg_elevated` color: `#rrggbb` or the name of a definition.
    pub bg_elevated: Option<String>,
    /// The `bg_selected` color: `#rrggbb` or the name of a definition.
    pub bg_selected: Option<String>,
    /// The `border_dim` color: `#rrggbb` or the name of a definition.
    pub border_dim: Option<String>,
    /// The `border_active` color: `#rrggbb` or the name of a definition.
    pub border_active: Option<String>,
    /// The `gutter_sep` color: `#rrggbb` or the name of a definition.
    pub gutter_sep: Option<String>,
    /// The `pane_divider` color: `#rrggbb` or the name of a definition.
    pub pane_divider: Option<String>,
    /// The `text_faint` color: `#rrggbb` or the name of a definition.
    pub text_faint: Option<String>,
    /// The `text_muted` color: `#rrggbb` or the name of a definition.
    pub text_muted: Option<String>,
    /// The `text_dim` color: `#rrggbb` or the name of a definition.
    pub text_dim: Option<String>,
    /// The `text_normal` color: `#rrggbb` or the name of a definition.
    pub text_normal: Option<String>,
    /// The `text_bright` color: `#rrggbb` or the name of a definition.
    pub text_bright: Option<String>,
    /// The `accent` color: `#rrggbb` or the name of a definition.
    pub accent: Option<String>,
    /// The `accent_dim` color: `#rrggbb` or the name of a definition.
    pub accent_dim: Option<String>,
    /// The `diff_delete_bg` color: `#rrggbb` or the name of a definition.
    pub diff_delete_bg: Option<String>,
    /// The `diff_insert_bg` color: `#rrggbb` or the name of a definition.
    pub diff_insert_bg: Option<String>,
    /// The `diff_empty_bg` color: `#rrggbb` or the name of a definition.
    pub diff_empty_bg: Option<String>,
    /// The `inline_delete_bg` color: `#rrggbb` or the name of a definition.
    pub inline_delete_bg: Option<String>,
    /// The `inline_insert_bg` color: `#rrggbb` or the name of a definition.
    pub inline_insert_bg: Option<String>,
    /// The `success` color: `#rrggbb` or the name of a definition.
    pub success: Option<String>,
    /// The `error` color: `#rrggbb` or the name of a definition.
    pub error: Option<String>,
    /// The `warning` color: `#rrggbb` or the name of a definition.
    pub warning: Option<String>,
    /// The `syn_keyword` color: `#rrggbb` or the name of a definition.
    pub syn_keyword: Option<String>,
    /// The `syn_type` color: `#rrggbb` or the name of a definition.
    pub syn_type: Option<String>,
    /// The `syn_function` color: `#rrggbb` or the name of a definition.
    pub syn_function: Option<String>,
    /// The `syn_string` color: `#rrggbb` or the name of a definition.
    pub syn_string: Option<String>,
    /// The `syn_number` color: `#rrggbb` or the name of a definition.
    pub syn_number: Option<String>,
    /// The `syn_comment` color: `#rrggbb` or the name of a definition.
    pub syn_comment: Option<String>,
    /// The `syn_operator` color: `#rrggbb` or the name of a definition.
    pub syn_operator: Option<String>,
    /// The `syn_punctuation` color: `#rrggbb` or the name of a definition.
    pub syn_punctuation: Option<String>,
    /// The `syn_constant` color: `#rrggbb` or the name of a definition.
    pub syn_constant: Option<String>,
    /// The `syn_property` color: `#rrggbb` or the name of a definition.
    pub syn_property: Option<String>,
    /// The `syn_attribute` color: `#rrggbb` or the name of a definition.
    pub syn_attribute: Option<String>,
}

/// Every color of `t` is safe to resolve against `defs`.
pub open spec fn colors_safe(t: ThemeColorsJson, defs: Seq<(Seq<char>, Seq<char>)>) -> bool {
        &&& field_safe(opt_string(t.bg_dark), defs)
        &&& field_safe(opt_string(t.bg_surface), defs)
        &&& field_safe(opt_string(t.bg_elevated), defs)
        &&& field_safe(opt_string(t.bg_selected), defs)
        &&& field_safe(opt_string(t.border_dim), defs)
        &&& field_safe(opt_string(t.border_active), defs)
        &&& field_safe(opt_string(t.gutter_sep), defs)
        &&& field_safe(opt_string(t.pane_divider), defs)
        &&& field_safe(opt_string(t.text_faint), defs)
        &&& field_safe(opt_string(t.text_muted), defs)
        &&& field_safe(opt_string(t.text_dim), defs)
        &&& field_safe(opt_string(t.text_normal), defs)
        &&& field_safe(opt_string(t.text_bright), defs)
        &&& field_safe(opt_string(t.accent), defs)
        &&& field_safe(opt_string(t.accent_dim), defs)
        &&& field_safe(opt_string(t.diff_delete_bg), defs)
        &&& field_safe(opt_string(t.diff_insert_bg), defs)
        &&& field_safe(opt_string(t.diff_empty_bg), defs)
        &&& field_safe(opt_string(t.inline_delete_bg), defs)
        &&& field_safe(opt_string(t.inline_insert_bg), defs)
        &&& field_safe(opt_string(t.success), defs)
        &&& field_safe(opt_string(t.error), defs)
        &&& field_safe(opt_string(t.warning), defs)
        &&& field_safe(opt_string(t.syn_keyword), defs)
        &&& field_safe(opt_string(t.syn_type), defs)
        &&& field_safe(opt_string(t.syn_function), defs)
        &&& field_safe(opt_string(t.syn_string), defs)
        &&& field_safe(opt_string(t.syn_number), defs)
        &&& field_safe(opt_string(t.syn_comment), defs)
        &&& field_safe(opt_string(t.syn_operator), defs)
        &&& field_safe(opt_string(t.syn_punctuation), defs)
        &&& field_safe(opt_string(t.syn_constant), defs)
        &&& field_safe(opt_string(t.syn_property), defs)
        &&& field_safe(opt_string(t.syn_attribute), defs)
}

/// The theme a theme file describes: each color resolved, the default
/// palette's color where it is absent or cannot be resolved.
pub open spec fn resolved_theme(t: ThemeColorsJson, defs: Seq<(Seq<char>, Seq<char>)>) -> Theme {
    let d = default_palette();
    Theme {
        bg_dark: resolved_field(opt_string(t.bg_dark), defs, d.bg_dark),
        bg_surface: resolved_field(opt_string(t.bg_surface), defs, d.bg_surface),
        bg_elevated: resolved_field(opt_string(t.bg_elevated), defs, d.bg_elevated),
        bg_selected: resolved_field(opt_string(t.bg_selected), defs, d.bg_selected),
        border_dim: resolved_field(opt_string(t.border_dim), defs, d.border_dim),
        border_active: resolved_field(opt_string(t.border_active), defs, d.border_active),
        gutter_sep: resolved_field(opt_string(t.gutter_sep), defs, d.gutter_sep),
        pane_divider: resolved_field(opt_string(t.pane_divider), defs, d.pane_divider),
        text_faint: resolved_field(opt_string(t.text_faint), defs, d.text_faint),
        text_muted: resolved_field(opt_string(t.text_muted), defs, d.text_muted),
        text_dim: resolved_field(opt_string(t.text_dim), defs, d.text_dim),
        text_normal: resolved_field(opt_string(t.text_normal), defs, d.text_normal),
        text_bright: resolved_field(opt_string(t.text_bright), defs, d.text_bright),
        accent: resolved_field(opt_string(t.accent), defs, d.accent),
        accent_dim: resolved_field(opt_string(t.accent_dim), defs, d.accent_dim),
        diff_delete_bg: resolved_field(opt_string(t.diff_delete_bg), defs, d.diff_delete_bg),
        diff_insert_bg: resolved_field(opt_string(t.diff_insert_bg), defs, d.diff_insert_bg),
        diff_empty_bg: resolved_field(opt_string(t.diff_empty_bg), defs, d.diff_empty_bg),
        inline_delete_bg: resolved_field(opt_string(t.inline_delete_bg), defs, d.inline_delete_bg),
        inline_insert_bg: resolved_field(opt_string(t.inline_insert_bg), defs, d.inline_insert_bg),
        success: resolved_field(opt_string(t.success), defs, d.success),
        error: resolved_field(opt_string(t.error), defs, d.error),
        warning: resolved_field(opt_string(t.warning), defs, d.warning),
        syn_keyword: resolved_field(opt_string(t.syn_keyword), defs, d.syn_keyword),
        syn_type: resolved_field(opt_string(t.syn_type), defs, d.syn_type),
        syn_function: resolved_field(opt_string(t.syn_function), defs, d.syn_function),
        syn_string: resolved_field(opt_string(t.syn_string), defs, d.syn_string),
        syn_number: resolved_field(opt_string(t.syn_number), defs, d.syn_number),
        syn_comment: resolved_field(opt_string(t.syn_comment), defs, d.syn_comment),
        syn_operator: resolved_field(opt_string(t.syn_operator), defs, d.syn_operator),
        syn_punctuation: resolved_field(opt_string(t.syn_punctuation), defs, d.syn_punctuation),
        syn_constant: resolved_field(opt_string(t.syn_constant), defs, d.syn_constant),
        syn_property: resolved_field(opt_string(t.syn_property), defs, d.syn_property),
        syn_attribute: resolved_field(opt_string(t.syn_attribute), defs, d.syn_attribute),
    }
}

/// Resolve a theme file to a theme.
pub fn resolve_theme(json: &ThemeJson) -> (r: Theme)
    requires
        colors_safe(json.theme, defs_view(json.defs@)),
    ensures
        r == resolved_theme(json.theme, defs_view(json.defs@)),
{
    let d = Theme::builtin_default();
    let t = &json.theme;
        let bg_dark = resolve_field(&t.bg_dark, &json.defs, d.bg_dark);
        let bg_surface = resolve_field(&t.bg_surface, &json.defs, d.bg_surface);
        let bg_elevated = resolve_field(&t.bg_elevated, &json.defs, d.bg_elevated);
        let bg_selected = resolve_field(&t.bg_selected, &json.defs, d.bg_selected);
        let border_dim = resolve_field(&t.border_dim, &json.defs, d.border_dim);
        let border_active = resolve_field(&t.border_active, &json.defs, d.border_active);
        let gutter_sep = resolve_field(&t.gutter_sep, &json.defs, d.gutter_sep);
        let pane_divider = resolve_field(&t.pane_divider, &json.defs, d.pane_divider);
        let text_faint = resolve_field(&t.text_faint, &json.defs, d.text_faint);
        let text_muted = resolve_field(&t.text_muted, &json.defs, d.text_muted);
        let text_dim = resolve_field(&t.text_dim, &json.defs, d.text_dim);
        let text_normal = resolve_field(&t.text_normal, &json.defs, d.text_normal);
        let text_bright = resolve_field(&t.text_bright, &json.defs, d.text_bright);
        let accent = resolve_field(&t.accent, &json.defs, d.accent);
        let accent_dim = resolve_field(&t.accent_dim, &json.defs, d.accent_dim);
        let diff_delete_bg = resolve_field(&t.diff_delete_bg, &json.defs, d.diff_delete_bg);
        let diff_insert_bg = resolve_field(&t.diff_insert_bg, &json.defs, d.diff_insert_bg);
        let diff_empty_bg = resolve_field(&t.diff_empty_bg, &json.defs, d.diff_empty_bg);
        let inline_delete_bg = resolve_field(&t.inline_delete_bg, &json.defs, d.inline_delete_bg);
        let inline_insert_bg = resolve_field(&t.inline_insert_bg, &json.defs, d.inline_insert_bg);
        let success = resolve_field(&t.success, &json.defs, d.success);
        let error = resolve_field(&t.error, &json.defs, d.error);
        let warning = resolve_field(&t.warning, &json.defs, d.warning);
        let syn_keyword = resolve_field(&t.syn_keyword, &json.defs, d.syn_keyword);
        let syn_type = resolve_field(&t.syn_type, &json.defs, d.syn_type);
        let syn_function = resolve_field(&t.syn_function, &json.defs, d.syn_function);
        let syn_string = resolve_field(&t.syn_string, &json.defs, d.syn_string);
        let syn_number = resolve_field(&t.syn_number, &json.defs, d.syn_number);
        let syn_comment = resolve_field(&t.syn_comment, &json.defs, d.syn_comment);
        let syn_operator = resolve_field(&t.syn_operator, &json.defs, d.syn_operator);
        let syn_punctuation = resolve_field(&t.syn_punctuation, &json.defs, d.syn_punctuation);
        let syn_constant = resolve_field(&t.syn_constant, &json.defs, d.syn_constant);
        let syn_property = resolve_field(&t.syn_property, &json.defs, d.syn_property);
        let syn_attribute = resolve_field(&t.syn_attribute, &json.defs, d.syn_attribute);
    Theme {
        bg_dark,
        bg_surface,
        bg_elevated,
        bg_selected,
        border_dim,
        border_active,
        gutter_sep,
        pane_divider,
        text_faint,
        text_muted,
        text_dim,
        text_normal,
        text_bright,
        accent,
        accent_dim,
        diff_delete_bg,
        diff_insert_bg,
        diff_empty_bg,
        inline_delete_bg,
        inline_insert_bg,
        success,
        error,
        warning,
        syn_keyword,
        syn_type,
        syn_function,
        syn_string,
        syn_number,
        syn_comment,
        syn_operator,
        syn_punctuation,
        syn_constant,
        syn_property,
        syn_attribute,
    }
}

/// The names of the built-in themes.
pub open spec fn builtin_names() -> Seq<Seq<char>> {
    seq![
        "default"@, "dracula"@, "catppuccin"@, "nord"@, "gruvbox"@, "tokyonight"@, "rosepine"@, "onedark"@, "solarized"@,
        "ayu"@, "everforest"@, "github"@, "kanagawa"@, "monokai"@, "nightowl"@, "palenight"@, "zenburn"@,
    ]
}

/// The built-in theme called `name`; the default theme for an unknown name.
pub open spec fn builtin_named(name: Seq<char>) -> Theme {
    if name == "dracula"@ {
        dracula_palette()
    } else if name == "catppuccin"@ {
        catppuccin_palette()
    } else if name == "nord"@ {
        nord_palette()
    } else if name == "gruvbox"@ {
        gruvbox_palette()
    } else if name == "tokyonight"@ {
        tokyonight_palette()
    } else if name == "rosepine"@ {
        rosepine_palette()
    } else if name == "onedark"@ || name == "one-dark"@ {
        onedark_palette()
    } else if name == "solarized"@ {
        solarized_palette()
    } else if name == "ayu"@ {
        ayu_palette()
    } else if name == "everforest"@ {
        everforest_palette()
    } else if name == "github"@ {
        github_palette()
    } else if name == "kanagawa"@ {
        kanagawa_palette()
    } else if name == "monokai"@ {
        monokai_palette()
    } else if name == "nightowl"@ {
        nightowl_palette()
    } else if name == "palenight"@ {
        palenight_palette()
    } else if name == "zenburn"@ {
        zenburn_palette()
    } else {
        default_palette()
    }
}

/// `known` followed by each name of `extra` that is not already listed.
pub open spec fn add_new_names(known: Seq<Seq<char>>, extra: Seq<Seq<char>>) -> Seq<Seq<char>>
    decreases extra.len(),
{
    if extra.len() == 0 {
        known
    } else {
        let k = add_new_names(known, extra.drop_last());
        if k.contains(extra.last()) {
            k
        } else {
            k.push(extra.last())
        }
    }
}

/// Names as sort keys.
pub open spec fn name_keys(s: Seq<Seq<char>>) -> Seq<(Seq<char>, ())> {
    s.map_values(|x: Seq<char>| (x, ()))
}

/// Names in sorted order.
pub open spec fn sorted_names(s: Seq<Seq<char>>) -> Seq<Seq<char>> {
    stable_sorted(name_keys(s)).map_values(|p: (Seq<char>, ())| p.0)
}

/// The theme names listed for the user theme files `user`: the built-in
/// names and the new user names, sorted.
pub open spec fn theme_names(user: Seq<Seq<char>>) -> Seq<Seq<char>> {
    sorted_names(add_new_names(builtin_names(), user))
}

fn same_text(a: &str, b: &str) -> (r: bool)
    ensures
        r == (a@ == b@),
{
    let ac = chars_of(a);
    let bc = chars_of(b);
    chars_eq(ac.as_slice(), bc.as_slice())
}

fn lists_name(names: &Vec<String>, n: &str) -> (r: bool)
    ensures
        r == texts(names@).contains(n@),
{
    let mut i: usize = 0;
    while i < names.len()
        invariant
            i <= names@.len(),
            forall|k: int| 0 <= k < i ==> names@[k]@ != n@,
        decreases names@.len() - i,
    {
        if same_text(names[i].as_str(), n) {
            assert(texts(names@)[i as int] == n@);
            return true;
        }
        i = i + 1;
    }
    proof {
        if texts(names@).contains(n@) {
            let k = choose|k: int| 0 <= k < texts(names@).len() && texts(names@)[k] == n@;
            assert(names@[k]@ == n@);
        }
    }
    false
}

impl Theme {
    /// Default dark theme.
    pub fn builtin_default() -> (r: Self)
        ensures
            r == default_palette(),
    {
        Theme {
            bg_dark: Color::Rgb(18, 18, 22),
            bg_surface: Color::Rgb(26, 26, 32),
            bg_elevated: Color::Rgb(36, 36, 44),
            bg_selected: Color::Rgb(45, 45, 55),
            border_dim: Color::Rgb(50, 50, 60),
            border_active: Color::Rgb(80, 200, 200),
            gutter_sep: Color::Rgb(38, 38, 46),
            pane_divider: Color::Rgb(55, 55, 65),
            text_faint: Color::Rgb(55, 55, 65),
            text_muted: Color::Rgb(80, 80, 92),
            text_dim: Color::Rgb(110, 110, 125),
            text_normal: Color::Rgb(175, 175, 185),
            text_bright: Color::Rgb(230, 230, 235),
            accent: Color::Rgb(80, 200, 200),
            accent_dim: Color::Rgb(55, 130, 130),
            diff_delete_bg: Color::Rgb(45, 25, 30),
            diff_insert_bg: Color::Rgb(25, 45, 32),
            diff_empty_bg: Color::Rgb(22, 22, 26),
            inline_delete_bg: Color::Rgb(90, 40, 50),
            inline_insert_bg: Color::Rgb(40, 90, 55),
            success: Color::Rgb(85, 185, 105),
            error: Color::Rgb(215, 85, 85),
            warning: Color::Rgb(215, 175, 80),
            syn_keyword: Color::Rgb(198, 120, 221),
            syn_type: Color::Rgb(229, 192, 123),
            syn_function: Color::Rgb(97, 175, 239),
            syn_string: Color::Rgb(152, 195, 121),
            syn_number: Color::Rgb(209, 154, 102),
            syn_comment: Color::Rgb(92, 99, 112),
            syn_operator: Color::Rgb(171, 178, 191),
            syn_punctuation: Color::Rgb(120, 120, 135),
            syn_constant: Color::Rgb(86, 182, 194),
            syn_property: Color::Rgb(224, 108, 117),
            syn_attribute: Color::Rgb(229, 192, 123),
        }
    }

    /// Dracula theme.
    pub fn dracula() -> (r: Self)
        ensures
            r == dracula_palette(),
    {
        Theme {
            bg_dark: Color::Rgb(40, 42, 54),
            bg_surface: Color::Rgb(33, 34, 44),
            bg_elevated: Color::Rgb(68, 71, 90),
            bg_selected: Color::Rgb(68, 71, 90),
            border_dim: Color::Rgb(68, 71, 90),
            border_active: Color::Rgb(189, 147, 249),
            gutter_sep: Color::Rgb(50, 52, 62),
            pane_divider: Color::Rgb(68, 71, 90),
            text_faint: Color::Rgb(68, 71, 90),
            text_muted: Color::Rgb(98, 114, 164),
            text_dim: Color::Rgb(128, 134, 174),
            text_normal: Color::Rgb(248, 248, 242),
            text_bright: Color::Rgb(255, 255, 255),
            accent: Color::Rgb(139, 233, 253),
            accent_dim: Color::Rgb(80, 150, 170),
            diff_delete_bg: Color::Rgb(58, 26, 26),
            diff_insert_bg: Color::Rgb(26, 58, 26),
            diff_empty_bg: Color::Rgb(33, 34, 44),
            inline_delete_bg: Color::Rgb(100, 40, 40),
            inline_insert_bg: Color::Rgb(40, 100, 50),
            success: Color::Rgb(80, 250, 123),
            error: Color::Rgb(255, 85, 85),
            warning: Color::Rgb(241, 250, 140),
            syn_keyword: Color::Rgb(255, 121, 198),
            syn_type: Color::Rgb(139, 233, 253),
            syn_function: Color::Rgb(80, 250, 123),
            syn_string: Color::Rgb(241, 250, 140),
            syn_number: Color::Rgb(189, 147, 249),
            syn_comment: Color::Rgb(98, 114, 164),
            syn_operator: Color::Rgb(255, 121, 198),
            syn_punctuation: Color::Rgb(248, 248, 242),
            syn_constant: Color::Rgb(189, 147, 249),
            syn_property: Color::Rgb(139, 233, 253),
            syn_attribute: Color::Rgb(80, 250, 123),
        }
    }

    /// Catppuccin Mocha theme.
    pub fn catppuccin() -> (r: Self)
        ensures
            r == catppuccin_palette(),
    {
        Theme {
            bg_dark: Color::Rgb(30, 30, 46),
            bg_surface: Color::Rgb(36, 39, 58),
            bg_elevated: Color::Rgb(49, 50, 68),
            bg_selected: Color::Rgb(69, 71, 90),
            border_dim: Color::Rgb(69, 71, 90),
            border_active: Color::Rgb(137, 180, 250),
            gutter_sep: Color::Rgb(49, 50, 68),
            pane_divider: Color::Rgb(69, 71, 90),
            text_faint: Color::Rgb(88, 91, 112),
            text_muted: Color::Rgb(127, 132, 156),
            text_dim: Color::Rgb(166, 173, 200),
            text_normal: Color::Rgb(205, 214, 244),
            text_bright: Color::Rgb(255, 255, 255),
            accent: Color::Rgb(137, 180, 250),
            accent_dim: Color::Rgb(116, 199, 236),
            diff_delete_bg: Color::Rgb(50, 30, 40),
            diff_insert_bg: Color::Rgb(30, 50, 40),
            diff_empty_bg: Color::Rgb(36, 39, 58),
            inline_delete_bg: Color::Rgb(90, 50, 60),
            inline_insert_bg: Color::Rgb(50, 90, 60),
            success: Color::Rgb(166, 227, 161),
            error: Color::Rgb(243, 139, 168),
            warning: Color::Rgb(249, 226, 175),
            syn_keyword: Color::Rgb(203, 166, 247),
            syn_type: Color::Rgb(249, 226, 175),
            syn_function: Color::Rgb(137, 180, 250),
            syn_string: Color::Rgb(166, 227, 161),
            syn_number: Color::Rgb(250, 179, 135),
            syn_comment: Color::Rgb(127, 132, 156),
            syn_operator: Color::Rgb(148, 226, 213),
            syn_punctuation: Color::Rgb(147, 153, 178),
            syn_constant: Color::Rgb(250, 179, 135),
            syn_property: Color::Rgb(243, 139, 168),
            syn_attribute: Color::Rgb(249, 226, 175),
        }
    }

    /// Nord theme.
    pub fn nord() -> (r: Self)
        ensures
            r == nord_palette(),
    {
        Theme {
            bg_dark: Color::Rgb(46, 52, 64),
            bg_surface: Color::Rgb(59, 66, 82),
            bg_elevated: Color::Rgb(67, 76, 94),
            bg_selected: Color::Rgb(76, 86, 106),
            border_dim: Color::Rgb(67, 76, 94),
            border_active: Color::Rgb(136, 192, 208),
            gutter_sep: Color::Rgb(59, 66, 82),
            pane_divider: Color::Rgb(67, 76, 94),
            text_faint: Color::Rgb(76, 86, 106),
            text_muted: Color::Rgb(96, 106, 126),
            text_dim: Color::Rgb(150, 160, 180),
            text_normal: Color::Rgb(216, 222, 233),
            text_bright: Color::Rgb(236, 239, 244),
            accent: Color::Rgb(136, 192, 208),
            accent_dim: Color::Rgb(129, 161, 193),
            diff_delete_bg: Color::Rgb(60, 45, 50),
            diff_insert_bg: Color::Rgb(45, 60, 55),
            diff_empty_bg: Color::Rgb(59, 66, 82),
            inline_delete_bg: Color::Rgb(90, 60, 65),
            inline_insert_bg: Color::Rgb(60, 90, 75),
            success: Color::Rgb(163, 190, 140),
            error: Color::Rgb(191, 97, 106),
            warning: Color::Rgb(235, 203, 139),
            syn_keyword: Color::Rgb(180, 142, 173),
            syn_type: Color::Rgb(143, 188, 187),
            syn_function: Color::Rgb(136, 192, 208),
            syn_string: Color::Rgb(163, 190, 140),
            syn_number: Color::Rgb(180, 142, 173),
            syn_comment: Color::Rgb(96, 106, 126),
            syn_operator: Color::Rgb(129, 161, 193),
            syn_punctuation: Color::Rgb(216, 222, 233),
            syn_constant: Color::Rgb(180, 142, 173),
            syn_property: Color::Rgb(136, 192, 208),
            syn_attribute: Color::Rgb(235, 203, 139),
        }
    }

    /// Gruvbox Dark theme.
    pub fn gruvbox() -> (r: Self)
        ensures
            r == gruvbox_palette(),
    {
        Theme {
            bg_dark: Color::Rgb(40, 40, 40),
            bg_surface: Color::Rgb(50, 48, 47),
            bg_elevated: Color::Rgb(60, 56, 54),
            bg_selected: Color::Rgb(80, 73, 69),
            border_dim: Color::Rgb(60, 56, 54),
            border_active: Color::Rgb(215, 153, 33),
            gutter_sep: Color::Rgb(50, 48, 47),
            pane_divider: Color::Rgb(60, 56, 54),
            text_faint: Color::Rgb(80, 73, 69),
            text_muted: Color::Rgb(146, 131, 116),
            text_dim: Color::Rgb(168, 153, 132),
            text_normal: Color::Rgb(235, 219, 178),
            text_bright: Color::Rgb(251, 241, 199),
            accent: Color::Rgb(215, 153, 33),
            accent_dim: Color::Rgb(152, 151, 26),
            diff_delete_bg: Color::Rgb(60, 35, 35),
            diff_insert_bg: Color::Rgb(35, 55, 35),
            diff_empty_bg: Color::Rgb(50, 48, 47),
            inline_delete_bg: Color::Rgb(100, 50, 50),
            inline_insert_bg: Color::Rgb(50, 90, 50),
            success: Color::Rgb(152, 151, 26),
            error: Color::Rgb(204, 36, 29),
            warning: Color::Rgb(250, 189, 47),
            syn_keyword: Color::Rgb(204, 36, 29),
            syn_type: Color::Rgb(250, 189, 47),
            syn_function: Color::Rgb(184, 187, 38),
            syn_string: Color::Rgb(184, 187, 38),
            syn_number: Color::Rgb(211, 134, 155),
            syn_comment: Color::Rgb(146, 131, 116),
            syn_operator: Color::Rgb(254, 128, 25),
            syn_punctuation: Color::Rgb(168, 153, 132),
            syn_constant: Color::Rgb(211, 134, 155),
            syn_property: Color::Rgb(131, 165, 152),
            syn_attribute: Color::Rgb(250, 189, 47),
        }
    }

    /// Tokyo Night theme.
    pub fn tokyonight() -> (r: Self)
        ensures
            r == tokyonight_palette(),
    {
        Theme {
            bg_dark: Color::Rgb(26, 27, 38),
            bg_surface: Color::Rgb(36, 40, 59),
            bg_elevated: Color::Rgb(41, 46, 66),
            bg_selected: Color::Rgb(51, 59, 81),
            border_dim: Color::Rgb(41, 46, 66),
            border_active: Color::Rgb(125, 207, 255),
            gutter_sep: Color::Rgb(36, 40, 59),
            pane_divider: Color::Rgb(41, 46, 66),
            text_faint: Color::Rgb(61, 66, 86),
            text_muted: Color::Rgb(86, 95, 137),
            text_dim: Color::Rgb(145, 152, 179),
            text_normal: Color::Rgb(192, 202, 245),
            text_bright: Color::Rgb(220, 230, 255),
            accent: Color::Rgb(125, 207, 255),
            accent_dim: Color::Rgb(65, 166, 181),
            diff_delete_bg: Color::Rgb(50, 30, 40),
            diff_insert_bg: Color::Rgb(30, 50, 40),
            diff_empty_bg: Color::Rgb(36, 40, 59),
            inline_delete_bg: Color::Rgb(90, 50, 60),
            inline_insert_bg: Color::Rgb(50, 90, 60),
            success: Color::Rgb(158, 206, 106),
            error: Color::Rgb(247, 118, 142),
            warning: Color::Rgb(224, 175, 104),
            syn_keyword: Color::Rgb(187, 154, 247),
            syn_type: Color::Rgb(42, 195, 222),
            syn_function: Color::Rgb(125, 207, 255),
            syn_string: Color::Rgb(158, 206, 106),
            syn_number: Color::Rgb(255, 158, 100),
            syn_comment: Color::Rgb(86, 95, 137),
            syn_operator: Color::Rgb(137, 221, 255),
            syn_punctuation: Color::Rgb(145, 152, 179),
            syn_constant: Color::Rgb(255, 158, 100),
            syn_property: Color::Rgb(115, 218, 202),
            syn_attribute: Color::Rgb(224, 175, 104),
        }
    }

    /// Rosé Pine theme.
    pub fn rosepine() -> (r: Self)
        ensures
            r == rosepine_palette(),
    {
        Theme {
            bg_dark: Color::Rgb(25, 23, 36),
            bg_surface: Color::Rgb(31, 29, 46),
            bg_elevated: Color::Rgb(38, 35, 58),
            bg_selected: Color::Rgb(57, 53, 82),
            border_dim: Color::Rgb(38, 35, 58),
            border_active: Color::Rgb(196, 167, 231),
            gutter_sep: Color::Rgb(31, 29, 46),
            pane_divider: Color::Rgb(38, 35, 58),
            text_faint: Color::Rgb(57, 53, 82),
            text_muted: Color::Rgb(110, 106, 134),
            text_dim: Color::Rgb(144, 140, 170),
            text_normal: Color::Rgb(224, 222, 244),
            text_bright: Color::Rgb(255, 255, 255),
            accent: Color::Rgb(196, 167, 231),
            accent_dim: Color::Rgb(156, 207, 216),
            diff_delete_bg: Color::Rgb(50, 30, 35),
            diff_insert_bg: Color::Rgb(30, 50, 40),
            diff_empty_bg: Color::Rgb(31, 29, 46),
            inline_delete_bg: Color::Rgb(90, 50, 55),
            inline_insert_bg: Color::Rgb(50, 90, 60),
            success: Color::Rgb(156, 207, 216),
            error: Color::Rgb(235, 111, 146),
            warning: Color::Rgb(246, 193, 119),
            syn_keyword: Color::Rgb(49, 116, 143),
            syn_type: Color::Rgb(156, 207, 216),
            syn_function: Color::Rgb(235, 188, 186),
            syn_string: Color::Rgb(246, 193, 119),
            syn_number: Color::Rgb(234, 154, 151),
            syn_comment: Color::Rgb(110, 106, 134),
            syn_operator: Color::Rgb(144, 140, 170),
            syn_punctuation: Color::Rgb(144, 140, 170),
            syn_constant: Color::Rgb(234, 154, 151),
            syn_property: Color::Rgb(196, 167, 231),
            syn_attribute: Color::Rgb(156, 207, 216),
        }
    }

    /// One Dark theme.
    pub fn onedark() -> (r: Self)
        ensures
            r == onedark_palette(),
    {
        Theme {
            bg_dark: Color::Rgb(40, 44, 52),
            bg_surface: Color::Rgb(33, 37, 43),
            bg_elevated: Color::Rgb(50, 56, 66),
            bg_selected: Color::Rgb(60, 66, 76),
            border_dim: Color::Rgb(50, 56, 66),
            border_active: Color::Rgb(97, 175, 239),
            gutter_sep: Color::Rgb(40, 44, 52),
            pane_divider: Color::Rgb(50, 56, 66),
            text_faint: Color::Rgb(60, 66, 76),
            text_muted: Color::Rgb(92, 99, 112),
            text_dim: Color::Rgb(127, 132, 142),
            text_normal: Color::Rgb(171, 178, 191),
            text_bright: Color::Rgb(220, 223, 228),
            accent: Color::Rgb(97, 175, 239),
            accent_dim: Color::Rgb(86, 182, 194),
            diff_delete_bg: Color::Rgb(55, 35, 40),
            diff_insert_bg: Color::Rgb(35, 55, 40),
            diff_empty_bg: Color::Rgb(33, 37, 43),
            inline_delete_bg: Color::Rgb(95, 55, 60),
            inline_insert_bg: Color::Rgb(55, 95, 60),
            success: Color::Rgb(152, 195, 121),
            error: Color::Rgb(224, 108, 117),
            warning: Color::Rgb(229, 192, 123),
            syn_keyword: Color::Rgb(198, 120, 221),
            syn_type: Color::Rgb(229, 192, 123),
            syn_function: Color::Rgb(97, 175, 239),
            syn_string: Color::Rgb(152, 195, 121),
            syn_number: Color::Rgb(209, 154, 102),
            syn_comment: Color::Rgb(92, 99, 112),
            syn_operator: Color::Rgb(171, 178, 191),
            syn_punctuation: Color::Rgb(127, 132, 142),
            syn_constant: Color::Rgb(86, 182, 194),
            syn_property: Color::Rgb(224, 108, 117),
            syn_attribute: Color::Rgb(229, 192, 123),
        }
    }

    /// Solarized Dark theme.
    pub fn solarized() -> (r: Self)
        ensures
            r == solarized_palette(),
    {
        Theme {
            bg_dark: Color::Rgb(0, 43, 54),
            bg_surface: Color::Rgb(7, 54, 66),
            bg_elevated: Color::Rgb(19, 66, 78),
            bg_selected: Color::Rgb(31, 78, 90),
            border_dim: Color::Rgb(19, 66, 78),
            border_active: Color::Rgb(38, 139, 210),
            gutter_sep: Color::Rgb(7, 54, 66),
            pane_divider: Color::Rgb(19, 66, 78),
            text_faint: Color::Rgb(88, 110, 117),
            text_muted: Color::Rgb(101, 123, 131),
            text_dim: Color::Rgb(131, 148, 150),
            text_normal: Color::Rgb(147, 161, 161),
            text_bright: Color::Rgb(253, 246, 227),
            accent: Color::Rgb(38, 139, 210),
            accent_dim: Color::Rgb(42, 161, 152),
            diff_delete_bg: Color::Rgb(40, 40, 50),
            diff_insert_bg: Color::Rgb(20, 60, 50),
            diff_empty_bg: Color::Rgb(7, 54, 66),
            inline_delete_bg: Color::Rgb(80, 50, 60),
            inline_insert_bg: Color::Rgb(40, 100, 80),
            success: Color::Rgb(133, 153, 0),
            error: Color::Rgb(220, 50, 47),
            warning: Color::Rgb(181, 137, 0),
            syn_keyword: Color::Rgb(203, 75, 22),
            syn_type: Color::Rgb(181, 137, 0),
            syn_function: Color::Rgb(38, 139, 210),
            syn_string: Color::Rgb(42, 161, 152),
            syn_number: Color::Rgb(108, 113, 196),
            syn_comment: Color::Rgb(88, 110, 117),
            syn_operator: Color::Rgb(133, 153, 0),
            syn_punctuation: Color::Rgb(101, 123, 131),
            syn_constant: Color::Rgb(108, 113, 196),
            syn_property: Color::Rgb(38, 139, 210),
            syn_attribute: Color::Rgb(181, 137, 0),
        }
    }

    /// Ayu Dark theme.
    pub fn ayu() -> (r: Self)
        ensures
            r == ayu_palette(),
    {
        Theme {
            bg_dark: Color::Rgb(11, 14, 20),
            bg_surface: Color::Rgb(15, 19, 26),
            bg_elevated: Color::Rgb(19, 23, 33),
            bg_selected: Color::Rgb(31, 36, 48),
            border_dim: Color::Rgb(31, 36, 48),
            border_active: Color::Rgb(230, 180, 80),
            gutter_sep: Color::Rgb(21, 25, 34),
            pane_divider: Color::Rgb(31, 36, 48),
            text_faint: Color::Rgb(31, 36, 48),
            text_muted: Color::Rgb(92, 103, 115),
            text_dim: Color::Rgb(132, 137, 142),
            text_normal: Color::Rgb(191, 189, 182),
            text_bright: Color::Rgb(230, 225, 207),
            accent: Color::Rgb(230, 180, 80),
            accent_dim: Color::Rgb(142, 114, 56),
            diff_delete_bg: Color::Rgb(48, 27, 32),
            diff_insert_bg: Color::Rgb(32, 51, 34),
            diff_empty_bg: Color::Rgb(15, 19, 26),
            inline_delete_bg: Color::Rgb(89, 42, 45),
            inline_insert_bg: Color::Rgb(55, 91, 50),
            success: Color::Rgb(127, 217, 98),
            error: Color::Rgb(217, 87, 87),
            warning: Color::Rgb(230, 180, 80),
            syn_keyword: Color::Rgb(255, 143, 64),
            syn_type: Color::Rgb(89, 194, 255),
            syn_function: Color::Rgb(255, 180, 84),
            syn_string: Color::Rgb(170, 217, 76),
            syn_number: Color::Rgb(210, 166, 255),
            syn_comment: Color::Rgb(92, 103, 115),
            syn_operator: Color::Rgb(242, 150, 104),
            syn_punctuation: Color::Rgb(156, 159, 159),
            syn_constant: Color::Rgb(210, 166, 255),
            syn_property: Color::Rgb(57, 186, 230),
            syn_attribute: Color::Rgb(230, 182, 115),
        }
    }

    /// Everforest Dark theme.
    pub fn everforest() -> (r: Self)
        ensures
            r == everforest_palette(),
    {
        Theme {
            bg_dark: Color::Rgb(45, 53, 59),
            bg_surface: Color::Rgb(39, 46, 51),
            bg_elevated: Color::Rgb(52, 63, 68),
            bg_selected: Color::Rgb(71, 82, 88),
            border_dim: Color::Rgb(71, 82, 88),
            border_active: Color::Rgb(167, 192, 128),
            gutter_sep: Color::Rgb(58, 68, 74),
            pane_divider: Color::Rgb(71, 82, 88),
            text_faint: Color::Rgb(71, 82, 88),
            text_muted: Color::Rgb(133, 146, 137),
            text_dim: Color::Rgb(164, 167, 150),
            text_normal: Color::Rgb(211, 198, 170),
            text_bright: Color::Rgb(228, 221, 200),
            accent: Color::Rgb(167, 192, 128),
            accent_dim: Color::Rgb(118, 136, 100),
            diff_delete_bg: Color::Rgb(78, 66, 71),
            diff_insert_bg: Color::Rgb(67, 78, 71),
            diff_empty_bg: Color::Rgb(39, 46, 51),
            inline_delete_bg: Color::Rgb(115, 81, 85),
            inline_insert_bg: Color::Rgb(91, 106, 85),
            success: Color::Rgb(167, 192, 128),
            error: Color::Rgb(230, 126, 128),
            warning: Color::Rgb(219, 188, 127),
            syn_keyword: Color::Rgb(230, 126, 128),
            syn_type: Color::Rgb(219, 188, 127),
            syn_function: Color::Rgb(167, 192, 128),
            syn_string: Color::Rgb(131, 192, 146),
            syn_number: Color::Rgb(214, 153, 182),
            syn_comment: Color::Rgb(133, 146, 137),
            syn_operator: Color::Rgb(230, 152, 117),
            syn_punctuation: Color::Rgb(184, 180, 158),
            syn_constant: Color::Rgb(214, 153, 182),
            syn_property: Color::Rgb(127, 187, 179),
            syn_attribute: Color::Rgb(219, 188, 127),
        }
    }

    /// GitHub Dark theme.
    pub fn github() -> (r: Self)
        ensures
            r == github_palette(),
    {
        Theme {
            bg_dark: Color::Rgb(13, 17, 23),
            bg_surface: Color::Rgb(1, 4, 9),
            bg_elevated: Color::Rgb(22, 27, 34),
            bg_selected: Color::Rgb(48, 54, 61),
            border_dim: Color::Rgb(48, 54, 61),
            border_active: Color::Rgb(88, 166, 255),
            gutter_sep: Color::Rgb(30, 36, 42),
            pane_divider: Color::Rgb(48, 54, 61),
            text_faint: Color::Rgb(48, 54, 61),
            text_muted: Color::Rgb(139, 148, 158),
            text_dim: Color::Rgb(164, 172, 182),
            text_normal: Color::Rgb(201, 209, 217),
            text_bright: Color::Rgb(240, 246, 252),
            accent: Color::Rgb(88, 166, 255),
            accent_dim: Color::Rgb(58, 106, 162),
            diff_delete_bg: Color::Rgb(55, 29, 32),
            diff_insert_bg: Color::Rgb(22, 47, 33),
            diff_empty_bg: Color::Rgb(1, 4, 9),
            inline_delete_bg: Color::Rgb(102, 41, 42),
            inline_insert_bg: Color::Rgb(32, 81, 45),
            success: Color::Rgb(63, 185, 80),
            error: Color::Rgb(248, 81, 73),
            warning: Color::Rgb(210, 153, 34),
            syn_keyword: Color::Rgb(255, 123, 114),
            syn_type: Color::Rgb(255, 166, 87),
            syn_function: Color::Rgb(210, 168, 255),
            syn_string: Color::Rgb(165, 214, 255),
            syn_number: Color::Rgb(121, 192, 255),
            syn_comment: Color::Rgb(139, 148, 158),
            syn_operator: Color::Rgb(255, 123, 114),
            syn_punctuation: Color::Rgb(179, 188, 196),
            syn_constant: Color::Rgb(121, 192, 255),
            syn_property: Color::Rgb(121, 192, 255),
            syn_attribute: Color::Rgb(126, 231, 135),
        }
    }

    /// Kanagawa Wave theme.
    pub fn kanagawa() -> (r: Self)
        ensures
            r == kanagawa_palette(),
    {
        Theme {
            bg_dark: Color::Rgb(31, 31, 40),
            bg_surface: Color::Rgb(22, 22, 29),
            bg_elevated: Color::Rgb(42, 42, 55),
            bg_selected: Color::Rgb(54, 54, 70),
            border_dim: Color::Rgb(54, 54, 70),
            border_active: Color::Rgb(127, 180, 202),
            gutter_sep: Color::Rgb(42, 42, 55),
            pane_divider: Color::Rgb(54, 54, 70),
            text_faint: Color::Rgb(54, 54, 70),
            text_muted: Color::Rgb(114, 113, 105),
            text_dim: Color::Rgb(156, 154, 137),
            text_normal: Color::Rgb(220, 215, 186),
            text_bright: Color::Rgb(242, 236, 188),
            accent: Color::Rgb(127, 180, 202),
            accent_dim: Color::Rgb(89, 120, 137),
            diff_delete_bg: Color::Rgb(67, 32, 39),
            diff_insert_bg: Color::Rgb(53, 59, 52),
            diff_empty_bg: Color::Rgb(22, 22, 29),
            inline_delete_bg: Color::Rgb(107, 33, 38),
            inline_insert_bg: Color::Rgb(77, 90, 66),
            success: Color::Rgb(152, 187, 108),
            error: Color::Rgb(232, 36, 36),
            warning: Color::Rgb(255, 158, 59),
            syn_keyword: Color::Rgb(149, 127, 184),
            syn_type: Color::Rgb(122, 168, 159),
            syn_function: Color::Rgb(126, 156, 216),
            syn_string: Color::Rgb(152, 187, 108),
            syn_number: Color::Rgb(210, 126, 153),
            syn_comment: Color::Rgb(114, 113, 105),
            syn_operator: Color::Rgb(192, 163, 110),
            syn_punctuation: Color::Rgb(183, 179, 158),
            syn_constant: Color::Rgb(255, 160, 102),
            syn_property: Color::Rgb(230, 195, 132),
            syn_attribute: Color::Rgb(230, 195, 132),
        }
    }

    /// Monokai theme.
    pub fn monokai() -> (r: Self)
        ensures
            r == monokai_palette(),
    {
        Theme {
            bg_dark: Color::Rgb(39, 40, 34),
            bg_surface: Color::Rgb(30, 31, 28),
            bg_elevated: Color::Rgb(62, 61, 50),
            bg_selected: Color::Rgb(73, 72, 62),
            border_dim: Color::Rgb(73, 72, 62),
            border_active: Color::Rgb(102, 217, 239),
            gutter_sep: Color::Rgb(56, 56, 48),
            pane_divider: Color::Rgb(73, 72, 62),
            text_faint: Color::Rgb(73, 72, 62),
            text_muted: Color::Rgb(117, 113, 94),
            text_dim: Color::Rgb(169, 167, 153),
            text_normal: Color::Rgb(248, 248, 242),
            text_bright: Color::Rgb(255, 255, 255),
            accent: Color::Rgb(102, 217, 239),
            accent_dim: Color::Rgb(77, 146, 157),
            diff_delete_bg: Color::Rgb(77, 40, 48),
            diff_insert_bg: Color::Rgb(62, 73, 36),
            diff_empty_bg: Color::Rgb(30, 31, 28),
            inline_delete_bg: Color::Rgb(119, 39, 64),
            inline_insert_bg: Color::Rgb(87, 111, 39),
            success: Color::Rgb(166, 226, 46),
            error: Color::Rgb(249, 38, 114),
            warning: Color::Rgb(253, 151, 31),
            syn_keyword: Color::Rgb(249, 38, 114),
            syn_type: Color::Rgb(102, 217, 239),
            syn_function: Color::Rgb(166, 226, 46),
            syn_string: Color::Rgb(230, 219, 116),
            syn_number: Color::Rgb(174, 129, 255),
            syn_comment: Color::Rgb(117, 113, 94),
            syn_operator: Color::Rgb(249, 38, 114),
            syn_punctuation: Color::Rgb(202, 201, 190),
            syn_constant: Color::Rgb(174, 129, 255),
            syn_property: Color::Rgb(253, 151, 31),
            syn_attribute: Color::Rgb(166, 226, 46),
        }
    }

    /// Night Owl theme.
    pub fn nightowl() -> (r: Self)
        ensures
            r == nightowl_palette(),
    {
        Theme {
            bg_dark: Color::Rgb(1, 22, 39),
            bg_surface: Color::Rgb(1, 17, 29),
            bg_elevated: Color::Rgb(11, 41, 66),
            bg_selected: Color::Rgb(29, 59, 83),
            border_dim: Color::Rgb(29, 59, 83),
            border_active: Color::Rgb(127, 219, 202),
            gutter_sep: Color::Rgb(15, 40, 61),
            pane_divider: Color::Rgb(29, 59, 83),
            text_faint: Color::Rgb(29, 59, 83),
            text_muted: Color::Rgb(99, 119, 119),
            text_dim: Color::Rgb(145, 160, 165),
            text_normal: Color::Rgb(214, 222, 235),
            text_bright: Color::Rgb(255, 255, 255),
            accent: Color::Rgb(127, 219, 202),
            accent_dim: Color::Rgb(77, 140, 137),
            diff_delete_bg: Color::Rgb(44, 33, 46),
            diff_insert_bg: Color::Rgb(32, 57, 51),
            diff_empty_bg: Color::Rgb(1, 17, 29),
            inline_delete_bg: Color::Rgb(91, 45, 55),
            inline_insert_bg: Color::Rgb(66, 97, 63),
            success: Color::Rgb(173, 219, 103),
            error: Color::Rgb(239, 83, 80),
            warning: Color::Rgb(255, 202, 40),
            syn_keyword: Color::Rgb(199, 146, 234),
            syn_type: Color::Rgb(255, 203, 139),
            syn_function: Color::Rgb(130, 170, 255),
            syn_string: Color::Rgb(236, 196, 141),
            syn_number: Color::Rgb(247, 140, 108),
            syn_comment: Color::Rgb(99, 119, 119),
            syn_operator: Color::Rgb(127, 219, 202),
            syn_punctuation: Color::Rgb(174, 186, 194),
            syn_constant: Color::Rgb(255, 88, 116),
            syn_property: Color::Rgb(128, 203, 196),
            syn_attribute: Color::Rgb(173, 219, 103),
        }
    }

    /// Palenight theme.
    pub fn palenight() -> (r: Self)
        ensures
            r == palenight_palette(),
    {
        Theme {
            bg_dark: Color::Rgb(41, 45, 62),
            bg_surface: Color::Rgb(32, 35, 49),
            bg_elevated: Color::Rgb(52, 50, 74),
            bg_selected: Color::Rgb(68, 66, 103),
            border_dim: Color::Rgb(68, 66, 103),
            border_active: Color::Rgb(137, 221, 255),
            gutter_sep: Color::Rgb(54, 56, 82),
            pane_divider: Color::Rgb(68, 66, 103),
            text_faint: Color::Rgb(68, 66, 103),
            text_muted: Color::Rgb(103, 110, 149),
            text_dim: Color::Rgb(128, 135, 171),
            text_normal: Color::Rgb(166, 172, 205),
            text_bright: Color::Rgb(255, 255, 255),
            accent: Color::Rgb(137, 221, 255),
            accent_dim: Color::Rgb(99, 151, 178),
            diff_delete_bg: Color::Rgb(80, 52, 71),
            diff_insert_bg: Color::Rgb(69, 79, 76),
            diff_empty_bg: Color::Rgb(32, 35, 49),
            inline_delete_bg: Color::Rgb(122, 59, 81),
            inline_insert_bg: Color::Rgb(100, 116, 92),
            success: Color::Rgb(195, 232, 141),
            error: Color::Rgb(255, 83, 112),
            warning: Color::Rgb(255, 203, 107),
            syn_keyword: Color::Rgb(199, 146, 234),
            syn_type: Color::Rgb(255, 203, 107),
            syn_function: Color::Rgb(130, 170, 255),
            syn_string: Color::Rgb(195, 232, 141),
            syn_number: Color::Rgb(247, 140, 108),
            syn_comment: Color::Rgb(103, 110, 149),
            syn_operator: Color::Rgb(137, 221, 255),
            syn_punctuation: Color::Rgb(144, 150, 185),
            syn_constant: Color::Rgb(247, 140, 108),
            syn_property: Color::Rgb(240, 113, 120),
            syn_attribute: Color::Rgb(255, 203, 107),
        }
    }

    /// Zenburn theme.
    pub fn zenburn() -> (r: Self)
        ensures
            r == zenburn_palette(),
    {
        Theme {
            bg_dark: Color::Rgb(63, 63, 63),
            bg_surface: Color::Rgb(56, 56, 56),
            bg_elevated: Color::Rgb(79, 79, 79),
            bg_selected: Color::Rgb(95, 95, 95),
            border_dim: Color::Rgb(95, 95, 95),
            border_active: Color::Rgb(140, 208, 211),
            gutter_sep: Color::Rgb(79, 79, 79),
            pane_divider: Color::Rgb(95, 95, 95),
            text_faint: Color::Rgb(95, 95, 95),
            text_muted: Color::Rgb(127, 159, 127),
            text_dim: Color::Rgb(164, 183, 158),
            text_normal: Color::Rgb(220, 220, 204),
            text_bright: Color::Rgb(255, 255, 239),
            accent: Color::Rgb(140, 208, 211),
            accent_dim: Color::Rgb(109, 150, 152),
            diff_delete_bg: Color::Rgb(88, 78, 78),
            diff_insert_bg: Color::Rgb(75, 80, 75),
            diff_empty_bg: Color::Rgb(56, 56, 56),
            inline_delete_bg: Color::Rgb(117, 95, 95),
            inline_insert_bg: Color::Rgb(87, 99, 87),
            success: Color::Rgb(127, 159, 127),
            error: Color::Rgb(204, 147, 147),
            warning: Color::Rgb(240, 223, 175),
            syn_keyword: Color::Rgb(240, 223, 175),
            syn_type: Color::Rgb(124, 184, 187),
            syn_function: Color::Rgb(239, 239, 143),
            syn_string: Color::Rgb(204, 147, 147),
            syn_number: Color::Rgb(140, 208, 211),
            syn_comment: Color::Rgb(127, 159, 127),
            syn_operator: Color::Rgb(240, 239, 208),
            syn_punctuation: Color::Rgb(187, 199, 177),
            syn_constant: Color::Rgb(220, 163, 163),
            syn_property: Color::Rgb(147, 224, 227),
            syn_attribute: Color::Rgb(227, 206, 171),
        }
    }

    /// The built-in theme called `name` (`one-dark` also names `onedark`);
    /// the default theme for any other name.
    pub fn builtin(name: &str) -> (r: Self)
        ensures
            r == builtin_named(name@),
    {
        if same_text(name, "dracula") {
            Self::dracula()
        } else if same_text(name, "catppuccin") {
            Self::catppuccin()
        } else if same_text(name, "nord") {
            Self::nord()
        } else if same_text(name, "gruvbox") {
            Self::gruvbox()
        } else if same_text(name, "tokyonight") {
            Self::tokyonight()
        } else if same_text(name, "rosepine") {
            Self::rosepine()
        } else if same_text(name, "onedark") || same_text(name, "one-dark") {
            Self::onedark()
        } else if same_text(name, "solarized") {
            Self::solarized()
        } else if same_text(name, "ayu") {
            Self::ayu()
        } else if same_text(name, "everforest") {
            Self::everforest()
        } else if same_text(name, "github") {
            Self::github()
        } else if same_text(name, "kanagawa") {
            Self::kanagawa()
        } else if same_text(name, "monokai") {
            Self::monokai()
        } else if same_text(name, "nightowl") {
            Self::nightowl()
        } else if same_text(name, "palenight") {
            Self::palenight()
        } else if same_text(name, "zenburn") {
            Self::zenburn()
        } else {
            Self::builtin_default()
        }
    }

    /// Load a theme by name: the user theme of that name when one was
    /// found (`user_theme`), else the built-in one.
    pub fn load(name: &str, user_theme: Option<Theme>) -> (r: Self)
        ensures
            match user_theme {
                Some(t) => r == t,
                None => r == builtin_named(name@),
            },
    {
        match user_theme {
            Some(t) => t,
            None => Self::builtin(name),
        }
    }

    /// List available theme names, given the names of the user theme files.
    pub fn list(user_themes: &Vec<String>) -> (r: Vec<String>)
        ensures
            texts(r@) == theme_names(texts(user_themes@)),
    {
        let mut names: Vec<String> = Vec::new();
        names.push("default".to_owned());
        names.push("dracula".to_owned());
        names.push("catppuccin".to_owned());
        names.push("nord".to_owned());
        names.push("gruvbox".to_owned());
        names.push("tokyonight".to_owned());
        names.push("rosepine".to_owned());
        names.push("onedark".to_owned());
        names.push("solarized".to_owned());
        names.push("ayu".to_owned());
        names.push("everforest".to_owned());
        names.push("github".to_owned());
        names.push("kanagawa".to_owned());
        names.push("monokai".to_owned());
        names.push("nightowl".to_owned());
        names.push("palenight".to_owned());
        names.push("zenburn".to_owned());
        assert(texts(names@) =~= builtin_names());
        let ghost user = texts(user_themes@);
        let mut i: usize = 0;
        while i < user_themes.len()
            invariant
                user == texts(user_themes@),
                i <= user_themes@.len(),
                texts(names@) == add_new_names(builtin_names(), user.take(i as int)),
            decreases user_themes@.len() - i,
        {
            let ghost before = texts(names@);
            assert(user.take(i + 1).drop_last() =~= user.take(i as int));
            assert(user.take(i + 1).last() == user_themes@[i as int]@);
            if !lists_name(&names, user_themes[i].as_str()) {
                names.push(user_themes[i].clone());
                assert(texts(names@) =~= before.push(user_themes@[i as int]@));
            }
            i = i + 1;
        }
        assert(user.take(i as int) =~= user);
        let ghost all = texts(names@);
        let mut keyed: Vec<(Vec<char>, ())> = Vec::new();
        let mut j: usize = 0;
        while j < names.len()
            invariant
                all == texts(names@),
                j <= names@.len(),
                keyed_view(keyed@) == name_keys(all.take(j as int)),
            decreases names@.len() - j,
        {
            keyed.push((chars_of(names[j].as_str()), ()));
            assert(name_keys(all.take(j + 1)) =~= name_keys(all.take(j as int)).push((all[j as int], ())));
            assert(keyed_view(keyed@) =~= name_keys(all.take(j as int)).push((all[j as int], ())));
            j = j + 1;
        }
        assert(all.take(j as int) =~= all);
        let sorted = sort_by_key_stable(keyed);
        let ghost ss = stable_sorted(name_keys(all));
        let mut out: Vec<String> = Vec::new();
        let mut k: usize = 0;
        while k < sorted.len()
            invariant
                keyed_view(sorted@) == ss,
                k <= sorted@.len(),
                texts(out@) == ss.take(k as int).map_values(|p: (Seq<char>, ())| p.0),
            decreases sorted@.len() - k,
        {
            assert(keyed_view(sorted@)[k as int] == (sorted@[k as int].0@, sorted@[k as int].1));
            out.push(crate::strings::string_of(sorted[k].0.as_slice()));
            assert(ss.take(k + 1).map_values(|p: (Seq<char>, ())| p.0) =~= ss.take(k as int).map_values(
                |p: (Seq<char>, ())| p.0,
            ).push(ss[k as int].0));
            assert(texts(out@) =~= ss.take(k as int).map_values(|p: (Seq<char>, ())| p.0).push(ss[k as int].0));
            k = k + 1;
        }
        assert(ss.take(k as int) =~= ss);
        out
    }
}

// ---------------------------------------------------------------------------
// Colors of code
// ---------------------------------------------------------------------------

/// The theme color of a syntax style.
pub open spec fn style_color(style: StyleId, t: Theme) -> Color {
    match style {
        StyleId::Default => t.text_normal,
        StyleId::Keyword => t.syn_keyword,
        StyleId::Type => t.syn_type,
        StyleId::Function => t.syn_function,
        StyleId::String => t.syn_string,
        StyleId::Number => t.syn_number,
        StyleId::Comment => t.syn_comment,
        StyleId::Operator => t.syn_operator,
        StyleId::Punctuation => t.syn_punctuation,
        StyleId::Variable => t.text_normal,
        StyleId::Constant => t.syn_constant,
        StyleId::Property => t.syn_property,
        StyleId::Attribute => t.syn_attribute,
    }
}

/// Map a syntax style to its color in `theme`.
pub fn style_to_color(style: StyleId, theme: &Theme) -> (r: Color)
    ensures
        r == style_color(style, *theme),
{
    match style {
        StyleId::Default => theme.text_normal,
        StyleId::Keyword => theme.syn_keyword,
        StyleId::Type => theme.syn_type,
        StyleId::Function => theme.syn_function,
        StyleId::String => theme.syn_string,
        StyleId::Number => theme.syn_number,
        StyleId::Comment => theme.syn_comment,
        StyleId::Operator => theme.syn_operator,
        StyleId::Punctuation => theme.syn_punctuation,
        StyleId::Variable => theme.text_normal,
        StyleId::Constant => theme.syn_constant,
        StyleId::Property => theme.syn_property,
        StyleId::Attribute => theme.syn_attribute,
    }
}

/// Whether a color is too muted to read on a changed-region background.
pub open spec fn muted_color(c: Color) -> bool {
    match c {
        Color::Rgb(r, g, b) => muted_rgb(r, g, b),
    }
}

/// Whether a color is too muted to read on a changed-region background.
pub fn is_muted_color(color: Color) -> (r: bool)
    ensures
        r == muted_color(color),
{
    match color {
        Color::Rgb(r, g, b) => is_muted_rgb(r, g, b),
    }
}

/// The foreground for text in a changed region: muted colors give way to
/// the default text color.
pub fn boost_muted_fg(fg: Color, default_fg: Color) -> (r: Color)
    ensures
        r == (if muted_color(fg) { default_fg } else { fg }),
{
    if is_muted_color(fg) {
        default_fg
    } else {
        fg
    }
}

} // verus!
