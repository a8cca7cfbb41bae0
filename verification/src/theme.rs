//! The colour scheme of the desktop client, each colour as its `0xRRGGBB`
//! value; the window toolkit turns them into its own colours.
use vstd::prelude::*;

verus! {

/// The appearance the system asks for.
#[derive(Debug, Clone, Copy, PartialEq, Eq, Structural)]
pub enum Appearance {
    Light,
    VibrantLight,
    Dark,
    VibrantDark,
}

#[derive(Debug, Clone, Copy, PartialEq, Eq, Structural)]
pub struct Theme {
    pub canvas: u32,
    pub toolbar: u32,
    pub sidebar: u32,
    pub surface: u32,
    pub elevated: u32,
    pub text: u32,
    pub secondary_text: u32,
    pub tertiary_text: u32,
    pub separator: u32,
    pub accent: u32,
    pub accent_hover: u32,
    pub selection: u32,
    pub error_surface: u32,
    pub error_text: u32,
    pub success_surface: u32,
    pub success_text: u32,
}

pub open spec fn light_theme() -> Theme {
    Theme {
        canvas: 0xf8f9fa,
        toolbar: 0xffffff,
        sidebar: 0xf1f3f5,
        surface: 0xffffff,
        elevated: 0xf1f3f5,
        text: 0x1f2328,
        secondary_text: 0x656d76,
        tertiary_text: 0x8c959f,
        separator: 0xd0d7de,
        accent: 0x007aff,
        accent_hover: 0x006ee6,
        selection: 0xddf4ff,
        error_surface: 0xffebec,
        error_text: 0xd1242f,
        success_surface: 0xdafbe1,
        success_text: 0x1a7f37,
    }
}

pub open spec fn dark_theme() -> Theme {
    Theme {
        canvas: 0x171719,
        toolbar: 0x202023,
        sidebar: 0x222225,
        surface: 0x2a2a2e,
        elevated: 0x323237,
        text: 0xf5f5f7,
        secondary_text: 0xaeaeb2,
        tertiary_text: 0x8e8e93,
        separator: 0x3a3a3c,
        accent: 0x0a84ff,
        accent_hover: 0x409cff,
        selection: 0x193a5f,
        error_surface: 0x4a2426,
        error_text: 0xffb4ab,
        success_surface: 0x203a29,
        success_text: 0x9fe3b1,
    }
}

impl Theme {
    /// The light scheme for light appearances, the dark one otherwise.
    pub fn for_appearance(appearance: Appearance) -> (t: Self)
        ensures
            t == (match appearance {
                Appearance::Light | Appearance::VibrantLight => light_theme(),
                Appearance::Dark | Appearance::VibrantDark => dark_theme(),
            }),
    {
        match appearance {
            Appearance::Light | Appearance::VibrantLight => Theme {
                canvas: 0xf8f9fa,
                toolbar: 0xffffff,
                sidebar: 0xf1f3f5,
                surface: 0xffffff,
                elevated: 0xf1f3f5,
                text: 0x1f2328,
                secondary_text: 0x656d76,
                tertiary_text: 0x8c959f,
                separator: 0xd0d7de,
                accent: 0x007aff,
                accent_hover: 0x006ee6,
                selection: 0xddf4ff,
                error_surface: 0xffebec,
                error_text: 0xd1242f,
                success_surface: 0xdafbe1,
                success_text: 0x1a7f37,
            },
            Appearance::Dark | Appearance::VibrantDark => Self::dark(),
        }
    }

    pub fn dark() -> (t: Self)
        ensures
            t == dark_theme(),
    {
        Theme {
            canvas: 0x171719,
            toolbar: 0x202023,
            sidebar: 0x222225,
            surface: 0x2a2a2e,
            elevated: 0x323237,
            text: 0xf5f5f7,
            secondary_text: 0xaeaeb2,
            tertiary_text: 0x8e8e93,
            separator: 0x3a3a3c,
            accent: 0x0a84ff,
            accent_hover: 0x409cff,
            selection: 0x193a5f,
            error_surface: 0x4a2426,
            error_text: 0xffb4ab,
            success_surface: 0x203a29,
            success_text: 0x9fe3b1,
        }
    }
}

impl Default for Theme {
    fn default() -> (t: Self)
        ensures
            t == dark_theme(),
    {
        Self::dark()
    }
}

/// The two schemes differ in canvas and text, and in each the sidebar
/// stands apart from the surfaces on it.
pub proof fn law_schemes_are_distinct()
    ensures
        light_theme().canvas != dark_theme().canvas,
        light_theme().text != dark_theme().text,
        light_theme().sidebar != light_theme().surface,
        dark_theme().sidebar != dark_theme().surface,
{
}

} // verus!
