//! The graphics mode report.
use vstd::prelude::*;
use vstd::string::StringExecFns;
use crate::text::{dec, pad_left, push_dec_padded, push_str};
use crate::cpu::lines_view;

verus! {

/// How the pixels of a graphics mode are laid out in its frame buffer.
#[derive(Clone, Copy, Debug, PartialEq, Eq, Structural)]
pub enum PixelLayout {
    Rgb,
    Bgr,
    Bitmask,
    BltOnly,
}

/// A graphics mode: its resolution and pixel layout.
#[derive(Clone, Copy, Debug, PartialEq, Eq, Structural)]
pub struct DisplayMode {
    pub width: usize,
    pub height: usize,
    pub layout: PixelLayout,
}

/// The name of a pixel layout.
pub open spec fn layout_text(p: PixelLayout) -> Seq<char> {
    match p {
        PixelLayout::Rgb => "Rgb"@,
        PixelLayout::Bgr => "Bgr"@,
        PixelLayout::Bitmask => "Bitmask"@,
        PixelLayout::BltOnly => "BltOnly"@,
    }
}

/// A mode line: `    <width> x <height> @ <layout>`, each dimension right-justified in four.
pub open spec fn mode_text(m: DisplayMode) -> Seq<char> {
    "    "@ + pad_left(dec(m.width as nat), 4) + " x "@ + pad_left(dec(m.height as nat), 4) + " @ "@
        + layout_text(m.layout)
}

/// The lines of the graphics report: every supported mode, then the current one.
pub open spec fn display_lines(modes: Seq<DisplayMode>, current: DisplayMode) -> Seq<Seq<char>> {
    seq!["Supported Modes:"@] + modes.map_values(|m: DisplayMode| mode_text(m)) + seq![
        "Current Mode:"@,
        mode_text(current),
    ]
}

/// The name of a pixel layout.
pub fn layout_name(p: PixelLayout) -> (s: String)
    ensures
        s@ == layout_text(p),
{
    match p {
        PixelLayout::Rgb => String::from_str("Rgb"),
        PixelLayout::Bgr => String::from_str("Bgr"),
        PixelLayout::Bitmask => String::from_str("Bitmask"),
        PixelLayout::BltOnly => String::from_str("BltOnly"),
    }
}

/// The line of one mode.
pub fn mode_line(m: &DisplayMode) -> (s: String)
    ensures
        s@ == mode_text(*m),
{
    let mut s = String::from_str("    ");
    push_dec_padded(&mut s, m.width as u128, 4);
    push_str(&mut s, " x ");
    push_dec_padded(&mut s, m.height as u128, 4);
    push_str(&mut s, " @ ");
    let name = layout_name(m.layout);
    push_str(&mut s, name.as_str());
    s
}

/// The lines of the graphics report.
pub fn display_report(modes: &Vec<DisplayMode>, current: &DisplayMode) -> (r: Vec<String>)
    ensures
        lines_view(r@) == display_lines(modes@, *current),
{
    let mut r: Vec<String> = Vec::new();
    r.push(String::from_str("Supported Modes:"));
    let mut i: usize = 0;
    while i < modes.len()
        invariant
            i <= modes.len(),
            lines_view(r@) == seq!["Supported Modes:"@] + modes@.subrange(0, i as int).map_values(
                |m: DisplayMode| mode_text(m),
            ),
        decreases modes.len() - i,
    {
        let ghost before = r@;
        let line = mode_line(&modes[i]);
        r.push(line);
        assert(lines_view(r@) =~= lines_view(before).push(mode_text(modes@[i as int])));
        assert(modes@.subrange(0, i + 1).map_values(|m: DisplayMode| mode_text(m)) =~= modes@.subrange(
            0,
            i as int,
        ).map_values(|m: DisplayMode| mode_text(m)).push(mode_text(modes@[i as int])));
        assert(lines_view(r@) =~= seq!["Supported Modes:"@] + modes@.subrange(0, i + 1).map_values(
            |m: DisplayMode| mode_text(m),
        ));
        i = i + 1;
    }
    assert(modes@.subrange(0, i as int) =~= modes@);
    r.push(String::from_str("Current Mode:"));
    r.push(mode_line(current));
    assert(lines_view(r@) =~= display_lines(modes@, *current));
    r
}

} // verus!
