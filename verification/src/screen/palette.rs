//! The colours that terminal programs select by number.

use vstd::prelude::*;

use crate::screen::cell::{default_fg, Rgb};

verus! {

/// The first sixteen colours of the 256-colour palette.
pub open spec fn ansi_16_color(code: u16) -> Rgb {
    if code == 0 {
        Rgb { r: 0, g: 0, b: 0 }
    } else if code == 1 {
        Rgb { r: 205, g: 0, b: 0 }
    } else if code == 2 {
        Rgb { r: 0, g: 205, b: 0 }
    } else if code == 3 {
        Rgb { r: 205, g: 205, b: 0 }
    } else if code == 4 {
        Rgb { r: 0, g: 0, b: 238 }
    } else if code == 5 {
        Rgb { r: 205, g: 0, b: 205 }
    } else if code == 6 {
        Rgb { r: 0, g: 205, b: 205 }
    } else if code == 7 {
        Rgb { r: 229, g: 229, b: 229 }
    } else if code == 8 {
        Rgb { r: 127, g: 127, b: 127 }
    } else if code == 9 {
        Rgb { r: 255, g: 0, b: 0 }
    } else if code == 10 {
        Rgb { r: 0, g: 255, b: 0 }
    } else if code == 11 {
        Rgb { r: 255, g: 255, b: 0 }
    } else if code == 12 {
        Rgb { r: 92, g: 92, b: 255 }
    } else if code == 13 {
        Rgb { r: 255, g: 0, b: 255 }
    } else if code == 14 {
        Rgb { r: 0, g: 255, b: 255 }
    } else {
        Rgb { r: 255, g: 255, b: 255 }
    }
}

/// The six intensities along one side of the colour cube.
pub open spec fn cube_level(step: int) -> u8 {
    if step == 0 {
        0
    } else {
        (step * 40 + 55) as u8
    }
}

/// The 256-colour palette: sixteen fixed colours, a cube with six steps per
/// channel (blue varies fastest), and a ramp of grays. Other codes give the
/// default foreground.
pub open spec fn palette_color(code: u16) -> Rgb {
    if code < 16 {
        ansi_16_color(code)
    } else if code < 232 {
        let c = code - 16;
        Rgb {
            r: cube_level(c / 36),
            g: cube_level(c / 6 % 6),
            b: cube_level(c % 6),
        }
    } else if code < 256 {
        let gray = ((code - 232) * 10 + 8) as u8;
        Rgb { r: gray, g: gray, b: gray }
    } else {
        default_fg()
    }
}

fn scale(step: u16) -> (level: u8)
    requires
        step < 6,
    ensures
        level == cube_level(step as int),
{
    if step == 0 {
        0
    } else {
        (step * 40 + 55) as u8
    }
}

pub fn ansi_256_to_rgb(code: u16) -> (color: Rgb)
    ensures
        color == palette_color(code),
{
    match code {
        0 => Rgb::new(0, 0, 0),
        1 => Rgb::new(205, 0, 0),
        2 => Rgb::new(0, 205, 0),
        3 => Rgb::new(205, 205, 0),
        4 => Rgb::new(0, 0, 238),
        5 => Rgb::new(205, 0, 205),
        6 => Rgb::new(0, 205, 205),
        7 => Rgb::new(229, 229, 229),
        8 => Rgb::new(127, 127, 127),
        9 => Rgb::new(255, 0, 0),
        10 => Rgb::new(0, 255, 0),
        11 => Rgb::new(255, 255, 0),
        12 => Rgb::new(92, 92, 255),
        13 => Rgb::new(255, 0, 255),
        14 => Rgb::new(0, 255, 255),
        15 => Rgb::new(255, 255, 255),
        16..=231 => {
            let c: u16 = code - 16;
            let r: u16 = c / 36;
            let g: u16 = (c % 36) / 6;
            let b: u16 = c % 6;
            assert(g == c / 6 % 6);
            Rgb::new(scale(r), scale(g), scale(b))
        },
        232..=255 => {
            let gray: u8 = ((code - 232) * 10 + 8) as u8;
            Rgb::new(gray, gray, gray)
        },
        _ => default_fg(),
    }
}

/// The eight basic colours, in their normal or their bright variant.
pub open spec fn basic_color(code: u16, bright: bool) -> Rgb {
    if bright {
        if code == 0 {
            Rgb { r: 102, g: 102, b: 102 }
        } else if code == 1 {
            Rgb { r: 241, g: 76, b: 76 }
        } else if code == 2 {
            Rgb { r: 35, g: 209, b: 139 }
        } else if code == 3 {
            Rgb { r: 245, g: 245, b: 67 }
        } else if code == 4 {
            Rgb { r: 59, g: 142, b: 234 }
        } else if code == 5 {
            Rgb { r: 214, g: 112, b: 214 }
        } else if code == 6 {
            Rgb { r: 41, g: 184, b: 219 }
        } else if code == 7 {
            Rgb { r: 255, g: 255, b: 255 }
        } else {
            default_fg()
        }
    } else {
        if code == 0 {
            Rgb { r: 0, g: 0, b: 0 }
        } else if code == 1 {
            Rgb { r: 205, g: 49, b: 49 }
        } else if code == 2 {
            Rgb { r: 13, g: 188, b: 121 }
        } else if code == 3 {
            Rgb { r: 229, g: 229, b: 16 }
        } else if code == 4 {
            Rgb { r: 36, g: 114, b: 200 }
        } else if code == 5 {
            Rgb { r: 188, g: 63, b: 188 }
        } else if code == 6 {
            Rgb { r: 17, g: 168, b: 205 }
        } else if code == 7 {
            Rgb { r: 229, g: 229, b: 229 }
        } else {
            default_fg()
        }
    }
}

pub fn basic_ansi_to_rgb(code: u16, bright: bool) -> (color: Rgb)
    ensures
        color == basic_color(code, bright),
{
    match (code, bright) {
        (0, false) => Rgb::new(0, 0, 0),
        (1, false) => Rgb::new(205, 49, 49),
        (2, false) => Rgb::new(13, 188, 121),
        (3, false) => Rgb::new(229, 229, 16),
        (4, false) => Rgb::new(36, 114, 200),
        (5, false) => Rgb::new(188, 63, 188),
        (6, false) => Rgb::new(17, 168, 205),
        (7, false) => Rgb::new(229, 229, 229),
        (0, true) => Rgb::new(102, 102, 102),
        (1, true) => Rgb::new(241, 76, 76),
        (2, true) => Rgb::new(35, 209, 139),
        (3, true) => Rgb::new(245, 245, 67),
        (4, true) => Rgb::new(59, 142, 234),
        (5, true) => Rgb::new(214, 112, 214),
        (6, true) => Rgb::new(41, 184, 219),
        (7, true) => Rgb::new(255, 255, 255),
        _ => default_fg(),
    }
}

} // verus!
