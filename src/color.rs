use vstd::prelude::*;

verus! {

/// An RGB colour, one byte per channel.
#[derive(Debug, Clone, Copy, PartialEq, Eq, Structural)]
pub struct Color {
    pub r: u8,
    pub g: u8,
    pub b: u8,
}

impl Color {
    pub fn from_rgb(r: u8, g: u8, b: u8) -> (c: Color)
        ensures
            c.r == r && c.g == g && c.b == b,
    {
        Color { r, g, b }
    }

    pub fn black() -> (c: Color)
        ensures
            c == (Color { r: 0, g: 0, b: 0 }),
    {
        Color { r: 0, g: 0, b: 0 }
    }

    pub fn white() -> (c: Color)
        ensures
            c == (Color { r: 255, g: 255, b: 255 }),
    {
        Color { r: 255, g: 255, b: 255 }
    }

    pub fn red() -> (c: Color)
        ensures
            c == (Color { r: 255, g: 0, b: 0 }),
    {
        Color { r: 255, g: 0, b: 0 }
    }
}

/// The palettes that map a value in `[0, 1]` to a colour.
#[derive(Debug, Clone, Copy, PartialEq, Eq, Structural)]
pub enum ColorScheme {
    Classic,
    Rainbow,
    Fire,
    Ice,
    Grayscale,
    Ultra,
    Sunset,
    Ocean,
    Plasma,
    Viridis,
    Inferno,
    Magma,
    Cividis,
    Turbo,
    CoolWarm,
    Spectral,
    Purple,
    Green,
    Blues,
    YellowOrangeBrown,
    PinkYellow,
    Neon,
    Pastel,
    Earth,
    Copper,
    Galaxy,
}

/// Every palette, in menu order.
pub open spec fn all_schemes() -> Seq<ColorScheme> {
    seq![
        ColorScheme::Classic,
        ColorScheme::Rainbow,
        ColorScheme::Fire,
        ColorScheme::Ice,
        ColorScheme::Grayscale,
        ColorScheme::Ultra,
        ColorScheme::Sunset,
        ColorScheme::Ocean,
        ColorScheme::Plasma,
        ColorScheme::Viridis,
        ColorScheme::Inferno,
        ColorScheme::Magma,
        ColorScheme::Cividis,
        ColorScheme::Turbo,
        ColorScheme::CoolWarm,
        ColorScheme::Spectral,
        ColorScheme::Purple,
        ColorScheme::Green,
        ColorScheme::Blues,
        ColorScheme::YellowOrangeBrown,
        ColorScheme::PinkYellow,
        ColorScheme::Neon,
        ColorScheme::Pastel,
        ColorScheme::Earth,
        ColorScheme::Copper,
        ColorScheme::Galaxy,
    ]
}

impl ColorScheme {
    pub fn all() -> (r: Vec<ColorScheme>)
        ensures
            r@ == all_schemes(),
    {
        let r = vec![
            ColorScheme::Classic,
            ColorScheme::Rainbow,
            ColorScheme::Fire,
            ColorScheme::Ice,
            ColorScheme::Grayscale,
            ColorScheme::Ultra,
            ColorScheme::Sunset,
            ColorScheme::Ocean,
            ColorScheme::Plasma,
            ColorScheme::Viridis,
            ColorScheme::Inferno,
            ColorScheme::Magma,
            ColorScheme::Cividis,
            ColorScheme::Turbo,
            ColorScheme::CoolWarm,
            ColorScheme::Spectral,
            ColorScheme::Purple,
            ColorScheme::Green,
            ColorScheme::Blues,
            ColorScheme::YellowOrangeBrown,
            ColorScheme::PinkYellow,
            ColorScheme::Neon,
            ColorScheme::Pastel,
            ColorScheme::Earth,
            ColorScheme::Copper,
            ColorScheme::Galaxy,
        ];
        assert(r@ =~= all_schemes());
        r
    }

    pub open spec fn spec_name(self) -> Seq<char> {
        match self {
            ColorScheme::Classic => "Classic"@,
            ColorScheme::Rainbow => "Rainbow"@,
            ColorScheme::Fire => "Fire"@,
            ColorScheme::Ice => "Ice"@,
            ColorScheme::Grayscale => "Grayscale"@,
            ColorScheme::Ultra => "Ultra"@,
            ColorScheme::Sunset => "Sunset"@,
            ColorScheme::Ocean => "Ocean"@,
            ColorScheme::Plasma => "Plasma"@,
            ColorScheme::Viridis => "Viridis"@,
            ColorScheme::Inferno => "Inferno"@,
            ColorScheme::Magma => "Magma"@,
            ColorScheme::Cividis => "Cividis"@,
            ColorScheme::Turbo => "Turbo"@,
            ColorScheme::CoolWarm => "Cool-Warm"@,
            ColorScheme::Spectral => "Spectral"@,
            ColorScheme::Purple => "Purple"@,
            ColorScheme::Green => "Green"@,
            ColorScheme::Blues => "Blues"@,
            ColorScheme::YellowOrangeBrown => "Yellow-Orange-Brown"@,
            ColorScheme::PinkYellow => "Pink-Yellow"@,
            ColorScheme::Neon => "Neon"@,
            ColorScheme::Pastel => "Pastel"@,
            ColorScheme::Earth => "Earth"@,
            ColorScheme::Copper => "Copper"@,
            ColorScheme::Galaxy => "Galaxy"@,
        }
    }

    pub fn name(&self) -> (r: &str)
        ensures
            r@ == self.spec_name(),
    {
        match self {
            ColorScheme::Classic => "Classic",
            ColorScheme::Rainbow => "Rainbow",
            ColorScheme::Fire => "Fire",
            ColorScheme::Ice => "Ice",
            ColorScheme::Grayscale => "Grayscale",
            ColorScheme::Ultra => "Ultra",
            ColorScheme::Sunset => "Sunset",
            ColorScheme::Ocean => "Ocean",
            ColorScheme::Plasma => "Plasma",
            ColorScheme::Viridis => "Viridis",
            ColorScheme::Inferno => "Inferno",
            ColorScheme::Magma => "Magma",
            ColorScheme::Cividis => "Cividis",
            ColorScheme::Turbo => "Turbo",
            ColorScheme::CoolWarm => "Cool-Warm",
            ColorScheme::Spectral => "Spectral",
            ColorScheme::Purple => "Purple",
            ColorScheme::Green => "Green",
            ColorScheme::Blues => "Blues",
            ColorScheme::YellowOrangeBrown => "Yellow-Orange-Brown",
            ColorScheme::PinkYellow => "Pink-Yellow",
            ColorScheme::Neon => "Neon",
            ColorScheme::Pastel => "Pastel",
            ColorScheme::Earth => "Earth",
            ColorScheme::Copper => "Copper",
            ColorScheme::Galaxy => "Galaxy",
        }
    }
}

} // verus!
