use crate::process::same_text;
use vstd::prelude::*;

verus! {

/// The colorschemes that come with the program, or one read from a file by name.
pub enum Colorschemes {
    Default,
    DefaultDark,
    Monokai,
    SolarizedDark,
    Vice,
    Custom(String),
}

impl Colorschemes {
    /// The colorscheme that `s` names: one of `default`, `default-dark`, `monokai`,
    /// `solarized-dark` and `vice`, or else a custom one of that name.
    pub fn parse(s: &str) -> (r: Colorschemes)
        ensures
            s@ == "default"@ ==> r is Default,
            s@ == "default-dark"@ ==> r is DefaultDark,
            s@ == "monokai"@ ==> r is Monokai,
            s@ == "solarized-dark"@ ==> r is SolarizedDark,
            s@ == "vice"@ ==> r is Vice,
            s@ != "default"@ && s@ != "default-dark"@ && s@ != "monokai"@ && s@
                != "solarized-dark"@ && s@ != "vice"@ ==> r is Custom && r->Custom_0@ == s@,
    {
        proof {
            reveal_strlit("default");
            reveal_strlit("default-dark");
            reveal_strlit("monokai");
            reveal_strlit("solarized-dark");
            reveal_strlit("vice");
            assert("default"@.len() == 7 && "default-dark"@.len() == 12);
            assert("monokai"@.len() == 7 && "solarized-dark"@.len() == 14 && "vice"@.len() == 4);
            assert("default"@[0] != "monokai"@[0]);
        }
        if same_text(s, "default") {
            Colorschemes::Default
        } else if same_text(s, "default-dark") {
            Colorschemes::DefaultDark
        } else if same_text(s, "monokai") {
            Colorschemes::Monokai
        } else if same_text(s, "solarized-dark") {
            Colorschemes::SolarizedDark
        } else if same_text(s, "vice") {
            Colorschemes::Vice
        } else {
            Colorschemes::Custom(s.to_owned())
        }
    }
}

impl std::str::FromStr for Colorschemes {
    type Err = ();

    /// Never fails: see [`Colorschemes::parse`].
    fn from_str(s: &str) -> Result<Colorschemes, ()> {
        Ok(Colorschemes::parse(s))
    }
}

/// A colorscheme as written in its JSON file: colors are terminal color indices, `-1`
/// standing for the terminal's default color.
pub struct ColorschemeRaw {
    pub fg: i64,
    pub bg: i64,
    pub titles: i64,
    pub borders: i64,
    pub battery_lines: Vec<i64>,
    pub cpu_lines: Vec<i64>,
    pub mem_main: i64,
    pub mem_swap: i64,
    pub net_bars: i64,
    pub proc_cursor: i64,
    pub temp_low: i64,
    pub temp_high: i64,
}

/// A terminal color: the terminal's default, or an entry of its palette.
#[derive(Clone, Copy, Debug, PartialEq, Eq, Structural)]
pub enum ColorCode {
    Reset,
    Indexed(u8),
}

/// The color that a colorscheme file's number stands for: `-1` is the default color,
/// any other number a palette index (taken modulo 256).
pub fn convert_color(raw: i64) -> (r: ColorCode)
    ensures
        r == if raw == -1 {
            ColorCode::Reset
        } else {
            ColorCode::Indexed(raw as u8)
        },
{
    if raw == -1 {
        ColorCode::Reset
    } else {
        ColorCode::Indexed(raw as u8)
    }
}

} // verus!
