//! The fan curve, the temperature colour scale and the GPU vendor detection.
use vstd::prelude::*;

use crate::text::chars_of;

verus! {

/// The step of the fan curve nearest to `temp`: a multiple of ten from 10 to
/// 100 (the speeds 10, 20, .., 100 percent), the lower one on a tie.
pub open spec fn nearest_step(temp: int) -> int {
    if temp <= 10 {
        10
    } else if temp >= 100 {
        100
    } else {
        ((temp + 4) / 10) * 10
    }
}

/// The extra speed given at high temperatures.
pub open spec fn boost(temp: int) -> int {
    if temp < 70 {
        0
    } else if temp <= 71 {
        2
    } else if temp <= 73 {
        4
    } else if temp <= 77 {
        6
    } else if temp <= 79 {
        3
    } else if temp == 80 {
        5
    } else if temp == 81 {
        10
    } else if temp == 82 {
        12
    } else if temp == 83 {
        14
    } else if temp == 84 {
        16
    } else {
        15
    }
}

/// The fan speed, in percent, for a temperature in degrees Celsius: the
/// nearest step, plus the boost, at most 100.
pub open spec fn fan_speed(temp: int) -> int {
    let s = nearest_step(temp) + boost(temp);
    if s > 100 {
        100
    } else {
        s
    }
}

/// The fan speed for a temperature in degrees Celsius.
pub fn diff_func(temp: u8) -> (r: u8)
    ensures
        r == fan_speed(temp as int),
{
    let step: u8 = if temp <= 10 {
        10
    } else if temp >= 100 {
        100
    } else {
        ((temp + 4) / 10) * 10
    };
    let extra: u8 = if temp < 70 {
        0
    } else if temp <= 71 {
        2
    } else if temp <= 73 {
        4
    } else if temp <= 77 {
        6
    } else if temp <= 79 {
        3
    } else if temp == 80 {
        5
    } else if temp == 81 {
        10
    } else if temp == 82 {
        12
    } else if temp == 83 {
        14
    } else if temp == 84 {
        16
    } else {
        15
    };
    let speed = step + extra;
    if speed > 100 {
        100
    } else {
        speed
    }
}

/// Degrees Fahrenheit for degrees Celsius, rounded down, at most 255.
pub open spec fn fahrenheit(celsius: int) -> int {
    let f = celsius * 9 / 5 + 32;
    if f > 255 {
        255
    } else {
        f
    }
}

/// Converts degrees Celsius to degrees Fahrenheit.
pub fn celcius_to_fahrenheit(input_celcius: u8) -> (r: u8)
    ensures
        r == fahrenheit(input_celcius as int),
{
    let f: u16 = (input_celcius as u16) * 9 / 5 + 32;
    if f > 255 {
        255
    } else {
        f as u8
    }
}

/// A colour as red, green and blue.
pub type Rgb = (u8, u8, u8);

/// The built-in scale, from cool (green-cyan) through blue and purple to red.
pub open spec fn default_palette() -> Seq<Rgb> {
    seq![
        (0u8, 255u8, 175u8),
        (0u8, 255u8, 215u8),
        (0u8, 255u8, 255u8),
        (0u8, 215u8, 255u8),
        (0u8, 175u8, 255u8),
        (0u8, 135u8, 255u8),
        (0u8, 95u8, 255u8),
        (0u8, 0u8, 255u8),
        (0u8, 0u8, 215u8),
        (0u8, 0u8, 175u8),
        (0u8, 0u8, 135u8),
        (95u8, 0u8, 135u8),
        (95u8, 0u8, 175u8),
        (95u8, 0u8, 215u8),
        (95u8, 0u8, 255u8),
        (135u8, 0u8, 255u8),
        (135u8, 0u8, 215u8),
        (135u8, 0u8, 175u8),
        (135u8, 0u8, 135u8),
        (135u8, 0u8, 95u8),
        (135u8, 0u8, 0u8),
        (175u8, 0u8, 0u8),
        (215u8, 0u8, 0u8),
        (255u8, 0u8, 0u8),
    ]
}

/// A colour scale for temperatures, coolest first.
pub struct RgbColor {
    pub colors: Vec<Rgb>,
}

impl RgbColor {
    /// The built-in scale of 24 colours.
    pub fn new() -> (r: RgbColor)
        ensures
            r.colors@ == default_palette(),
    {
        let colors: Vec<Rgb> = vec![
            (0, 255, 175),
            (0, 255, 215),
            (0, 255, 255),
            (0, 215, 255),
            (0, 175, 255),
            (0, 135, 255),
            (0, 95, 255),
            (0, 0, 255),
            (0, 0, 215),
            (0, 0, 175),
            (0, 0, 135),
            (95, 0, 135),
            (95, 0, 175),
            (95, 0, 215),
            (95, 0, 255),
            (135, 0, 255),
            (135, 0, 215),
            (135, 0, 175),
            (135, 0, 135),
            (135, 0, 95),
            (135, 0, 0),
            (175, 0, 0),
            (215, 0, 0),
            (255, 0, 0),
        ];
        assert(colors@ =~= default_palette());
        RgbColor { colors }
    }

    /// The colour at `index`, when `index` is below `selected_index`.
    pub fn get_color_by_index(&self, index: u8, selected_index: u8) -> (r: Option<Rgb>)
        requires
            index < selected_index ==> index < self.colors@.len(),
        ensures
            r == if index < selected_index {
                Some(self.colors@[index as int])
            } else {
                None
            },
    {
        if index < selected_index {
            Some(self.colors[index as usize])
        } else {
            None
        }
    }

    /// The number of colours, as a byte (wrapping past 255).
    pub fn total_colors(&self) -> (r: u8)
        ensures
            r == self.colors@.len() as u8,
    {
        self.colors.len() as u8
    }
}

/// The coolest temperature of the scale, in degrees Celsius.
pub open spec fn scale_min() -> int {
    30
}

/// The hottest temperature of the scale, in degrees Celsius.
pub open spec fn scale_max() -> int {
    85
}

/// The colour of `temp` on a scale: its first colour at or below the coolest
/// temperature, its last at or above the hottest, and in between the colour
/// whose step of the range holds `temp`, the range being cut into one step
/// fewer than the scale counts colours. A scale whose count is 0 as a byte
/// has no colour for the range between: black.
pub open spec fn temp_color(colors: Seq<Rgb>, temp: int) -> Rgb {
    let n = (colors.len() as u8) as int;
    if temp <= scale_min() {
        colors[0]
    } else if temp >= scale_max() {
        colors.last()
    } else if n == 0 {
        (0u8, 0u8, 0u8)
    } else if n == 1 {
        colors[0]
    } else {
        colors[(temp - scale_min()) * (n - 1) / (scale_max() - scale_min())]
    }
}

/// The colour of a temperature, in degrees Celsius, on the scale `rgb`.
pub fn rgb_temp(rgb: &RgbColor, temp: u8) -> (r: Rgb)
    requires
        rgb.colors@.len() > 0,
    ensures
        r == temp_color(rgb.colors@, temp as int),
{
    let n = rgb.total_colors();
    if temp <= 30 {
        rgb.colors[0]
    } else if temp >= 85 {
        rgb.colors[rgb.colors.len() - 1]
    } else {
        let index: u8 = if n >= 2 {
            let len: usize = rgb.colors.len();
            assert(len as u8 as usize <= len) by (bit_vector);
            let a: u32 = temp as u32 - 30;
            let b: u32 = n as u32 - 1;
            assert(a * b <= 54 * 255) by (nonlinear_arith)
                requires
                    a <= 54,
                    b <= 255,
            ;
            let k: u32 = a * b / 55;
            assert(k < n) by (nonlinear_arith)
                requires
                    k == a * b / 55,
                    a == temp - 30,
                    b == n - 1,
                    30 < temp < 85,
                    n >= 2,
            ;
            k as u8
        } else {
            0
        };
        match rgb.get_color_by_index(index, n) {
            Some(c) => c,
            None => (0, 0, 0),
        }
    }
}

/// Whether `pat` occurs in `s`.
pub open spec fn occurs_in(pat: Seq<char>, s: Seq<char>) -> bool {
    exists|i: int| 0 <= i && i + pat.len() <= s.len() && #[trigger] s.subrange(i, i + pat.len()) == pat
}

/// Whether `pat` occurs in `s`.
pub fn contains_text(s: &str, pat: &str) -> (r: bool)
    ensures
        r == occurs_in(pat@, s@),
{
    let t = chars_of(s);
    let p = chars_of(pat);
    if p.len() > t.len() {
        return false;
    }
    let tl = t.len();
    let mut i: usize = 0;
    while i <= tl - p.len()
        invariant
            tl == t@.len(),
            t@ == s@,
            p@ == pat@,
            p@.len() <= t@.len(),
            i <= t@.len() - p@.len() + 1,
            forall|k: int| 0 <= k < i ==> #[trigger] t@.subrange(k, k + p@.len()) != p@,
        decreases t@.len() - i,
    {
        let mut j: usize = 0;
        let mut same = true;
        while j < p.len()
            invariant
                tl == t@.len(),
                t@ == s@,
                p@ == pat@,
                i + p@.len() <= t@.len(),
                j <= p@.len(),
                same == forall|m: int| 0 <= m < j ==> t@[i + m] == p@[m],
            decreases p@.len() - j,
        {
            if t[i + j] != p[j] {
                same = false;
            }
            j += 1;
        }
        if same {
            assert(t@.subrange(i as int, i + p@.len()) =~= p@);
            return true;
        }
        let ghost w = t@.subrange(i as int, i + p@.len());
        assert(w != p@) by {
            let m = choose|m: int| 0 <= m < p@.len() && t@[i + m] != p@[m];
            assert(w[m] == t@[i + m]);
        }
        i += 1;
    }
    false
}

/// The GPU vendors the controller drives.
#[derive(Debug, Clone, Copy, PartialEq, Eq, Structural)]
pub enum GpuVendor {
    Nvidia,
    Amd,
}

/// The vendor that the kernel driver listing (`lspci -nnk`) names: NVIDIA
/// first, then the `amdgpu` driver; `None` when neither appears.
pub fn find_gpu_manufacturer(lspci_output: &str) -> (r: Option<GpuVendor>)
    ensures
        r == if occurs_in("NVIDIA"@, lspci_output@) {
            Some(GpuVendor::Nvidia)
        } else if occurs_in("amdgpu"@, lspci_output@) {
            Some(GpuVendor::Amd)
        } else {
            None
        },
{
    if contains_text(lspci_output, "NVIDIA") {
        Some(GpuVendor::Nvidia)
    } else if contains_text(lspci_output, "amdgpu") {
        Some(GpuVendor::Amd)
    } else {
        None
    }
}

} // verus!
