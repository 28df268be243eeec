//! Layout configuration: grid and font sizes, minimum block dimensions and
//! the slant of I/O blocks.

use vstd::prelude::*;

verus! {

/// The slant of a parallelogram's left and right edges, as the cotangent of
/// the angle between such an edge and the horizontal: an edge that climbs
/// `rise` units moves `run` units sideways.
#[derive(Clone, Copy, Debug, PartialEq, Eq, Structural)]
pub struct Slant {
    pub run: u32,
    pub rise: u32,
}

impl Slant {
    /// The angle lies strictly between flat and upright, inside the band in
    /// which the sideways offset stays within a tenth and ten times the height
    /// (an angle of roughly 0.1 to 1.4 radians).
    pub open spec fn valid(self) -> bool {
        &&& 0 < self.run
        &&& 0 < self.rise
        &&& self.run <= 10 * self.rise
        &&& self.rise <= 6 * self.run
    }

    /// Sideways offset of a slanted edge that climbs `height`, rounded down.
    pub open spec fn offset(self, height: int) -> int {
        (height * self.run) / (self.rise as int)
    }

    /// Room that the two slanted edges of a box of the given height take,
    /// rounded up.
    pub open spec fn padding(self, height: int) -> int {
        (2 * height * self.run + self.rise - 1) / (self.rise as int)
    }

    pub fn is_valid(&self) -> (ok: bool)
        ensures
            ok == self.valid(),
    {
        let run: u64 = self.run as u64;
        let rise: u64 = self.rise as u64;
        0 < run && 0 < rise && run <= 10 * rise && rise <= 6 * run
    }

    /// `offset` on machine integers: `None` exactly when it does not fit.
    pub fn checked_offset(&self, height: usize) -> (r: Option<usize>)
        requires
            self.rise > 0,
        ensures
            r is Some <==> self.offset(height as int) <= usize::MAX,
            r matches Some(d) ==> d == self.offset(height as int),
    {
        let h: u128 = height as u128;
        let run: u128 = self.run as u128;
        let rise: u128 = self.rise as u128;
        assert(h * run <= 0xffff_ffff_ffff_ffff * 0xffff_ffff) by (nonlinear_arith)
            requires
                0 <= h <= 0xffff_ffff_ffff_ffff,
                0 <= run <= 0xffff_ffff,
        ;
        let d: u128 = (h * run) / rise;
        if d <= usize::MAX as u128 {
            Some(d as usize)
        } else {
            None
        }
    }

    /// `padding` on machine integers: `None` exactly when it does not fit.
    pub fn checked_padding(&self, height: usize) -> (r: Option<usize>)
        requires
            self.rise > 0,
        ensures
            r is Some <==> self.padding(height as int) <= usize::MAX,
            r matches Some(p) ==> p == self.padding(height as int),
    {
        let h: u128 = height as u128;
        let run: u128 = self.run as u128;
        let rise: u128 = self.rise as u128;
        assert(2 * h * run <= 2 * 0xffff_ffff_ffff_ffff * 0xffff_ffff) by (nonlinear_arith)
            requires
                0 <= h <= 0xffff_ffff_ffff_ffff,
                0 <= run <= 0xffff_ffff,
        ;
        let p: u128 = (2 * h * run + rise - 1) / rise;
        if p <= usize::MAX as u128 {
            Some(p as usize)
        } else {
            None
        }
    }
}

/// Why a configuration was rejected: the first setting, in the order of the
/// variants, that is out of range.
#[derive(Clone, Copy, Debug, PartialEq, Eq, Structural)]
pub enum ConfigurationError {
    /// The grid size is zero.
    GridSize,
    /// The font size is zero.
    FontSize,
    /// The minimum width is zero.
    MinWidth,
    /// The minimum height is zero.
    MinHeight,
    /// The slant is not `valid`.
    Theta,
}

/// The settings as mathematical values.
pub struct ConfigView {
    pub grid_size: nat,
    pub font_size: nat,
    pub min_width: nat,
    pub min_height: nat,
    pub slant: Slant,
}

impl ConfigView {
    /// Every size is positive and the slant is valid.
    pub open spec fn valid(self) -> bool {
        self.rejection() is None
    }

    /// The error that building these settings gives, if any.
    pub open spec fn rejection(self) -> Option<ConfigurationError> {
        if self.grid_size == 0 {
            Some(ConfigurationError::GridSize)
        } else if self.font_size == 0 {
            Some(ConfigurationError::FontSize)
        } else if self.min_width == 0 {
            Some(ConfigurationError::MinWidth)
        } else if self.min_height == 0 {
            Some(ConfigurationError::MinHeight)
        } else if !self.slant.valid() {
            Some(ConfigurationError::Theta)
        } else {
            None
        }
    }

    /// The settings a fresh builder starts from.
    pub open spec fn initial() -> ConfigView {
        ConfigView {
            grid_size: 20,
            font_size: 12,
            min_width: 200,
            min_height: 40,
            slant: Slant { run: 332_273, rise: 1_000_000 },
        }
    }

    /// Gap between two chained blocks: one grid cell.
    pub open spec fn distance(self) -> nat {
        self.grid_size
    }
}

/// A validated, immutable bundle of layout settings.
pub struct Config {
    grid_size: usize,
    font_size: usize,
    min_width: usize,
    min_height: usize,
    theta: Slant,
}

impl View for Config {
    type V = ConfigView;

    closed spec fn view(&self) -> ConfigView {
        ConfigView {
            grid_size: self.grid_size as nat,
            font_size: self.font_size as nat,
            min_width: self.min_width as nat,
            min_height: self.min_height as nat,
            slant: self.theta,
        }
    }
}

impl Config {
    #[verifier::type_invariant]
    spec fn settings_in_range(self) -> bool {
        self@.valid()
    }

    /// The edge of a grid cell; never 0.
    pub fn grid_size(&self) -> (r: usize)
        ensures
            r == self@.grid_size,
            r > 0,
    {
        proof {
            use_type_invariant(self);
        }
        self.grid_size
    }

    /// The font size; never 0.
    pub fn font_size(&self) -> (r: usize)
        ensures
            r == self@.font_size,
            r > 0,
    {
        proof {
            use_type_invariant(self);
        }
        self.font_size
    }

    /// The least width of a block; never 0.
    pub fn min_widht(&self) -> (r: usize)
        ensures
            r == self@.min_width,
            r > 0,
    {
        proof {
            use_type_invariant(self);
        }
        self.min_width
    }

    /// The least height of a block; never 0.
    pub fn min_height(&self) -> (r: usize)
        ensures
            r == self@.min_height,
            r > 0,
    {
        proof {
            use_type_invariant(self);
        }
        self.min_height
    }

    /// The slant of I/O blocks; always valid.
    pub fn theta(&self) -> (r: Slant)
        ensures
            r == self@.slant,
            r.valid(),
    {
        proof {
            use_type_invariant(self);
        }
        self.theta
    }

    /// Vertical gap between two chained blocks: one grid cell.
    pub fn distance(&self) -> (r: usize)
        ensures
            r == self@.distance(),
            r > 0,
    {
        proof {
            use_type_invariant(self);
        }
        self.grid_size
    }
}

/// Collects overrides of the default settings; `build` validates them.
pub struct ConfigBuilder {
    grid_size: usize,
    font_size: usize,
    min_width: usize,
    min_height: usize,
    theta: Slant,
}

impl View for ConfigBuilder {
    type V = ConfigView;

    closed spec fn view(&self) -> ConfigView {
        ConfigView {
            grid_size: self.grid_size as nat,
            font_size: self.font_size as nat,
            min_width: self.min_width as nat,
            min_height: self.min_height as nat,
            slant: self.theta,
        }
    }
}

impl ConfigBuilder {
    pub fn new() -> (b: Self)
        ensures
            b@ == ConfigView::initial(),
    {
        Self {
            grid_size: 20,
            font_size: 12,
            min_width: 200,
            min_height: 40,
            theta: Slant { run: 332_273, rise: 1_000_000 },
        }
    }

    /// The settings as a `Config` if all are in range, else the first that is
    /// not.
    pub fn build(self) -> (r: Result<Config, ConfigurationError>)
        ensures
            match r {
                Ok(config) => self@.valid() && config@ == self@,
                Err(e) => self@.rejection() == Some(e),
            },
    {
        if self.grid_size == 0 {
            Err(ConfigurationError::GridSize)
        } else if self.font_size == 0 {
            Err(ConfigurationError::FontSize)
        } else if self.min_width == 0 {
            Err(ConfigurationError::MinWidth)
        } else if self.min_height == 0 {
            Err(ConfigurationError::MinHeight)
        } else if !self.theta.is_valid() {
            Err(ConfigurationError::Theta)
        } else {
            Ok(
                Config {
                    grid_size: self.grid_size,
                    font_size: self.font_size,
                    min_width: self.min_width,
                    min_height: self.min_height,
                    theta: self.theta,
                },
            )
        }
    }

    pub fn grid_size(self, grid_size: usize) -> (b: Self)
        ensures
            b@ == (ConfigView { grid_size: grid_size as nat, ..self@ }),
    {
        Self { grid_size, ..self }
    }

    pub fn font_size(self, font_size: usize) -> (b: Self)
        ensures
            b@ == (ConfigView { font_size: font_size as nat, ..self@ }),
    {
        Self { font_size, ..self }
    }

    pub fn min_width(self, min_width: usize) -> (b: Self)
        ensures
            b@ == (ConfigView { min_width: min_width as nat, ..self@ }),
    {
        Self { min_width, ..self }
    }

    pub fn min_height(self, min_height: usize) -> (b: Self)
        ensures
            b@ == (ConfigView { min_height: min_height as nat, ..self@ }),
    {
        Self { min_height, ..self }
    }

    /// Sets the slant of I/O blocks.
    pub fn theta(self, theta: Slant) -> (b: Self)
        ensures
            b@ == (ConfigView { slant: theta, ..self@ }),
    {
        Self { theta, ..self }
    }
}

} // verus!
