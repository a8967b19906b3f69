//! The builder that describes where the instances of one chunk come from.
use vstd::prelude::*;

use crate::dithering::Position;
use crate::map::{DensityMap, HeightMap};

verus! {

/// A position in space, in thousandths of a unit.
#[derive(PartialEq, Eq, Structural, Clone, Copy, Debug)]
pub struct Position3 {
    pub x: i32,
    pub y: i32,
    pub z: i32,
}

/// One instance: where it stands and how tall it is (thousandths of a unit).
#[derive(PartialEq, Eq, Structural, Clone, Copy, Debug)]
pub struct GrassBlade {
    pub position: Position3,
    pub height: i32,
}

/// The height of the instances: one per instance, or one for all.
#[derive(Clone, Debug)]
pub enum HeightRepresentation {
    PerBlade(Vec<i32>),
    Uniform(i32),
}

/// The model of a `HeightRepresentation`.
pub enum HeightModel {
    PerBlade(Seq<i32>),
    Uniform(i32),
}

impl View for HeightRepresentation {
    type V = HeightModel;

    open spec fn view(&self) -> HeightModel {
        match self {
            HeightRepresentation::PerBlade(h) => HeightModel::PerBlade(h@),
            HeightRepresentation::Uniform(h) => HeightModel::Uniform(*h),
        }
    }
}

/// Which sources have been given to a spawner.
#[derive(PartialEq, Eq, Structural, Clone, Copy, Debug)]
pub struct GrassSpawnerFlags {
    /// The horizontal positions are known: listed, or drawn from a density map.
    pub xz_defined: bool,
    /// The ground heights are known: listed, or read from an elevation map.
    pub y_defined: bool,
    /// The instance heights are given: per instance, or one for all.
    pub height_defined: bool,
    /// The ground heights come from an elevation map.
    pub height_map: bool,
    /// The horizontal positions come from a density map.
    pub density_map: bool,
}

impl GrassSpawnerFlags {
    /// No source given yet.
    pub fn none() -> (r: GrassSpawnerFlags)
        ensures
            r == GrassSpawnerFlags::empty_spec(),
    {
        GrassSpawnerFlags {
            xz_defined: false,
            y_defined: false,
            height_defined: false,
            height_map: false,
            density_map: false,
        }
    }

    pub open spec fn empty_spec() -> GrassSpawnerFlags {
        GrassSpawnerFlags {
            xz_defined: false,
            y_defined: false,
            height_defined: false,
            height_map: false,
            density_map: false,
        }
    }
}

/// The part of an instance's description that a source fills in.
#[derive(PartialEq, Eq, Structural, Clone, Copy, Debug)]
pub enum SourceSlot {
    /// Where the instances stand horizontally.
    Horizontal,
    /// How high the ground under them is.
    Vertical,
    /// How tall they are.
    Height,
}

/// Why a source could not be added to a spawner.
#[derive(PartialEq, Eq, Structural, Clone, Copy, Debug)]
pub enum SpawnerError {
    /// The given list is empty.
    EmptyInput,
    /// Another source already fills this slot.
    AlreadyDefined(SourceSlot),
    /// Two lists of per-instance values differ in length.
    LengthMismatch,
    /// A height is zero or negative.
    NonPositiveHeight,
}

/// The model of a `GrassSpawner`.
pub struct SpawnerModel {
    pub xz: Seq<Position>,
    pub y: Seq<i32>,
    pub heights: HeightModel,
    pub height_map: Option<HeightMap>,
    pub density_map: Option<DensityMap>,
    pub flags: GrassSpawnerFlags,
}

/// Where the instances of one chunk come from: listed positions, ground heights and instance
/// heights, or an elevation map and a density map in their place.
#[derive(Clone, Debug)]
pub struct GrassSpawner {
    pub positions_xz: Vec<Position>,
    pub positions_y: Vec<i32>,
    pub heights: HeightRepresentation,
    pub height_map: Option<HeightMap>,
    pub density_map: Option<DensityMap>,
    pub flags: GrassSpawnerFlags,
}

impl View for GrassSpawner {
    type V = SpawnerModel;

    open spec fn view(&self) -> SpawnerModel {
        SpawnerModel {
            xz: self.positions_xz@,
            y: self.positions_y@,
            heights: self.heights@,
            height_map: self.height_map,
            density_map: self.density_map,
            flags: self.flags,
        }
    }
}

/// Lists of per-instance values that are both given have equal lengths.
pub open spec fn lengths_match(m: SpawnerModel) -> bool {
    &&& (m.xz.len() > 0 && m.y.len() > 0 ==> m.xz.len() == m.y.len())
    &&& (m.heights matches HeightModel::PerBlade(h) ==> (m.y.len() > 0 ==> h.len() == m.y.len())
        && (m.xz.len() > 0 ==> h.len() == m.xz.len()))
}

impl SpawnerModel {
    /// The flags say which sources are there, no slot is filled twice, and lengths match.
    pub open spec fn wf(self) -> bool {
        &&& lengths_match(self)
        &&& (self.flags.density_map <==> self.density_map is Some)
        &&& (self.flags.height_map <==> self.height_map is Some)
        &&& (self.xz.len() > 0 || self.density_map is Some ==> self.flags.xz_defined)
        &&& (self.y.len() > 0 || self.height_map is Some ==> self.flags.y_defined)
        &&& (self.flags.xz_defined ==> self.xz.len() > 0 || self.density_map is Some)
        &&& (self.flags.y_defined ==> self.y.len() > 0 || self.height_map is Some)
        &&& (self.heights is PerBlade ==> self.flags.height_defined)
        &&& !(self.xz.len() > 0 && self.density_map is Some)
        &&& !(self.y.len() > 0 && self.height_map is Some)
    }
}

/// How many instances the listed sources of `m` describe.
pub open spec fn blade_count_spec(m: SpawnerModel) -> int {
    if m.xz.len() > 0 {
        m.xz.len() as int
    } else if m.y.len() > 0 {
        m.y.len() as int
    } else if let HeightModel::PerBlade(h) = m.heights {
        h.len() as int
    } else {
        0
    }
}

/// The model of a spawner that has no source yet.
pub open spec fn empty_model() -> SpawnerModel {
    SpawnerModel {
        xz: seq![],
        y: seq![],
        heights: HeightModel::Uniform(1000),
        height_map: None,
        density_map: None,
        flags: GrassSpawnerFlags::empty_spec(),
    }
}

/// The model of a builder step's outcome.
pub open spec fn model_of(r: Result<GrassSpawner, SpawnerError>) -> Result<SpawnerModel, SpawnerError> {
    match r {
        Ok(s) => Ok(s@),
        Err(e) => Err(e),
    }
}

/// Keeps `m` if its lengths match.
pub open spec fn checked(m: SpawnerModel) -> Result<SpawnerModel, SpawnerError> {
    if lengths_match(m) {
        Ok(m)
    } else {
        Err(SpawnerError::LengthMismatch)
    }
}

pub open spec fn spec_with_positions_xz(m: SpawnerModel, xz: Seq<Position>) -> Result<
    SpawnerModel,
    SpawnerError,
> {
    if xz.len() == 0 {
        Err(SpawnerError::EmptyInput)
    } else if m.flags.xz_defined {
        Err(SpawnerError::AlreadyDefined(SourceSlot::Horizontal))
    } else {
        checked(SpawnerModel { xz, flags: GrassSpawnerFlags { xz_defined: true, ..m.flags }, ..m })
    }
}

pub open spec fn spec_with_positions_y(m: SpawnerModel, y: Seq<i32>) -> Result<
    SpawnerModel,
    SpawnerError,
> {
    if y.len() == 0 {
        Err(SpawnerError::EmptyInput)
    } else if m.flags.y_defined {
        Err(SpawnerError::AlreadyDefined(SourceSlot::Vertical))
    } else {
        checked(SpawnerModel { y, flags: GrassSpawnerFlags { y_defined: true, ..m.flags }, ..m })
    }
}

pub open spec fn all_positive(h: Seq<i32>) -> bool {
    forall|k: int| 0 <= k < h.len() ==> h[k] > 0
}

pub open spec fn spec_with_heights(m: SpawnerModel, h: Seq<i32>) -> Result<
    SpawnerModel,
    SpawnerError,
> {
    if h.len() == 0 {
        Err(SpawnerError::EmptyInput)
    } else if !all_positive(h) {
        Err(SpawnerError::NonPositiveHeight)
    } else if m.flags.height_defined {
        Err(SpawnerError::AlreadyDefined(SourceSlot::Height))
    } else {
        checked(
            SpawnerModel {
                heights: HeightModel::PerBlade(h),
                flags: GrassSpawnerFlags { height_defined: true, ..m.flags },
                ..m
            },
        )
    }
}

pub open spec fn spec_with_height_uniform(m: SpawnerModel, h: i32) -> Result<
    SpawnerModel,
    SpawnerError,
> {
    if h <= 0 {
        Err(SpawnerError::NonPositiveHeight)
    } else if m.flags.height_defined {
        Err(SpawnerError::AlreadyDefined(SourceSlot::Height))
    } else {
        Ok(
            SpawnerModel {
                heights: HeightModel::Uniform(h),
                flags: GrassSpawnerFlags { height_defined: true, ..m.flags },
                ..m
            },
        )
    }
}

pub open spec fn spec_with_height_map(m: SpawnerModel, map: HeightMap) -> Result<
    SpawnerModel,
    SpawnerError,
> {
    if m.flags.y_defined {
        Err(SpawnerError::AlreadyDefined(SourceSlot::Vertical))
    } else {
        Ok(
            SpawnerModel {
                height_map: Some(map),
                flags: GrassSpawnerFlags { y_defined: true, height_map: true, ..m.flags },
                ..m
            },
        )
    }
}

pub open spec fn spec_with_density_map(m: SpawnerModel, map: DensityMap) -> Result<
    SpawnerModel,
    SpawnerError,
> {
    if m.flags.xz_defined {
        Err(SpawnerError::AlreadyDefined(SourceSlot::Horizontal))
    } else {
        Ok(
            SpawnerModel {
                density_map: Some(map),
                flags: GrassSpawnerFlags { xz_defined: true, density_map: true, ..m.flags },
                ..m
            },
        )
    }
}

/// The horizontal parts of a list of positions.
pub open spec fn xz_of(ps: Seq<Position3>) -> Seq<Position> {
    ps.map_values(|p: Position3| Position { x: p.x, z: p.z })
}

/// The ground heights of a list of positions.
pub open spec fn y_of(ps: Seq<Position3>) -> Seq<i32> {
    ps.map_values(|p: Position3| p.y)
}

pub open spec fn spec_with_positions(m: SpawnerModel, ps: Seq<Position3>) -> Result<
    SpawnerModel,
    SpawnerError,
> {
    if ps.len() == 0 {
        Err(SpawnerError::EmptyInput)
    } else {
        match spec_with_positions_xz(m, xz_of(ps)) {
            Ok(m1) => spec_with_positions_y(m1, y_of(ps)),
            Err(e) => Err(e),
        }
    }
}

pub open spec fn spec_from_grass_blades(m: SpawnerModel, blades: Seq<GrassBlade>) -> Result<
    SpawnerModel,
    SpawnerError,
> {
    if blades.len() == 0 {
        Err(SpawnerError::EmptyInput)
    } else {
        match spec_with_positions(m, blades.map_values(|b: GrassBlade| b.position)) {
            Ok(m1) => spec_with_heights(m1, blades.map_values(|b: GrassBlade| b.height)),
            Err(e) => Err(e),
        }
    }
}

/// Splits positions into their horizontal parts and their ground heights.
fn split_positions(positions: &Vec<Position3>) -> (r: (Vec<Position>, Vec<i32>))
    ensures
        r.0@ == xz_of(positions@),
        r.1@ == y_of(positions@),
{
    let mut xz: Vec<Position> = Vec::new();
    let mut y: Vec<i32> = Vec::new();
    let mut k: usize = 0;
    while k < positions.len()
        invariant
            k <= positions@.len(),
            xz@.len() == k,
            y@.len() == k,
            forall|t: int| 0 <= t < k ==> xz@[t] == (Position { x: positions@[t].x, z: positions@[t].z }),
            forall|t: int| 0 <= t < k ==> y@[t] == positions@[t].y,
        decreases positions@.len() - k,
    {
        let p = positions[k];
        xz.push(Position { x: p.x, z: p.z });
        y.push(p.y);
        k = k + 1;
    }
    assert(xz@ =~= xz_of(positions@));
    assert(y@ =~= y_of(positions@));
    (xz, y)
}

/// Splits instances into their positions and their heights.
fn split_blades(blades: &Vec<GrassBlade>) -> (r: (Vec<Position3>, Vec<i32>))
    ensures
        r.0@ == blades@.map_values(|b: GrassBlade| b.position),
        r.1@ == blades@.map_values(|b: GrassBlade| b.height),
{
    let mut positions: Vec<Position3> = Vec::new();
    let mut heights: Vec<i32> = Vec::new();
    let mut k: usize = 0;
    while k < blades.len()
        invariant
            k <= blades@.len(),
            positions@.len() == k,
            heights@.len() == k,
            forall|t: int| 0 <= t < k ==> positions@[t] == blades@[t].position,
            forall|t: int| 0 <= t < k ==> heights@[t] == blades@[t].height,
        decreases blades@.len() - k,
    {
        let b = blades[k];
        positions.push(b.position);
        heights.push(b.height);
        k = k + 1;
    }
    assert(positions@ =~= blades@.map_values(|b: GrassBlade| b.position));
    assert(heights@ =~= blades@.map_values(|b: GrassBlade| b.height));
    (positions, heights)
}

impl GrassSpawner {
    /// A spawner with no source; instance heights default to one unit.
    pub fn new() -> (r: GrassSpawner)
        ensures
            r@ == empty_model(),
            r@.wf(),
    {
        GrassSpawner {
            positions_xz: Vec::new(),
            positions_y: Vec::new(),
            heights: HeightRepresentation::Uniform(1000),
            height_map: None,
            density_map: None,
            flags: GrassSpawnerFlags::none(),
        }
    }

    /// How many instances the listed sources describe: the length of the first list given,
    /// among horizontal positions, ground heights and per-instance heights; 0 when none is.
    pub fn blade_count(&self) -> (n: usize)
        ensures
            n as int == blade_count_spec(self@),
    {
        if self.positions_xz.len() > 0 {
            return self.positions_xz.len();
        }
        if self.positions_y.len() > 0 {
            return self.positions_y.len();
        }
        if let HeightRepresentation::PerBlade(heights) = &self.heights {
            return heights.len();
        }
        0
    }

    /// Whether the lists of per-instance values that are both given have equal lengths.
    fn validate(&self) -> (r: bool)
        ensures
            r == lengths_match(self@),
    {
        if self.positions_xz.len() > 0 && self.positions_y.len() > 0
            && self.positions_xz.len() != self.positions_y.len() {
            return false;
        }
        if let HeightRepresentation::PerBlade(heights) = &self.heights {
            if self.positions_y.len() > 0 && heights.len() != self.positions_y.len() {
                return false;
            }
            if self.positions_xz.len() > 0 && heights.len() != self.positions_xz.len() {
                return false;
            }
        }
        true
    }

    /// Lists the horizontal positions of the instances. Fails on an empty list, or when
    /// the horizontal positions are already given (as a list or by a density map).
    pub fn with_positions_xz(self, positions_xz: Vec<Position>) -> (r: Result<
        GrassSpawner,
        SpawnerError,
    >)
        ensures
            model_of(r) == spec_with_positions_xz(self@, positions_xz@),
            self@.wf() && r is Ok ==> r->Ok_0@.wf(),
    {
        if positions_xz.len() == 0 {
            return Err(SpawnerError::EmptyInput);
        }
        if self.flags.xz_defined {
            return Err(SpawnerError::AlreadyDefined(SourceSlot::Horizontal));
        }
        let mut s = self;
        s.flags.xz_defined = true;
        s.positions_xz = positions_xz;
        if s.validate() {
            Ok(s)
        } else {
            Err(SpawnerError::LengthMismatch)
        }
    }

    /// Lists the ground height under each instance. Fails on an empty list, or when the
    /// ground heights are already given (as a list or by an elevation map).
    pub fn with_positions_y(self, positions_y: Vec<i32>) -> (r: Result<
        GrassSpawner,
        SpawnerError,
    >)
        ensures
            model_of(r) == spec_with_positions_y(self@, positions_y@),
            self@.wf() && r is Ok ==> r->Ok_0@.wf(),
    {
        if positions_y.len() == 0 {
            return Err(SpawnerError::EmptyInput);
        }
        if self.flags.y_defined {
            return Err(SpawnerError::AlreadyDefined(SourceSlot::Vertical));
        }
        let mut s = self;
        s.flags.y_defined = true;
        s.positions_y = positions_y;
        if s.validate() {
            Ok(s)
        } else {
            Err(SpawnerError::LengthMismatch)
        }
    }

    /// Lists the height of each instance. Fails on an empty list, on a height that is not
    /// positive, or when the heights are already given.
    pub fn with_heights(self, heights: Vec<i32>) -> (r: Result<GrassSpawner, SpawnerError>)
        ensures
            model_of(r) == spec_with_heights(self@, heights@),
            self@.wf() && r is Ok ==> r->Ok_0@.wf(),
    {
        if heights.len() == 0 {
            return Err(SpawnerError::EmptyInput);
        }
        let mut k: usize = 0;
        while k < heights.len()
            invariant
                k <= heights@.len(),
                forall|t: int| 0 <= t < k ==> heights@[t] > 0,
            decreases heights@.len() - k,
        {
            if heights[k] <= 0 {
                return Err(SpawnerError::NonPositiveHeight);
            }
            k = k + 1;
        }
        if self.flags.height_defined {
            return Err(SpawnerError::AlreadyDefined(SourceSlot::Height));
        }
        let mut s = self;
        s.flags.height_defined = true;
        s.heights = HeightRepresentation::PerBlade(heights);
        if s.validate() {
            Ok(s)
        } else {
            Err(SpawnerError::LengthMismatch)
        }
    }

    /// Gives every instance the same height. Fails on a height that is not positive, or when
    /// the heights are already given.
    pub fn with_height_uniform(self, uniform_height: i32) -> (r: Result<
        GrassSpawner,
        SpawnerError,
    >)
        ensures
            model_of(r) == spec_with_height_uniform(self@, uniform_height),
            self@.wf() && r is Ok ==> r->Ok_0@.wf(),
    {
        if uniform_height <= 0 {
            return Err(SpawnerError::NonPositiveHeight);
        }
        if self.flags.height_defined {
            return Err(SpawnerError::AlreadyDefined(SourceSlot::Height));
        }
        let mut s = self;
        s.flags.height_defined = true;
        s.heights = HeightRepresentation::Uniform(uniform_height);
        Ok(s)
    }

    /// Reads the ground heights from an elevation map. Fails when the ground heights are
    /// already given.
    pub fn with_height_map(self, height_map: HeightMap) -> (r: Result<
        GrassSpawner,
        SpawnerError,
    >)
        ensures
            model_of(r) == spec_with_height_map(self@, height_map),
            self@.wf() && r is Ok ==> r->Ok_0@.wf(),
    {
        if self.flags.y_defined {
            return Err(SpawnerError::AlreadyDefined(SourceSlot::Vertical));
        }
        let mut s = self;
        s.flags.y_defined = true;
        s.flags.height_map = true;
        s.height_map = Some(height_map);
        Ok(s)
    }

    /// Draws the horizontal positions from a density map. Fails when the horizontal
    /// positions are already given.
    pub fn with_density_map(self, density_map: DensityMap) -> (r: Result<
        GrassSpawner,
        SpawnerError,
    >)
        ensures
            model_of(r) == spec_with_density_map(self@, density_map),
            self@.wf() && r is Ok ==> r->Ok_0@.wf(),
    {
        if self.flags.xz_defined {
            return Err(SpawnerError::AlreadyDefined(SourceSlot::Horizontal));
        }
        let mut s = self;
        s.flags.xz_defined = true;
        s.flags.density_map = true;
        s.density_map = Some(density_map);
        Ok(s)
    }

    /// Lists the full positions of the instances: their horizontal positions and their
    /// ground heights together.
    pub fn with_positions(self, positions: Vec<Position3>) -> (r: Result<
        GrassSpawner,
        SpawnerError,
    >)
        ensures
            model_of(r) == spec_with_positions(self@, positions@),
            self@.wf() && r is Ok ==> r->Ok_0@.wf(),
    {
        if positions.len() == 0 {
            return Err(SpawnerError::EmptyInput);
        }
        let (xz, y) = split_positions(&positions);
        match self.with_positions_xz(xz) {
            Ok(s) => s.with_positions_y(y),
            Err(e) => Err(e),
        }
    }

    /// A spawner whose instances stand at the listed positions.
    pub fn from_positions(positions: Vec<Position3>) -> (r: Result<GrassSpawner, SpawnerError>)
        ensures
            model_of(r) == spec_with_positions(empty_model(), positions@),
            r is Ok ==> r->Ok_0@.wf(),
    {
        GrassSpawner::new().with_positions(positions)
    }

    /// Lists the instances: their positions and their heights.
    pub fn from_grass_blades(self, grass_blades: Vec<GrassBlade>) -> (r: Result<
        GrassSpawner,
        SpawnerError,
    >)
        ensures
            model_of(r) == spec_from_grass_blades(self@, grass_blades@),
            self@.wf() && r is Ok ==> r->Ok_0@.wf(),
    {
        if grass_blades.len() == 0 {
            return Err(SpawnerError::EmptyInput);
        }
        let (positions, heights) = split_blades(&grass_blades);
        match self.with_positions(positions) {
            Ok(s) => s.with_heights(heights),
            Err(e) => Err(e),
        }
    }
}

/// The horizontal positions come from one source only: once they are listed, a density map
/// is refused, and once a density map is given, a list of positions is refused.
pub proof fn lemma_horizontal_sources_exclusive(m: SpawnerModel, xz: Seq<Position>, map: DensityMap)
    requires
        xz.len() > 0,
    ensures
        spec_with_positions_xz(m, xz) matches Ok(m1) ==> spec_with_density_map(m1, map) == Err::<
            SpawnerModel,
            SpawnerError,
        >(SpawnerError::AlreadyDefined(SourceSlot::Horizontal)),
        spec_with_density_map(m, map) matches Ok(m1) ==> spec_with_positions_xz(m1, xz) == Err::<
            SpawnerModel,
            SpawnerError,
        >(SpawnerError::AlreadyDefined(SourceSlot::Horizontal)),
{
}

/// The ground heights come from one source only: once they are listed, an elevation map is
/// refused, and once an elevation map is given, a list of ground heights is refused.
pub proof fn lemma_vertical_sources_exclusive(m: SpawnerModel, y: Seq<i32>, map: HeightMap)
    requires
        y.len() > 0,
    ensures
        spec_with_positions_y(m, y) matches Ok(m1) ==> spec_with_height_map(m1, map) == Err::<
            SpawnerModel,
            SpawnerError,
        >(SpawnerError::AlreadyDefined(SourceSlot::Vertical)),
        spec_with_height_map(m, map) matches Ok(m1) ==> spec_with_positions_y(m1, y) == Err::<
            SpawnerModel,
            SpawnerError,
        >(SpawnerError::AlreadyDefined(SourceSlot::Vertical)),
{
}

} // verus!
