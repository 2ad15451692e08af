use vstd::prelude::*;

verus! {

/// Which of the two render contracts a gallery entry speaks.
#[derive(Debug, Clone, Copy, PartialEq, Eq, Structural)]
pub enum SimulationType {
    TwoD,
    ThreeD,
}

/// Flocking presets of the boids field.
#[derive(Debug, Clone, Copy, PartialEq, Eq, Structural)]
pub enum FlockMode {
    Normal,
    Chaotic,
    Ordered,
    Swirl,
}

impl FlockMode {
    pub fn all() -> (r: Vec<FlockMode>)
        ensures
            r@ == seq![FlockMode::Normal, FlockMode::Chaotic, FlockMode::Ordered, FlockMode::Swirl],
    {
        let r = vec![FlockMode::Normal, FlockMode::Chaotic, FlockMode::Ordered, FlockMode::Swirl];
        assert(r@ =~= seq![FlockMode::Normal, FlockMode::Chaotic, FlockMode::Ordered, FlockMode::Swirl]);
        r
    }

    pub open spec fn spec_name(self) -> Seq<char> {
        match self {
            FlockMode::Normal => "Normal"@,
            FlockMode::Chaotic => "Chaotic"@,
            FlockMode::Ordered => "Ordered"@,
            FlockMode::Swirl => "Swirl"@,
        }
    }

    pub fn name(&self) -> (r: &str)
        ensures
            r@ == self.spec_name(),
    {
        match self {
            FlockMode::Normal => "Normal",
            FlockMode::Chaotic => "Chaotic",
            FlockMode::Ordered => "Ordered",
            FlockMode::Swirl => "Swirl",
        }
    }
}

/// How the Koch snowflake is drawn.
#[derive(Debug, Clone, Copy, PartialEq, Eq, Structural)]
pub enum DrawMode {
    Lines,
    Points,
    FilledTriangles,
}

impl DrawMode {
    pub fn all() -> (r: Vec<DrawMode>)
        ensures
            r@ == seq![DrawMode::Lines, DrawMode::Points, DrawMode::FilledTriangles],
    {
        let r = vec![DrawMode::Lines, DrawMode::Points, DrawMode::FilledTriangles];
        assert(r@ =~= seq![DrawMode::Lines, DrawMode::Points, DrawMode::FilledTriangles]);
        r
    }

    pub open spec fn spec_name(self) -> Seq<char> {
        match self {
            DrawMode::Lines => "Lines"@,
            DrawMode::Points => "Points"@,
            DrawMode::FilledTriangles => "Filled Triangles"@,
        }
    }

    pub fn name(&self) -> (r: &str)
        ensures
            r@ == self.spec_name(),
    {
        match self {
            DrawMode::Lines => "Lines",
            DrawMode::Points => "Points",
            DrawMode::FilledTriangles => "Filled Triangles",
        }
    }
}

/// Where flow-field particles are spawned.
#[derive(Debug, Clone, Copy, PartialEq, Eq, Structural)]
pub enum SpawnMode {
    Random,
    Center,
    Edges,
    Grid,
}

impl SpawnMode {
    pub fn all() -> (r: Vec<SpawnMode>)
        ensures
            r@ == seq![SpawnMode::Random, SpawnMode::Center, SpawnMode::Edges, SpawnMode::Grid],
    {
        let r = vec![SpawnMode::Random, SpawnMode::Center, SpawnMode::Edges, SpawnMode::Grid];
        assert(r@ =~= seq![SpawnMode::Random, SpawnMode::Center, SpawnMode::Edges, SpawnMode::Grid]);
        r
    }

    pub open spec fn spec_name(self) -> Seq<char> {
        match self {
            SpawnMode::Random => "Random"@,
            SpawnMode::Center => "Center"@,
            SpawnMode::Edges => "Edges"@,
            SpawnMode::Grid => "Grid"@,
        }
    }

    pub fn name(&self) -> (r: &str)
        ensures
            r@ == self.spec_name(),
    {
        match self {
            SpawnMode::Random => "Random",
            SpawnMode::Center => "Center",
            SpawnMode::Edges => "Edges",
            SpawnMode::Grid => "Grid",
        }
    }
}

} // verus!
