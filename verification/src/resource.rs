//! The closed set of resource identifiers and their dense indexing.

use vstd::prelude::*;

verus! {

/// How many resources there are; ledgers are dense vectors of this length.
pub const RESOURCE_COUNT: usize = 13;

/// An opaque resource identifier from the closed, content-supplied set.
#[derive(Clone, Copy, Debug, PartialEq, Eq, Structural)]
pub enum Resource {
    Player,
    Fish,
    FoodRation,
    Scrap,
    SpareParts,
    Submarine,
    Net,
    NetUpgraded,
    Claw,
    ClawUpgraded,
    Martha,
    MarthaAtWork,
    Forge,
}

/// The dense index of a resource; also its display order.
pub open spec fn res_idx(r: Resource) -> int {
    match r {
        Resource::Player => 0,
        Resource::Fish => 1,
        Resource::FoodRation => 2,
        Resource::Scrap => 3,
        Resource::SpareParts => 4,
        Resource::Submarine => 5,
        Resource::Net => 6,
        Resource::NetUpgraded => 7,
        Resource::Claw => 8,
        Resource::ClawUpgraded => 9,
        Resource::Martha => 10,
        Resource::MarthaAtWork => 11,
        Resource::Forge => 12,
    }
}

/// The resource at a dense index; inverse of `res_idx`.
pub open spec fn res_of(i: int) -> Resource {
    if i == 0 { Resource::Player }
    else if i == 1 { Resource::Fish }
    else if i == 2 { Resource::FoodRation }
    else if i == 3 { Resource::Scrap }
    else if i == 4 { Resource::SpareParts }
    else if i == 5 { Resource::Submarine }
    else if i == 6 { Resource::Net }
    else if i == 7 { Resource::NetUpgraded }
    else if i == 8 { Resource::Claw }
    else if i == 9 { Resource::ClawUpgraded }
    else if i == 10 { Resource::Martha }
    else if i == 11 { Resource::MarthaAtWork }
    else { Resource::Forge }
}

pub broadcast proof fn lemma_res_idx_of(r: Resource)
    ensures
        0 <= #[trigger] res_idx(r) < RESOURCE_COUNT as int,
        res_of(res_idx(r)) == r,
{
}

pub broadcast proof fn lemma_res_of_idx(i: int)
    requires
        0 <= i < RESOURCE_COUNT as int,
    ensures
        res_idx(#[trigger] res_of(i)) == i,
{
}

impl Resource {
    /// The dense index of this resource.
    pub fn index(self) -> (i: usize)
        ensures
            i as int == res_idx(self),
            i < RESOURCE_COUNT,
    {
        match self {
            Resource::Player => 0,
            Resource::Fish => 1,
            Resource::FoodRation => 2,
            Resource::Scrap => 3,
            Resource::SpareParts => 4,
            Resource::Submarine => 5,
            Resource::Net => 6,
            Resource::NetUpgraded => 7,
            Resource::Claw => 8,
            Resource::ClawUpgraded => 9,
            Resource::Martha => 10,
            Resource::MarthaAtWork => 11,
            Resource::Forge => 12,
        }
    }
}

/// The resource at a dense index.
pub fn resource_at(i: usize) -> (r: Resource)
    requires
        i < RESOURCE_COUNT,
    ensures
        r == res_of(i as int),
        res_idx(r) == i as int,
{
    if i == 0 { Resource::Player }
    else if i == 1 { Resource::Fish }
    else if i == 2 { Resource::FoodRation }
    else if i == 3 { Resource::Scrap }
    else if i == 4 { Resource::SpareParts }
    else if i == 5 { Resource::Submarine }
    else if i == 6 { Resource::Net }
    else if i == 7 { Resource::NetUpgraded }
    else if i == 8 { Resource::Claw }
    else if i == 9 { Resource::ClawUpgraded }
    else if i == 10 { Resource::Martha }
    else if i == 11 { Resource::MarthaAtWork }
    else { Resource::Forge }
}

/// An element-wise copy of a list of resources.
pub fn copy_resources(v: &Vec<Resource>) -> (r: Vec<Resource>)
    ensures
        r@ == v@,
{
    let mut r: Vec<Resource> = Vec::new();
    let mut i: usize = 0;
    while i < v.len()
        invariant
            i <= v.len(),
            r@ =~= v@.take(i as int),
        decreases v.len() - i,
    {
        r.push(v[i]);
        i += 1;
    }
    proof {
        assert(r@ =~= v@);
    }
    r
}

/// The short display name, as the table headings show it.
pub open spec fn short_name_spec(r: Resource) -> Seq<char> {
    match r {
        Resource::Player => "Player"@,
        Resource::Fish => "Fish"@,
        Resource::FoodRation => "Food ration"@,
        Resource::Scrap => "Scrap"@,
        Resource::SpareParts => "Spare parts"@,
        Resource::Submarine => "Sub"@,
        Resource::Net => "Net"@,
        Resource::NetUpgraded => "Net+"@,
        Resource::Claw => "Claw"@,
        Resource::ClawUpgraded => "Claw+"@,
        Resource::Martha => "Martha"@,
        Resource::MarthaAtWork => "WorkingMartha"@,
        Resource::Forge => "Forge"@,
    }
}

/// The long, narrative display name of a resource.
pub open spec fn long_name_spec(r: Resource) -> Seq<char> {
    match r {
        Resource::Player => "Player"@,
        Resource::Scrap => "Scrap metal"@,
        Resource::SpareParts => "Spare Parts"@,
        Resource::Fish => "Fish"@,
        Resource::FoodRation => "Food Ration"@,
        Resource::Submarine => "Submarine"@,
        Resource::Net => "Fishing net"@,
        Resource::NetUpgraded => "Improved fishing net"@,
        Resource::Martha => "Martha, the canning machine"@,
        Resource::Forge => "An ancient forge"@,
        Resource::Claw => "A huge mechanical claw"@,
        Resource::ClawUpgraded => "An upgraded mechanical claw"@,
        Resource::MarthaAtWork => "Martha, currently canning"@,
    }
}

impl Resource {
    /// The short display name of this resource.
    pub fn short_name(self) -> (r: &'static str)
        ensures
            r@ == short_name_spec(self),
    {
        match self {
            Resource::Player => "Player",
            Resource::Fish => "Fish",
            Resource::FoodRation => "Food ration",
            Resource::Scrap => "Scrap",
            Resource::SpareParts => "Spare parts",
            Resource::Submarine => "Sub",
            Resource::Net => "Net",
            Resource::NetUpgraded => "Net+",
            Resource::Claw => "Claw",
            Resource::ClawUpgraded => "Claw+",
            Resource::Martha => "Martha",
            Resource::MarthaAtWork => "WorkingMartha",
            Resource::Forge => "Forge",
        }
    }

    /// The long, narrative display name of this resource.
    pub fn long_name(&self) -> (r: &'static str)
        ensures
            r@ == long_name_spec(*self),
    {
        let name: &'static str = match self {
            Resource::Player => "Player",
            Resource::Scrap => "Scrap metal",
            Resource::SpareParts => "Spare Parts",
            Resource::Fish => "Fish",
            Resource::FoodRation => "Food Ration",
            Resource::Submarine => "Submarine",
            Resource::Net => "Fishing net",
            Resource::NetUpgraded => "Improved fishing net",
            Resource::Martha => "Martha, the canning machine",
            Resource::Forge => "An ancient forge",
            Resource::Claw => "A huge mechanical claw",
            Resource::ClawUpgraded => "An upgraded mechanical claw",
            Resource::MarthaAtWork => "Martha, currently canning",
        };
        name
    }
}

} // verus!
