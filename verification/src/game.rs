//! The live game's content tables: the starting job, every resource's
//! attributes and upkeep rule, and the winning job id. The engine reads
//! these only through the injected configuration.

use vstd::prelude::*;
use crate::amount::Amount;
use crate::config::{AttrV, Config, ResourceAttributes, config_wf};
use crate::job::{Job, JobV};
use crate::resource::{Resource, RESOURCE_COUNT};

verus! {

/// The id of the job whose successful application wins the game.
pub const WIN_JOB_ID: usize = 1;

/// The synthetic job the replay starts from: the player and their tools.
pub open spec fn start_job_v() -> JobV {
    JobV {
        button_text: "Explore the facility"@,
        deltas: seq![
            seq![
                (Resource::Player, Amount::Gain(1)),
                (Resource::FoodRation, Amount::Gain(7)),
                (Resource::Martha, Amount::Gain(1)),
                (Resource::Forge, Amount::Gain(1)),
                (Resource::Net, Amount::Gain(1)),
                (Resource::Submarine, Amount::Gain(1)),
                (Resource::Claw, Amount::Gain(1)),
            ],
        ],
        removable: false,
        saved: false,
        instances: 1,
        id: 0,
        combination_resources: Seq::empty(),
    }
}

/// The job granting the starting resources.
pub fn starting_resources() -> (r: Job)
    ensures
        r@ == start_job_v(),
{
    let tier: Vec<(Resource, Amount)> = vec![
        (Resource::Player, Amount::Gain(1)),
        (Resource::FoodRation, Amount::Gain(7)),
        (Resource::Martha, Amount::Gain(1)),
        (Resource::Forge, Amount::Gain(1)),
        (Resource::Net, Amount::Gain(1)),
        (Resource::Submarine, Amount::Gain(1)),
        (Resource::Claw, Amount::Gain(1)),
    ];
    let deltas: Vec<Vec<(Resource, Amount)>> = vec![tier];
    let r = Job {
        button_text: "Explore the facility",
        deltas,
        removable: false,
        saved: false,
        instances: 1,
        id: 0,
        combination_resources: Vec::new(),
    };
    proof {
        assert(r@.deltas =~~= start_job_v().deltas);
        assert(r@.combination_resources =~= start_job_v().combination_resources);
        assert(r@ =~~= start_job_v());
    }
    r
}

impl Job {
    /// The job granting the starting resources.
    pub fn starting_resources() -> (r: Job)
        ensures
            r@ == start_job_v(),
    {
        starting_resources()
    }
}

/// A simple attribute record: a tool shown inline by name on display row 1,
/// with no standing upkeep.
fn tool_attributes() -> (r: ResourceAttributes)
    ensures
        r@ == tool_attr_v(),
{
    let r = ResourceAttributes { upkeep: Vec::new(), visible: true, display_as_name: true, row: 1 };
    proof {
        assert(r@.upkeep =~~= tool_attr_v().upkeep);
        assert(r@ =~~= tool_attr_v());
    }
    r
}

/// The attribute record of a tool: inline, visible, row 1, no upkeep.
pub open spec fn tool_attr_v() -> AttrV {
    AttrV { upkeep: Seq::empty(), visible: true, display_as_name: true, row: 1 }
}

/// The player's attribute record: hidden, named inline, and eating one food
/// ration per unit per applied instance.
pub open spec fn player_attr_v() -> AttrV {
    AttrV {
        upkeep: seq![seq![(Resource::FoodRation, Amount::Spend(1))]],
        visible: false,
        display_as_name: true,
        row: 0,
    }
}

/// The canning machine at work: it cans fifteen fish into five rations, or
/// failing that, it steps back to idle.
pub open spec fn martha_at_work_attr_v() -> AttrV {
    AttrV {
        upkeep: seq![
            seq![(Resource::Fish, Amount::Spend(15)), (Resource::FoodRation, Amount::Gain(5))],
            seq![(Resource::Martha, Amount::Gain(1)), (Resource::MarthaAtWork, Amount::Spend(1))],
        ],
        visible: true,
        display_as_name: true,
        row: 1,
    }
}

/// What content says about each resource, by dense index.
pub open spec fn game_attrs() -> Seq<Option<AttrV>> {
    seq![
        Option::Some(player_attr_v()),  // Player
        Option::None,  // Fish
        Option::None,  // FoodRation
        Option::None,  // Scrap
        Option::None,  // SpareParts
        Option::Some(tool_attr_v()),  // Submarine
        Option::Some(tool_attr_v()),  // Net
        Option::Some(tool_attr_v()),  // NetUpgraded
        Option::Some(tool_attr_v()),  // Claw
        Option::Some(tool_attr_v()),  // ClawUpgraded
        Option::Some(tool_attr_v()),  // Martha
        Option::Some(martha_at_work_attr_v()),  // MarthaAtWork
        Option::Some(tool_attr_v()),  // Forge
    ]
}

/// The attribute table of the live game.
pub fn attributes() -> (r: Vec<Option<ResourceAttributes>>)
    ensures
        r@.len() == RESOURCE_COUNT as int,
        r@.map_values(
            |o: Option<ResourceAttributes>|
                match o {
                    Option::Some(a) => Option::Some(a@),
                    Option::None => Option::<AttrV>::None,
                },
        ) == game_attrs(),
{
    let player_upkeep: Vec<Vec<(Resource, Amount)>> = vec![
        vec![(Resource::FoodRation, Amount::Spend(1))],
    ];
    let player = ResourceAttributes {
        upkeep: player_upkeep,
        visible: false,
        display_as_name: true,
        row: 0,
    };
    let martha_upkeep: Vec<Vec<(Resource, Amount)>> = vec![
        vec![(Resource::Fish, Amount::Spend(15)), (Resource::FoodRation, Amount::Gain(5))],
        vec![(Resource::Martha, Amount::Gain(1)), (Resource::MarthaAtWork, Amount::Spend(1))],
    ];
    let martha_at_work = ResourceAttributes {
        upkeep: martha_upkeep,
        visible: true,
        display_as_name: true,
        row: 1,
    };
    proof {
        assert(player@.upkeep =~~= player_attr_v().upkeep);
        assert(player@ =~~= player_attr_v());
        assert(martha_at_work@.upkeep =~~= martha_at_work_attr_v().upkeep);
        assert(martha_at_work@ =~~= martha_at_work_attr_v());
    }
    let mut r: Vec<Option<ResourceAttributes>> = Vec::new();
    r.push(Some(player));  // Player
    r.push(None);  // Fish
    r.push(None);  // FoodRation
    r.push(None);  // Scrap
    r.push(None);  // SpareParts
    r.push(Some(tool_attributes()));  // Submarine
    r.push(Some(tool_attributes()));  // Net
    r.push(Some(tool_attributes()));  // NetUpgraded
    r.push(Some(tool_attributes()));  // Claw
    r.push(Some(tool_attributes()));  // ClawUpgraded
    r.push(Some(tool_attributes()));  // Martha
    r.push(Some(martha_at_work));  // MarthaAtWork
    r.push(Some(tool_attributes()));  // Forge
    proof {
        assert(r@.map_values(
            |o: Option<ResourceAttributes>|
                match o {
                    Option::Some(a) => Option::Some(a@),
                    Option::None => Option::<AttrV>::None,
                },
        ) =~= game_attrs());
    }
    r
}

/// The complete content configuration of the live game. The combination
/// table is the presentation side's to supply; the engine starts without
/// one.
pub fn game_config() -> (r: Config)
    ensures
        config_wf(r@),
        r@.attrs == game_attrs(),
        r@.win_job_id == WIN_JOB_ID as int,
        r@.start_job == start_job_v(),
        r@.combinations == Seq::<
            (Resource, Resource, crate::config::CombinationResultV),
        >::empty(),
    {
    let r = Config {
        attrs: attributes(),
        win_job_id: WIN_JOB_ID,
        start_job: starting_resources(),
        combinations: Vec::new(),
    };
    proof {
        assert(r@.combinations =~= Seq::<
            (Resource, Resource, crate::config::CombinationResultV),
        >::empty());
    }
    r
}

} // verus!
