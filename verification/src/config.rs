//! Injected game content: per-resource attributes, the combination rules,
//! the starting job and the winning job id. Loaded once, read many times;
//! the engine treats it as opaque configuration.

use vstd::prelude::*;
use crate::amount::Amount;
use crate::evaluate::tiers_view;
use crate::job::{Job, JobV};
use crate::resource::{Resource, RESOURCE_COUNT, res_idx};

verus! {

/// What content says about one resource: its standing upkeep rule, whether
/// it is shown, whether it is displayed inline by name instead of as a
/// column, and its display grouping row.
#[derive(Debug)]
pub struct ResourceAttributes {
    pub upkeep: Vec<Vec<(Resource, Amount)>>,
    pub visible: bool,
    /// Display as a name on each row instead of reserving a column.
    pub display_as_name: bool,
    pub row: usize,
}

/// Mathematical image of `ResourceAttributes`.
#[verifier::ext_equal]
pub struct AttrV {
    pub upkeep: Seq<Seq<(Resource, Amount)>>,
    pub visible: bool,
    pub display_as_name: bool,
    pub row: int,
}

impl View for ResourceAttributes {
    type V = AttrV;

    open spec fn view(&self) -> AttrV {
        AttrV {
            upkeep: tiers_view(self.upkeep@),
            visible: self.visible,
            display_as_name: self.display_as_name,
            row: self.row as int,
        }
    }
}

/// What a player's pairing of two resources produces.
#[derive(Debug, PartialEq)]
pub enum CombinationResult {
    /// A job to enqueue, with an optional narrative message.
    Job(Job, Option<String>),
    /// A narrative-only text result.
    Text(String),
    /// No effect.
    Nothing,
}

/// Mathematical image of `CombinationResult`.
#[verifier::ext_equal]
pub enum CombinationResultV {
    Job(JobV, Option<Seq<char>>),
    Text(Seq<char>),
    Nothing,
}

impl View for CombinationResult {
    type V = CombinationResultV;

    open spec fn view(&self) -> CombinationResultV {
        match self {
            CombinationResult::Job(job, message) => CombinationResultV::Job(
                job@,
                match message {
                    Option::Some(m) => Option::Some(m@),
                    Option::None => Option::None,
                },
            ),
            CombinationResult::Text(text) => CombinationResultV::Text(text@),
            CombinationResult::Nothing => CombinationResultV::Nothing,
        }
    }
}

impl Clone for CombinationResult {
    /// An independent copy with the same value.
    fn clone(&self) -> (r: Self)
        ensures
            r@ == self@,
    {
        match self {
            CombinationResult::Job(job, message) => CombinationResult::Job(
                job.clone(),
                match message {
                    Option::Some(m) => Option::Some(m.clone()),
                    Option::None => Option::None,
                },
            ),
            CombinationResult::Text(text) => CombinationResult::Text(text.clone()),
            CombinationResult::Nothing => CombinationResult::Nothing,
        }
    }
}

/// The immutable content tables, injected into the engine at startup.
#[derive(Debug)]
pub struct Config {
    /// Per resource, by dense index: its attributes, if content defines any.
    pub attrs: Vec<Option<ResourceAttributes>>,
    /// The job id whose successful application wins the game.
    pub win_job_id: usize,
    /// The synthetic job that replay starts from.
    pub start_job: Job,
    /// The combination rules: an unordered resource pair and what it yields.
    pub combinations: Vec<(Resource, Resource, CombinationResult)>,
}

/// Mathematical image of `Config`.
#[verifier::ext_equal]
pub struct ConfigV {
    pub attrs: Seq<Option<AttrV>>,
    pub win_job_id: int,
    pub start_job: JobV,
    pub combinations: Seq<(Resource, Resource, CombinationResultV)>,
}

impl View for Config {
    type V = ConfigV;

    open spec fn view(&self) -> ConfigV {
        ConfigV {
            attrs: self.attrs@.map_values(
                |o: Option<ResourceAttributes>|
                    match o {
                        Option::Some(a) => Option::Some(a@),
                        Option::None => Option::<AttrV>::None,
                    },
            ),
            win_job_id: self.win_job_id as int,
            start_job: self.start_job@,
            combinations: self.combinations@.map_values(
                |c: (Resource, Resource, CombinationResult)| (c.0, c.1, c.2@),
            ),
        }
    }
}

/// A well-formed configuration has one attribute slot per resource.
pub open spec fn config_wf(c: ConfigV) -> bool {
    c.attrs.len() == RESOURCE_COUNT as int
}

/// The attributes of resource `r`, if content defines any.
pub open spec fn attr_of(attrs: Seq<Option<AttrV>>, r: Resource) -> Option<AttrV> {
    attrs[res_idx(r)]
}

/// A resource deserves a column: it is visible and not displayed inline by
/// name; a resource without attributes defaults to deserving one.
pub open spec fn column_visible(attrs: Seq<Option<AttrV>>, r: Resource) -> bool {
    match attr_of(attrs, r) {
        Option::Some(a) => a.visible && !a.display_as_name,
        Option::None => true,
    }
}

/// The display grouping row of a resource; 0 without attributes.
pub open spec fn row_of(attrs: Seq<Option<AttrV>>, r: Resource) -> int {
    match attr_of(attrs, r) {
        Option::Some(a) => a.row,
        Option::None => 0,
    }
}

/// What combining `a` with `b` yields: the first rule naming the pair in
/// either order, or no effect when no rule does.
pub open spec fn combine_spec(
    rules: Seq<(Resource, Resource, CombinationResultV)>,
    a: Resource,
    b: Resource,
) -> CombinationResultV
    decreases rules.len(),
{
    if rules.len() == 0 {
        CombinationResultV::Nothing
    } else if (rules[0].0 == a && rules[0].1 == b) || (rules[0].0 == b && rules[0].1 == a) {
        rules[0].2
    } else {
        combine_spec(rules.drop_first(), a, b)
    }
}

impl Config {
    /// Look up what combining `first` with `second` yields.
    pub fn combine(&self, first: Resource, second: Resource) -> (r: CombinationResult)
        ensures
            r@ == combine_spec(self@.combinations, first, second),
    {
        let mut i: usize = 0;
        proof {
            assert(self@.combinations.skip(0) =~= self@.combinations);
        }
        while i < self.combinations.len()
            invariant
                i <= self.combinations.len(),
                combine_spec(self@.combinations, first, second) == combine_spec(
                    self@.combinations.skip(i as int),
                    first,
                    second,
                ),
            decreases self.combinations.len() - i,
        {
            let (a, b, result) = &self.combinations[i];
            proof {
                assert(self@.combinations.skip(i as int).drop_first() =~= self@.combinations.skip(
                    i as int + 1,
                ));
                assert(self@.combinations.skip(i as int)[0] == self@.combinations[i as int]);
            }
            if (*a == first && *b == second) || (*a == second && *b == first) {
                return result.clone();
            }
            i += 1;
        }
        proof {
            assert(self@.combinations.skip(self.combinations.len() as int).len() == 0);
        }
        CombinationResult::Nothing
    }
}

} // verus!
