use vstd::prelude::*;
use vstd::string::StringExecFns;

verus! {

/// The species that founds a settlement.
#[derive(Debug, Clone, Copy, PartialEq, Eq, Structural)]
pub enum Species {
    Human,
    Orc,
    Elf,
    Cat,
    Rat,
    Bee,
    Bear,
    Spirit,
}

/// How a settlement governs itself.
#[derive(Debug, Clone, Copy, PartialEq, Eq, Structural)]
pub enum Governance {
    Monarchy,
    Democracy,
    Theocracy,
    Anarchy,
    Hivemind,
    Council,
}

/// The lifecycle state of a settlement.
#[derive(Debug, Clone, Copy, PartialEq, Eq, Structural)]
pub enum LocationState {
    Thriving,
    Struggling,
    Abandoned,
    Ruins,
    Cursed,
    Sacred,
    Hidden,
}

/// What a settlement lives from.
#[derive(Debug, Clone, Copy, PartialEq, Eq, Structural)]
pub enum Industry {
    Farming,
    Mining,
    Lumber,
    Fishing,
    Trading,
    Crafting,
    Foraging,
    Hunting,
    Research,
}

/// The size band a settlement of the given lifecycle state may have: the
/// bands are fixed, state-dependent and the source of the settlement-size
/// invariant.
pub open spec fn size_in_band(state: LocationState, size: int) -> bool {
    match state {
        LocationState::Ruins | LocationState::Abandoned => 10 <= size < 30,
        LocationState::Cursed | LocationState::Hidden => 5 <= size < 15,
        LocationState::Struggling => 30 <= size < 50,
        LocationState::Sacred => 20 <= size < 40,
        LocationState::Thriving => 50 <= size < 100,
    }
}

/// A settlement: generated once at world-build time and never mutated.
#[derive(Debug, Clone)]
pub struct Location {
    pub name: String,
    pub species: Species,
    pub governance: Governance,
    pub state: LocationState,
    pub size: usize,
    pub industry: Industry,
}

/// The lowercase name of a lifecycle state, as the descriptions use it.
pub open spec fn spec_state_description(state: LocationState) -> Seq<char> {
    match state {
        LocationState::Thriving => "thriving"@,
        LocationState::Struggling => "struggling"@,
        LocationState::Abandoned => "abandoned"@,
        LocationState::Ruins => "ruined"@,
        LocationState::Cursed => "cursed"@,
        LocationState::Sacred => "sacred"@,
        LocationState::Hidden => "hidden"@,
    }
}

/// The name of a species.
pub open spec fn spec_species_name(species: Species) -> Seq<char> {
    match species {
        Species::Human => "Human"@,
        Species::Orc => "Orc"@,
        Species::Elf => "Elf"@,
        Species::Cat => "Cat"@,
        Species::Rat => "Rat"@,
        Species::Bee => "Bee"@,
        Species::Bear => "Bear"@,
        Species::Spirit => "Ghost"@,
    }
}

/// The adjective of a governance form.
pub open spec fn spec_governance_description(governance: Governance) -> Seq<char> {
    match governance {
        Governance::Monarchy => "Monarchic"@,
        Governance::Democracy => "Democratic"@,
        Governance::Theocracy => "Theocratic"@,
        Governance::Anarchy => "Anarchic"@,
        Governance::Hivemind => "Hivemind"@,
        Governance::Council => "Council"@,
    }
}

/// The scene that an industry paints.
pub open spec fn spec_industry_description(industry: Industry) -> Seq<char> {
    match industry {
        Industry::Farming => "vast fields of crops surround the settlement"@,
        Industry::Mining => "the sound of pickaxes echoes from deep mines"@,
        Industry::Lumber => "massive lumber mills process ancient trees"@,
        Industry::Fishing => "fishing boats dot the nearby waters"@,
        Industry::Trading => "merchants haggle in busy marketplaces"@,
        Industry::Crafting => "skilled artisans work in numerous workshops"@,
        Industry::Foraging => "foragers gather rare herbs and plants"@,
        Industry::Hunting => "hunters prepare for their next expedition"@,
        Industry::Research => "scholars debate in marble halls"@,
    }
}

/// The word for a settlement of the given population size.
pub open spec fn spec_size_description(size: int) -> Seq<char> {
    if size <= 50 {
        "tiny"@
    } else if size <= 200 {
        "small"@
    } else if size <= 500 {
        "medium"@
    } else {
        "large"@
    }
}

/// The one-sentence description of a settlement.
pub open spec fn spec_location_description(l: Location) -> Seq<char> {
    "A "@ + spec_state_description(l.state) + " "@ + spec_size_description(l.size as int)
        + " settlement of "@ + spec_species_name(l.species) + "s under "@
        + spec_governance_description(l.governance) + " rule, where "@
        + spec_industry_description(l.industry) + "."@
}

impl LocationState {
    /// The lowercase name of the state.
    pub fn description(&self) -> (r: &'static str)
        ensures
            r@ == spec_state_description(*self),
    {
        match self {
            LocationState::Thriving => "thriving",
            LocationState::Struggling => "struggling",
            LocationState::Abandoned => "abandoned",
            LocationState::Ruins => "ruined",
            LocationState::Cursed => "cursed",
            LocationState::Sacred => "sacred",
            LocationState::Hidden => "hidden",
        }
    }
}

impl Species {
    /// The name of the species.
    pub fn name(&self) -> (r: &'static str)
        ensures
            r@ == spec_species_name(*self),
    {
        match self {
            Species::Human => "Human",
            Species::Orc => "Orc",
            Species::Elf => "Elf",
            Species::Cat => "Cat",
            Species::Rat => "Rat",
            Species::Bee => "Bee",
            Species::Bear => "Bear",
            Species::Spirit => "Ghost",
        }
    }
}

impl Governance {
    /// The adjective of the governance form.
    pub fn description(&self) -> (r: &'static str)
        ensures
            r@ == spec_governance_description(*self),
    {
        match self {
            Governance::Monarchy => "Monarchic",
            Governance::Democracy => "Democratic",
            Governance::Theocracy => "Theocratic",
            Governance::Anarchy => "Anarchic",
            Governance::Hivemind => "Hivemind",
            Governance::Council => "Council",
        }
    }
}

impl Industry {
    /// The scene that the industry paints.
    pub fn get_description(&self) -> (r: &'static str)
        ensures
            r@ == spec_industry_description(*self),
    {
        match self {
            Industry::Farming => "vast fields of crops surround the settlement",
            Industry::Mining => "the sound of pickaxes echoes from deep mines",
            Industry::Lumber => "massive lumber mills process ancient trees",
            Industry::Fishing => "fishing boats dot the nearby waters",
            Industry::Trading => "merchants haggle in busy marketplaces",
            Industry::Crafting => "skilled artisans work in numerous workshops",
            Industry::Foraging => "foragers gather rare herbs and plants",
            Industry::Hunting => "hunters prepare for their next expedition",
            Industry::Research => "scholars debate in marble halls",
        }
    }
}

impl Location {
    /// A settlement is well formed when its size lies in the band of its
    /// lifecycle state.
    pub open spec fn wf(&self) -> bool {
        size_in_band(self.state, self.size as int)
    }

    /// The word for the settlement's population size.
    pub fn size_description(&self) -> (r: &'static str)
        ensures
            r@ == spec_size_description(self.size as int),
    {
        if self.size <= 50 {
            "tiny"
        } else if self.size <= 200 {
            "small"
        } else if self.size <= 500 {
            "medium"
        } else {
            "large"
        }
    }

    /// The one-sentence description of the settlement.
    pub fn generate_description(&self) -> (r: String)
        ensures
            r@ == spec_location_description(*self),
    {
        let mut s: String = "A ".to_owned();
        s.append(self.state.description());
        s.append(" ");
        s.append(self.size_description());
        s.append(" settlement of ");
        s.append(self.species.name());
        s.append("s under ");
        s.append(self.governance.description());
        s.append(" rule, where ");
        s.append(self.industry.get_description());
        s.append(".");
        proof {
            assert(s@ =~= spec_location_description(*self));
        }
        s
    }
}

} // verus!
