//! Plants: their genetics, the species table they are made from, and the
//! growth step with its age-driven life cycle.

use crate::rng::random_below;
use crate::weather::Weather;
use crate::UNIT;
use vstd::prelude::*;

verus! {

/// The stages of a plant's life, in the order it passes through them.
#[derive(Debug, Clone, Copy, PartialEq, Eq, Structural)]
pub enum LifeCycleStage {
    Seed,
    Sprout,
    Growing,
    Mature,
    Fruiting,
    Withering,
}

/// What a plant inherits from its species. Fractions are in units of `UNIT`.
#[derive(Debug, Clone, Copy)]
pub struct PlantGenetics {
    pub growth_time: u32,
    /// The least and the most a harvest yields, both included.
    pub yield_range: (u32, u32),
    /// The soil moisture the plant grows best in, both ends included.
    pub ideal_moisture_range: (u32, u32),
    /// What the plant draws from the soil each tick: nitrogen, phosphorus,
    /// potassium.
    pub nutrient_consumption: (u32, u32, u32),
    pub light_req: u32,
    pub pest_resistance: u32,
    pub disease_resistance: u32,
    pub genetic_stability: u32,
}

/// One planted organism.
pub struct Plant {
    pub species: String,
    pub genetics: PlantGenetics,
    pub life_cycle_stage: LifeCycleStage,
    /// Whole ticks of growth.
    pub age: u32,
    pub maturity_age: u32,
    pub wither_time: u32,
    /// Growth gathered towards the next tick of age, in units of `UNIT`.
    pub growth_progress: u32,
    /// Between 0 and `UNIT`.
    pub health: u32,
}

/// How many species the table holds.
pub const SPECIES_COUNT: usize = 3;

/// The name of the species at a position of the table.
pub open spec fn species_name(index: int) -> Seq<char> {
    if index == 0 {
        "tomato"@
    } else if index == 1 {
        "potato"@
    } else {
        "corn"@
    }
}

/// The genetics of the species at a position of the table.
pub open spec fn species_genetics(index: int) -> PlantGenetics {
    if index == 0 {
        PlantGenetics {
            growth_time: 10,
            yield_range: (3, 8),
            ideal_moisture_range: (4_000, 6_000),
            nutrient_consumption: (100, 50, 80),
            light_req: 8_000,
            pest_resistance: 5_000,
            disease_resistance: 5_000,
            genetic_stability: 9_000,
        }
    } else if index == 1 {
        PlantGenetics {
            growth_time: 12,
            yield_range: (4, 10),
            ideal_moisture_range: (5_000, 7_000),
            nutrient_consumption: (80, 100, 120),
            light_req: 6_000,
            pest_resistance: 6_000,
            disease_resistance: 4_000,
            genetic_stability: 8_500,
        }
    } else {
        PlantGenetics {
            growth_time: 14,
            yield_range: (2, 6),
            ideal_moisture_range: (3_500, 6_500),
            nutrient_consumption: (150, 60, 60),
            light_req: 9_000,
            pest_resistance: 4_000,
            disease_resistance: 6_000,
            genetic_stability: 8_000,
        }
    }
}

/// The age at which a plant of the species at `index` is mature.
pub open spec fn species_maturity(index: int) -> u32 {
    if index == 0 {
        10
    } else if index == 1 {
        12
    } else {
        14
    }
}

/// The age at which a plant of the species at `index` withers.
pub open spec fn species_wither_time(index: int) -> u32 {
    if index == 0 {
        15
    } else if index == 1 {
        20
    } else {
        22
    }
}

/// The position of a species name in the table, if it is there.
pub open spec fn species_index(name: Seq<char>) -> Option<int> {
    if name == species_name(0) {
        Some(0)
    } else if name == species_name(1) {
        Some(1)
    } else if name == species_name(2) {
        Some(2)
    } else {
        None
    }
}

/// `p` is a new plant of the species at `index`: a seed of age zero in full
/// health, with the species' genetics.
pub open spec fn is_new_plant(p: Plant, index: int) -> bool {
    &&& p.species@ == species_name(index)
    &&& p.genetics == species_genetics(index)
    &&& p.life_cycle_stage == LifeCycleStage::Seed
    &&& p.age == 0
    &&& p.maturity_age == species_maturity(index)
    &&& p.wither_time == species_wither_time(index)
    &&& p.growth_progress == 0
    &&& p.health == UNIT
}

/// The stage that an age reaches: the highest threshold passed wins. A
/// plant that reaches its maturity age becomes Mature; growth never sets
/// Fruiting, which only a stored plant can hold.
pub open spec fn stage_for_age(age: int, maturity_age: int, wither_time: int) -> LifeCycleStage {
    if age >= wither_time {
        LifeCycleStage::Withering
    } else if age >= maturity_age {
        LifeCycleStage::Mature
    } else if age >= maturity_age / 2 {
        LifeCycleStage::Growing
    } else if age > 0 {
        LifeCycleStage::Sprout
    } else {
        LifeCycleStage::Seed
    }
}

/// A plant in one of these stages may be harvested: Mature, as growth sets
/// it, and Fruiting, for a plant stored in that stage.
pub open spec fn is_ripe(stage: LifeCycleStage) -> bool {
    stage == LifeCycleStage::Mature || stage == LifeCycleStage::Fruiting
}

/// The growth one tick brings: a whole unit, halved in a heatwave, and cut
/// by a fifth when the soil moisture lies outside the ideal range.
pub open spec fn growth_rate(genetics: PlantGenetics, moisture: u32, weather: Weather) -> nat {
    let base: nat = if weather == Weather::Heatwave {
        UNIT as nat / 2
    } else {
        UNIT as nat
    };
    if moisture < genetics.ideal_moisture_range.0 || moisture > genetics.ideal_moisture_range.1 {
        base * 8 / 10
    } else {
        base
    }
}

/// The plant after one tick of growth: the rate is added to the progress,
/// every whole unit of progress becomes a tick of age (the age stops at the
/// largest `u32`), and the stage is recomputed from the new age.
pub open spec fn grown(p: Plant, moisture: u32, weather: Weather) -> Plant {
    let total = p.growth_progress + growth_rate(p.genetics, moisture, weather);
    let age = if p.age + total / (UNIT as int) > u32::MAX {
        u32::MAX as int
    } else {
        p.age + total / (UNIT as int)
    };
    Plant {
        age: age as u32,
        growth_progress: (total % (UNIT as int)) as u32,
        life_cycle_stage: stage_for_age(age, p.maturity_age as int, p.wither_time as int),
        ..p
    }
}

/// The stage for an age, by the thresholds of `stage_for_age`.
pub fn life_cycle_stage_for(age: u32, maturity_age: u32, wither_time: u32) -> (s: LifeCycleStage)
    ensures
        s == stage_for_age(age as int, maturity_age as int, wither_time as int),
{
    if age >= wither_time {
        LifeCycleStage::Withering
    } else if age >= maturity_age {
        LifeCycleStage::Mature
    } else if age >= maturity_age / 2 {
        LifeCycleStage::Growing
    } else if age > 0 {
        LifeCycleStage::Sprout
    } else {
        LifeCycleStage::Seed
    }
}

/// Advances a plant by one tick, in soil of the given moisture and under the
/// given weather.
pub fn advance_growth(plant: &mut Plant, moisture: u32, weather: Weather)
    ensures
        *final(plant) == grown(*old(plant), moisture, weather),
{
    let mut rate: u64 = if weather == Weather::Heatwave {
        UNIT as u64 / 2
    } else {
        UNIT as u64
    };
    let (low, high) = plant.genetics.ideal_moisture_range;
    if moisture < low || moisture > high {
        rate = rate * 8 / 10;
    }
    let total: u64 = plant.growth_progress as u64 + rate;
    let gained: u64 = total / UNIT as u64;
    let age: u32 = if plant.age as u64 + gained > u32::MAX as u64 {
        u32::MAX
    } else {
        (plant.age as u64 + gained) as u32
    };
    plant.age = age;
    plant.growth_progress = (total % UNIT as u64) as u32;
    plant.life_cycle_stage = life_cycle_stage_for(age, plant.maturity_age, plant.wither_time);
}

/// A new plant of the species at `index` of the table.
pub fn plant_from_table(index: usize) -> (p: Plant)
    requires
        index < SPECIES_COUNT,
    ensures
        is_new_plant(p, index as int),
{
    let (species, genetics, maturity_age, wither_time) = if index == 0 {
        (
            "tomato".to_owned(),
            PlantGenetics {
                growth_time: 10,
                yield_range: (3, 8),
                ideal_moisture_range: (4_000, 6_000),
                nutrient_consumption: (100, 50, 80),
                light_req: 8_000,
                pest_resistance: 5_000,
                disease_resistance: 5_000,
                genetic_stability: 9_000,
            },
            10,
            15,
        )
    } else if index == 1 {
        (
            "potato".to_owned(),
            PlantGenetics {
                growth_time: 12,
                yield_range: (4, 10),
                ideal_moisture_range: (5_000, 7_000),
                nutrient_consumption: (80, 100, 120),
                light_req: 6_000,
                pest_resistance: 6_000,
                disease_resistance: 4_000,
                genetic_stability: 8_500,
            },
            12,
            20,
        )
    } else {
        (
            "corn".to_owned(),
            PlantGenetics {
                growth_time: 14,
                yield_range: (2, 6),
                ideal_moisture_range: (3_500, 6_500),
                nutrient_consumption: (150, 60, 60),
                light_req: 9_000,
                pest_resistance: 4_000,
                disease_resistance: 6_000,
                genetic_stability: 8_000,
            },
            14,
            22,
        )
    };
    Plant {
        species,
        genetics,
        life_cycle_stage: LifeCycleStage::Seed,
        age: 0,
        maturity_age,
        wither_time,
        growth_progress: 0,
        health: UNIT,
    }
}

/// The position of `name` in the species table, if it is there.
pub fn find_species(name: &str) -> (r: Option<usize>)
    ensures
        match species_index(name@) {
            Some(i) => r == Some(i as usize),
            None => r is None,
        },
{
    let wanted = name.to_owned();
    if wanted == "tomato".to_owned() {
        Some(0)
    } else if wanted == "potato".to_owned() {
        Some(1)
    } else if wanted == "corn".to_owned() {
        Some(2)
    } else {
        None
    }
}

/// `p` is what planting the name `name` gives: a new plant of that species
/// where the table holds it, else a new plant of some species of the table.
pub open spec fn is_planted_from(p: Plant, name: Seq<char>) -> bool {
    match species_index(name) {
        Some(i) => is_new_plant(p, i),
        None => exists|i: int| 0 <= i < SPECIES_COUNT && is_new_plant(p, i),
    }
}

/// A new plant of the named species. A name missing from the table still
/// gives a plant, of a species drawn at random from the table.
pub fn create_plant(species: &str) -> (p: Plant)
    ensures
        is_planted_from(p, species@),
        p.genetics.yield_range.0 <= p.genetics.yield_range.1,
{
    match find_species(species) {
        Some(i) => plant_from_table(i),
        None => {
            let i = random_below(SPECIES_COUNT);
            plant_from_table(i)
        },
    }
}


/// A plant after `n` ticks of growth in soil of the given moisture under the
/// given weather.
pub open spec fn grown_times(p: Plant, n: nat, moisture: u32, weather: Weather) -> Plant
    decreases n,
{
    if n == 0 {
        p
    } else {
        grown(grown_times(p, (n - 1) as nat, moisture, weather), moisture, weather)
    }
}

/// Under ideal conditions (moisture within the ideal range, no heatwave) a
/// plant with no partial progress ages by exactly one per tick, and its
/// stage is always the one its age reaches.
pub proof fn lemma_steady_growth(p: Plant, n: nat, moisture: u32, weather: Weather)
    requires
        p.growth_progress == 0,
        p.genetics.ideal_moisture_range.0 <= moisture <= p.genetics.ideal_moisture_range.1,
        weather != Weather::Heatwave,
        p.age + n <= u32::MAX,
    ensures
        grown_times(p, n, moisture, weather).age == p.age + n,
        grown_times(p, n, moisture, weather).growth_progress == 0,
        n > 0 ==> grown_times(p, n, moisture, weather).life_cycle_stage == stage_for_age(
            p.age + n,
            p.maturity_age as int,
            p.wither_time as int,
        ),
        grown_times(p, n, moisture, weather).maturity_age == p.maturity_age,
        grown_times(p, n, moisture, weather).wither_time == p.wither_time,
        grown_times(p, n, moisture, weather).genetics == p.genetics,
    decreases n,
{
    if n > 0 {
        lemma_steady_growth(p, (n - 1) as nat, moisture, weather);
    }
}

/// A new tomato, in soil at moisture 5_000 under sunny weather, finds the
/// soil at 4_400 when it grows (the sun takes 500 and the plant 100), which
/// is inside its ideal range. Held at those conditions it ages by exactly
/// one per tick and, up to its maturity age of 10, goes from Seed to Sprout
/// at age 1, to Growing at age 5 and to Mature at age 10.
pub proof fn lemma_tomato_life_cycle(p: Plant, soil: crate::garden::Soil, n: nat)
    requires
        is_new_plant(p, 0),
        soil.soil_moisture == 5_000,
        n <= p.maturity_age,
    ensures
        ({
            let m = soil.weathered(Weather::Sunny, Some(p.genetics.nutrient_consumption)).soil_moisture;
            let q = grown_times(p, n, m, Weather::Sunny);
            &&& m == 4_400
            &&& q.age == n
            &&& n == 0 ==> q.life_cycle_stage == LifeCycleStage::Seed
            &&& 1 <= n <= 4 ==> q.life_cycle_stage == LifeCycleStage::Sprout
            &&& 5 <= n <= 9 ==> q.life_cycle_stage == LifeCycleStage::Growing
            &&& n == 10 ==> q.life_cycle_stage == LifeCycleStage::Mature
        }),
{
    let m = soil.weathered(Weather::Sunny, Some(p.genetics.nutrient_consumption)).soil_moisture;
    assert(m == 4_400);
    lemma_steady_growth(p, n, m, Weather::Sunny);
}

} // verus!
