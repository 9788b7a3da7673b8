//! The multiverse lookup: which universe an identifier belongs to.

use vstd::prelude::*;

verus! {

/// One universe's details.
pub struct UniverseDetails {
    pub universe_name: String,
    pub universe_winner: String,
    pub universe_population: u32,
}

/// Looks a universe up by its identifier: multiples of fifteen, of
/// three, and of five each belong to a fixed universe; every other
/// identifier is unknown.
pub fn get_universe_details(universe_id: u32) -> (r: Option<UniverseDetails>)
    ensures
        universe_id % 15 == 0 ==> (r matches Some(d) && d.universe_name@ == "Stardew Valley"@
            && d.universe_winner@ == "Jojo Corp"@ && d.universe_population == 1),
        universe_id % 15 != 0 && universe_id % 3 == 0 ==> (r matches Some(d) && d.universe_name@
            == "Star Wars"@ && d.universe_winner@ == "The Rebellion"@ && d.universe_population
            == u32::MAX),
        universe_id % 15 != 0 && universe_id % 3 != 0 && universe_id % 5 == 0 ==> (r matches Some(
            d,
        ) && d.universe_name@ == "Miraculous"@ && d.universe_winner@ == "Hawk Moth"@
            && d.universe_population == 22),
        universe_id % 3 != 0 && universe_id % 5 != 0 ==> r is None,
{
    if universe_id % 15 == 0 {
        Some(
            UniverseDetails {
                universe_name: "Stardew Valley".to_owned(),
                universe_winner: "Jojo Corp".to_owned(),
                universe_population: 1,
            },
        )
    } else if universe_id % 3 == 0 {
        Some(
            UniverseDetails {
                universe_name: "Star Wars".to_owned(),
                universe_winner: "The Rebellion".to_owned(),
                universe_population: u32::MAX,
            },
        )
    } else if universe_id % 5 == 0 {
        Some(
            UniverseDetails {
                universe_name: "Miraculous".to_owned(),
                universe_winner: "Hawk Moth".to_owned(),
                universe_population: 22,
            },
        )
    } else {
        None
    }
}

} // verus!
