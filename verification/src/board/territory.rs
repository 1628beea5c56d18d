//! The forty-two territories of the standard board and the borders listed
//! for each of them.

use vstd::prelude::*;
use crate::TerritoryId;

verus! {

/// A territory of the standard board, in the order of the territory indices.
#[derive(Copy, Clone, PartialEq, Eq, Debug, Structural)]
pub enum StandardTerritory {
    // Africa
    Congo,
    EastAfrica,
    Egypt,
    Madagascar,
    NorthAfrica,
    SouthAfrica,
    // Asia
    Afghanistan,
    China,
    India,
    Irkutsk,
    Japan,
    Kamchatka,
    MiddleEast,
    Mongolia,
    Siam,
    Siberia,
    Ural,
    Yakutsk,
    // Australia
    EasternAustralia,
    Indonesia,
    NewGuinea,
    WesternAustralia,
    // Europe
    GreatBritain,
    Iceland,
    NorthernEurope,
    Scandinavia,
    SouthernEurope,
    Ukraine,
    WesternEurope,
    // North America
    Alaska,
    Alberta,
    CentralAmerica,
    EasternUS,
    Greenland,
    NorthwestTerritory,
    Ontario,
    Quebec,
    WesternUS,
    // South America
    Argentina,
    Brazil,
    Peru,
    Venezuela,
}

impl StandardTerritory {
    /// The index of this territory on the board.
    pub open spec fn id(self) -> TerritoryId {
        match self {
            StandardTerritory::Congo => 0,
            StandardTerritory::EastAfrica => 1,
            StandardTerritory::Egypt => 2,
            StandardTerritory::Madagascar => 3,
            StandardTerritory::NorthAfrica => 4,
            StandardTerritory::SouthAfrica => 5,
            StandardTerritory::Afghanistan => 6,
            StandardTerritory::China => 7,
            StandardTerritory::India => 8,
            StandardTerritory::Irkutsk => 9,
            StandardTerritory::Japan => 10,
            StandardTerritory::Kamchatka => 11,
            StandardTerritory::MiddleEast => 12,
            StandardTerritory::Mongolia => 13,
            StandardTerritory::Siam => 14,
            StandardTerritory::Siberia => 15,
            StandardTerritory::Ural => 16,
            StandardTerritory::Yakutsk => 17,
            StandardTerritory::EasternAustralia => 18,
            StandardTerritory::Indonesia => 19,
            StandardTerritory::NewGuinea => 20,
            StandardTerritory::WesternAustralia => 21,
            StandardTerritory::GreatBritain => 22,
            StandardTerritory::Iceland => 23,
            StandardTerritory::NorthernEurope => 24,
            StandardTerritory::Scandinavia => 25,
            StandardTerritory::SouthernEurope => 26,
            StandardTerritory::Ukraine => 27,
            StandardTerritory::WesternEurope => 28,
            StandardTerritory::Alaska => 29,
            StandardTerritory::Alberta => 30,
            StandardTerritory::CentralAmerica => 31,
            StandardTerritory::EasternUS => 32,
            StandardTerritory::Greenland => 33,
            StandardTerritory::NorthwestTerritory => 34,
            StandardTerritory::Ontario => 35,
            StandardTerritory::Quebec => 36,
            StandardTerritory::WesternUS => 37,
            StandardTerritory::Argentina => 38,
            StandardTerritory::Brazil => 39,
            StandardTerritory::Peru => 40,
            StandardTerritory::Venezuela => 41,
        }
    }

    /// The territory with index `tid`.
    pub open spec fn with_id(tid: TerritoryId) -> StandardTerritory {
        match tid {
            0 => StandardTerritory::Congo,
            1 => StandardTerritory::EastAfrica,
            2 => StandardTerritory::Egypt,
            3 => StandardTerritory::Madagascar,
            4 => StandardTerritory::NorthAfrica,
            5 => StandardTerritory::SouthAfrica,
            6 => StandardTerritory::Afghanistan,
            7 => StandardTerritory::China,
            8 => StandardTerritory::India,
            9 => StandardTerritory::Irkutsk,
            10 => StandardTerritory::Japan,
            11 => StandardTerritory::Kamchatka,
            12 => StandardTerritory::MiddleEast,
            13 => StandardTerritory::Mongolia,
            14 => StandardTerritory::Siam,
            15 => StandardTerritory::Siberia,
            16 => StandardTerritory::Ural,
            17 => StandardTerritory::Yakutsk,
            18 => StandardTerritory::EasternAustralia,
            19 => StandardTerritory::Indonesia,
            20 => StandardTerritory::NewGuinea,
            21 => StandardTerritory::WesternAustralia,
            22 => StandardTerritory::GreatBritain,
            23 => StandardTerritory::Iceland,
            24 => StandardTerritory::NorthernEurope,
            25 => StandardTerritory::Scandinavia,
            26 => StandardTerritory::SouthernEurope,
            27 => StandardTerritory::Ukraine,
            28 => StandardTerritory::WesternEurope,
            29 => StandardTerritory::Alaska,
            30 => StandardTerritory::Alberta,
            31 => StandardTerritory::CentralAmerica,
            32 => StandardTerritory::EasternUS,
            33 => StandardTerritory::Greenland,
            34 => StandardTerritory::NorthwestTerritory,
            35 => StandardTerritory::Ontario,
            36 => StandardTerritory::Quebec,
            37 => StandardTerritory::WesternUS,
            38 => StandardTerritory::Argentina,
            39 => StandardTerritory::Brazil,
            40 => StandardTerritory::Peru,
            _ => StandardTerritory::Venezuela,
        }
    }

    /// The borders listed for this territory, in the order of the listing.
    pub open spec fn listed_neighbors(self) -> Seq<StandardTerritory> {
        match self {
            StandardTerritory::Congo => seq![
                StandardTerritory::EastAfrica,
                StandardTerritory::NorthAfrica,
                StandardTerritory::SouthAfrica,
            ],
            StandardTerritory::EastAfrica => seq![
                StandardTerritory::Congo,
                StandardTerritory::Egypt,
                StandardTerritory::Madagascar,
                StandardTerritory::NorthAfrica,
                StandardTerritory::MiddleEast,
            ],
            StandardTerritory::Egypt => seq![
                StandardTerritory::EastAfrica,
                StandardTerritory::NorthAfrica,
                StandardTerritory::SouthernEurope,
            ],
            StandardTerritory::Madagascar => seq![
                StandardTerritory::EastAfrica,
                StandardTerritory::SouthAfrica,
            ],
            StandardTerritory::NorthAfrica => seq![
                StandardTerritory::Congo,
                StandardTerritory::EastAfrica,
                StandardTerritory::Egypt,
                StandardTerritory::SouthernEurope,
                StandardTerritory::WesternEurope,
                StandardTerritory::Brazil,
            ],
            StandardTerritory::SouthAfrica => seq![
                StandardTerritory::Congo,
                StandardTerritory::EastAfrica,
                StandardTerritory::Madagascar,
            ],
            StandardTerritory::Afghanistan => seq![
                StandardTerritory::China,
                StandardTerritory::India,
                StandardTerritory::MiddleEast,
                StandardTerritory::Ural,
                StandardTerritory::Ukraine,
            ],
            StandardTerritory::China => seq![
                StandardTerritory::Afghanistan,
                StandardTerritory::India,
                StandardTerritory::Mongolia,
                StandardTerritory::Siam,
                StandardTerritory::Siberia,
                StandardTerritory::Ural,
            ],
            StandardTerritory::India => seq![
                StandardTerritory::Afghanistan,
                StandardTerritory::China,
                StandardTerritory::MiddleEast,
                StandardTerritory::Siam,
            ],
            StandardTerritory::Irkutsk => seq![
                StandardTerritory::Kamchatka,
                StandardTerritory::Mongolia,
                StandardTerritory::Siberia,
                StandardTerritory::Yakutsk,
            ],
            StandardTerritory::Japan => seq![StandardTerritory::Kamchatka, StandardTerritory::Mongolia],
            StandardTerritory::Kamchatka => seq![
                StandardTerritory::Irkutsk,
                StandardTerritory::Japan,
                StandardTerritory::Yakutsk,
                StandardTerritory::Alaska,
            ],
            StandardTerritory::MiddleEast => seq![
                StandardTerritory::EastAfrica,
                StandardTerritory::Egypt,
                StandardTerritory::Afghanistan,
                StandardTerritory::India,
                StandardTerritory::SouthernEurope,
                StandardTerritory::Ukraine,
            ],
            StandardTerritory::Mongolia => seq![
                StandardTerritory::China,
                StandardTerritory::Irkutsk,
                StandardTerritory::Japan,
                StandardTerritory::Kamchatka,
                StandardTerritory::Siberia,
            ],
            StandardTerritory::Siam => seq![
                StandardTerritory::China,
                StandardTerritory::India,
                StandardTerritory::Indonesia,
            ],
            StandardTerritory::Siberia => seq![
                StandardTerritory::China,
                StandardTerritory::Irkutsk,
                StandardTerritory::Mongolia,
                StandardTerritory::Ural,
                StandardTerritory::Yakutsk,
            ],
            StandardTerritory::Ural => seq![
                StandardTerritory::Afghanistan,
                StandardTerritory::China,
                StandardTerritory::Siberia,
                StandardTerritory::Ukraine,
            ],
            StandardTerritory::Yakutsk => seq![
                StandardTerritory::Irkutsk,
                StandardTerritory::Kamchatka,
                StandardTerritory::Siberia,
            ],
            StandardTerritory::EasternAustralia => seq![
                StandardTerritory::NewGuinea,
                StandardTerritory::WesternAustralia,
            ],
            StandardTerritory::Indonesia => seq![
                StandardTerritory::Siam,
                StandardTerritory::NewGuinea,
                StandardTerritory::WesternAustralia,
            ],
            StandardTerritory::NewGuinea => seq![
                StandardTerritory::EasternAustralia,
                StandardTerritory::Indonesia,
                StandardTerritory::WesternAustralia,
            ],
            StandardTerritory::WesternAustralia => seq![
                StandardTerritory::EasternAustralia,
                StandardTerritory::Indonesia,
                StandardTerritory::NewGuinea,
            ],
            StandardTerritory::GreatBritain => seq![
                StandardTerritory::Iceland,
                StandardTerritory::NorthernEurope,
                StandardTerritory::Scandinavia,
                StandardTerritory::WesternEurope,
            ],
            StandardTerritory::Iceland => seq![
                StandardTerritory::GreatBritain,
                StandardTerritory::Scandinavia,
                StandardTerritory::Greenland,
            ],
            StandardTerritory::NorthernEurope => seq![
                StandardTerritory::GreatBritain,
                StandardTerritory::Scandinavia,
                StandardTerritory::SouthernEurope,
                StandardTerritory::Ukraine,
                StandardTerritory::WesternEurope,
            ],
            StandardTerritory::Scandinavia => seq![
                StandardTerritory::GreatBritain,
                StandardTerritory::Iceland,
                StandardTerritory::NorthernEurope,
                StandardTerritory::Ukraine,
            ],
            StandardTerritory::SouthernEurope => seq![
                StandardTerritory::Egypt,
                StandardTerritory::NorthAfrica,
                StandardTerritory::MiddleEast,
                StandardTerritory::NorthernEurope,
                StandardTerritory::Ukraine,
                StandardTerritory::WesternEurope,
            ],
            StandardTerritory::Ukraine => seq![
                StandardTerritory::Afghanistan,
                StandardTerritory::MiddleEast,
                StandardTerritory::Ural,
                StandardTerritory::NorthernEurope,
                StandardTerritory::Scandinavia,
                StandardTerritory::SouthernEurope,
            ],
            StandardTerritory::WesternEurope => seq![
                StandardTerritory::NorthAfrica,
                StandardTerritory::GreatBritain,
                StandardTerritory::NorthernEurope,
                StandardTerritory::SouthernEurope,
            ],
            StandardTerritory::Alaska => seq![
                StandardTerritory::Kamchatka,
                StandardTerritory::Alberta,
                StandardTerritory::NorthwestTerritory,
            ],
            StandardTerritory::Alberta => seq![
                StandardTerritory::Alaska,
                StandardTerritory::NorthwestTerritory,
                StandardTerritory::Ontario,
                StandardTerritory::WesternUS,
            ],
            StandardTerritory::CentralAmerica => seq![
                StandardTerritory::EasternUS,
                StandardTerritory::WesternUS,
                StandardTerritory::Venezuela,
            ],
            StandardTerritory::EasternUS => seq![
                StandardTerritory::CentralAmerica,
                StandardTerritory::Ontario,
                StandardTerritory::Quebec,
                StandardTerritory::WesternUS,
            ],
            StandardTerritory::Greenland => seq![
                StandardTerritory::Iceland,
                StandardTerritory::NorthwestTerritory,
                StandardTerritory::Ontario,
                StandardTerritory::Quebec,
            ],
            StandardTerritory::NorthwestTerritory => seq![
                StandardTerritory::Alaska,
                StandardTerritory::Alberta,
                StandardTerritory::Greenland,
                StandardTerritory::Ontario,
            ],
            StandardTerritory::Ontario => seq![
                StandardTerritory::Alberta,
                StandardTerritory::EasternUS,
                StandardTerritory::Greenland,
                StandardTerritory::NorthwestTerritory,
                StandardTerritory::Quebec,
                StandardTerritory::WesternUS,
            ],
            StandardTerritory::Quebec => seq![
                StandardTerritory::EasternUS,
                StandardTerritory::Greenland,
                StandardTerritory::Ontario,
            ],
            StandardTerritory::WesternUS => seq![
                StandardTerritory::Alberta,
                StandardTerritory::CentralAmerica,
                StandardTerritory::EasternUS,
                StandardTerritory::Ontario,
            ],
            StandardTerritory::Argentina => seq![StandardTerritory::Brazil, StandardTerritory::Peru],
            StandardTerritory::Brazil => seq![
                StandardTerritory::NorthAfrica,
                StandardTerritory::Argentina,
                StandardTerritory::Peru,
                StandardTerritory::Venezuela,
            ],
            StandardTerritory::Peru => seq![
                StandardTerritory::Argentina,
                StandardTerritory::Brazil,
                StandardTerritory::Venezuela,
            ],
            StandardTerritory::Venezuela => seq![
                StandardTerritory::CentralAmerica,
                StandardTerritory::Brazil,
                StandardTerritory::Peru,
            ],
        }
    }

    /// The territory with index `tid`, which must lie on the board.
    pub fn from_territory_id(tid: TerritoryId) -> (r: StandardTerritory)
        requires
            tid < 42,
        ensures
            r == Self::with_id(tid),
            r.id() == tid,
    {
        match tid {
            0 => StandardTerritory::Congo,
            1 => StandardTerritory::EastAfrica,
            2 => StandardTerritory::Egypt,
            3 => StandardTerritory::Madagascar,
            4 => StandardTerritory::NorthAfrica,
            5 => StandardTerritory::SouthAfrica,
            6 => StandardTerritory::Afghanistan,
            7 => StandardTerritory::China,
            8 => StandardTerritory::India,
            9 => StandardTerritory::Irkutsk,
            10 => StandardTerritory::Japan,
            11 => StandardTerritory::Kamchatka,
            12 => StandardTerritory::MiddleEast,
            13 => StandardTerritory::Mongolia,
            14 => StandardTerritory::Siam,
            15 => StandardTerritory::Siberia,
            16 => StandardTerritory::Ural,
            17 => StandardTerritory::Yakutsk,
            18 => StandardTerritory::EasternAustralia,
            19 => StandardTerritory::Indonesia,
            20 => StandardTerritory::NewGuinea,
            21 => StandardTerritory::WesternAustralia,
            22 => StandardTerritory::GreatBritain,
            23 => StandardTerritory::Iceland,
            24 => StandardTerritory::NorthernEurope,
            25 => StandardTerritory::Scandinavia,
            26 => StandardTerritory::SouthernEurope,
            27 => StandardTerritory::Ukraine,
            28 => StandardTerritory::WesternEurope,
            29 => StandardTerritory::Alaska,
            30 => StandardTerritory::Alberta,
            31 => StandardTerritory::CentralAmerica,
            32 => StandardTerritory::EasternUS,
            33 => StandardTerritory::Greenland,
            34 => StandardTerritory::NorthwestTerritory,
            35 => StandardTerritory::Ontario,
            36 => StandardTerritory::Quebec,
            37 => StandardTerritory::WesternUS,
            38 => StandardTerritory::Argentina,
            39 => StandardTerritory::Brazil,
            40 => StandardTerritory::Peru,
            _ => StandardTerritory::Venezuela,
        }
    }

    /// The index of this territory on the board.
    pub fn territory_id(&self) -> (r: TerritoryId)
        ensures
            r == self.id(),
            r < 42,
    {
        match *self {
            StandardTerritory::Congo => 0,
            StandardTerritory::EastAfrica => 1,
            StandardTerritory::Egypt => 2,
            StandardTerritory::Madagascar => 3,
            StandardTerritory::NorthAfrica => 4,
            StandardTerritory::SouthAfrica => 5,
            StandardTerritory::Afghanistan => 6,
            StandardTerritory::China => 7,
            StandardTerritory::India => 8,
            StandardTerritory::Irkutsk => 9,
            StandardTerritory::Japan => 10,
            StandardTerritory::Kamchatka => 11,
            StandardTerritory::MiddleEast => 12,
            StandardTerritory::Mongolia => 13,
            StandardTerritory::Siam => 14,
            StandardTerritory::Siberia => 15,
            StandardTerritory::Ural => 16,
            StandardTerritory::Yakutsk => 17,
            StandardTerritory::EasternAustralia => 18,
            StandardTerritory::Indonesia => 19,
            StandardTerritory::NewGuinea => 20,
            StandardTerritory::WesternAustralia => 21,
            StandardTerritory::GreatBritain => 22,
            StandardTerritory::Iceland => 23,
            StandardTerritory::NorthernEurope => 24,
            StandardTerritory::Scandinavia => 25,
            StandardTerritory::SouthernEurope => 26,
            StandardTerritory::Ukraine => 27,
            StandardTerritory::WesternEurope => 28,
            StandardTerritory::Alaska => 29,
            StandardTerritory::Alberta => 30,
            StandardTerritory::CentralAmerica => 31,
            StandardTerritory::EasternUS => 32,
            StandardTerritory::Greenland => 33,
            StandardTerritory::NorthwestTerritory => 34,
            StandardTerritory::Ontario => 35,
            StandardTerritory::Quebec => 36,
            StandardTerritory::WesternUS => 37,
            StandardTerritory::Argentina => 38,
            StandardTerritory::Brazil => 39,
            StandardTerritory::Peru => 40,
            StandardTerritory::Venezuela => 41,
        }
    }

    /// The borders listed for this territory, in the order of the listing.
    pub fn neighbors(&self) -> (r: Vec<StandardTerritory>)
        ensures
            r@ == self.listed_neighbors(),
            r.len() <= 6,
    {
        let r = match *self {
            StandardTerritory::Congo => vec![
                StandardTerritory::EastAfrica,
                StandardTerritory::NorthAfrica,
                StandardTerritory::SouthAfrica,
            ],
            StandardTerritory::EastAfrica => vec![
                StandardTerritory::Congo,
                StandardTerritory::Egypt,
                StandardTerritory::Madagascar,
                StandardTerritory::NorthAfrica,
                StandardTerritory::MiddleEast,
            ],
            StandardTerritory::Egypt => vec![
                StandardTerritory::EastAfrica,
                StandardTerritory::NorthAfrica,
                StandardTerritory::SouthernEurope,
            ],
            StandardTerritory::Madagascar => vec![
                StandardTerritory::EastAfrica,
                StandardTerritory::SouthAfrica,
            ],
            StandardTerritory::NorthAfrica => vec![
                StandardTerritory::Congo,
                StandardTerritory::EastAfrica,
                StandardTerritory::Egypt,
                StandardTerritory::SouthernEurope,
                StandardTerritory::WesternEurope,
                StandardTerritory::Brazil,
            ],
            StandardTerritory::SouthAfrica => vec![
                StandardTerritory::Congo,
                StandardTerritory::EastAfrica,
                StandardTerritory::Madagascar,
            ],
            StandardTerritory::Afghanistan => vec![
                StandardTerritory::China,
                StandardTerritory::India,
                StandardTerritory::MiddleEast,
                StandardTerritory::Ural,
                StandardTerritory::Ukraine,
            ],
            StandardTerritory::China => vec![
                StandardTerritory::Afghanistan,
                StandardTerritory::India,
                StandardTerritory::Mongolia,
                StandardTerritory::Siam,
                StandardTerritory::Siberia,
                StandardTerritory::Ural,
            ],
            StandardTerritory::India => vec![
                StandardTerritory::Afghanistan,
                StandardTerritory::China,
                StandardTerritory::MiddleEast,
                StandardTerritory::Siam,
            ],
            StandardTerritory::Irkutsk => vec![
                StandardTerritory::Kamchatka,
                StandardTerritory::Mongolia,
                StandardTerritory::Siberia,
                StandardTerritory::Yakutsk,
            ],
            StandardTerritory::Japan => vec![StandardTerritory::Kamchatka, StandardTerritory::Mongolia],
            StandardTerritory::Kamchatka => vec![
                StandardTerritory::Irkutsk,
                StandardTerritory::Japan,
                StandardTerritory::Yakutsk,
                StandardTerritory::Alaska,
            ],
            StandardTerritory::MiddleEast => vec![
                StandardTerritory::EastAfrica,
                StandardTerritory::Egypt,
                StandardTerritory::Afghanistan,
                StandardTerritory::India,
                StandardTerritory::SouthernEurope,
                StandardTerritory::Ukraine,
            ],
            StandardTerritory::Mongolia => vec![
                StandardTerritory::China,
                StandardTerritory::Irkutsk,
                StandardTerritory::Japan,
                StandardTerritory::Kamchatka,
                StandardTerritory::Siberia,
            ],
            StandardTerritory::Siam => vec![
                StandardTerritory::China,
                StandardTerritory::India,
                StandardTerritory::Indonesia,
            ],
            StandardTerritory::Siberia => vec![
                StandardTerritory::China,
                StandardTerritory::Irkutsk,
                StandardTerritory::Mongolia,
                StandardTerritory::Ural,
                StandardTerritory::Yakutsk,
            ],
            StandardTerritory::Ural => vec![
                StandardTerritory::Afghanistan,
                StandardTerritory::China,
                StandardTerritory::Siberia,
                StandardTerritory::Ukraine,
            ],
            StandardTerritory::Yakutsk => vec![
                StandardTerritory::Irkutsk,
                StandardTerritory::Kamchatka,
                StandardTerritory::Siberia,
            ],
            StandardTerritory::EasternAustralia => vec![
                StandardTerritory::NewGuinea,
                StandardTerritory::WesternAustralia,
            ],
            StandardTerritory::Indonesia => vec![
                StandardTerritory::Siam,
                StandardTerritory::NewGuinea,
                StandardTerritory::WesternAustralia,
            ],
            StandardTerritory::NewGuinea => vec![
                StandardTerritory::EasternAustralia,
                StandardTerritory::Indonesia,
                StandardTerritory::WesternAustralia,
            ],
            StandardTerritory::WesternAustralia => vec![
                StandardTerritory::EasternAustralia,
                StandardTerritory::Indonesia,
                StandardTerritory::NewGuinea,
            ],
            StandardTerritory::GreatBritain => vec![
                StandardTerritory::Iceland,
                StandardTerritory::NorthernEurope,
                StandardTerritory::Scandinavia,
                StandardTerritory::WesternEurope,
            ],
            StandardTerritory::Iceland => vec![
                StandardTerritory::GreatBritain,
                StandardTerritory::Scandinavia,
                StandardTerritory::Greenland,
            ],
            StandardTerritory::NorthernEurope => vec![
                StandardTerritory::GreatBritain,
                StandardTerritory::Scandinavia,
                StandardTerritory::SouthernEurope,
                StandardTerritory::Ukraine,
                StandardTerritory::WesternEurope,
            ],
            StandardTerritory::Scandinavia => vec![
                StandardTerritory::GreatBritain,
                StandardTerritory::Iceland,
                StandardTerritory::NorthernEurope,
                StandardTerritory::Ukraine,
            ],
            StandardTerritory::SouthernEurope => vec![
                StandardTerritory::Egypt,
                StandardTerritory::NorthAfrica,
                StandardTerritory::MiddleEast,
                StandardTerritory::NorthernEurope,
                StandardTerritory::Ukraine,
                StandardTerritory::WesternEurope,
            ],
            StandardTerritory::Ukraine => vec![
                StandardTerritory::Afghanistan,
                StandardTerritory::MiddleEast,
                StandardTerritory::Ural,
                StandardTerritory::NorthernEurope,
                StandardTerritory::Scandinavia,
                StandardTerritory::SouthernEurope,
            ],
            StandardTerritory::WesternEurope => vec![
                StandardTerritory::NorthAfrica,
                StandardTerritory::GreatBritain,
                StandardTerritory::NorthernEurope,
                StandardTerritory::SouthernEurope,
            ],
            StandardTerritory::Alaska => vec![
                StandardTerritory::Kamchatka,
                StandardTerritory::Alberta,
                StandardTerritory::NorthwestTerritory,
            ],
            StandardTerritory::Alberta => vec![
                StandardTerritory::Alaska,
                StandardTerritory::NorthwestTerritory,
                StandardTerritory::Ontario,
                StandardTerritory::WesternUS,
            ],
            StandardTerritory::CentralAmerica => vec![
                StandardTerritory::EasternUS,
                StandardTerritory::WesternUS,
                StandardTerritory::Venezuela,
            ],
            StandardTerritory::EasternUS => vec![
                StandardTerritory::CentralAmerica,
                StandardTerritory::Ontario,
                StandardTerritory::Quebec,
                StandardTerritory::WesternUS,
            ],
            StandardTerritory::Greenland => vec![
                StandardTerritory::Iceland,
                StandardTerritory::NorthwestTerritory,
                StandardTerritory::Ontario,
                StandardTerritory::Quebec,
            ],
            StandardTerritory::NorthwestTerritory => vec![
                StandardTerritory::Alaska,
                StandardTerritory::Alberta,
                StandardTerritory::Greenland,
                StandardTerritory::Ontario,
            ],
            StandardTerritory::Ontario => vec![
                StandardTerritory::Alberta,
                StandardTerritory::EasternUS,
                StandardTerritory::Greenland,
                StandardTerritory::NorthwestTerritory,
                StandardTerritory::Quebec,
                StandardTerritory::WesternUS,
            ],
            StandardTerritory::Quebec => vec![
                StandardTerritory::EasternUS,
                StandardTerritory::Greenland,
                StandardTerritory::Ontario,
            ],
            StandardTerritory::WesternUS => vec![
                StandardTerritory::Alberta,
                StandardTerritory::CentralAmerica,
                StandardTerritory::EasternUS,
                StandardTerritory::Ontario,
            ],
            StandardTerritory::Argentina => vec![StandardTerritory::Brazil, StandardTerritory::Peru],
            StandardTerritory::Brazil => vec![
                StandardTerritory::NorthAfrica,
                StandardTerritory::Argentina,
                StandardTerritory::Peru,
                StandardTerritory::Venezuela,
            ],
            StandardTerritory::Peru => vec![
                StandardTerritory::Argentina,
                StandardTerritory::Brazil,
                StandardTerritory::Venezuela,
            ],
            StandardTerritory::Venezuela => vec![
                StandardTerritory::CentralAmerica,
                StandardTerritory::Brazil,
                StandardTerritory::Peru,
            ],
        };
        assert(r@ =~= self.listed_neighbors());
        r
    }
}

} // verus!
