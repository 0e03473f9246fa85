//! The regions of AWS.

use crate::engine::Identifier;
use crate::text::{chars_of, normalize, normalized, occurs, occurs_in, same_text};
use crate::traits::MatchesTrait;
use vstd::prelude::*;
use vstd::string::StringExecFns;

verus! {

/// A region, named after the place of its data centres.
#[derive(Debug, PartialEq, Eq, Clone, Copy, Structural)]
pub enum AwsRegion {
    /// US East (Ohio), `us-east-2`.
    UsEastOhio,
    /// US East (N. Virginia), `us-east-1`.
    UsEastNVirginia,
    /// US West (N. California), `us-west-1`.
    UsWestNCalifornia,
    /// US West (Oregon), `us-west-2`.
    UsWestOregon,
    /// Africa (Cape Town), `af-south-1`.
    AfricaCapeTown,
    /// Asia Pacific (Hong Kong), `ap-east-1`.
    AsiaPacificHongKong,
    /// Asia Pacific (Hyderabad), `ap-south-2`.
    AsiaPacificHyderabad,
    /// Asia Pacific (Jakarta), `ap-southeast-3`.
    AsiaPacificJakarta,
    /// Asia Pacific (Malaysia), `ap-southeast-5`.
    AsiaPacificMalaysia,
    /// Asia Pacific (Melbourne), `ap-southeast-4`.
    AsiaPacificMelbourne,
    /// Asia Pacific (Mumbai), `ap-south-1`.
    AsiaPacificMumbai,
    /// Asia Pacific (Osaka), `ap-northeast-3`.
    AsiaPacificOsaka,
    /// Asia Pacific (Seoul), `ap-northeast-2`.
    AsiaPacificSeoul,
    /// Asia Pacific (Singapore), `ap-southeast-1`.
    AsiaPacificSingapore,
    /// Asia Pacific (Sydney), `ap-southeast-2`.
    AsiaPacificSydney,
    /// Asia Pacific (Tokyo), `ap-northeast-1`.
    AsiaPacificTokyo,
    /// Canada (Central), `ca-central-1`.
    CanadaCentral,
    /// Canada West (Calgary), `ca-west-1`.
    CanadaWestCalgary,
    /// Europe (Frankfurt), `eu-central-1`.
    EuropeFrankfurt,
    /// Europe (Ireland), `eu-west-1`.
    EuropeIreland,
    /// Europe (London), `eu-west-2`.
    EuropeLondon,
    /// Europe (Milan), `eu-south-1`.
    EuropeMilan,
    /// Europe (Paris), `eu-west-3`.
    EuropeParis,
    /// Europe (Spain), `eu-south-2`.
    EuropeSpain,
    /// Europe (Stockholm), `eu-north-1`.
    EuropeStockholm,
    /// Europe (Zurich), `eu-central-2`.
    EuropeZurich,
    /// Israel (Tel Aviv), `il-central-1`.
    IsraelTelAviv,
    /// Middle East (Bahrain), `me-south-1`.
    MiddleEastBahrain,
    /// Middle East (UAE), `me-central-1`.
    MiddleEastUAE,
    /// South America (Sao Paulo), `sa-east-1`.
    SouthAmericaSaoPaulo,
    /// AWS GovCloud (US-East), `us-gov-east-1`.
    AwsGovCloudUsEast,
    /// AWS GovCloud (US-West), `us-gov-west-1`.
    AwsGovCloudUsWest,
}

impl View for AwsRegion {
    type V = AwsRegion;

    open spec fn view(&self) -> AwsRegion {
        *self
    }
}

/// The code of a region.
pub open spec fn region_code(region: AwsRegion) -> Seq<char> {
    match region {
        AwsRegion::UsEastOhio => "us-east-2"@,
        AwsRegion::UsEastNVirginia => "us-east-1"@,
        AwsRegion::UsWestNCalifornia => "us-west-1"@,
        AwsRegion::UsWestOregon => "us-west-2"@,
        AwsRegion::AfricaCapeTown => "af-south-1"@,
        AwsRegion::AsiaPacificHongKong => "ap-east-1"@,
        AwsRegion::AsiaPacificHyderabad => "ap-south-2"@,
        AwsRegion::AsiaPacificJakarta => "ap-southeast-3"@,
        AwsRegion::AsiaPacificMalaysia => "ap-southeast-5"@,
        AwsRegion::AsiaPacificMelbourne => "ap-southeast-4"@,
        AwsRegion::AsiaPacificMumbai => "ap-south-1"@,
        AwsRegion::AsiaPacificOsaka => "ap-northeast-3"@,
        AwsRegion::AsiaPacificSeoul => "ap-northeast-2"@,
        AwsRegion::AsiaPacificSingapore => "ap-southeast-1"@,
        AwsRegion::AsiaPacificSydney => "ap-southeast-2"@,
        AwsRegion::AsiaPacificTokyo => "ap-northeast-1"@,
        AwsRegion::CanadaCentral => "ca-central-1"@,
        AwsRegion::CanadaWestCalgary => "ca-west-1"@,
        AwsRegion::EuropeFrankfurt => "eu-central-1"@,
        AwsRegion::EuropeIreland => "eu-west-1"@,
        AwsRegion::EuropeLondon => "eu-west-2"@,
        AwsRegion::EuropeMilan => "eu-south-1"@,
        AwsRegion::EuropeParis => "eu-west-3"@,
        AwsRegion::EuropeSpain => "eu-south-2"@,
        AwsRegion::EuropeStockholm => "eu-north-1"@,
        AwsRegion::EuropeZurich => "eu-central-2"@,
        AwsRegion::IsraelTelAviv => "il-central-1"@,
        AwsRegion::MiddleEastBahrain => "me-south-1"@,
        AwsRegion::MiddleEastUAE => "me-central-1"@,
        AwsRegion::SouthAmericaSaoPaulo => "sa-east-1"@,
        AwsRegion::AwsGovCloudUsEast => "us-gov-east-1"@,
        AwsRegion::AwsGovCloudUsWest => "us-gov-west-1"@,
    }
}

/// Some region has the code `x`.
pub open spec fn is_region_code(x: Seq<char>) -> bool {
    exists|region: AwsRegion| region_code(region) == x
}

/// The region that a text names by the marks it holds: parts of the codes
/// and of the names of the regions. The first rule that applies decides; so
/// a text may hold the marks of several regions, and the order of the rules
/// is part of their meaning.
pub open spec fn region_marked(x: Seq<char>) -> Result<AwsRegion, &'static str> {
    if occurs_in(x, "east-2"@) || occurs_in(x, "ohi"@) {
        Ok(AwsRegion::UsEastOhio)
    } else if occurs_in(x, "east-1"@) || occurs_in(x, "vir"@) {
        Ok(AwsRegion::UsEastNVirginia)
    } else if !occurs_in(x, "gov"@) && (occurs_in(x, "west-1"@) || occurs_in(x, "cal"@)) {
        Ok(AwsRegion::UsWestNCalifornia)
    } else if occurs_in(x, "west-2"@) || occurs_in(x, "ore"@) {
        Ok(AwsRegion::UsWestOregon)
    } else if (occurs_in(x, "af"@) && occurs_in(x, "sou"@)) || occurs_in(x, "cap"@) {
        Ok(AwsRegion::AfricaCapeTown)
    } else if occurs_in(x, "eas"@) && occurs_in(x, "hon"@) {
        Ok(AwsRegion::AsiaPacificHongKong)
    } else if occurs_in(x, "h-2"@) || occurs_in(x, "hyd"@) {
        Ok(AwsRegion::AsiaPacificHyderabad)
    } else if occurs_in(x, "s-3"@) || occurs_in(x, "jak"@) {
        Ok(AwsRegion::AsiaPacificJakarta)
    } else if occurs_in(x, "s-5"@) || occurs_in(x, "mal"@) {
        Ok(AwsRegion::AsiaPacificMalaysia)
    } else if occurs_in(x, "s-4"@) || occurs_in(x, "mel"@) {
        Ok(AwsRegion::AsiaPacificMelbourne)
    } else if occurs_in(x, "h-1"@) || occurs_in(x, "mum"@) {
        Ok(AwsRegion::AsiaPacificMumbai)
    } else if occurs_in(x, "n-3"@) || occurs_in(x, "osa"@) {
        Ok(AwsRegion::AsiaPacificOsaka)
    } else if occurs_in(x, "n-2"@) || occurs_in(x, "seo"@) {
        Ok(AwsRegion::AsiaPacificSeoul)
    } else if occurs_in(x, "s-1"@) || occurs_in(x, "sin"@) {
        Ok(AwsRegion::AsiaPacificSingapore)
    } else if occurs_in(x, "s-2"@) || occurs_in(x, "syd"@) {
        Ok(AwsRegion::AsiaPacificSydney)
    } else if occurs_in(x, "n-1"@) || occurs_in(x, "tok"@) {
        Ok(AwsRegion::AsiaPacificTokyo)
    } else if occurs_in(x, "cen"@) && occurs_in(x, "can"@) {
        Ok(AwsRegion::CanadaCentral)
    } else if occurs_in(x, "wes"@) && occurs_in(x, "cal"@) {
        Ok(AwsRegion::CanadaWestCalgary)
    } else if occurs_in(x, "eu"@) && occurs_in(x, "cen"@) && occurs_in(x, "1"@) {
        Ok(AwsRegion::EuropeFrankfurt)
    } else if occurs_in(x, "irl"@) || occurs_in(x, "ire"@) {
        Ok(AwsRegion::EuropeIreland)
    } else if occurs_in(x, "lon"@) || occurs_in(x, "lnd"@) {
        Ok(AwsRegion::EuropeLondon)
    } else if occurs_in(x, "mil"@) {
        Ok(AwsRegion::EuropeMilan)
    } else if occurs_in(x, "3"@) && occurs_in(x, "west"@) && occurs_in(x, "eu"@) {
        Ok(AwsRegion::EuropeParis)
    } else if occurs_in(x, "spa"@) {
        Ok(AwsRegion::EuropeSpain)
    } else if occurs_in(x, "sto"@) {
        Ok(AwsRegion::EuropeStockholm)
    } else if occurs_in(x, "zur"@) {
        Ok(AwsRegion::EuropeZurich)
    } else if occurs_in(x, "tel"@) || occurs_in(x, "isr"@) {
        Ok(AwsRegion::IsraelTelAviv)
    } else if occurs_in(x, "bhr"@) || occurs_in(x, "bah"@) {
        Ok(AwsRegion::MiddleEastBahrain)
    } else if occurs_in(x, "uae"@) {
        Ok(AwsRegion::MiddleEastUAE)
    } else if occurs_in(x, "pau"@) || occurs_in(x, "sao"@) {
        Ok(AwsRegion::SouthAmericaSaoPaulo)
    } else if occurs_in(x, "gov"@) || occurs_in(x, "eas"@) {
        Ok(AwsRegion::AwsGovCloudUsEast)
    } else if occurs_in(x, "wes"@) {
        Ok(AwsRegion::AwsGovCloudUsWest)
    } else {
        Err("Invalid Region")
    }
}

/// The region that a trimmed, lower-case text names: the region with that
/// code, or else the region whose marks the text holds.
pub open spec fn region_named(x: Seq<char>) -> Result<AwsRegion, &'static str> {
    if is_region_code(x) {
        Ok(choose|region: AwsRegion| region_code(region) == x)
    } else {
        region_marked(x)
    }
}

impl AwsRegion {
    /// The code of the region.
    pub fn code(&self) -> (code: &'static str)
        ensures
            code@ == region_code(*self),
    {
        match self {
            AwsRegion::UsEastOhio => "us-east-2",
            AwsRegion::UsEastNVirginia => "us-east-1",
            AwsRegion::UsWestNCalifornia => "us-west-1",
            AwsRegion::UsWestOregon => "us-west-2",
            AwsRegion::AfricaCapeTown => "af-south-1",
            AwsRegion::AsiaPacificHongKong => "ap-east-1",
            AwsRegion::AsiaPacificHyderabad => "ap-south-2",
            AwsRegion::AsiaPacificJakarta => "ap-southeast-3",
            AwsRegion::AsiaPacificMalaysia => "ap-southeast-5",
            AwsRegion::AsiaPacificMelbourne => "ap-southeast-4",
            AwsRegion::AsiaPacificMumbai => "ap-south-1",
            AwsRegion::AsiaPacificOsaka => "ap-northeast-3",
            AwsRegion::AsiaPacificSeoul => "ap-northeast-2",
            AwsRegion::AsiaPacificSingapore => "ap-southeast-1",
            AwsRegion::AsiaPacificSydney => "ap-southeast-2",
            AwsRegion::AsiaPacificTokyo => "ap-northeast-1",
            AwsRegion::CanadaCentral => "ca-central-1",
            AwsRegion::CanadaWestCalgary => "ca-west-1",
            AwsRegion::EuropeFrankfurt => "eu-central-1",
            AwsRegion::EuropeIreland => "eu-west-1",
            AwsRegion::EuropeLondon => "eu-west-2",
            AwsRegion::EuropeMilan => "eu-south-1",
            AwsRegion::EuropeParis => "eu-west-3",
            AwsRegion::EuropeSpain => "eu-south-2",
            AwsRegion::EuropeStockholm => "eu-north-1",
            AwsRegion::EuropeZurich => "eu-central-2",
            AwsRegion::IsraelTelAviv => "il-central-1",
            AwsRegion::MiddleEastBahrain => "me-south-1",
            AwsRegion::MiddleEastUAE => "me-central-1",
            AwsRegion::SouthAmericaSaoPaulo => "sa-east-1",
            AwsRegion::AwsGovCloudUsEast => "us-gov-east-1",
            AwsRegion::AwsGovCloudUsWest => "us-gov-west-1",
        }
    }

    /// Every region, once.
    pub fn all() -> (regions: Vec<AwsRegion>)
        ensures
            regions@.no_duplicates(),
            forall|region: AwsRegion| regions@.contains(region),
    {
        let mut regions: Vec<AwsRegion> = Vec::new();
        regions.push(AwsRegion::UsEastOhio);
        regions.push(AwsRegion::UsEastNVirginia);
        regions.push(AwsRegion::UsWestNCalifornia);
        regions.push(AwsRegion::UsWestOregon);
        regions.push(AwsRegion::AfricaCapeTown);
        regions.push(AwsRegion::AsiaPacificHongKong);
        regions.push(AwsRegion::AsiaPacificHyderabad);
        regions.push(AwsRegion::AsiaPacificJakarta);
        regions.push(AwsRegion::AsiaPacificMalaysia);
        regions.push(AwsRegion::AsiaPacificMelbourne);
        regions.push(AwsRegion::AsiaPacificMumbai);
        regions.push(AwsRegion::AsiaPacificOsaka);
        regions.push(AwsRegion::AsiaPacificSeoul);
        regions.push(AwsRegion::AsiaPacificSingapore);
        regions.push(AwsRegion::AsiaPacificSydney);
        regions.push(AwsRegion::AsiaPacificTokyo);
        regions.push(AwsRegion::CanadaCentral);
        regions.push(AwsRegion::CanadaWestCalgary);
        regions.push(AwsRegion::EuropeFrankfurt);
        regions.push(AwsRegion::EuropeIreland);
        regions.push(AwsRegion::EuropeLondon);
        regions.push(AwsRegion::EuropeMilan);
        regions.push(AwsRegion::EuropeParis);
        regions.push(AwsRegion::EuropeSpain);
        regions.push(AwsRegion::EuropeStockholm);
        regions.push(AwsRegion::EuropeZurich);
        regions.push(AwsRegion::IsraelTelAviv);
        regions.push(AwsRegion::MiddleEastBahrain);
        regions.push(AwsRegion::MiddleEastUAE);
        regions.push(AwsRegion::SouthAmericaSaoPaulo);
        regions.push(AwsRegion::AwsGovCloudUsEast);
        regions.push(AwsRegion::AwsGovCloudUsWest);
        proof {
            assert forall|region: AwsRegion| regions@.contains(region) by {
                match region {
                    AwsRegion::UsEastOhio => {
                        assert(regions@[0] == region);
                    },
                    AwsRegion::UsEastNVirginia => {
                        assert(regions@[1] == region);
                    },
                    AwsRegion::UsWestNCalifornia => {
                        assert(regions@[2] == region);
                    },
                    AwsRegion::UsWestOregon => {
                        assert(regions@[3] == region);
                    },
                    AwsRegion::AfricaCapeTown => {
                        assert(regions@[4] == region);
                    },
                    AwsRegion::AsiaPacificHongKong => {
                        assert(regions@[5] == region);
                    },
                    AwsRegion::AsiaPacificHyderabad => {
                        assert(regions@[6] == region);
                    },
                    AwsRegion::AsiaPacificJakarta => {
                        assert(regions@[7] == region);
                    },
                    AwsRegion::AsiaPacificMalaysia => {
                        assert(regions@[8] == region);
                    },
                    AwsRegion::AsiaPacificMelbourne => {
                        assert(regions@[9] == region);
                    },
                    AwsRegion::AsiaPacificMumbai => {
                        assert(regions@[10] == region);
                    },
                    AwsRegion::AsiaPacificOsaka => {
                        assert(regions@[11] == region);
                    },
                    AwsRegion::AsiaPacificSeoul => {
                        assert(regions@[12] == region);
                    },
                    AwsRegion::AsiaPacificSingapore => {
                        assert(regions@[13] == region);
                    },
                    AwsRegion::AsiaPacificSydney => {
                        assert(regions@[14] == region);
                    },
                    AwsRegion::AsiaPacificTokyo => {
                        assert(regions@[15] == region);
                    },
                    AwsRegion::CanadaCentral => {
                        assert(regions@[16] == region);
                    },
                    AwsRegion::CanadaWestCalgary => {
                        assert(regions@[17] == region);
                    },
                    AwsRegion::EuropeFrankfurt => {
                        assert(regions@[18] == region);
                    },
                    AwsRegion::EuropeIreland => {
                        assert(regions@[19] == region);
                    },
                    AwsRegion::EuropeLondon => {
                        assert(regions@[20] == region);
                    },
                    AwsRegion::EuropeMilan => {
                        assert(regions@[21] == region);
                    },
                    AwsRegion::EuropeParis => {
                        assert(regions@[22] == region);
                    },
                    AwsRegion::EuropeSpain => {
                        assert(regions@[23] == region);
                    },
                    AwsRegion::EuropeStockholm => {
                        assert(regions@[24] == region);
                    },
                    AwsRegion::EuropeZurich => {
                        assert(regions@[25] == region);
                    },
                    AwsRegion::IsraelTelAviv => {
                        assert(regions@[26] == region);
                    },
                    AwsRegion::MiddleEastBahrain => {
                        assert(regions@[27] == region);
                    },
                    AwsRegion::MiddleEastUAE => {
                        assert(regions@[28] == region);
                    },
                    AwsRegion::SouthAmericaSaoPaulo => {
                        assert(regions@[29] == region);
                    },
                    AwsRegion::AwsGovCloudUsEast => {
                        assert(regions@[30] == region);
                    },
                    AwsRegion::AwsGovCloudUsWest => {
                        assert(regions@[31] == region);
                    },
                }
            }
        }
        regions
    }

    /// The region with the code `x`, if there is one.
    pub fn with_code(x: &str) -> (found: Option<AwsRegion>)
        ensures
            found is Some <==> is_region_code(x@),
            found matches Some(region) ==> region_code(region) == x@,
    {
        let regions = AwsRegion::all();
        let mut i: usize = 0;
        while i < regions.len()
            invariant
                i <= regions@.len(),
                forall|region: AwsRegion| regions@.contains(region),
                forall|k: int| 0 <= k < i ==> region_code(#[trigger] regions@[k]) != x@,
            decreases regions@.len() - i,
        {
            if same_text(x, regions[i].code()) {
                return Some(regions[i]);
            }
            i += 1;
        }
        proof {
            assert forall|region: AwsRegion| region_code(region) != x@ by {
                assert(regions@.contains(region));
                let k = choose|k: int| 0 <= k < regions@.len() && regions@[k] == region;
                assert(region_code(regions@[k]) != x@);
            }
        }
        None
    }

    /// The region that a text names by the marks it holds.
    pub fn from_marks(x: &str) -> (r: Result<AwsRegion, &'static str>)
        ensures
            r == region_marked(x@),
    {
        let hay = chars_of(x);
        if occurs(&hay, "east-2") || occurs(&hay, "ohi") {
            Ok(AwsRegion::UsEastOhio)
        } else if occurs(&hay, "east-1") || occurs(&hay, "vir") {
            Ok(AwsRegion::UsEastNVirginia)
        } else if !occurs(&hay, "gov") && (occurs(&hay, "west-1") || occurs(&hay, "cal")) {
            Ok(AwsRegion::UsWestNCalifornia)
        } else if occurs(&hay, "west-2") || occurs(&hay, "ore") {
            Ok(AwsRegion::UsWestOregon)
        } else if (occurs(&hay, "af") && occurs(&hay, "sou")) || occurs(&hay, "cap") {
            Ok(AwsRegion::AfricaCapeTown)
        } else if occurs(&hay, "eas") && occurs(&hay, "hon") {
            Ok(AwsRegion::AsiaPacificHongKong)
        } else if occurs(&hay, "h-2") || occurs(&hay, "hyd") {
            Ok(AwsRegion::AsiaPacificHyderabad)
        } else if occurs(&hay, "s-3") || occurs(&hay, "jak") {
            Ok(AwsRegion::AsiaPacificJakarta)
        } else if occurs(&hay, "s-5") || occurs(&hay, "mal") {
            Ok(AwsRegion::AsiaPacificMalaysia)
        } else if occurs(&hay, "s-4") || occurs(&hay, "mel") {
            Ok(AwsRegion::AsiaPacificMelbourne)
        } else if occurs(&hay, "h-1") || occurs(&hay, "mum") {
            Ok(AwsRegion::AsiaPacificMumbai)
        } else if occurs(&hay, "n-3") || occurs(&hay, "osa") {
            Ok(AwsRegion::AsiaPacificOsaka)
        } else if occurs(&hay, "n-2") || occurs(&hay, "seo") {
            Ok(AwsRegion::AsiaPacificSeoul)
        } else if occurs(&hay, "s-1") || occurs(&hay, "sin") {
            Ok(AwsRegion::AsiaPacificSingapore)
        } else if occurs(&hay, "s-2") || occurs(&hay, "syd") {
            Ok(AwsRegion::AsiaPacificSydney)
        } else if occurs(&hay, "n-1") || occurs(&hay, "tok") {
            Ok(AwsRegion::AsiaPacificTokyo)
        } else if occurs(&hay, "cen") && occurs(&hay, "can") {
            Ok(AwsRegion::CanadaCentral)
        } else if occurs(&hay, "wes") && occurs(&hay, "cal") {
            Ok(AwsRegion::CanadaWestCalgary)
        } else if occurs(&hay, "eu") && occurs(&hay, "cen") && occurs(&hay, "1") {
            Ok(AwsRegion::EuropeFrankfurt)
        } else if occurs(&hay, "irl") || occurs(&hay, "ire") {
            Ok(AwsRegion::EuropeIreland)
        } else if occurs(&hay, "lon") || occurs(&hay, "lnd") {
            Ok(AwsRegion::EuropeLondon)
        } else if occurs(&hay, "mil") {
            Ok(AwsRegion::EuropeMilan)
        } else if occurs(&hay, "3") && occurs(&hay, "west") && occurs(&hay, "eu") {
            Ok(AwsRegion::EuropeParis)
        } else if occurs(&hay, "spa") {
            Ok(AwsRegion::EuropeSpain)
        } else if occurs(&hay, "sto") {
            Ok(AwsRegion::EuropeStockholm)
        } else if occurs(&hay, "zur") {
            Ok(AwsRegion::EuropeZurich)
        } else if occurs(&hay, "tel") || occurs(&hay, "isr") {
            Ok(AwsRegion::IsraelTelAviv)
        } else if occurs(&hay, "bhr") || occurs(&hay, "bah") {
            Ok(AwsRegion::MiddleEastBahrain)
        } else if occurs(&hay, "uae") {
            Ok(AwsRegion::MiddleEastUAE)
        } else if occurs(&hay, "pau") || occurs(&hay, "sao") {
            Ok(AwsRegion::SouthAmericaSaoPaulo)
        } else if occurs(&hay, "gov") || occurs(&hay, "eas") {
            Ok(AwsRegion::AwsGovCloudUsEast)
        } else if occurs(&hay, "wes") {
            Ok(AwsRegion::AwsGovCloudUsWest)
        } else {
            Err("Invalid Region")
        }
    }

    /// The region that a text names once it is trimmed and in lower case.
    pub fn from_normalized(x: &str) -> (r: Result<AwsRegion, &'static str>)
        ensures
            r == region_named(x@),
    {
        match AwsRegion::with_code(x) {
            Some(region) => {
                proof {
                    lemma_region_codes_differ(
                        region,
                        choose|other: AwsRegion| region_code(other) == x@,
                    );
                }
                Ok(region)
            },
            None => AwsRegion::from_marks(x),
        }
    }
}

/// Regions match by equality.
impl MatchesTrait<bool> for AwsRegion {
    open spec fn matches_spec(declared: AwsRegion, requested: AwsRegion) -> Result<
        bool,
        &'static str,
    > {
        Ok(declared == requested)
    }

    fn matches(&self, value: &Self) -> (r: Result<bool, &'static str>) {
        Ok(*self == *value)
    }
}

impl Identifier for AwsRegion {
    /// The text is trimmed and put in lower case; then it is a code, or it
    /// is searched for the marks of the regions.
    open spec fn parsed(text: Seq<char>) -> Result<AwsRegion, &'static str> {
        region_named(normalized(text))
    }

    fn from_str(s: &str) -> (r: Result<Self, &'static str>) {
        let x = normalize(s);
        AwsRegion::from_normalized(x.as_str())
    }

    open spec fn rendered(value: AwsRegion) -> Seq<char> {
        region_code(value)
    }

    fn to_string(&self) -> (s: String) {
        String::from_str(self.code())
    }
}

/// No two regions share a code.
pub proof fn lemma_region_codes_differ(first: AwsRegion, second: AwsRegion)
    ensures
        region_code(first) == region_code(second) ==> first == second,
{
    reveal_strlit("us-east-2");
    reveal_strlit("us-east-1");
    reveal_strlit("us-west-1");
    reveal_strlit("us-west-2");
    reveal_strlit("af-south-1");
    reveal_strlit("ap-east-1");
    reveal_strlit("ap-south-2");
    reveal_strlit("ap-southeast-3");
    reveal_strlit("ap-southeast-5");
    reveal_strlit("ap-southeast-4");
    reveal_strlit("ap-south-1");
    reveal_strlit("ap-northeast-3");
    reveal_strlit("ap-northeast-2");
    reveal_strlit("ap-southeast-1");
    reveal_strlit("ap-southeast-2");
    reveal_strlit("ap-northeast-1");
    reveal_strlit("ca-central-1");
    reveal_strlit("ca-west-1");
    reveal_strlit("eu-central-1");
    reveal_strlit("eu-west-1");
    reveal_strlit("eu-west-2");
    reveal_strlit("eu-south-1");
    reveal_strlit("eu-west-3");
    reveal_strlit("eu-south-2");
    reveal_strlit("eu-north-1");
    reveal_strlit("eu-central-2");
    reveal_strlit("il-central-1");
    reveal_strlit("me-south-1");
    reveal_strlit("me-central-1");
    reveal_strlit("sa-east-1");
    reveal_strlit("us-gov-east-1");
    reveal_strlit("us-gov-west-1");
    let a = region_code(first);
    let b = region_code(second);
    if a == b {
        // The length, the part of the world, the direction and the number
        // tell the codes apart.
        assert(a.len() == b.len());
        assert(a[0] == b[0]);
        assert(a[1] == b[1]);
        assert(a[3] == b[3]);
        assert(a[7] == b[7]);
        assert(a[a.len() - 1] == b[b.len() - 1]);
    }
}

/// The code of each region names that region.
pub proof fn lemma_region_codes_name_themselves(region: AwsRegion)
    ensures
        region_named(region_code(region)) == Ok::<AwsRegion, &'static str>(region),
{
    let found = choose|other: AwsRegion| region_code(other) == region_code(region);
    lemma_region_codes_differ(found, region);
}

} // verus!
