use rust_iam::aws::{AwsPartition, AwsRegion};
use rust_iam::traits::MatchesTrait;
use rust_iam::Identifier;

#[test]
fn test_valid_exact_codes() {
    assert_eq!(AwsRegion::from_str("us-east-2"), Ok(AwsRegion::UsEastOhio));
    assert_eq!(AwsRegion::from_str("us-east-1"), Ok(AwsRegion::UsEastNVirginia));
    assert_eq!(AwsRegion::from_str("ap-south-1"), Ok(AwsRegion::AsiaPacificMumbai));
    assert_eq!(AwsRegion::from_str("eu-central-1"), Ok(AwsRegion::EuropeFrankfurt));
    assert_eq!(AwsRegion::from_str("us-gov-west-1"), Ok(AwsRegion::AwsGovCloudUsWest));
}

#[test]
fn test_valid_flexible_matches() {
    assert_eq!(AwsRegion::from_str("US EAST (OHIO)"), Ok(AwsRegion::UsEastOhio));
    assert_eq!(AwsRegion::from_str("us east ohio"), Ok(AwsRegion::UsEastOhio));
    assert_eq!(AwsRegion::from_str("us-east-ohio"), Ok(AwsRegion::UsEastOhio));
    assert_eq!(AwsRegion::from_str("us-east-n.virginia"), Ok(AwsRegion::UsEastNVirginia));
    assert_eq!(AwsRegion::from_str("asia pacific mumbai"), Ok(AwsRegion::AsiaPacificMumbai));
}

#[test]
fn test_valid_partial_keywords() {
    assert_eq!(AwsRegion::from_str("ohio"), Ok(AwsRegion::UsEastOhio));
    assert_eq!(AwsRegion::from_str("virginia"), Ok(AwsRegion::UsEastNVirginia));
    assert_eq!(AwsRegion::from_str("california"), Ok(AwsRegion::UsWestNCalifornia));
    assert_eq!(AwsRegion::from_str("tokyo"), Ok(AwsRegion::AsiaPacificTokyo));
    assert_eq!(AwsRegion::from_str("govcloud east"), Ok(AwsRegion::AwsGovCloudUsEast));
}

#[test]
fn test_invalid_regions() {
    assert_eq!(AwsRegion::from_str("unknown"), Err("Invalid Region"));
    assert_eq!(AwsRegion::from_str("random text"), Err("Invalid Region"));
    assert_eq!(AwsRegion::from_str("not a region"), Err("Invalid Region"));
}

#[test]
fn test_case_insensitivity_and_whitespace() {
    assert_eq!(AwsRegion::from_str("  US-EAST-2 "), Ok(AwsRegion::UsEastOhio));
    assert_eq!(AwsRegion::from_str("  us-west-1 "), Ok(AwsRegion::UsWestNCalifornia));
    assert_eq!(AwsRegion::from_str(" asia pacific tokyo "), Ok(AwsRegion::AsiaPacificTokyo));
    assert_eq!(AwsRegion::from_str("EU-WEST-3"), Ok(AwsRegion::EuropeParis));
}

#[test]
fn test_edge_cases() {
    assert_eq!(AwsRegion::from_str(""), Err("Invalid Region")); // Empty input
    assert_eq!(AwsRegion::from_str("   "), Err("Invalid Region")); // Whitespace only
    assert_eq!(AwsRegion::from_str("US-EAST-2\n"), Ok(AwsRegion::UsEastOhio)); // Trailing newline
}

#[test]
fn a_code_names_its_region() {
    for region in AwsRegion::all() {
        assert_eq!(AwsRegion::with_code(region.code()), Some(region));
        assert_eq!(AwsRegion::from_normalized(region.code()), Ok(region));
        assert_eq!(AwsRegion::from_str(&region.to_string()), Ok(region));
        assert_eq!(AwsRegion::from_str(&region.to_string().to_uppercase()), Ok(region));
    }
    assert_eq!(AwsRegion::all().len(), 32);
    assert_eq!(AwsRegion::with_code("us-east"), None);
    assert_eq!(AwsRegion::with_code("US-EAST-2"), None);
    assert_eq!(AwsRegion::with_code(""), None);
    assert_eq!(AwsRegion::with_code("us-east-2 "), None);
}

#[test]
fn marks_are_looked_for_in_order() {
    // "east-1" is found before any mark of Hong Kong is looked for.
    assert_eq!(AwsRegion::from_marks("ap-east-1"), Ok(AwsRegion::UsEastNVirginia));
    assert_eq!(AwsRegion::from_marks("hong kong east"), Ok(AwsRegion::AsiaPacificHongKong));
    // The marks of California do not count beside the mark of GovCloud.
    assert_eq!(AwsRegion::from_marks("calgary west"), Ok(AwsRegion::UsWestNCalifornia));
    assert_eq!(AwsRegion::from_marks("gov calgary west"), Ok(AwsRegion::CanadaWestCalgary));
    assert_eq!(AwsRegion::from_marks("gov"), Ok(AwsRegion::AwsGovCloudUsEast));
    assert_eq!(AwsRegion::from_marks("govcloud west"), Ok(AwsRegion::AwsGovCloudUsEast));
    assert_eq!(AwsRegion::from_marks("east"), Ok(AwsRegion::AwsGovCloudUsEast));
    assert_eq!(AwsRegion::from_marks("west"), Ok(AwsRegion::AwsGovCloudUsWest));
    assert_eq!(AwsRegion::from_marks("eu-central-1"), Ok(AwsRegion::EuropeFrankfurt));
    assert_eq!(AwsRegion::from_marks("cape town"), Ok(AwsRegion::AfricaCapeTown));
    assert_eq!(AwsRegion::from_marks("af-south-1"), Ok(AwsRegion::AfricaCapeTown));
    assert_eq!(AwsRegion::from_marks("sao paulo"), Ok(AwsRegion::SouthAmericaSaoPaulo));
    assert_eq!(AwsRegion::from_marks("paris"), Err("Invalid Region"));
    assert_eq!(AwsRegion::from_marks(""), Err("Invalid Region"));
}

#[test]
fn a_code_comes_before_the_marks() {
    assert_eq!(AwsRegion::from_normalized("ap-east-1"), Ok(AwsRegion::AsiaPacificHongKong));
    assert_eq!(AwsRegion::from_normalized("ap-southeast-1"), Ok(AwsRegion::AsiaPacificSingapore));
    assert_eq!(AwsRegion::from_normalized("us-gov-east-1"), Ok(AwsRegion::AwsGovCloudUsEast));
    assert_eq!(AwsRegion::from_normalized("us-gov-west-1"), Ok(AwsRegion::AwsGovCloudUsWest));
    // A text that only holds a code is searched for marks.
    assert_eq!(AwsRegion::from_normalized("region ap-east-1"), Ok(AwsRegion::UsEastNVirginia));
    assert_eq!(AwsRegion::from_normalized("us-gov-west"), Ok(AwsRegion::AwsGovCloudUsEast));
    assert_eq!(AwsPartition::from_normalized("aws"), Ok(AwsPartition::Aws));
    assert_eq!(AwsPartition::from_normalized("aws-cn"), Ok(AwsPartition::AwsChina));
    assert_eq!(AwsPartition::from_normalized("the aws cloud"), Ok(AwsPartition::Aws));
    assert_eq!(AwsPartition::from_marks("aws"), Ok(AwsPartition::Aws));
    assert_eq!(AwsPartition::from_marks("aws-cn-north"), Ok(AwsPartition::AwsChina));
    assert_eq!(AwsPartition::from_marks("aws-us-gov"), Ok(AwsPartition::AwsUsGov));
    // "us" is looked for before "aws".
    assert_eq!(AwsPartition::from_marks("aws plus"), Ok(AwsPartition::AwsUsGov));
    assert_eq!(AwsPartition::from_marks("china"), Ok(AwsPartition::AwsChina));
    assert_eq!(AwsPartition::from_marks("gcp"), Err("no match"));
    assert_eq!(AwsPartition::with_code("aws-us-gov"), Some(AwsPartition::AwsUsGov));
    assert_eq!(AwsPartition::with_code("aws-us"), None);
}

#[test]
fn region_codes() {
    assert_eq!(AwsRegion::UsEastOhio.to_string(), "us-east-2");
    assert_eq!(AwsRegion::UsEastNVirginia.to_string(), "us-east-1");
    assert_eq!(AwsRegion::UsWestNCalifornia.to_string(), "us-west-1");
    assert_eq!(AwsRegion::UsWestOregon.to_string(), "us-west-2");
    assert_eq!(AwsRegion::AfricaCapeTown.to_string(), "af-south-1");
    assert_eq!(AwsRegion::AsiaPacificHongKong.to_string(), "ap-east-1");
    assert_eq!(AwsRegion::AsiaPacificHyderabad.to_string(), "ap-south-2");
    assert_eq!(AwsRegion::AsiaPacificJakarta.to_string(), "ap-southeast-3");
    assert_eq!(AwsRegion::AsiaPacificMalaysia.to_string(), "ap-southeast-5");
    assert_eq!(AwsRegion::AsiaPacificMelbourne.to_string(), "ap-southeast-4");
    assert_eq!(AwsRegion::AsiaPacificMumbai.to_string(), "ap-south-1");
    assert_eq!(AwsRegion::AsiaPacificOsaka.to_string(), "ap-northeast-3");
    assert_eq!(AwsRegion::AsiaPacificSeoul.to_string(), "ap-northeast-2");
    assert_eq!(AwsRegion::AsiaPacificSingapore.to_string(), "ap-southeast-1");
    assert_eq!(AwsRegion::AsiaPacificSydney.to_string(), "ap-southeast-2");
    assert_eq!(AwsRegion::AsiaPacificTokyo.to_string(), "ap-northeast-1");
    assert_eq!(AwsRegion::CanadaCentral.to_string(), "ca-central-1");
    assert_eq!(AwsRegion::CanadaWestCalgary.to_string(), "ca-west-1");
    assert_eq!(AwsRegion::EuropeFrankfurt.to_string(), "eu-central-1");
    assert_eq!(AwsRegion::EuropeIreland.to_string(), "eu-west-1");
    assert_eq!(AwsRegion::EuropeLondon.to_string(), "eu-west-2");
    assert_eq!(AwsRegion::EuropeMilan.to_string(), "eu-south-1");
    assert_eq!(AwsRegion::EuropeParis.to_string(), "eu-west-3");
    assert_eq!(AwsRegion::EuropeSpain.to_string(), "eu-south-2");
    assert_eq!(AwsRegion::EuropeStockholm.to_string(), "eu-north-1");
    assert_eq!(AwsRegion::EuropeZurich.to_string(), "eu-central-2");
    assert_eq!(AwsRegion::IsraelTelAviv.to_string(), "il-central-1");
    assert_eq!(AwsRegion::MiddleEastBahrain.to_string(), "me-south-1");
    assert_eq!(AwsRegion::MiddleEastUAE.to_string(), "me-central-1");
    assert_eq!(AwsRegion::SouthAmericaSaoPaulo.to_string(), "sa-east-1");
    assert_eq!(AwsRegion::AwsGovCloudUsEast.to_string(), "us-gov-east-1");
    assert_eq!(AwsRegion::AwsGovCloudUsWest.to_string(), "us-gov-west-1");
    assert_eq!(AwsRegion::EuropeParis.code(), "eu-west-3");
}

#[test]
fn partitions_are_read_and_written() {
    assert_eq!(AwsPartition::from_str("aws"), Ok(AwsPartition::Aws));
    assert_eq!(AwsPartition::from_str("aws-cn"), Ok(AwsPartition::AwsChina));
    assert_eq!(AwsPartition::from_str("aws-us-gov"), Ok(AwsPartition::AwsUsGov));
    assert_eq!(AwsPartition::from_str(" China "), Ok(AwsPartition::AwsChina));
    assert_eq!(AwsPartition::from_str("US Gov"), Ok(AwsPartition::AwsUsGov));
    assert_eq!(AwsPartition::from_str("azure"), Err("no match"));
    assert_eq!(AwsPartition::from_str(""), Err("no match"));
    assert_eq!(AwsPartition::Aws.to_string(), "aws");
    assert_eq!(AwsPartition::AwsChina.to_string(), "aws-cn");
    assert_eq!(AwsPartition::AwsUsGov.to_string(), "aws-us-gov");
    assert_eq!(AwsPartition::AwsUsGov.code(), "aws-us-gov");
}

#[test]
fn partition_codes_read_back() {
    for partition in [AwsPartition::Aws, AwsPartition::AwsChina, AwsPartition::AwsUsGov] {
        assert_eq!(AwsPartition::from_str(&partition.to_string()), Ok(partition));
    }
}

#[test]
fn regions_and_partitions_match_by_equality() {
    assert_eq!(AwsRegion::UsEastOhio.matches(&AwsRegion::UsEastOhio), Ok(true));
    assert_eq!(AwsRegion::UsEastOhio.matches(&AwsRegion::UsWestOregon), Ok(false));
    assert_eq!(AwsPartition::Aws.matches(&AwsPartition::Aws), Ok(true));
    assert_eq!(AwsPartition::Aws.matches(&AwsPartition::AwsChina), Ok(false));
}
