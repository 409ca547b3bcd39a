use condenser::advisors::BCorpAdvisor;
use condenser::dump::{compression_of, Compression};
use condenser::ids::WikiStrId;
use condenser::knowledge::Category;
use condenser::text::extract_domain_from_url;
use condenser::transcribing::Transcriptor;
use condenser::wikidata::{Entity, Item, LangText, Property, Relation};

fn str_id(s: &str) -> WikiStrId {
    WikiStrId { value: s.to_string() }
}

#[test]
fn compression_recognition() {
    assert_eq!(compression_of("dump.json.gz").unwrap(), Compression::Gzip);
    assert_eq!(compression_of("dump.json").unwrap(), Compression::Plain);
    assert_eq!(compression_of("dump.jsonl").unwrap(), Compression::Plain);
    assert!(matches!(
        compression_of("dump.zip"),
        Err(condenser::errors::ProcessingError::CompressionMethod)
    ));
}

#[test]
fn domain_extraction() {
    assert_eq!(extract_domain_from_url("https://www.example.com/path/x"), "example.com");
    assert_eq!(extract_domain_from_url("http://sub.foo.org"), "sub.foo.org");
    assert_eq!(extract_domain_from_url("example.com/only/path"), "example.com");
    assert_eq!(extract_domain_from_url("www.bare.example"), "bare.example");
    assert_eq!(extract_domain_from_url(""), "");
}

/// The guessed profile link identifier lowercases the name, removes dots and
/// turns spaces into dashes. A name that is already lowercase must still lose
/// its dots and spaces.
#[test]
fn link_id_guessing() {
    assert_eq!(BCorpAdvisor::guess_link_id_from_company_name("ACME Inc."), "acme-inc");
    assert_eq!(BCorpAdvisor::guess_link_id_from_company_name("plain"), "plain");
    assert_eq!(
        BCorpAdvisor::guess_link_id_from_company_name("Dr. Bronner's Co"),
        "dr-bronner's-co"
    );
}

#[test]
fn wiki_id_parsing() {
    assert_eq!(str_id("Q42").to_num_id().unwrap().value, 42);
    assert_eq!(str_id("Q0").to_num_id().unwrap().value, 0);
    assert_eq!(
        str_id("Q18446744073709551615").to_num_id().unwrap().value,
        u64::MAX
    );
    assert!(str_id("Q18446744073709551616").to_num_id().is_err());
    assert!(str_id("42").to_num_id().is_err());
    assert!(str_id("Q").to_num_id().is_err());
    assert!(str_id("Q4x2").to_num_id().is_err());
    assert!(str_id("").to_num_id().is_err());
    assert_eq!(str_id("Qx").to_num_id().unwrap_err().text, "Qx");
}

/// An entity that is an instance of the smartphone-model class gets the
/// smartphone category; others get none.
#[test]
fn smartphone_category_assignment() {
    let sources =
        condenser::condensing::CondensingSources::load(None, None, None, None).unwrap();
    let phone = Entity::Item(Item {
        id: str_id("Q2"),
        labels: vec![LangText { lang: "en".to_string(), text: "Phone".to_string() }],
        descriptions: vec![LangText {
            lang: "en".to_string(),
            text: "a phone".to_string(),
        }],
        relations: vec![
            Relation {
                property: Property::Manufacturer,
                targets: vec!["Q1".to_string()],
            },
            Relation {
                property: Property::InstanceOf,
                targets: vec!["Q19723444".to_string()],
            },
            Relation { property: Property::Follows, targets: vec!["Q0".to_string()] },
        ],
    });
    let mut collector = condenser::condensing::CondensingCollector::new();
    condenser::condensing::CondensingProcessor::handle_entity(
        &phone,
        &sources,
        &mut collector,
        &"en".to_string(),
    )
    .unwrap();
    assert_eq!(collector.products.len(), 1);
    let product = &collector.products[0];
    assert_eq!(product.category, Some(Category::Smartphone));
    assert_eq!(product.description, "a phone");
    assert_eq!(product.follows.as_ref().unwrap().value, "Q0");
    assert!(product.followed_by.is_none());
    assert_eq!(product.manufacturer_ids.as_ref().unwrap().len(), 1);

    let other = Entity::Item(Item {
        id: str_id("Q3"),
        labels: vec![LangText { lang: "en".to_string(), text: "Grill".to_string() }],
        descriptions: Vec::new(),
        relations: vec![Relation {
            property: Property::Manufacturer,
            targets: vec!["Q1".to_string()],
        }],
    });
    let mut c2 = condenser::condensing::CondensingCollector::new();
    condenser::condensing::CondensingProcessor::handle_entity(
        &other,
        &sources,
        &mut c2,
        &"en".to_string(),
    )
    .unwrap();
    assert_eq!(c2.products[0].category, None);
}

#[test]
fn transcription_pairs_articles() {
    let infos = vec![condenser::knowledge::LibraryInfo {
        id: "cert_fti".to_string(),
        title: "About the index".to_string(),
        summary: "short".to_string(),
        article: String::new(),
    }];
    let articles = vec!["full text".to_string()];
    let items = Transcriptor::transcribe(&infos, &articles);
    assert_eq!(items.len(), 1);
    assert_eq!(items[0].id, "cert_fti");
    assert_eq!(items[0].title, "About the index");
    assert_eq!(items[0].summary, "short");
    assert_eq!(items[0].article, "full text");
}

#[test]
fn processing_error_wraps_causes() {
    let e = condenser::errors::ProcessingError::from(
        condenser::errors::ConfigCheckError::PathDoesNotExist("/tmp/x".to_string()),
    );
    assert!(matches!(e, condenser::errors::ProcessingError::ConfigCheck(_)));
    let e2 = condenser::errors::ProcessingError::from(condenser::ids::ParseIdError {
        text: "bad".to_string(),
    });
    assert!(matches!(e2, condenser::errors::ProcessingError::IdParsing(_)));
}
