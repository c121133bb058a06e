use wdtagger::config::ModelConfig;
use wdtagger::error::TaggerError;
use wdtagger::file::{ArtifactSource, ConfigFile, TagCSVFile};
use wdtagger::tags::{parse_i32, LabelTags, TagCategory};

const TABLE: &str = "tag_id,name,category,count
9999999,general,9,807691
9999998,sensitive,9,1035985
9999997,questionable,9,411056
9999996,explicit,9,303219
470575,1girl,0,4726950
212816,solo,0,3872040
1275,hatsune_miku,4,112339
3,artist_name,1,20000
4,touhou,3,50000
5,highres,5,300000
";

/// Serves one tag table from memory.
struct TableSource;

impl ArtifactSource for TableSource {
    fn model_config(&self, file: &ConfigFile) -> Result<ModelConfig, TaggerError> {
        Err(TaggerError::Hf(format!("no such file: {}", file.config_path)))
    }

    fn tag_table(&self, file: &TagCSVFile) -> Result<String, TaggerError> {
        if file.repo_id == "SmilingWolf/wd-swinv2-tagger-v3" && file.csv_path == "selected_tags.csv" {
            Ok(TABLE.to_string())
        } else {
            Err(TaggerError::Hf(format!("no such file: {}", file.csv_path)))
        }
    }
}

fn bits(values: &[f32]) -> Vec<u32> {
    values.iter().map(|v| v.to_bits()).collect()
}

#[test]
fn test_load_tags() {
    let tags = LabelTags::from_pretrained("SmilingWolf/wd-swinv2-tagger-v3", &TableSource).unwrap();

    let top = tags.idx2tag();

    assert_eq!(
        top.iter().take(5).map(|tag| tag.name()).collect::<Vec<_>>(),
        vec!["general", "sensitive", "questionable", "explicit", "1girl",]
    );
}

#[test]
fn test_create_probs_valid() {
    let tags = LabelTags::from_csv(TABLE).unwrap();

    let probs = (0..4)
        .map(|b| bits(&(0..tags.total_tags()).map(|i| ((b * 7 + i) % 10) as f32 / 10.0).collect::<Vec<f32>>()))
        .collect::<Vec<Vec<u32>>>();

    let pairs = tags.create_probality_pairs(probs.clone()).unwrap();
    assert_eq!(pairs.len(), 4);
    for (b, row) in pairs.iter().enumerate() {
        assert_eq!(row.len(), tags.total_tags());
        for (i, (name, p)) in row.iter().enumerate() {
            assert_eq!(*name, tags.idx2tag()[i].name());
            assert_eq!(*p, probs[b][i]);
        }
    }
}

#[test]
fn test_create_probs_valid_invalid() {
    let tags = LabelTags::from_csv(TABLE).unwrap();

    let probs = (0..4)
        .map(|_| bits(&(0..tags.total_tags() + 100).map(|i| (i % 10) as f32 / 10.0).collect::<Vec<f32>>()))
        .collect::<Vec<Vec<u32>>>();

    let pairs = tags.create_probality_pairs(probs);
    assert!(pairs.is_err());
    assert!(matches!(pairs, Err(TaggerError::Tag(_))));
}

#[test]
fn registry_accepts_exactly_its_length() {
    let tags = LabelTags::from_csv(TABLE).unwrap();
    let n = tags.total_tags();
    assert_eq!(n, 10);
    for len in [0, 1, n - 1, n + 1, 2 * n] {
        let r = tags.create_probality_pairs(vec![vec![0u32; len]]);
        assert!(matches!(r, Err(TaggerError::Tag(_))), "length {}", len);
    }
    assert!(tags.create_probality_pairs(vec![vec![0u32; n]]).is_ok());
    // one bad vector in a batch fails the batch
    assert!(tags.create_probality_pairs(vec![vec![0u32; n], vec![0u32; n + 1]]).is_err());
    // an empty batch has nothing to reject
    assert_eq!(tags.create_probality_pairs(vec![]).unwrap().len(), 0);
}

#[test]
fn registry_reads_fields_by_header_name() {
    let table = "count,category,name,tag_id\n12,4,hatsune_miku,1275\n-3,0,1girl,+470575\n";
    let tags = LabelTags::from_csv(table).unwrap();
    let all = tags.idx2tag();
    assert_eq!(all.len(), 2);
    assert_eq!(all[0].name(), "hatsune_miku");
    assert_eq!(all[0].tag_id(), 1275);
    assert_eq!(all[0].count(), 12);
    assert_eq!(all[0].category(), TagCategory::Character);
    assert_eq!(all[1].tag_id(), 470575);
    assert_eq!(all[1].count(), -3);
    assert_eq!(all[1].category(), TagCategory::General);
}

#[test]
fn registry_lookup_by_name() {
    let tags = LabelTags::from_csv(TABLE).unwrap();
    let miku = tags.label2tag("hatsune_miku").unwrap();
    assert_eq!(miku.tag_id(), 1275);
    assert_eq!(miku.category(), TagCategory::Character);
    assert!(tags.label2tag("nobody").is_none());
}

#[test]
fn registry_rejects_duplicate_names() {
    let table = "tag_id,name,category,count\n1,solo,0,5\n2,solo,0,6\n";
    assert!(matches!(LabelTags::from_csv(table), Err(TaggerError::Tag(_))));
}

#[test]
fn registry_rejects_unknown_category_code() {
    for code in ["2", "6", "7", "8", "10", "", "x"] {
        let table = format!("tag_id,name,category,count\n1,solo,{},5\n", code);
        assert!(matches!(LabelTags::from_csv(&table), Err(TaggerError::Tag(_))), "code {:?}", code);
    }
}

#[test]
fn registry_rejects_malformed_rows() {
    // a missing column
    assert!(LabelTags::from_csv("tag_id,name,count\n1,solo,5\n").is_err());
    // a count that is not an integer
    assert!(LabelTags::from_csv("tag_id,name,category,count\n1,solo,0,many\n").is_err());
    // a record with a field too many
    assert!(LabelTags::from_csv("tag_id,name,category,count\n1,solo,0,5,9\n").is_err());
    // an id out of range
    assert!(LabelTags::from_csv("tag_id,name,category,count\n2147483648,solo,0,5\n").is_err());
}

#[test]
fn registry_of_header_only_is_empty() {
    assert_eq!(LabelTags::from_csv("tag_id,name,category,count\n").unwrap().total_tags(), 0);
    assert_eq!(LabelTags::from_csv("").unwrap().total_tags(), 0);
}

#[test]
fn category_codes() {
    assert_eq!(TagCategory::from_code("0"), Some(TagCategory::General));
    assert_eq!(TagCategory::from_code("1"), Some(TagCategory::Artist));
    assert_eq!(TagCategory::from_code("3"), Some(TagCategory::Copyright));
    assert_eq!(TagCategory::from_code("4"), Some(TagCategory::Character));
    assert_eq!(TagCategory::from_code("5"), Some(TagCategory::Meta));
    assert_eq!(TagCategory::from_code("9"), Some(TagCategory::Rating));
    assert_eq!(TagCategory::from_code("2"), None);
    assert_eq!(TagCategory::from_code("09"), None);
}

#[test]
fn integers_parse_as_std_does() {
    for s in ["0", "7", "-7", "+7", "2147483647", "-2147483648", "007", "", "-", "+", "1 ", " 1", "2147483648", "-2147483649", "1e3", "99999999999999999999", "١"] {
        assert_eq!(parse_i32(s), s.parse::<i32>().ok(), "{:?}", s);
    }
}
