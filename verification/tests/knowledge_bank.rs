use os_apps::json::{Json, JsonNumber};
use os_apps::knowledge::{
    basic_kanji_items, concept_body, concept_source, difficulty_band, grammar_content,
    import_api_url, import_complete_body, import_headers, import_progress_body, kanji_content,
    kanji_vocab_links, n5_grammar_items, n5_vocab_items, sequence_links, source_type,
    vocab_content, ConceptSource,
};
use serde_json::Value;

fn to_json(v: &Value) -> Json {
    match v {
        Value::Null => Json::Null,
        Value::Bool(b) => Json::Bool(*b),
        Value::Number(n) => Json::Number(match (n.as_u64(), n.as_i64()) {
            (Some(u), _) => JsonNumber::PosInt(u),
            (None, Some(i)) => JsonNumber::NegInt(i),
            _ => JsonNumber::Float {
                text: n.to_string(),
                as_i64: n.as_f64().map_or(0, |f| f as i64),
                as_u64: n.as_f64().map_or(0, |f| f as u64),
            },
        }),
        Value::String(s) => Json::String(s.clone()),
        Value::Array(items) => Json::Array(items.iter().map(to_json).collect()),
        Value::Object(map) => Json::Object(map.iter().map(|(k, v)| (k.clone(), to_json(v))).collect()),
    }
}

fn to_value(j: &Json) -> Value {
    match j {
        Json::Null => Value::Null,
        Json::Bool(b) => Value::Bool(*b),
        Json::Number(JsonNumber::PosInt(u)) => Value::from(*u),
        Json::Number(JsonNumber::NegInt(i)) => Value::from(*i),
        Json::Number(JsonNumber::Float { text, .. }) => serde_json::from_str(text).unwrap(),
        Json::String(s) => Value::String(s.clone()),
        Json::Array(items) => Value::Array(items.iter().map(to_value).collect()),
        Json::Object(members) => {
            Value::Object(members.iter().map(|(k, v)| (k.clone(), to_value(v))).collect())
        }
    }
}

fn json(text: &str) -> Json {
    to_json(&serde_json::from_str::<Value>(text).unwrap())
}

#[test]
fn tables_hold_the_n5_material() {
    let vocab = n5_vocab_items();
    assert_eq!(vocab.len(), 50);
    assert_eq!(vocab[0], ("食べる", "taberu", "to eat"));
    assert_eq!(vocab[49], ("天気", "tenki", "weather"));
    let kanji = basic_kanji_items();
    assert_eq!(kanji.len(), 20);
    assert_eq!(kanji[13], ("水", "sui/mizu", "water"));
    let grammar = n5_grammar_items();
    assert_eq!(grammar.len(), 15);
    assert_eq!(grammar[0], ("です", "Polite copula (is/am/are)", 1));
    assert!(grammar.iter().enumerate().all(|(i, g)| g.2 == i as u32 + 1));
}

#[test]
fn levels_map_to_difficulty_bands() {
    assert_eq!(difficulty_band("N5"), "beginner");
    assert_eq!(difficulty_band("N4"), "elementary");
    assert_eq!(difficulty_band("N3"), "intermediate");
    assert_eq!(difficulty_band("N2"), "upper_intermediate");
    assert_eq!(difficulty_band("N1"), "advanced");
    assert_eq!(difficulty_band("N0"), "beginner");
}

#[test]
fn sources_are_read_by_type() {
    assert_eq!(
        concept_source(&json(r#"{"type": "structured_list", "level": "N4"}"#)),
        ConceptSource::StructuredList { level: "N4".to_string() }
    );
    assert_eq!(
        concept_source(&json(r#"{"type": "structured_list"}"#)),
        ConceptSource::StructuredList { level: "N5".to_string() }
    );
    assert_eq!(concept_source(&json(r#"{"type": "kanji_list"}"#)), ConceptSource::KanjiList);
    assert_eq!(concept_source(&json(r#"{"type": "grammar_inventory"}"#)), ConceptSource::GrammarInventory);
    assert_eq!(
        concept_source(&json(r#"{"type": "audio"}"#)),
        ConceptSource::Unknown { source_type: "audio".to_string() }
    );
    assert_eq!(source_type(&json("{}")), "unknown");
}

#[test]
fn concept_body_wraps_the_fields() {
    let body = to_value(&concept_body(
        "japanese",
        "vocab",
        "水",
        vocab_content("水", "mizu", "water"),
        "beginner",
        &vec!["N5", "vocab"],
        "kb-1",
    ));
    let expected: Value = serde_json::from_str(
        r#"{"fields": {"domain": "japanese", "concept_type": "vocab", "label": "水",
            "content": {"term": "水", "reading": "mizu", "meaning": "water"},
            "difficulty_band": "beginner", "tags": ["N5", "vocab"], "knowledge_bank_id": "kb-1"}}"#,
    )
    .unwrap();
    assert_eq!(body, expected);
}

#[test]
fn contents_and_reports_carry_their_values() {
    assert_eq!(
        to_value(&kanji_content("日", "nichi/hi", "day/sun")),
        serde_json::from_str::<Value>(r#"{"character": "日", "reading": "nichi/hi", "meaning": "day/sun"}"#).unwrap()
    );
    assert_eq!(
        to_value(&grammar_content("です", "Polite copula (is/am/are)", 1)),
        serde_json::from_str::<Value>(r#"{"pattern": "です", "description": "Polite copula (is/am/are)", "order": 1}"#)
            .unwrap()
    );
    assert_eq!(
        to_value(&import_progress_body(70, 14, "grammar_inventory")),
        serde_json::from_str::<Value>(r#"{"concepts_imported": 70, "links_imported": 14, "source_type": "grammar_inventory"}"#)
            .unwrap()
    );
    assert_eq!(
        to_value(&import_complete_body(85, 20)),
        serde_json::from_str::<Value>(r#"{"total_concepts": 85, "total_links": 20}"#).unwrap()
    );
}

#[test]
fn grammar_points_chain_each_to_the_next() {
    let ids: Vec<String> = ["g1", "g2", "g3"].iter().map(|s| s.to_string()).collect();
    assert_eq!(
        sequence_links(&ids),
        vec![("g1".to_string(), "g2".to_string()), ("g2".to_string(), "g3".to_string())]
    );
    assert!(sequence_links(&vec!["g1".to_string()]).is_empty());
    assert!(sequence_links(&Vec::new()).is_empty());
}

#[test]
fn kanji_link_to_the_vocabulary_that_uses_them() {
    let kanji: Vec<(String, String)> =
        basic_kanji_items().iter().map(|k| (k.0.to_string(), format!("k-{}", k.0))).collect();
    let vocab: Vec<(String, String, String)> = n5_vocab_items()
        .iter()
        .map(|v| (v.0.to_string(), v.0.to_string(), format!("v-{}", v.0)))
        .collect();
    let links = kanji_vocab_links(&kanji, &vocab);
    let expected: Vec<(String, String)> = [
        ("日", "今日"),
        ("日", "明日"),
        ("日", "昨日"),
        ("水", "水"),
        ("大", "大きい"),
        ("小", "小さい"),
    ]
    .iter()
    .map(|(k, v)| (format!("k-{k}"), format!("v-{v}")))
    .collect();
    assert_eq!(links, expected);
}

#[test]
fn import_endpoint_and_headers() {
    assert_eq!(import_api_url(&json(r#"{"temper_api_url": "http://t:1"}"#)), "http://t:1");
    assert_eq!(import_api_url(&json(r#"{"temper_api_url": "{secret:x}"}"#)), "http://127.0.0.1:3000");
    assert_eq!(import_api_url(&json(r#"{"temper_api_url": ""}"#)), "http://127.0.0.1:3000");
    let headers = import_headers("tenant-a", "kb-1");
    assert_eq!(headers.len(), 5);
    assert_eq!(headers[1], ("x-tenant-id".to_string(), "tenant-a".to_string()));
    assert_eq!(headers[3], ("x-temper-principal-id".to_string(), "kb-1".to_string()));
    assert_eq!(headers[4], ("x-temper-agent-type".to_string(), "system".to_string()));
}
