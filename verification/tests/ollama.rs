use llama_specs::models::ollama::{
    capitalize_words, entries_from_listing, named_tag_lookup, parse_library_html,
    parse_param_from_tag, resolve_params, ListedModel,
};
use llama_specs::models::ModelEntry;

/// A parameter count in billions, as the catalogue shows it.
fn billions(count: u64) -> f64 {
    count as f64 / 1e9
}

fn parsed(tag: &str) -> Option<f64> {
    parse_param_from_tag(tag).map(billions)
}

#[test]
fn parse_integer_param() {
    assert_eq!(parsed("8b"), Some(8.0));
    assert_eq!(parsed("70b"), Some(70.0));
    assert_eq!(parsed("8B"), Some(8.0));
}

#[test]
fn parse_decimal_param() {
    assert_eq!(parsed("0.5b"), Some(0.5));
    assert_eq!(parsed("1.5b"), Some(1.5));
    assert_eq!(parsed("3.8b"), Some(3.8));
}

#[test]
fn parse_param_with_suffix() {
    assert_eq!(parsed("8b-instruct"), Some(8.0));
    assert_eq!(parsed("14b-chat"), Some(14.0));
}

#[test]
fn parse_million_param() {
    assert_eq!(parsed("270m"), Some(0.27));
    assert_eq!(parsed("500m"), Some(0.5));
}

#[test]
fn unknown_tag_returns_none() {
    assert_eq!(parsed("latest"), None);
    assert_eq!(parsed("mini"), None);
}

#[test]
fn named_tag_mini() {
    assert_eq!(billions(named_tag_lookup("mini")), 3.8);
    assert_eq!(billions(named_tag_lookup("mini-instruct")), 3.8);
}

#[test]
fn named_tag_unknown() {
    assert_eq!(billions(named_tag_lookup("latest")), 0.0);
    assert_eq!(billions(named_tag_lookup("xyz")), 0.0);
}

#[test]
fn capitalize_words_basic() {
    assert_eq!(capitalize_words("deepseek-r1"), "Deepseek R1");
    assert_eq!(capitalize_words("llama3"), "Llama3");
    assert_eq!(capitalize_words("phi-3-mini"), "Phi 3 Mini");
}

#[test]
fn parse_library_html_basic() {
    let html = r#"<!DOCTYPE html><html><body><ul>
        <li x-test-model>
          <a href="/library/llama3">
            <div x-test-model-title title="llama3">
              <h2>llama3</h2>
              <p class="max-w-lg">Meta's Llama 3 model.</p>
            </div>
            <div>
              <span x-test-size>8b</span>
              <span x-test-size>70b</span>
            </div>
          </a>
        </li>
    </ul></body></html>"#;

    let map: Vec<ModelEntry> = Vec::new();
    let result = parse_library_html(html, &map).unwrap();

    assert_eq!(result.len(), 2);
    assert_eq!(result[0].name, "llama3:8b");
    assert_eq!(billions(result[0].param_count), 8.0);
    assert_eq!(result[1].name, "llama3:70b");
    assert_eq!(billions(result[1].param_count), 70.0);
    assert_eq!(result[0].description, "Meta's Llama 3 model.");
}

#[test]
fn parse_library_html_no_sizes_uses_bare_name() {
    let html = r#"<!DOCTYPE html><html><body><ul>
        <li x-test-model>
          <a href="/library/mymodel">
            <div x-test-model-title title="mymodel">
              <h2>mymodel</h2>
            </div>
          </a>
        </li>
    </ul></body></html>"#;

    let map: Vec<ModelEntry> = Vec::new();
    let result = parse_library_html(html, &map).unwrap();

    assert_eq!(result.len(), 1);
    assert_eq!(result[0].name, "mymodel");
    assert_eq!(billions(result[0].param_count), 0.0);
}

// ---------------------------------------------------------------------------
// Further cases
// ---------------------------------------------------------------------------

#[test]
fn parse_param_exact_counts() {
    assert_eq!(parse_param_from_tag("8b"), Some(8_000_000_000));
    assert_eq!(parse_param_from_tag("270m"), Some(270_000_000));
    assert_eq!(parse_param_from_tag("1.25b"), Some(1_250_000_000));
    assert_eq!(parse_param_from_tag("0.5M"), Some(500_000));
}

#[test]
fn parse_param_rounds_fractions_up() {
    // Ten digits after the point is a tenth of a parameter: a whole one.
    assert_eq!(parse_param_from_tag("0.0000000001b"), Some(1));
    assert_eq!(parse_param_from_tag("1.0000000001b"), Some(1_000_000_001));
    assert_eq!(parse_param_from_tag("1.0000000000b"), Some(1_000_000_000));
}

#[test]
fn parse_param_saturates_huge_counts() {
    assert_eq!(parse_param_from_tag("99999999999999999999b"), Some(u64::MAX));
    assert_eq!(parse_param_from_tag("18446744073709551615b"), Some(u64::MAX));
}

#[test]
fn parse_param_skips_invalid_numerals() {
    // Two decimal points do not read as a number; the scan goes on.
    assert_eq!(parse_param_from_tag("1.2.3b"), None);
    assert_eq!(parse_param_from_tag("1.2.3b-7b"), Some(7_000_000_000));
    // Zero is not a parameter count.
    assert_eq!(parse_param_from_tag("0b"), None);
    assert_eq!(parse_param_from_tag("0b-2b"), Some(2_000_000_000));
    // A leading point is skipped: ".5b" reads the "5".
    assert_eq!(parse_param_from_tag(".5b"), Some(5_000_000_000));
    // A number not followed by a unit is passed over.
    assert_eq!(parse_param_from_tag("v2-13b"), Some(13_000_000_000));
    assert_eq!(parse_param_from_tag("q4_0"), None);
    assert_eq!(parse_param_from_tag(""), None);
}

#[test]
fn named_tag_table() {
    assert_eq!(named_tag_lookup("medium"), 14_000_000_000);
    assert_eq!(named_tag_lookup("LARGE"), 34_000_000_000);
    assert_eq!(named_tag_lookup("small-v2"), 7_000_000_000);
    assert_eq!(named_tag_lookup("tiny"), 1_100_000_000);
    assert_eq!(named_tag_lookup("nemo"), 12_000_000_000);
    assert_eq!(named_tag_lookup("nano"), 500_000_000);
    assert_eq!(named_tag_lookup("minis"), 0);
    assert_eq!(named_tag_lookup(""), 0);
}

fn entry(name: &str, param_count: u64) -> ModelEntry {
    ModelEntry {
        name: name.to_string(),
        param_count,
        family: String::new(),
        description: String::new(),
    }
}

#[test]
fn resolve_params_priority() {
    let db = vec![entry("llama3:8b", 8_030_000_000), entry("phi3:mini", 3_820_000_000)];
    // The static database wins.
    assert_eq!(resolve_params("llama3:8b", &db), 8_030_000_000);
    assert_eq!(resolve_params("phi3:mini", &db), 3_820_000_000);
    // Then the numeric tag.
    assert_eq!(resolve_params("llama3:70b", &db), 70_000_000_000);
    // Then the named tag.
    assert_eq!(resolve_params("phi3:medium", &db), 14_000_000_000);
    // Unknown.
    assert_eq!(resolve_params("llama3:latest", &db), 0);
    assert_eq!(resolve_params("llama3", &db), 0);
    // Only the text between the first and a second colon is the tag.
    assert_eq!(resolve_params("x:7b:q4", &db), 7_000_000_000);
}

#[test]
fn resolve_params_last_duplicate_wins() {
    let db = vec![entry("m:1b", 1), entry("m:1b", 2)];
    assert_eq!(resolve_params("m:1b", &db), 2);
}

#[test]
fn capitalize_words_edges() {
    assert_eq!(capitalize_words(""), "");
    assert_eq!(capitalize_words("a--b"), "A  B");
    assert_eq!(capitalize_words("-x"), " X");
    assert_eq!(capitalize_words("ßeta"), "SSeta");
}

#[test]
fn entries_from_listing_trims_and_skips() {
    let listing = vec![
        ListedModel { titles: vec![], descriptions: vec![], sizes: vec![] },
        ListedModel { titles: vec![None], descriptions: vec![], sizes: vec!["7b".to_string()] },
        ListedModel { titles: vec![Some("   ".to_string())], descriptions: vec![], sizes: vec![] },
        ListedModel {
            titles: vec![Some("  qwen2.5-coder ".to_string()), Some("ignored".to_string())],
            descriptions: vec!["\n  Code model. ".to_string(), "second".to_string()],
            sizes: vec![" 7B ".to_string(), "  ".to_string(), "0.5b".to_string()],
        },
    ];
    let db = vec![entry("qwen2.5-coder:7b", 7_610_000_000)];
    let result = entries_from_listing(&listing, &db).unwrap();
    assert_eq!(result.len(), 2);
    assert_eq!(result[0].name, "qwen2.5-coder:7b");
    assert_eq!(result[0].param_count, 7_610_000_000);
    assert_eq!(result[0].family, "Qwen2.5 Coder");
    assert_eq!(result[0].description, "Code model.");
    assert_eq!(result[1].name, "qwen2.5-coder:0.5b");
    assert_eq!(result[1].param_count, 500_000_000);
}

#[test]
fn entries_from_empty_listing_is_an_error() {
    let db: Vec<ModelEntry> = Vec::new();
    let err = entries_from_listing(&Vec::new(), &db).unwrap_err();
    assert_eq!(err, "No models found — ollama.com/library structure may have changed");
}

#[test]
fn parse_library_html_without_models_is_an_error() {
    let db: Vec<ModelEntry> = Vec::new();
    let err = parse_library_html("<html><body><p>nothing</p></body></html>", &db).unwrap_err();
    assert_eq!(err, "No models found — ollama.com/library structure may have changed");
}
