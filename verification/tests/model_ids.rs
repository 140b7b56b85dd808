use zterm_llm::llm_id::LLMId;
use zterm_llm::model_id::{decode_hex_model_name, hex_name_would_panic, is_parsable_model_id, parse_local_model_id};
use zterm_llm::provider::LocalLLMProvider;

fn hex(name: &str) -> String {
    name.bytes().map(|b| format!("{:02x}", b)).collect()
}

#[test]
fn decodes_hex_names() {
    assert_eq!(decode_hex_model_name("6d69737472616c3a3762"), Some("mistral:7b".to_string()));
    assert_eq!(decode_hex_model_name("4142"), Some("AB".to_string()));
    assert_eq!(decode_hex_model_name("4a4B"), Some("JK".to_string()));
}

#[test]
fn plus_sign_pairs_read_as_one_digit() {
    assert_eq!(decode_hex_model_name("+a+b"), Some("\n\u{b}".to_string()));
}

#[test]
fn rejects_bad_hex() {
    assert_eq!(decode_hex_model_name(""), None);
    assert_eq!(decode_hex_model_name("abc"), None);
    assert_eq!(decode_hex_model_name("zz"), None);
    assert_eq!(decode_hex_model_name("-1"), None);
    assert_eq!(decode_hex_model_name("ff"), None);
    assert_eq!(decode_hex_model_name("é0"), None);
}

#[test]
fn parses_hex_ids_of_each_provider() {
    let name = "llama3.1:8b-instruct-q4_K_M";
    let id = LLMId::from(format!("local-ollama-hex-{}", hex(name)));
    assert_eq!(parse_local_model_id(&id), Some((LocalLLMProvider::Ollama, name.to_string())));
    let id = LLMId::from(format!("local-lmstudio-hex-{}", hex("lmstudio-community/gemma-3-4b-it-GGUF")));
    assert_eq!(
        parse_local_model_id(&id),
        Some((LocalLLMProvider::LMStudio, "lmstudio-community/gemma-3-4b-it-GGUF".to_string()))
    );
    let id = LLMId::from(format!("local-custom-hex-{}", hex("modèle")));
    assert_eq!(parse_local_model_id(&id), Some((LocalLLMProvider::Custom, "modèle".to_string())));
}

#[test]
fn parses_legacy_ids() {
    let id = LLMId::from("local-ollama-gemma3:4b");
    assert_eq!(parse_local_model_id(&id), Some((LocalLLMProvider::Ollama, "gemma3:4b".to_string())));
    let id = LLMId::from("local-lmstudio-qwen");
    assert_eq!(parse_local_model_id(&id), Some((LocalLLMProvider::LMStudio, "qwen".to_string())));
    let id = LLMId::from("local-custom-");
    assert_eq!(parse_local_model_id(&id), Some((LocalLLMProvider::Custom, String::new())));
}

#[test]
fn bad_hex_falls_back_to_legacy_form() {
    let id = LLMId::from("local-ollama-hex-zz");
    assert_eq!(parse_local_model_id(&id), Some((LocalLLMProvider::Ollama, "hex-zz".to_string())));
}

#[test]
fn other_ids_are_not_local_models() {
    assert_eq!(parse_local_model_id(&LLMId::from("gpt-4o")), None);
    assert_eq!(parse_local_model_id(&LLMId::from("local-other-x")), None);
}

#[test]
fn roundtrip_law_on_a_concrete_name() {
    for (prefix, provider) in [
        ("local-ollama-hex-", LocalLLMProvider::Ollama),
        ("local-lmstudio-hex-", LocalLLMProvider::LMStudio),
        ("local-custom-hex-", LocalLLMProvider::Custom),
    ] {
        let id = LLMId::from(format!("{}{}", prefix, hex("日本語 model")));
        assert!(is_parsable_model_id(&id));
        assert!(id.is_local());
        assert_eq!(parse_local_model_id(&id), Some((provider, "日本語 model".to_string())));
    }
}

#[test]
fn slicing_inside_a_character_is_detected() {
    assert!(hex_name_would_panic("a€"));
    assert!(!hex_name_would_panic("a€b"));
    assert!(!hex_name_would_panic("éé"));
    assert!(!is_parsable_model_id(&LLMId::from("local-ollama-hex-a€")));
    assert!(is_parsable_model_id(&LLMId::from("local-ollama-a€")));
    assert!(is_parsable_model_id(&LLMId::from("gpt")));
}

fn reference_decode(encoded: &str) -> Option<String> {
    if encoded.is_empty() || encoded.len() % 2 != 0 {
        return None;
    }
    let bytes = (0..encoded.len())
        .step_by(2)
        .map(|i| u8::from_str_radix(&encoded[i..i + 2], 16))
        .collect::<Result<Vec<_>, _>>()
        .ok()?;
    String::from_utf8(bytes).ok()
}

#[test]
fn hex_pairs_agree_with_from_str_radix() {
    let alphabet = ['0', '7', '9', 'a', 'f', 'A', 'F', 'g', 'G', '+', '-', ' ', 'x'];
    for a in alphabet {
        for b in alphabet {
            for c in ['4', '+', 'z'] {
                for d in ['1', 'b', '-'] {
                    let s: String = [a, b, c, d].iter().collect();
                    assert_eq!(decode_hex_model_name(&s), reference_decode(&s), "input {:?}", s);
                }
            }
        }
    }
}

#[test]
fn hex_names_round_trip_in_either_case() {
    for name in ["gemma3:4b", "Qwen/Qwen2.5-7B", "café:1b", "模型"] {
        let lower: String = name.bytes().map(|b| format!("{:02x}", b)).collect();
        let upper: String = name.bytes().map(|b| format!("{:02X}", b)).collect();
        assert!(!hex_name_would_panic(&lower) && !hex_name_would_panic(&upper));
        assert_eq!(decode_hex_model_name(&lower), Some(name.to_string()));
        assert_eq!(decode_hex_model_name(&upper), Some(name.to_string()));
    }
}

#[test]
fn ascii_ids_are_local_by_prefix() {
    let cases = [
        ("local-ollama-hex-zz", Some((LocalLLMProvider::Ollama, "hex-zz"))),
        ("local-ollama-mistral:7b", Some((LocalLLMProvider::Ollama, "mistral:7b"))),
        ("local-lmstudio-x", Some((LocalLLMProvider::LMStudio, "x"))),
        ("local-custom-", Some((LocalLLMProvider::Custom, ""))),
        ("local-other-x", None),
        ("gpt-4o", None),
    ];
    for (s, expected) in cases {
        let id = LLMId::from(s.to_string());
        assert!(is_parsable_model_id(&id));
        assert_eq!(parse_local_model_id(&id), expected.map(|(p, n)| (p, n.to_string())), "{}", s);
    }
}
