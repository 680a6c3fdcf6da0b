use silo_core::database::Database;
use silo_core::embed::NoopEmbedder;
use silo_core::llm::{trim_spaces, Llm, NoopLlm, OllamaCliLlm};
use silo_core::strutil::{ascii_lower, contains_sub, str_le, u64_to_string, usize_to_string};
use silo_core::tools::{err_text, silo_search};

#[test]
fn err_text_wraps_message_as_failed_result() {
    let r = err_text("something broke".to_string());
    assert!(r.is_error);
    assert_eq!(r.content.len(), 1);
    assert_eq!(r.content[0].kind, "text");
    assert_eq!(r.content[0].text, "something broke");
}

#[test]
fn search_on_disabled_store_reports_reason() {
    let db = Database::disabled("no backend configured".to_string());
    let err = silo_search(&db, &NoopEmbedder, "query".to_string(), None).unwrap_err();
    assert_eq!(err, "Knowledge base is disabled: no backend configured");
}

#[test]
fn search_on_enabled_store_returns_ranked_hits() {
    let mut db = Database::new();
    db.add_document("/a.txt", "alpha contents").unwrap();
    db.add_document("/b.txt", "beta contents").unwrap();
    let hits = silo_search(&db, &NoopEmbedder, "anything".to_string(), Some(1)).unwrap();
    assert_eq!(hits.len(), 1);
    assert_eq!(hits[0].score, Some(0));
    let all = silo_search(&db, &NoopEmbedder, "anything".to_string(), None).unwrap();
    assert_eq!(all.len(), 2);
}

#[test]
fn noop_llm_always_fails_with_guidance() {
    let err = NoopLlm.generate("hi".to_string()).unwrap_err();
    assert!(err.contains("SILO_LLM_BACKEND"));
}

#[test]
fn ollama_interpretation_trims_success_output() {
    let llm = OllamaCliLlm { ollama_path: "ollama".to_string(), model: "m".to_string() };
    let out = llm.interpret_output(true, "exit status: 0", "  the answer \n", "").unwrap();
    assert_eq!(out, "the answer");
}

#[test]
fn ollama_interpretation_adds_connection_hint() {
    let llm = OllamaCliLlm { ollama_path: "ollama".to_string(), model: "m".to_string() };
    let err = llm
        .interpret_output(false, "exit status: 1", "", "Error: could not connect to ollama\n")
        .unwrap_err();
    assert_eq!(
        err,
        "ollama error: Error: could not connect to ollama (hint: start the Ollama daemon: \
         `ollama serve` or open the Ollama app)"
    );
}

#[test]
fn ollama_interpretation_without_stderr_reports_status() {
    let llm = OllamaCliLlm { ollama_path: "ollama".to_string(), model: "m".to_string() };
    let err = llm.interpret_output(false, "exit status: 2", "", "  \n").unwrap_err();
    assert_eq!(err, "ollama exited with status exit status: 2");
}

#[test]
fn ollama_interpretation_plain_error_has_no_hint() {
    let llm = OllamaCliLlm { ollama_path: "ollama".to_string(), model: "m".to_string() };
    let err = llm
        .interpret_output(false, "exit status: 1", "", "model not found\n")
        .unwrap_err();
    assert_eq!(err, "ollama error: model not found");
}

#[test]
fn trim_and_contains_behave_like_their_specs() {
    assert_eq!(trim_spaces("  a b \t"), "a b");
    assert_eq!(trim_spaces(""), "");
    assert_eq!(trim_spaces(" \n "), "");
    assert_eq!(trim_spaces("x"), "x");
    assert!(contains_sub("could not connect to daemon", "could not connect"));
    assert!(!contains_sub("connection refused", "could not connect"));
    assert!(contains_sub("abc", ""));
    assert!(!contains_sub("ab", "abc"));
}

#[test]
fn ascii_lower_folds_only_ascii_uppercase() {
    assert_eq!(ascii_lower("MiXeD 123 Ärger"), "mixed 123 Ärger");
    assert_eq!(ascii_lower(""), "");
    assert_eq!(ascii_lower("ABCXYZ"), "abcxyz");
}

#[test]
fn decimal_rendering_matches_std() {
    for n in [0usize, 1, 9, 10, 99, 12345, usize::MAX] {
        assert_eq!(usize_to_string(n), n.to_string());
    }
    for n in [0u64, 7, 100, u64::MAX] {
        assert_eq!(u64_to_string(n), n.to_string());
    }
}

#[test]
fn string_order_matches_std() {
    let pairs = [
        ("a", "b"),
        ("", "a"),
        ("abc", "abd"),
        ("abc", "abc"),
        ("z", "za"),
        ("/r/a.txt", "/r/b.txt"),
    ];
    for (a, b) in pairs {
        assert_eq!(str_le(a, b), a <= b);
        assert_eq!(str_le(b, a), b <= a);
    }
}
