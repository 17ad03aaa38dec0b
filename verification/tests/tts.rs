use telegram_notifier::tts::{
    clean_text_for_speech, speech_request_urls, speech_step, split_into_chunks, tts_error_text,
    SpeechStep, TtsFailure,
};

#[test]
fn test_clean_text() {
    let raw = "## *ALERT* — CPU: 95% | RAM: 85% [host]";
    let cleaned = clean_text_for_speech(raw);
    assert!(!cleaned.contains('*'));
    assert!(!cleaned.contains('#'));
    assert!(cleaned.contains("por ciento"));
}

#[test]
fn test_chunking() {
    let text = "Esta es una frase de prueba para comprobar la división en fragmentos pequeños.";
    let chunks = split_into_chunks(text, 25);
    assert!(chunks.len() > 1);
    for c in chunks {
        assert!(c.len() <= 25);
    }
}

#[test]
fn clean_text_exact_value() {
    let cleaned = clean_text_for_speech("## *ALERT* — CPU: 95% | RAM: 85% [host]");
    assert_eq!(cleaned, "ALERT — CPU: 95 por ciento RAM: 85 por ciento host");
}

#[test]
fn clean_text_spells_out_abbreviations_and_drops_links() {
    let cleaned = clean_text_for_speech("%cpu alto pid: 42 ver https://x.org y http://y.org\tpid 7 %mem");
    assert_eq!(
        cleaned,
        "porcentaje de procesador alto proceso 42 ver y proceso 7 porcentaje de memoria"
    );
}

#[test]
fn clean_text_of_only_symbols_is_empty() {
    assert_eq!(clean_text_for_speech("** ## `` __ ~~ || >< []"), "");
    assert_eq!(clean_text_for_speech(""), "");
}

#[test]
fn cleaned_text_never_holds_symbols() {
    let samples = ["*a*#b`c_d~e|f>g<h[i]j%k", "% %% 100%cpu", "**__``", "x%memy%"];
    for s in samples {
        let c = clean_text_for_speech(s);
        for ch in ['*', '#', '`', '_', '~', '|', '>', '<', '[', ']', '%'] {
            assert!(!c.contains(ch), "{:?} -> {:?}", s, c);
        }
        assert_eq!(c, c.split_whitespace().collect::<Vec<_>>().join(" "));
    }
}

#[test]
fn chunks_exact_values() {
    assert_eq!(split_into_chunks("a bb ccc", 4), vec!["a bb", "ccc"]);
    assert_eq!(split_into_chunks("  uno   dos  ", 140), vec!["uno dos"]);
    assert_eq!(split_into_chunks("", 10), Vec::<String>::new());
}

#[test]
fn chunks_keep_long_words_whole() {
    assert_eq!(split_into_chunks("abcdefghij kl", 3), vec!["abcdefghij", "kl"]);
}

#[test]
fn chunks_count_bytes_not_characters() {
    // "ñññ" is 6 bytes; with " ñ" the chunk would take 9 bytes.
    assert_eq!(split_into_chunks("ñññ ñ", 8), vec!["ñññ", "ñ"]);
    assert_eq!(split_into_chunks("ñññ ñ", 9), vec!["ñññ ñ"]);
}

#[test]
fn chunks_cover_the_words() {
    let text = "Esta es una frase de prueba para comprobar la división en fragmentos pequeños.";
    for max in [1usize, 5, 10, 25, 80] {
        let chunks = split_into_chunks(text, max);
        assert_eq!(chunks.join(" "), text.split_whitespace().collect::<Vec<_>>().join(" "));
        for c in &chunks {
            assert!(!c.is_empty());
            assert!(c.len() <= max || !c.contains(' '));
        }
    }
}

#[test]
fn speech_urls_encode_each_chunk() {
    let urls = speech_request_urls("Alerta de *prueba* ñ").unwrap();
    assert_eq!(
        urls,
        vec!["https://translate.google.com/translate_tts?ie=UTF-8&tl=es&client=tw-ob&q=Alerta+de+prueba+%C3%B1"]
    );
}

#[test]
fn speech_urls_split_long_text() {
    let word = "palabra ";
    let text = word.repeat(30);
    let urls = speech_request_urls(&text).unwrap();
    assert_eq!(urls.len(), 2);
    let prefix = "https://translate.google.com/translate_tts?ie=UTF-8&tl=es&client=tw-ob&q=";
    for u in &urls {
        assert!(u.starts_with(prefix));
        assert!(u.len() - prefix.len() <= 140);
    }
}

#[test]
fn speech_of_empty_text_is_refused() {
    assert_eq!(speech_request_urls("  ** ## "), Err("Texto vacío para síntesis de voz".to_string()));
}

#[test]
fn speech_is_cut_to_four_hundred_characters() {
    let text = "a".repeat(1000);
    let urls = speech_request_urls(&text).unwrap();
    assert_eq!(urls.len(), 1);
    assert!(urls[0].ends_with(&"a".repeat(400)));
    assert!(!urls[0].ends_with(&"a".repeat(401)));
}

fn urls(n: usize) -> Vec<String> {
    (0..n).map(|i| format!("u{}", i)).collect()
}

#[test]
fn speech_fetches_in_order_then_concatenates() {
    let urls = urls(3);
    let mut replies: Vec<Result<Vec<u8>, TtsFailure>> = Vec::new();
    for (k, part) in [vec![1u8, 2], vec![], vec![3]].into_iter().enumerate() {
        match speech_step(&urls, &replies) {
            SpeechStep::Fetch(u) => assert_eq!(u, format!("u{}", k)),
            SpeechStep::Done(_) => panic!("URLs are left"),
        }
        replies.push(Ok(part));
    }
    match speech_step(&urls, &replies) {
        SpeechStep::Done(r) => assert_eq!(r, Ok(vec![1u8, 2, 3])),
        SpeechStep::Fetch(_) => panic!("every URL answered"),
    }
}

#[test]
fn speech_stops_at_the_first_failure() {
    let urls = urls(3);
    let replies = vec![Ok(vec![1u8]), Err(TtsFailure::Status("500 Internal Server Error".to_string()))];
    match speech_step(&urls, &replies) {
        SpeechStep::Done(r) => {
            assert_eq!(r, Err("Servicio TTS devolvió status 500 Internal Server Error".to_string()))
        }
        SpeechStep::Fetch(_) => panic!("a failure ends synthesis"),
    }
}

#[test]
fn speech_without_audio_is_an_error() {
    let urls = urls(2);
    let replies: Vec<Result<Vec<u8>, TtsFailure>> = vec![Ok(vec![]), Ok(vec![])];
    match speech_step(&urls, &replies) {
        SpeechStep::Done(r) => assert_eq!(r, Err("No se pudo generar audio de voz".to_string())),
        SpeechStep::Fetch(_) => panic!("every URL answered"),
    }
}

#[test]
fn tts_failures_are_described() {
    assert_eq!(
        tts_error_text(&TtsFailure::Status("500 Internal Server Error".to_string())),
        "Servicio TTS devolvió status 500 Internal Server Error"
    );
    assert_eq!(
        tts_error_text(&TtsFailure::Connect("timeout".to_string())),
        "Error conectando con servicio TTS: timeout"
    );
    assert_eq!(
        tts_error_text(&TtsFailure::Download("eof".to_string())),
        "Error descargando audio TTS: eof"
    );
}
