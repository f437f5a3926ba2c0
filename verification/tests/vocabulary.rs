use moyu::vocabulary::{
    blacklist_vocabulary_term, empty_vocabulary_store, filter_vocabulary_entries,
    normalize_vocabulary_term, remove_blacklisted_entries_from_sources, remove_vocabulary_source,
    restore_vocabulary_term, save_vocabulary_source, vocabulary_blacklist_set, vocabulary_entry_term,
    VocabularyEntry, VocabularySourcePayload, VOCABULARY_SOURCE_LIMIT,
};

fn entry(term: Option<&str>) -> VocabularyEntry {
    VocabularyEntry {
        term: term.map(|t| t.to_string()),
        json: format!("{{\"term\":{:?}}}", term.unwrap_or("")),
    }
}

fn payload(path: &str, terms: &[&str]) -> VocabularySourcePayload {
    VocabularySourcePayload {
        path: path.to_string(),
        file_name: "f.txt".to_string(),
        char_count: 10,
        sentence_count: 2,
        entries: terms.iter().map(|t| entry(Some(t))).collect(),
    }
}

#[test]
fn terms_are_trimmed() {
    assert_eq!(normalize_vocabulary_term("  词语 \n"), "词语");
    assert_eq!(normalize_vocabulary_term("\u{3000}全角\u{3000}"), "全角");
    assert_eq!(normalize_vocabulary_term(" \t "), "");
    assert_eq!(vocabulary_entry_term(&entry(Some(" a "))), Some("a".to_string()));
    assert_eq!(vocabulary_entry_term(&entry(Some("  "))), None);
    assert_eq!(vocabulary_entry_term(&entry(None)), None);
}

#[test]
fn blacklisted_entries_are_filtered() {
    let mut store = empty_vocabulary_store();
    store.blacklist = vec![" a ".to_string(), "".to_string(), "c".to_string()];
    let set = vocabulary_blacklist_set(&store);
    assert_eq!(set, vec!["a".to_string(), "c".to_string()]);
    let kept = filter_vocabulary_entries(
        vec![entry(Some("a")), entry(Some("b")), entry(None), entry(Some(" c")), entry(Some(" "))],
        &set,
    );
    assert_eq!(kept, vec![entry(Some("b")), entry(None), entry(Some(" "))]);
}

#[test]
fn saving_sources_upserts_by_lowercased_path_and_caps() {
    let mut store = empty_vocabulary_store();
    store.blacklist.push("x".to_string());
    save_vocabulary_source(&mut store, payload("C:/Words/A.txt", &["x", "y"]), "t1".to_string()).unwrap();
    assert_eq!(store.sources.len(), 1);
    assert_eq!(store.sources[0].id, "c:/words/a.txt");
    assert_eq!(store.sources[0].imported_at, "t1");
    assert_eq!(store.sources[0].entries, vec![entry(Some("y"))]);
    save_vocabulary_source(&mut store, payload("c:/words/a.TXT", &["z"]), "t2".to_string()).unwrap();
    assert_eq!(store.sources.len(), 1);
    assert_eq!(store.sources[0].path, "c:/words/a.TXT");
    assert_eq!(store.sources[0].entries, vec![entry(Some("z"))]);
    for i in 0..VOCABULARY_SOURCE_LIMIT {
        save_vocabulary_source(&mut store, payload(&format!("p{i}"), &[]), "t".to_string()).unwrap();
    }
    assert_eq!(store.sources.len(), VOCABULARY_SOURCE_LIMIT);
    assert_eq!(store.sources[0].id, "p0");
    assert_eq!(store.sources[VOCABULARY_SOURCE_LIMIT - 1].id, format!("p{}", VOCABULARY_SOURCE_LIMIT - 1));
}

#[test]
fn incomplete_source_is_refused() {
    let mut store = empty_vocabulary_store();
    let mut p = payload("  ", &[]);
    assert_eq!(save_vocabulary_source(&mut store, p.clone(), "t".to_string()), Err("来源文件信息不完整".to_string()));
    p.path = "a.txt".to_string();
    p.file_name = " ".to_string();
    assert_eq!(save_vocabulary_source(&mut store, p, "t".to_string()), Err("来源文件信息不完整".to_string()));
    assert!(store.sources.is_empty());
}

#[test]
fn removing_a_source() {
    let mut store = empty_vocabulary_store();
    save_vocabulary_source(&mut store, payload("a", &[]), "t".to_string()).unwrap();
    save_vocabulary_source(&mut store, payload("b", &[]), "t".to_string()).unwrap();
    remove_vocabulary_source(&mut store, "a");
    assert_eq!(store.sources.len(), 1);
    assert_eq!(store.sources[0].id, "b");
    remove_vocabulary_source(&mut store, "missing");
    assert_eq!(store.sources.len(), 1);
}

#[test]
fn blacklisting_and_restoring_terms() {
    let mut store = empty_vocabulary_store();
    save_vocabulary_source(&mut store, payload("a", &["词", "语", " 词 "]), "t".to_string()).unwrap();
    blacklist_vocabulary_term(&mut store, " 词 ").unwrap();
    assert_eq!(store.blacklist, vec!["词".to_string()]);
    assert_eq!(store.sources[0].entries, vec![entry(Some("语"))]);
    blacklist_vocabulary_term(&mut store, "词").unwrap();
    assert_eq!(store.blacklist.len(), 1);
    assert_eq!(blacklist_vocabulary_term(&mut store, "  "), Err("词语不能为空".to_string()));
    assert_eq!(restore_vocabulary_term(&mut store, "语"), Err("词语不在黑名单中".to_string()));
    assert_eq!(restore_vocabulary_term(&mut store, ""), Err("词语不能为空".to_string()));
    restore_vocabulary_term(&mut store, " 词").unwrap();
    assert!(store.blacklist.is_empty());
    // Entries dropped while the term was listed stay dropped.
    assert_eq!(store.sources[0].entries, vec![entry(Some("语"))]);
}

#[test]
fn loading_drops_entries_blacklisted_since() {
    let mut store = empty_vocabulary_store();
    save_vocabulary_source(&mut store, payload("a", &["p", "q"]), "t".to_string()).unwrap();
    store.blacklist.push(" q".to_string());
    remove_blacklisted_entries_from_sources(&mut store);
    assert_eq!(store.sources[0].entries, vec![entry(Some("p"))]);
    assert_eq!(store.blacklist, vec![" q".to_string()]);
}
