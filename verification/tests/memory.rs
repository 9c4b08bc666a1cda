use oxidizedgraph::memory::decision::{Decision, MemoryDecisionStore};
use oxidizedgraph::memory::document::{RepositoryDocument, RetrievalQuery, RetrievalResult};
use oxidizedgraph::memory::index::RepositoryIndex;
use oxidizedgraph::memory::pack::{ContextPacker, ContextPolicy};
use oxidizedgraph::memory::store::{AgentMemoryStore, DecisionMemory, EpisodicMemory, RunOutcome};
use oxidizedgraph::memory::surreal::SurrealDecisionStoreBuilder;
use oxidizedgraph::memory::terms::{estimate_tokens, tokenize};

fn doc(path: &str, content: &str) -> RepositoryDocument {
    RepositoryDocument::source("stevedores-org/oxidizedgraph", path, content)
}

fn d(run: &str, change: &str, title: &str) -> Decision {
    Decision::new(run, change, title, "rationale")
}

#[test]
fn repository_index_ranks_symbol_and_content_matches() {
    let mut index = RepositoryIndex::new();
    index.index_documents(vec![
        doc("src/memory.rs", "context packing retrieval ranking decisions").with_symbol("ContextPacker"),
        doc("src/graph.rs", "graph execution nodes edges"),
    ]);
    let results = index.query(&RetrievalQuery::new("context packer ranking").limit(2));
    assert_eq!(results.len(), 1);
    assert_eq!(results[0].document.path, "src/memory.rs");
    assert!(results[0].score > 3);
    assert!(results[0].matched_terms.contains(&"context".to_string()));
}

#[test]
fn repository_index_scores_exactly() {
    let mut index = RepositoryIndex::new();
    index.index_document(doc("src/memory.rs", "context packing retrieval ranking decisions").with_symbol("ContextPacker"));
    let results = index.query(&RetrievalQuery::new("context packer ranking"));
    // The symbol is the single term "contextpacker"; "context" and
    // "ranking" each occur once in the content (1 + 1 each).
    assert_eq!(results[0].score, 4);
    assert_eq!(results[0].matched_terms, vec!["context", "ranking"]);
}

#[test]
fn repository_index_replaces_documents_by_id() {
    let mut index = RepositoryIndex::new();
    index.index_document(doc("src/lib.rs", "old memory"));
    index.index_document(doc("src/lib.rs", "new retrieval"));
    assert!(index.query(&RetrievalQuery::new("old")).is_empty());
    assert_eq!(index.query(&RetrievalQuery::new("new")).len(), 1);
    assert_eq!(index.len(), 1);
}

#[test]
fn repository_index_filters_repo_prefix_and_score() {
    let mut index = RepositoryIndex::new();
    index.index_document(doc("src/a.rs", "alpha beta"));
    index.index_document(doc("docs/b.md", "alpha"));
    assert_eq!(index.query(&RetrievalQuery::new("alpha").path_prefix("src/")).len(), 1);
    assert!(index.query(&RetrievalQuery::new("alpha").repo("other/repo")).is_empty());
    assert!(index.query(&RetrievalQuery::new("alpha").min_score(3)).is_empty());
    assert!(index.remove_document("src/a.rs").is_some());
    assert!(index.remove_document("src/a.rs").is_none());
    assert_eq!(index.len(), 1);
}

#[test]
fn memory_store_returns_failed_attempts_and_queryable_decisions() {
    let mut store = AgentMemoryStore::new();
    store.record_episode(EpisodicMemory::new("issue-23", "run-1", "stevedores-org/oxidizedgraph", "Tried vector retrieval before indexing existed.", RunOutcome::Failure));
    store.record_episode(EpisodicMemory::new("issue-23", "run-2", "stevedores-org/oxidizedgraph", "Added deterministic lexical retrieval.", RunOutcome::Success));
    store.record_decision(
        DecisionMemory::new("decision-1", "issue-23", "stevedores-org/oxidizedgraph", "Use lexical retrieval first", "It avoids a mandatory vector database for local agents.")
            .with_alternative("Require embeddings at index time"),
    );
    assert_eq!(store.failed_attempts_for_task("issue-23").len(), 1);
    assert_eq!(store.episodes_for_task("issue-23").len(), 2);
    let decisions = store.query_decisions("vector database", 4);
    assert_eq!(decisions.len(), 1);
    assert_eq!(decisions[0].id, "decision-1");
    assert_eq!(store.decisions_for_repo("stevedores-org/oxidizedgraph").len(), 1);
}

#[test]
fn context_packer_respects_budget_and_marks_truncation() {
    let result = RetrievalResult {
        document: doc("src/memory.rs", "relevant context ".repeat(40).as_str()),
        score: 10,
        matched_terms: vec!["context".to_string()],
    };
    let episode = EpisodicMemory::new("issue-23", "run-1", "stevedores-org/oxidizedgraph", "previous failed attempt should be considered", RunOutcome::Failure);
    let decision = DecisionMemory::new("decision-1", "issue-23", "stevedores-org/oxidizedgraph", "keep prompt compact", "budgeted context avoids overflowing model limits");
    let packer = ContextPacker::new(70);
    let packed = packer.pack(&[result], &[&episode], &[&decision], &ContextPolicy::default());
    assert!(packed.estimated_tokens <= 70);
    assert!(packed.truncated);
    assert!(!packed.sections.is_empty());
}

#[test]
fn reserved_tokens_leave_no_budget() {
    let packer = ContextPacker::new(10).reserved_tokens(20);
    let episode = EpisodicMemory::new("t", "r", "repo", "s", RunOutcome::Success);
    let packed = packer.pack(&[], &[&episode], &[], &ContextPolicy::default());
    assert_eq!(packed.estimated_tokens, 0);
    assert!(packed.sections.is_empty());
    assert!(packed.truncated);
}

#[test]
fn tokenizer_and_estimates() {
    assert_eq!(tokenize("ContextPacker, ranking-2!"), vec!["contextpacker", "ranking"]);
    assert_eq!(estimate_tokens(""), 1);
    assert_eq!(estimate_tokens("abcdefgh"), 2);
    assert_eq!(estimate_tokens("abcdefghijk"), 2);
}

#[test]
fn decision_new_populates_fields() {
    let d = Decision::new("run-1", "src/foo.rs", "title", "rationale");
    assert!(!d.id.is_empty());
    assert_eq!(d.run_id, "run-1");
    assert_eq!(d.change_ref, "src/foo.rs");
    assert_eq!(d.title, "title");
    assert_eq!(d.rationale, "rationale");
    assert!(d.tags.is_empty());
    assert_eq!(d.metadata, "null");
}

#[test]
fn decision_builders_chain() {
    let d = Decision::new("run-1", "PR#9", "t", "r").with_tag("perf").with_tag("locking").with_metadata("{\"owner\":\"alice\"}");
    assert_eq!(d.tags, vec!["perf", "locking"]);
    assert_eq!(d.metadata, "{\"owner\":\"alice\"}");
}

#[test]
fn decision_with_tags_replaces() {
    let d = Decision::new("run-1", "x", "t", "r").with_tag("a").with_tags(&vec!["b".to_string(), "c".to_string()]);
    assert_eq!(d.tags, vec!["b", "c"]);
}

#[test]
fn record_and_get_round_trip() {
    let mut store = MemoryDecisionStore::new();
    let decision = d("run-1", "src/a.rs", "swap lock").with_tag("perf");
    let id = decision.id.clone();
    store.record(decision);
    let got = store.get(&id).expect("present");
    assert_eq!(got.title, "swap lock");
    assert_eq!(got.tags, vec!["perf"]);
}

#[test]
fn get_missing_returns_none() {
    let store = MemoryDecisionStore::new();
    assert!(store.get("does-not-exist").is_none());
}

#[test]
fn list_by_run_returns_newest_first() {
    let mut store = MemoryDecisionStore::new();
    let mut older = d("run-1", "a", "older");
    let newer = d("run-1", "b", "newer");
    older.created_at = newer.created_at - 10_000;
    store.record(older);
    store.record(newer);
    let listed = store.list_by_run("run-1");
    assert_eq!(listed.len(), 2);
    assert_eq!(listed[0].title, "newer");
    assert_eq!(listed[1].title, "older");
}

#[test]
fn list_by_change_isolates_artifacts() {
    let mut store = MemoryDecisionStore::new();
    store.record(d("run-1", "src/a.rs", "a1"));
    store.record(d("run-1", "src/b.rs", "b1"));
    store.record(d("run-2", "src/a.rs", "a2"));
    let a = store.list_by_change("src/a.rs");
    assert_eq!(a.len(), 2);
    assert!(a.iter().all(|d| d.change_ref == "src/a.rs"));
    let b = store.list_by_change("src/b.rs");
    assert_eq!(b.len(), 1);
    assert_eq!(b[0].title, "b1");
    assert!(store.list_by_change("src/c.rs").is_empty());
}

#[test]
fn list_by_tag_groups_across_runs_and_changes() {
    let mut store = MemoryDecisionStore::new();
    store.record(d("run-1", "src/a.rs", "perf change").with_tag("perf"));
    store.record(d("run-2", "src/b.rs", "perf + sec change").with_tag("perf").with_tag("security"));
    store.record(d("run-3", "src/c.rs", "doc only").with_tag("docs"));
    assert_eq!(store.list_by_tag("perf").len(), 2);
    assert_eq!(store.list_by_tag("security").len(), 1);
    assert!(store.list_by_tag("nope").is_empty());
}

#[test]
fn recent_truncates_and_orders() {
    let mut store = MemoryDecisionStore::new();
    let now = 1_700_000_000_000i64;
    for i in 0..5 {
        let mut decision = d("run-1", &format!("change-{i}"), &format!("t{i}"));
        decision.created_at = now + i * 1000;
        store.record(decision);
    }
    let top3 = store.recent(3);
    assert_eq!(top3.len(), 3);
    assert_eq!(top3[0].title, "t4");
    assert_eq!(top3[1].title, "t3");
    assert_eq!(top3[2].title, "t2");
}

#[test]
fn delete_removes_from_all_indexes() {
    let mut store = MemoryDecisionStore::new();
    let decision = d("run-1", "src/a.rs", "t").with_tag("perf");
    let id = decision.id.clone();
    store.record(decision);
    store.delete(&id);
    assert!(store.get(&id).is_none());
    assert!(store.list_by_run("run-1").is_empty());
    assert!(store.list_by_change("src/a.rs").is_empty());
    assert!(store.list_by_tag("perf").is_empty());
}

#[test]
fn delete_missing_is_noop() {
    let mut store = MemoryDecisionStore::new();
    store.delete("never-recorded");
    assert!(store.recent(10).is_empty());
}

#[test]
fn record_overwrites_and_reindexes() {
    let mut store = MemoryDecisionStore::new();
    let first = d("run-1", "src/a.rs", "v1").with_tag("perf");
    let id = first.id.clone();
    store.record(first);
    let updated = Decision {
        id: id.clone(),
        run_id: "run-2".into(),
        change_ref: "src/b.rs".into(),
        title: "v2".into(),
        rationale: "different".into(),
        tags: vec!["security".into()],
        created_at: 1_700_000_000_000,
        metadata: "null".into(),
    };
    store.record(updated);
    assert!(store.list_by_run("run-1").is_empty());
    assert!(store.list_by_change("src/a.rs").is_empty());
    assert!(store.list_by_tag("perf").is_empty());
    assert_eq!(store.list_by_run("run-2").len(), 1);
    assert_eq!(store.list_by_change("src/b.rs").len(), 1);
    assert_eq!(store.list_by_tag("security").len(), 1);
    assert_eq!(store.get(&id).unwrap().title, "v2");
}

#[test]
fn repeated_tag_lists_decision_twice() {
    let mut store = MemoryDecisionStore::new();
    store.record(d("run-1", "a", "t").with_tag("x").with_tag("x"));
    assert_eq!(store.list_by_tag("x").len(), 2);
}

#[test]
fn surreal_builder_settings() {
    let b = SurrealDecisionStoreBuilder::connect_remote("ws://db:8000");
    assert_eq!(b.url(), "ws://db:8000");
    assert_eq!(b.namespace_name(), "oxidizedgraph");
    assert_eq!(b.database_name(), "decisions");
    assert!(b.sign_in().is_none());
    let b = b.credentials("root", "pw").namespace("ns").database("db");
    assert_eq!(b.sign_in(), Some(("root", "pw")));
    assert_eq!(b.namespace_name(), "ns");
    assert_eq!(b.database_name(), "db");
}
