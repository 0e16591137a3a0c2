use qm_core::index::{DatabaseIndex, DifficultyDistribution, TopicIndexEntry, TopicQuestions};
use qm_core::models::{Answer, Question};
use qm_core::jsondb::{DatabaseData, LazyDbConfig};
use qm_core::slug::generate_slug;

#[test]
fn test_default_database_index() {
    let index = DatabaseIndex::default();
    assert_eq!(index.version, "2.0");
    assert_eq!(index.format, "lazy-indexed");
    assert_eq!(index.stats.total_topics, 0);
    assert_eq!(index.stats.total_questions, 0);
}

#[test]
fn test_update_stats() {
    let mut index = DatabaseIndex::default();

    index.topics_index.insert(
        "topic-1".to_string(),
        TopicIndexEntry {
            name: "Test Topic".to_string(),
            question_count: 10,
            file_path: "topics/topic-1/questions.json".to_string(),
            tags: vec![],
            difficulty_distribution: DifficultyDistribution::default(),
            last_modified: chrono::Utc::now().to_rfc3339(),
        },
    );

    index.update_stats();

    assert_eq!(index.stats.total_topics, 1);
    assert_eq!(index.stats.total_questions, 10);
}

#[test]
fn test_generate_slug() {
    assert_eq!(generate_slug("Java & Core Programming"), "java-core-programming");
    assert_eq!(generate_slug("Spring Boot"), "spring-boot");
    assert_eq!(generate_slug("SQL & Databases"), "sql-databases");
}

#[test]
fn test_jql_basic_query() {
    // Test that we can construct a basic jql query
    let query = ".questions";
    assert_eq!(query, ".questions");

    let query2 = ".topics[0]";
    assert!(query2.contains("[0]"));
}

#[test]
fn test_default_database_data() {
    let data = DatabaseData::default();
    assert_eq!(data.version, "1.0");
    assert_eq!(data.topics.len(), 0);
    assert_eq!(data.questions.len(), 0);
}

#[test]
fn test_lazy_db_config_default() {
    let config = LazyDbConfig::default();
    assert_eq!(config.cache_capacity, 10);
    assert!(config.auto_save);
}

#[test]
fn test_topic_questions_new() {
    let tq = TopicQuestions::new("topic-1".to_string());
    assert_eq!(tq.topic_id, "topic-1");
    assert_eq!(tq.version, "2.0");
    assert_eq!(tq.questions.len(), 0);
}

#[test]
fn test_lazy_questions_repository_creation() {
    // This test just verifies the struct can be created
    // Full integration tests would require a real database
}

#[test]
fn test_lazy_topics_repository_creation() {
    // This test just verifies the struct can be created
    // Full integration tests would require a real database
}

#[test]
fn test_quick_refresher_filters_mastered() {
    // This would require a mock database, skipping for now
    // In a real test, we'd verify that only mastered questions are included
}

#[test]
fn test_sequential_ordering() {
    // This would require a mock database, skipping for now
    // In a real test, we'd verify the ordering logic
}

#[test]
fn generate_slug_edge_cases() {
    assert_eq!(generate_slug(""), "");
    assert_eq!(generate_slug("---"), "");
    assert_eq!(generate_slug("  Rust 2024!  "), "rust-2024");
    assert_eq!(generate_slug("a&&&&b"), "a-b");
}

fn sample_question(id: &str, difficulty: &str, tags: &[&str]) -> Question {
    Question {
        id: id.to_string(),
        topic_id: "t1".to_string(),
        subtopic: None,
        question_number: 1,
        question: "q".to_string(),
        answer: Answer { markdown: "a".to_string() },
        tags: tags.iter().map(|t| t.to_string()).collect(),
        difficulty: difficulty.to_string(),
        order: 1,
        created_at: "2024-01-01T00:00:00+00:00".to_string(),
        updated_at: "2024-01-01T00:00:00+00:00".to_string(),
    }
}

#[test]
fn index_update_topic_entry_and_remove_topic() {
    let mut index = DatabaseIndex::default();
    let questions = vec![
        sample_question("q1", "beginner", &["io"]),
        sample_question("q2", "advanced", &["io", "net"]),
    ];
    index.update_topic_entry(
        "topic-1".to_string(),
        "Topic One".to_string(),
        &questions,
        "topics/topic-1/questions.json".to_string(),
    );
    assert_eq!(index.stats.total_topics, 1);
    assert_eq!(index.stats.total_questions, 2);
    let entry = index.topics_index.get(&"topic-1".to_string()).unwrap();
    assert_eq!(entry.name, "Topic One");
    assert_eq!(entry.question_count, 2);
    assert_eq!(entry.difficulty_distribution.beginner, 1);
    assert_eq!(entry.difficulty_distribution.advanced, 1);
    assert_eq!(entry.tags, vec!["io", "net"]);

    index.remove_topic("topic-1");
    assert_eq!(index.stats.total_topics, 0);
    assert_eq!(index.stats.total_questions, 0);
    assert!(index.topics_index.get(&"topic-1".to_string()).is_none());
    assert!(index.global_tags.entries.is_empty());
}

#[test]
fn remove_topic_scrubs_tags_but_keeps_shared_ones() {
    let mut index = DatabaseIndex::default();
    index.update_topic_entry(
        "topic-1".to_string(),
        "One".to_string(),
        &[sample_question("q1", "beginner", &["io"])],
        "topics/topic-1/questions.json".to_string(),
    );
    index.update_topic_entry(
        "topic-2".to_string(),
        "Two".to_string(),
        &[sample_question("q2", "beginner", &["io", "db"])],
        "topics/topic-2/questions.json".to_string(),
    );

    index.remove_topic("topic-1");
    // the shared tag keeps the other topic; nothing else survives for it
    let io = index
        .global_tags
        .entries
        .iter()
        .find(|slot| slot.key == "io")
        .expect("shared tag stays");
    assert_eq!(io.info.topics, vec!["topic-2"]);
    assert!(index.global_tags.entries.iter().any(|slot| slot.key == "db"));

    index.remove_topic("topic-2");
    // tags left without topics are dropped
    assert!(index.global_tags.entries.is_empty());
    assert_eq!(index.stats.total_topics, 0);
}
