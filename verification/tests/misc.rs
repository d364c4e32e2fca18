use book_generator::book::{
    Book, Braindump, Chapter, Characters, Content, Context, Genre, Scene, Style, Synopsis,
    TemporarySummary,
};
use book_generator::cli::{
    answer_is_y, answer_is_yes, author_or_default, chosen_directory, collect_multiline,
    has_renderable_content, parse_check_api_args, parse_cleanup_args, parse_pdf_args, CheckApiArgs,
    CleanupArgs,
};
use book_generator::config::{Config, EnvValues};
use book_generator::cover::{extract_svg_from_response, fallback_cover_svg, generate_color_from_text};
use book_generator::error::BookGeneratorError;
use book_generator::llm::{
    anthropic_role, api_available_for_status, frame_system_prompt, gateway_config, join_messages,
    max_tokens_or_default, model_for_call, monitor_wait_secs, next_backoff_ms, ollama_host,
    ollama_port, split_messages, AnthropicLLM, Message, MessageType, RetryStep, Role,
};
use book_generator::outline::{Outline, SceneOutline};
use book_generator::prompts::{Prompts, BRAINDUMP_TEMPLATE, GENRE_TEMPLATE};
use book_generator::statistics::{format_duration, BookCounts};

fn strings(v: &[&str]) -> Vec<String> {
    v.iter().map(|s| s.to_string()).collect()
}

fn msg(t: MessageType, c: &str) -> Message {
    Message { message_type: t, content: c.to_string() }
}

#[test]
fn svg_picked_from_model_answer() {
    assert_eq!(
        extract_svg_from_response("Here: <svg a>x</svg> done"),
        Some("<svg a>x</svg>".to_string())
    );
    assert_eq!(extract_svg_from_response("```svg\n<circle/>\n```"), Some("<circle/>".to_string()));
    assert_eq!(extract_svg_from_response("<svg unclosed"), None);
    assert_eq!(extract_svg_from_response("nothing"), None);
}

#[test]
fn colours_from_code_point_sums() {
    assert_eq!(generate_color_from_text("A"), "rgb(120, 55, 55)");
    assert_eq!(generate_color_from_text(""), "rgb(55, 55, 55)");
    assert_eq!(generate_color_from_text("ab"), "rgb(250, 55, 55)");
    let svg = fallback_cover_svg("A", "");
    assert!(svg.starts_with("<svg xmlns=\"http://www.w3.org/2000/svg\""));
    assert!(svg.contains("stop-color:rgb(120, 55, 55);"));
    assert!(svg.contains("stop-color:rgb(55, 55, 55);"));
    assert!(svg.contains(">A</text>"));
    assert!(svg.ends_with("A Novel</text>\n    </svg>"));
}

#[test]
fn pdf_command_arguments() {
    let a = parse_pdf_args(&strings(&["pdf", "-t", "My Book", "--output", "out"]));
    assert_eq!((a.title.as_str(), a.author.as_str(), a.output.as_str()), ("My Book", "l3o", "out"));
    let a = parse_pdf_args(&strings(&["pdf", "x", "--author", "Bo", "-a"]));
    assert_eq!((a.title.as_str(), a.author.as_str(), a.output.as_str()), ("", "Bo", ""));
}

#[test]
fn answers_and_typed_in_text() {
    assert!(answer_is_yes(""));
    assert!(answer_is_yes("yes"));
    assert!(!answer_is_yes("N"));
    assert!(answer_is_y("Y"));
    assert!(!answer_is_y(""));
    assert_eq!(author_or_default("   "), "l3o");
    assert_eq!(author_or_default("Ann"), "Ann");
    assert_eq!(chosen_directory("2", 3), Some(1));
    assert_eq!(chosen_directory("0", 3), None);
    assert_eq!(chosen_directory("4", 3), None);
    assert_eq!(chosen_directory("new", 3), None);
    let raw = strings(&["First line\n", "x\n", "Second  \n", "END\n", "after\n"]);
    assert_eq!(collect_multiline(&raw), "First line\nSecond");
}

#[test]
fn renderable_content_in_sources_or_logs() {
    assert!(has_renderable_content(&strings(&["chapter_1.md"]), &vec![]));
    assert!(has_renderable_content(&vec![], &strings(&["content_generation_ch1_scene1.txt"])));
    assert!(!has_renderable_content(&vec![], &strings(&["content_generation_ch1_token_usage.txt"])));
    assert!(!has_renderable_content(&strings(&["chapter_1.txt"]), &vec![]));
}

#[test]
fn book_counts_and_durations() {
    let mk = |text: &str| Scene {
        title: String::new(),
        outline: SceneOutline { title: String::new(), description: String::new(), number: 0 },
        content: Content { text: text.to_string(), chapter_number: 1, scene_number: 1 },
    };
    let mut ch = Chapter::default();
    ch.scenes = vec![mk("Hello world"), mk("One two  three")];
    let ctx = Context::new(
        "T".to_string(),
        Braindump { content: String::new() },
        Genre { name: String::new(), description: String::new() },
        Style { description: String::new() },
        Characters { list: vec![] },
        Synopsis { content: String::new() },
        Outline { chapters: vec![] },
        TemporarySummary::empty(0),
    );
    let book = Book::new("T".to_string(), ctx, vec![ch]);
    let c = BookCounts::of(&book);
    assert_eq!(c.total_characters, 25);
    assert_eq!(c.total_words, 5);
    assert_eq!(c.total_chapters, 1);
    assert_eq!(c.total_scenes, 2);
    assert_eq!(c.avg_words_per_chapter, 5);
    assert_eq!(c.avg_words_per_scene, 2);
    assert_eq!(c.estimated_pages, 1);
    assert_eq!(c.reading_time_minutes, 1);
    assert_eq!(format_duration(3725), "1h 2m 5s");
    assert_eq!(format_duration(125), "2m 5s");
    assert_eq!(format_duration(0), "0s");
}

#[test]
fn settings_from_environment() {
    let mut env = EnvValues::default();
    env.llm_provider = Some("openai".to_string());
    match Config::from_env_values(&env) {
        Err(BookGeneratorError::MissingEnvVar(v)) => assert_eq!(v, "OPENAI_API_KEY"),
        _ => panic!("expected a missing key"),
    }
    env.openai_api_key = Some("k".to_string());
    env.max_chapters = Some("12".to_string());
    env.auto_generate = Some("TRUE".to_string());
    env.log_retention_days = Some("x".to_string());
    let c = Config::from_env_values(&env).unwrap();
    assert_eq!(c.model, "gpt-4o");
    assert_eq!(c.max_chapters, 12);
    assert!(c.auto_generate);
    assert_eq!(c.log_retention_days, 7);
    assert_eq!(c.get_model_for_phase("outline"), "gpt-4o");
    let c = Config::from_env_values(&EnvValues::default()).unwrap();
    assert_eq!(c.llm_provider, "ollama");
    assert_eq!(c.model, "deepseek-coder-v2:16b");
    assert_eq!(c.max_chapters, 20);
    let mut env = EnvValues::default();
    env.llm_provider = Some("anthropic".to_string());
    match Config::from_env_values(&env) {
        Err(BookGeneratorError::MissingEnvVar(v)) => assert_eq!(v, "ANTHROPIC_API_KEY"),
        _ => panic!("expected a missing key"),
    }
}

#[test]
fn gateway_and_model_choice() {
    let mut config = Config::default();
    config.openai_api_base = "https://gw.example/v1//".to_string();
    config.model = "m".to_string();
    let g = gateway_config(&config);
    assert_eq!(g.base_url, "https://gw.example/v1");
    assert_eq!(g.model, "m");
    assert_eq!(g.api_key, None);
    config.openai_api_key = "key".to_string();
    assert_eq!(gateway_config(&config).api_key, Some("key".to_string()));
    assert_eq!(model_for_call("m", ""), "m");
    assert_eq!(model_for_call("m", "other"), "other");
    assert_eq!(max_tokens_or_default(None), 32000);
    assert_eq!(max_tokens_or_default(Some(100)), 100);
}

#[test]
fn chats_split_and_joined() {
    let ms = vec![
        msg(MessageType::SystemMessage, "sys1"),
        msg(MessageType::HumanMessage, "hi"),
        msg(MessageType::SystemMessage, "sys2"),
        msg(MessageType::AIMessage, "hello"),
    ];
    assert_eq!(split_messages(&ms), ("sys1\nsys2".to_string(), "hi\nhello".to_string()));
    assert_eq!(join_messages(&ms), "sys1\nhi\nsys2\nhello");
    assert_eq!(join_messages(&vec![]), "");
    assert_eq!(anthropic_role(MessageType::AIMessage), Role::Assistant);
    assert_eq!(anthropic_role(MessageType::SystemMessage), Role::User);
    let p = frame_system_prompt("CTX");
    assert!(p.starts_with("You are an AI assistant tasked with generating a book."));
    assert!(p.contains("context:\n\nCTX\n\nPlease ensure"));
}

#[test]
fn overloaded_calls_are_retried_with_doubling_delay() {
    let llm = AnthropicLLM::new("m");
    assert_eq!(llm.max_retries, 5);
    assert_eq!(
        llm.retry_step("error: overloaded_error", 0, 1000),
        RetryStep::Retry { retry: 1, delay_ms: 1000, next_delay_ms: 2000 }
    );
    assert_eq!(llm.retry_step("Overloaded", 5, 1000), RetryStep::GiveUp);
    assert_eq!(llm.retry_step("bad request", 0, 1000), RetryStep::GiveUp);
}

#[test]
fn ollama_address_and_service_status() {
    assert_eq!(ollama_host(&None, &None), "http://localhost");
    assert_eq!(ollama_host(&Some("gpu-box".to_string()), &None), "http://gpu-box");
    assert_eq!(ollama_host(&None, &Some("https://h".to_string())), "https://h");
    assert_eq!(ollama_port(&None), 11434);
    assert_eq!(ollama_port(&Some("8080".to_string())), 8080);
    assert_eq!(ollama_port(&Some("70000".to_string())), 11434);
    assert_eq!(ollama_port(&Some("x".to_string())), 11434);
    assert!(api_available_for_status(200));
    assert!(api_available_for_status(401));
    assert!(!api_available_for_status(500));
    assert_eq!(monitor_wait_secs(true, 60), 60);
    assert_eq!(monitor_wait_secs(false, 60), 5);
    assert_eq!(next_backoff_ms(1000), 1500);
    assert_eq!(next_backoff_ms(25000), 30000);
}

#[test]
fn prompt_templates_and_their_values() {
    let p = Prompts::braindump();
    assert_eq!(p.template, BRAINDUMP_TEMPLATE);
    assert_eq!(p.input_variables, vec!["title".to_string()]);
    let g = Prompts::genre();
    assert_eq!(g.template, GENRE_TEMPLATE);
    assert_eq!(g.input_variables, vec!["title".to_string(), "braindump".to_string()]);
}

#[test]
fn prompt_template_filled_with_values() {
    let values = vec![("title".to_string(), "T".to_string()), ("braindump".to_string(), "B".to_string())];
    let filled = Prompts::genre().format(&values);
    assert!(filled.ends_with("Title: T\nBraindump: B\n\nGenre:"));
    assert!(!filled.contains("{title}"));
    let p = Prompts::braindump().format(&vec![]);
    assert_eq!(p, BRAINDUMP_TEMPLATE);
}

#[test]
fn cleanup_program_arguments() {
    assert_eq!(
        parse_cleanup_args(&strings(&["cleanup"])),
        CleanupArgs::Run { project: ".".to_string(), days: 7, keep_essential: true }
    );
    assert_eq!(
        parse_cleanup_args(&strings(&["cleanup", "-p", "books", "--days", "3", "--all"])),
        CleanupArgs::Run { project: "books".to_string(), days: 3, keep_essential: false }
    );
    assert_eq!(parse_cleanup_args(&strings(&["cleanup", "--days"])), CleanupArgs::MissingValue("--days".to_string()));
    assert_eq!(parse_cleanup_args(&strings(&["cleanup", "-d", "x"])), CleanupArgs::InvalidDays);
    assert_eq!(parse_cleanup_args(&strings(&["cleanup", "-h", "--bogus"])), CleanupArgs::Help);
    assert_eq!(parse_cleanup_args(&strings(&["cleanup", "--bogus"])), CleanupArgs::Unknown("--bogus".to_string()));
}

#[test]
fn api_check_program_arguments() {
    assert_eq!(
        parse_check_api_args(&strings(&["check", "-l", "--timeout=30", "--timeout=x"])),
        CheckApiArgs { lightweight: true, wait: false, timeout_secs: 30, help: false }
    );
    assert_eq!(
        parse_check_api_args(&strings(&["check", "--help", "-w"])),
        CheckApiArgs { lightweight: false, wait: true, timeout_secs: 60, help: true }
    );
}
