use agentflow::config::{AgentConfig, Config, ProviderConfig};
use agentflow::pipeline::{build_user_prompt, PipelineRun, StageResult, Step};

fn result(agent: &str, output: &str) -> StageResult {
    StageResult { agent: agent.to_string(), provider_label: format!("cli:{agent}"), output: output.to_string() }
}

#[test]
fn prompt_without_earlier_results() {
    let p = build_user_prompt("Viết API", &[]);
    assert_eq!(p, "# TASK GỐC\nViết API\n\nHãy thực hiện đúng vai trò của bạn dựa trên thông tin trên.");
}

#[test]
fn prompt_shows_every_earlier_output_in_order() {
    let prior = vec![result("researcher", "facts"), result("planner", "plan")];
    let p = build_user_prompt("T", &prior);
    assert_eq!(
        p,
        "# TASK GỐC\nT\n\n# KẾT QUẢ TỪ CÁC AGENT TRƯỚC\n\n## researcher\nfacts\n\n## planner\nplan\n\nHãy thực hiện đúng vai trò của bạn dựa trên thông tin trên."
    );
    let first = p.find("## researcher\nfacts").unwrap();
    let second = p.find("## planner\nplan").unwrap();
    assert!(first < second);
}

fn two_agent_config() -> Config {
    Config {
        providers: vec![
            (
                "x".to_string(),
                ProviderConfig::Cli { command: "draftbot".into(), args: vec![], prompt_via: "arg".into() },
            ),
            (
                "c".to_string(),
                ProviderConfig::Cli { command: "askbot".into(), args: vec![], prompt_via: "stdin".into() },
            ),
        ],
        agents: vec![
            AgentConfig { name: "researcher".into(), provider: "c".into(), system: "research".into() },
            AgentConfig { name: "coder".into(), provider: "x".into(), system: "code".into() },
        ],
    }
}

#[test]
fn run_visits_agents_in_order_and_passes_outputs_on() {
    let cfg = two_agent_config();
    let mut run = PipelineRun::new("task".to_string());
    match run.next_step(&cfg) {
        Step::Run(req) => {
            assert_eq!(req.agent, 0);
            assert_eq!(req.provider, 1);
            assert_eq!(req.user_prompt, build_user_prompt("task", &[]));
        }
        other => panic!("unexpected {:?}", other),
    }
    run.record(&cfg, Ok("notes".to_string()));
    match run.next_step(&cfg) {
        Step::Run(req) => {
            assert_eq!(req.agent, 1);
            assert_eq!(req.provider, 0);
            assert!(req.user_prompt.contains("## researcher\nnotes\n"));
            assert_eq!(req.user_prompt, build_user_prompt("task", &[result("researcher", "notes")]));
        }
        other => panic!("unexpected {:?}", other),
    }
    run.record(&cfg, Ok("code".to_string()));
    assert!(matches!(run.next_step(&cfg), Step::Finished));
    assert_eq!(run.results.len(), 2);
    assert_eq!(run.results[0].agent, "researcher");
    assert_eq!(run.results[0].provider_label, "cli:askbot");
    assert_eq!(run.results[0].output, "notes");
    assert_eq!(run.results[1].agent, "coder");
    assert_eq!(run.results[1].provider_label, "cli:draftbot");
    assert_eq!(run.results[1].output, "code");
}

#[test]
fn a_failed_agent_stops_the_run() {
    let cfg = two_agent_config();
    let mut run = PipelineRun::new("task".to_string());
    assert!(matches!(run.next_step(&cfg), Step::Run(_)));
    run.record(&cfg, Err("CLI 'askbot' trả về rỗng".to_string()));
    assert!(run.results.is_empty());
    match run.next_step(&cfg) {
        Step::Stopped(e) => assert_eq!(e, "CLI 'askbot' trả về rỗng"),
        other => panic!("unexpected {:?}", other),
    }
}

#[test]
fn a_pipeline_without_agents_finishes_at_once() {
    let mut cfg = two_agent_config();
    cfg.agents.clear();
    let run = PipelineRun::new("task".to_string());
    assert!(matches!(run.next_step(&cfg), Step::Finished));
}
