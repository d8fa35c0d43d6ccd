//! The pipeline: agents run one after another, and each one receives the original
//! task together with the outputs of all the agents before it.
//!
//! The calls to the models are made outside the library; `PipelineRun` holds the
//! decisions between them: which agent runs next, through which provider, with
//! which prompt, and what is kept of its answer.
use vstd::prelude::*;
use crate::config::{Config, lemma_unique_names_lookup};
use crate::provider::{config_label, config_label_text};

verus! {

/// What one agent produced.
#[derive(Debug)]
pub struct StageResult {
    pub agent: String,
    pub provider_label: String,
    pub output: String,
}

/// The part of a prompt that shows one earlier result.
pub open spec fn section(r: StageResult) -> Seq<char> {
    "\n## "@ + r.agent@ + "\n"@ + r.output@ + "\n"@
}

/// The sections of the earlier results, in order.
pub open spec fn sections(prior: Seq<StageResult>) -> Seq<char>
    decreases prior.len(),
{
    if prior.len() == 0 {
        Seq::empty()
    } else {
        sections(prior.drop_last()) + section(prior.last())
    }
}

/// The user prompt given to an agent: the original task, then the outputs of
/// the agents before it, then the closing instruction.
pub open spec fn user_prompt(task: Seq<char>, prior: Seq<StageResult>) -> Seq<char> {
    "# TASK GỐC\n"@ + task + "\n"@ + (if prior.len() > 0 {
        "\n# KẾT QUẢ TỪ CÁC AGENT TRƯỚC\n"@ + sections(prior)
    } else {
        Seq::empty()
    }) + "\nHãy thực hiện đúng vai trò của bạn dựa trên thông tin trên."@
}

/// Joins the original task and the outputs of the earlier agents into the
/// prompt for the next agent.
pub fn build_user_prompt(task: &str, prior: &[StageResult]) -> (res: String)
    ensures
        res@ == user_prompt(task@, prior@),
{
    let mut s = String::new();
    s.append("# TASK GỐC\n");
    s.append(task);
    s.append("\n");
    if prior.len() > 0 {
        s.append("\n# KẾT QUẢ TỪ CÁC AGENT TRƯỚC\n");
        let ghost intro = s@;
        let mut i: usize = 0;
        while i < prior.len()
            invariant
                i <= prior@.len(),
                s@ == intro + sections(prior@.subrange(0, i as int)),
            decreases prior.len() - i,
        {
            let r = &prior[i];
            let ghost before = s@;
            s.append("\n## ");
            s.append(r.agent.as_str());
            s.append("\n");
            s.append(r.output.as_str());
            s.append("\n");
            proof {
                let done = prior@.subrange(0, i + 1);
                assert(done.drop_last() =~= prior@.subrange(0, i as int));
                assert(s@ =~= before + section(done.last()));
            }
            i = i + 1;
        }
        assert(prior@.subrange(0, prior@.len() as int) =~= prior@);
    }
    s.append("\nHãy thực hiện đúng vai trò của bạn dựa trên thông tin trên.");
    assert(s@ =~= user_prompt(task@, prior@));
    s
}


/// The sections of two runs of results joined are the two sections joined.
pub proof fn lemma_sections_concat(p: Seq<StageResult>, q: Seq<StageResult>)
    ensures
        sections(p + q) == sections(p) + sections(q),
    decreases q.len(),
{
    if q.len() == 0 {
        assert(p + q =~= p);
        assert(sections(q) =~= Seq::<char>::empty());
        assert(sections(p) + sections(q) =~= sections(p));
    } else {
        lemma_sections_concat(p, q.drop_last());
        assert((p + q).drop_last() =~= p + q.drop_last());
        assert((p + q).last() == q.last());
        assert(sections(p + q) =~= sections(p) + sections(q));
    }
}

/// Every earlier result appears in the prompt of the next agent, in its place:
/// the prompt is the task header, the sections of the results before it, its
/// own section with its agent's name and output, the sections after it, and
/// the closing instruction.
pub proof fn lemma_prompt_shows_every_output(task: Seq<char>, prior: Seq<StageResult>, k: int)
    requires
        0 <= k < prior.len(),
    ensures
        user_prompt(task, prior) == "# TASK GỐC\n"@ + task + "\n"@
            + "\n# KẾT QUẢ TỪ CÁC AGENT TRƯỚC\n"@ + sections(prior.subrange(0, k))
            + ("\n## "@ + prior[k].agent@ + "\n"@ + prior[k].output@ + "\n"@) + sections(
            prior.subrange(k + 1, prior.len() as int),
        ) + "\nHãy thực hiện đúng vai trò của bạn dựa trên thông tin trên."@,
{
    let front = prior.subrange(0, k + 1);
    let back = prior.subrange(k + 1, prior.len() as int);
    assert(prior =~= front + back);
    lemma_sections_concat(front, back);
    assert(front.drop_last() =~= prior.subrange(0, k));
    assert(sections(prior) =~= sections(prior.subrange(0, k)) + section(prior[k]) + sections(back));
    assert(user_prompt(task, prior) =~= "# TASK GỐC\n"@ + task + "\n"@
        + "\n# KẾT QUẢ TỪ CÁC AGENT TRƯỚC\n"@ + sections(prior.subrange(0, k))
        + ("\n## "@ + prior[k].agent@ + "\n"@ + prior[k].output@ + "\n"@) + sections(back)
        + "\nHãy thực hiện đúng vai trò của bạn dựa trên thông tin trên."@);
}

/// Every prompt, for the first agent as for the later ones, starts with the
/// header, the whole task and a line break, and ends with the closing
/// instruction; the first agent's prompt holds nothing else.
pub proof fn lemma_prompt_starts_with_whole_task(task: Seq<char>, prior: Seq<StageResult>)
    ensures
        user_prompt(task, prior).len() >= "# TASK GỐC\n"@.len() + task.len() + 1
            + "\nHãy thực hiện đúng vai trò của bạn dựa trên thông tin trên."@.len(),
        user_prompt(task, prior).subrange(0, "# TASK GỐC\n"@.len() + task.len() + 1int)
            == "# TASK GỐC\n"@ + task + "\n"@,
        user_prompt(task, prior).subrange(
            user_prompt(task, prior).len()
                - "\nHãy thực hiện đúng vai trò của bạn dựa trên thông tin trên."@.len(),
            user_prompt(task, prior).len() as int,
        ) == "\nHãy thực hiện đúng vai trò của bạn dựa trên thông tin trên."@,
        prior.len() == 0 ==> user_prompt(task, prior) == "# TASK GỐC\n"@ + task + "\n"@
            + "\nHãy thực hiện đúng vai trò của bạn dựa trên thông tin trên."@,
{
    reveal_strlit("\n");
    let head = "# TASK GỐC\n"@ + task + "\n"@;
    let tail = "\nHãy thực hiện đúng vai trò của bạn dựa trên thông tin trên."@;
    let mid = if prior.len() > 0 {
        "\n# KẾT QUẢ TỪ CÁC AGENT TRƯỚC\n"@ + sections(prior)
    } else {
        Seq::<char>::empty()
    };
    let p = user_prompt(task, prior);
    assert(p =~= head + mid + tail);
    assert(head.len() == "# TASK GỐC\n"@.len() + task.len() + 1);
    assert(p.subrange(0, head.len() as int) =~= head);
    assert(p.subrange(p.len() - tail.len(), p.len() as int) =~= tail);
    if prior.len() == 0 {
        assert(p =~= head + tail);
    }
}

/// One earlier result shows as a heading with the agent's name, then its output.
pub proof fn lemma_section_of_one_result(r: StageResult)
    ensures
        sections(seq![r]) == "\n## "@ + r.agent@ + "\n"@ + r.output@ + "\n"@,
{
    let one = seq![r];
    assert(one.drop_last() =~= Seq::<StageResult>::empty());
    assert(sections(one.drop_last()) == Seq::<char>::empty());
    assert(one.last() == r);
    assert(sections(one) == sections(one.drop_last()) + section(r));
    assert(sections(seq![r]) =~= "\n## "@ + r.agent@ + "\n"@ + r.output@ + "\n"@);
}

/// What the next agent has to do.
#[derive(Debug)]
pub struct StageRequest {
    /// Position of the agent in the configuration.
    pub agent: usize,
    /// Position, in the configuration, of the provider the agent names.
    pub provider: usize,
    /// The user prompt for the agent.
    pub user_prompt: String,
}

/// The next step of a pipeline run.
#[derive(Debug)]
pub enum Step {
    /// Run an agent.
    Run(StageRequest),
    /// Every agent has run.
    Finished,
    /// An agent could not run; the run stops with this error.
    Stopped(String),
}

/// A pipeline run in progress: the task, the results so far, and the error that
/// stopped it, if one did.
#[derive(Debug)]
pub struct PipelineRun {
    pub task: String,
    pub results: Vec<StageResult>,
    pub failure: Option<String>,
}

impl PipelineRun {
    /// The results so far are those of the first agents of `cfg`, in order.
    pub open spec fn follows(&self, cfg: &Config) -> bool {
        &&& self.results.len() <= cfg.agents.len()
        &&& forall|i: int|
            0 <= i < self.results.len() ==> (#[trigger] self.results@[i]).agent@
                == cfg.agents@[i].name@
    }

    /// Starts a run of `task`: no agent has run yet.
    pub fn new(task: String) -> (res: PipelineRun)
        ensures
            res.task == task,
            res.results@.len() == 0,
            res.failure is None,
    {
        PipelineRun { task, results: Vec::new(), failure: None }
    }

    /// Decides the next step: after a failure, stop with its error; once every
    /// agent has run, finish; otherwise run the next agent in the configuration,
    /// through the provider it names, with the prompt made of the task and every
    /// result so far.
    pub fn next_step(&self, cfg: &Config) -> (res: Step)
        requires
            cfg.resolves_agents(),
            cfg.has_unique_names(),
            self.follows(cfg),
        ensures
            match self.failure {
                Some(e) => (res matches Step::Stopped(m) && m == e),
                None => if self.results.len() < cfg.agents.len() {
                    res matches Step::Run(req) && {
                        let name = cfg.agents@[req.agent as int].provider@;
                        &&& req.agent == self.results.len()
                        &&& cfg.first_declaration(name, req.provider as int)
                        &&& forall|j: int|
                            0 <= j < cfg.providers.len() && #[trigger] cfg.providers@[j].0@ == name
                                ==> j == req.provider
                        &&& req.user_prompt@ == user_prompt(self.task@, self.results@)
                    }
                } else {
                    res is Finished
                },
            },
    {
        match &self.failure {
            Some(e) => {
                return Step::Stopped(e.clone());
            },
            None => {},
        }
        let k = self.results.len();
        if k >= cfg.agents.len() {
            return Step::Finished;
        }
        assert(cfg.declares(cfg.agents@[k as int].provider@));
        match cfg.provider_index(&cfg.agents[k].provider) {
            Some(p) => {
                proof {
                    lemma_unique_names_lookup(cfg, p as int);
                }
                let prompt = build_user_prompt(self.task.as_str(), self.results.as_slice());
                Step::Run(StageRequest { agent: k, provider: p, user_prompt: prompt })
            },
            None => Step::Finished,
        }
    }

    /// Takes in what became of the agent that was to run: its answer is kept
    /// under its name and the label of the provider it names; an error stops
    /// the run.
    pub fn record(&mut self, cfg: &Config, outcome: Result<String, String>)
        requires
            old(self).follows(cfg),
            old(self).failure is None,
            old(self).results.len() < cfg.agents.len(),
            cfg.declares(cfg.agents@[old(self).results.len() as int].provider@),
            cfg.has_unique_names(),
        ensures
            final(self).follows(cfg),
            final(self).task == old(self).task,
            match outcome {
                Ok(output) => {
                    let k = old(self).results.len() as int;
                    let r = final(self).results@[k];
                    &&& final(self).failure is None
                    &&& final(self).results@.len() == k + 1
                    &&& final(self).results@.subrange(0, k) == old(self).results@
                    &&& r.agent == cfg.agents@[k].name
                    &&& r.output == output
                    &&& forall|p: int|
                        0 <= p < cfg.providers.len() && #[trigger] cfg.providers@[p].0@
                            == cfg.agents@[k].provider@ ==> r.provider_label@ == config_label_text(
                            cfg.providers@[p].1,
                        )
                },
                Err(e) => final(self).failure == Some(e) && final(self).results@ == old(
                    self,
                ).results@,
            },
    {
        match outcome {
            Ok(output) => {
                let k = self.results.len();
                let p = cfg.provider_index(&cfg.agents[k].provider);
                let label = match p {
                    Some(p) => {
                        proof {
                            lemma_unique_names_lookup(cfg, p as int);
                        }
                        config_label(&cfg.providers[p].1)
                    },
                    None => String::new(),
                };
                let r = StageResult { agent: cfg.agents[k].name.clone(), provider_label: label, output };
                self.results.push(r);
                assert(self.results@.subrange(0, k as int) =~= old(self).results@);
            },
            Err(e) => {
                self.failure = Some(e);
            },
        }
    }
}

} // verus!
