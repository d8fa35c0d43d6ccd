# agentflow

Runs several AI agents as a pipeline on one task. Each agent has a role (research,
plan, review, implement) and any model behind it: the Anthropic or OpenAI API, or
a command-line tool run as a subprocess. Every agent receives the original task
together with the outputs of all the agents before it.

- `src/` is the verified library: configuration checks (`config`), prompt assembly
  and the step function of a run (`pipeline`), the requests and reply reading of
  each provider (`provider`) with their JSON bodies and replies (`json`), the
  markdown report and its timestamp (`report`) and string and number helpers (`text`). Contracts and laws are proved with Verus.
- `app/` is the program: command line, reading `config.toml`, HTTP calls,
  subprocesses, the clock and terminal output. It drives `PipelineRun` step by step.
- `tests/` exercises the library on concrete values.
