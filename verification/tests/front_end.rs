use agent_core::support::{Console, RunnerConsole, RunnerConsoleAdapter};

struct Recorder {
    out: Vec<String>,
}

impl Console for Recorder {
    fn print(&mut self, s: &str) -> Result<(), String> {
        self.out.push(s.to_string());
        Ok(())
    }

    fn eprint(&mut self, s: &str) -> Result<(), String> {
        self.out.push(format!("!{}", s));
        Ok(())
    }
}

struct Lines {
    lines: Vec<String>,
}

impl agent_core::prompt_runtime::Console for Lines {
    fn print_line(&mut self, s: &str) {
        self.lines.push(s.to_string());
    }

    fn print(&mut self, s: &str) {
        self.lines.push(s.to_string());
    }
}

#[test]
fn runner_console_prints_a_line() {
    let mut rec = Recorder { out: vec![] };
    {
        let mut adapter = RunnerConsoleAdapter::new(&mut rec);
        adapter.print_line("answer");
    }
    assert_eq!(rec.out, vec!["answer".to_string(), "\n".to_string()]);
}

#[test]
fn prompt_runtime_paths() {
    let mut lines = Lines { lines: vec![] };
    let mut rt = agent_core::prompt_runtime::Runtime::new(&mut lines, "/prompts".to_string());
    assert_eq!(rt.prompts_dir(), "/prompts");
    assert_eq!(rt.prompt_path("react_think"), "/prompts/react_think.md");
    agent_core::prompt_runtime::Console::print_line(rt.console_mut(), "hi");
    drop(rt);
    assert_eq!(lines.lines, vec!["hi".to_string()]);
}
