use hacker_rs::error::ExecutionError;
use hacker_rs::executor::{check_tool, command_outcome, needs_pipeline_emulation, parse_pipeline};
use hacker_rs::extract::{
    parse_and_store_output, record_gateway, route_report_gateway, seed_facts, seed_from_query,
};
use hacker_rs::facts::{substitute_placeholders, FactTable};
use hacker_rs::plan::{
    build_prompt, error_report, system_prompt, join_strings, parse_failure_message, CommandStep,
    ExecutionContext, MultiStepResponse, PlanAction, PlanRunner,
};
use hacker_rs::sanitize::{get_tool_from_command, sanitize_command};
use hacker_rs::setup::{detect_platform, InstallRoute, OsFamily, Platform, SystemSetup};
use hacker_rs::text::push_decimal;
use hacker_rs::tokenize::parse_command_line;

fn facts_with(pairs: &[(&str, &str)]) -> FactTable {
    let mut f = FactTable::new();
    for (k, v) in pairs {
        f.insert(k.to_string(), v.to_string());
    }
    f
}

fn step(n: u32, action: &str, command: Option<&str>, purpose: Option<&str>) -> CommandStep {
    CommandStep {
        step: n,
        action_type: action.to_string(),
        command: command.map(|c| c.to_string()),
        purpose: purpose.map(|p| p.to_string()),
        payload: None,
        lhost: None,
        rhost: None,
        lport: None,
        rport: None,
        exitfunc: None,
        targeturi: None,
        options: Vec::new(),
    }
}

fn plan(explanation: Option<&str>, steps: Vec<CommandStep>) -> MultiStepResponse {
    MultiStepResponse { explanation: explanation.map(|e| e.to_string()), steps }
}

#[test]
fn tokenize_groups_quoted_words() {
    let (cmd, args) = parse_command_line("foo \"bar baz\" qux").unwrap();
    assert_eq!(cmd, "foo");
    assert_eq!(args, vec!["bar baz".to_string(), "qux".to_string()]);
}

#[test]
fn tokenize_empty_line_fails() {
    match parse_command_line("") {
        Err(ExecutionError::CommandParsingError(m)) => assert_eq!(m, "No command found"),
        other => panic!("unexpected: {:?}", other),
    }
    assert!(matches!(parse_command_line("   \t "), Err(ExecutionError::CommandParsingError(_))));
    assert!(matches!(parse_command_line("\"\""), Err(ExecutionError::CommandParsingError(_))));
}

#[test]
fn tokenize_unterminated_quote_runs_to_end() {
    let (cmd, args) = parse_command_line("echo \"a  b").unwrap();
    assert_eq!(cmd, "echo");
    assert_eq!(args, vec!["a  b".to_string()]);
}

#[test]
fn tokenize_trims_and_splits_on_tabs() {
    let (cmd, args) = parse_command_line("\n  ls\t-la   /tmp  ").unwrap();
    assert_eq!(cmd, "ls");
    assert_eq!(args, vec!["-la".to_string(), "/tmp".to_string()]);
}

#[test]
fn sanitize_strips_executable_path() {
    assert_eq!(sanitize_command("/usr/bin/nmap -sV target"), "nmap -sV target");
}

#[test]
fn sanitize_keeps_bare_command() {
    assert_eq!(sanitize_command("nmap -sV target"), "nmap -sV target");
    assert_eq!(sanitize_command("nmap   -sV  /etc/hosts"), "nmap   -sV  /etc/hosts");
    assert_eq!(sanitize_command(""), "");
}

#[test]
fn sanitize_twice_equals_once() {
    for c in ["/usr/bin/nmap -sV target", "nmap -sV target", "C:\\tools\\nc.exe -l  4444", "/ x", "../.. a"] {
        let once = sanitize_command(c);
        assert_eq!(sanitize_command(&once), once);
    }
}

#[test]
fn sanitize_handles_backslashes_and_spacing() {
    assert_eq!(sanitize_command("C:\\tools\\nc.exe -l  4444"), "nc.exe -l 4444");
    assert_eq!(sanitize_command("/usr/sbin/ip/ route"), "ip route");
    assert_eq!(sanitize_command("/ x"), "/ x");
}

#[test]
fn tool_is_final_path_component() {
    assert_eq!(get_tool_from_command("/usr/bin/nmap -sV"), Some("nmap".to_string()));
    assert_eq!(get_tool_from_command("ping -c 1 host"), Some("ping".to_string()));
    assert_eq!(get_tool_from_command("   "), None);
}

#[test]
fn substitute_resolves_known_fact() {
    let f = facts_with(&[("target_ip", "10.0.0.5")]);
    assert_eq!(substitute_placeholders(&f, "ping {target_ip}"), Ok("ping 10.0.0.5".to_string()));
    assert_eq!(
        substitute_placeholders(&f, "ping {target_ip} && echo {target_ip}"),
        Ok("ping 10.0.0.5 && echo 10.0.0.5".to_string())
    );
}

#[test]
fn substitute_names_missing_fact() {
    let empty = FactTable::new();
    assert_eq!(substitute_placeholders(&empty, "ping {missing}"), Err("missing".to_string()));
    let f = facts_with(&[("target_ip", "10.0.0.5")]);
    assert_eq!(substitute_placeholders(&f, "ping {missing}"), Err("missing".to_string()));
    assert_eq!(
        substitute_placeholders(&f, "{target_ip} {first} {second}"),
        Err("first".to_string())
    );
}

#[test]
fn substitute_leaves_plain_text() {
    let f = FactTable::new();
    assert_eq!(substitute_placeholders(&f, "echo {} {a-b} {"), Ok("echo {} {a-b} {".to_string()));
    assert_eq!(substitute_placeholders(&f, "ls -la"), Ok("ls -la".to_string()));
}

#[test]
fn facts_last_write_wins() {
    let mut f = facts_with(&[("k", "one")]);
    f.insert("k".to_string(), "two".to_string());
    assert_eq!(f.get("k"), Some(&"two".to_string()));
    assert!(f.contains("k"));
    assert!(!f.contains("other"));
    f.clear();
    assert_eq!(f.get("k"), None);
}

#[test]
fn query_with_cidr_seeds_subnet_only() {
    let mut f = facts_with(&[("old", "x")]);
    seed_from_query(&mut f, "scan 192.168.1.0/24 then ping 10.0.0.1");
    assert_eq!(f.get("subnet_cidr"), Some(&"192.168.1.0/24".to_string()));
    assert!(!f.contains("target_ip"));
    assert!(!f.contains("old"));
}

#[test]
fn query_with_address_seeds_target() {
    let mut f = FactTable::new();
    seed_from_query(&mut f, "ping 10.0.0.5 please");
    assert_eq!(f.get("target_ip"), Some(&"10.0.0.5".to_string()));
    assert!(!f.contains("subnet_cidr"));
    let mut g = facts_with(&[("target_ip", "1.1.1.1")]);
    seed_from_query(&mut g, "list my files");
    assert!(!g.contains("target_ip"));
}

#[test]
fn seeding_prefers_subnet() {
    let mut f = FactTable::new();
    seed_facts(&mut f, Some("10.0.0.0/8".to_string()), Some("10.0.0.1".to_string()));
    assert_eq!(f.get("subnet_cidr"), Some(&"10.0.0.0/8".to_string()));
    assert!(!f.contains("target_ip"));
}

#[test]
fn gateway_found_in_linux_route() {
    let mut f = FactTable::new();
    let purpose = Some("Find Default Gateway".to_string());
    parse_and_store_output(&mut f, &purpose, "default via 192.168.1.1 dev eth0 proto dhcp\n", false);
    assert_eq!(f.get("default_gateway"), Some(&"192.168.1.1".to_string()));
}

#[test]
fn gateway_found_in_macos_report() {
    let mut f = FactTable::new();
    let purpose = Some("find router address".to_string());
    parse_and_store_output(&mut f, &purpose, "route to: default\ngateway: 10.1.1.254\n", false);
    assert_eq!(f.get("default_gateway"), Some(&"10.1.1.254".to_string()));
}

#[test]
fn gateway_found_in_windows_lines() {
    let mut f = FactTable::new();
    let purpose = Some("find default gateway".to_string());
    let out = "Ethernet adapter:\r\n   IPv4 Address. . . : 192.168.0.7\r\n   Default Gateway . . . . . . . . . : 192.168.0.1\r\n";
    parse_and_store_output(&mut f, &purpose, out, true);
    assert_eq!(f.get("default_gateway"), Some(&"192.168.0.1".to_string()));
}

#[test]
fn zero_gateway_is_ignored() {
    let mut f = FactTable::new();
    let purpose = Some("find default gateway".to_string());
    parse_and_store_output(&mut f, &purpose, "default via 0.0.0.0 dev tun0", false);
    assert!(!f.contains("default_gateway"));
    record_gateway(&mut f, Some("0.0.0.0".to_string()));
    assert!(!f.contains("default_gateway"));
    record_gateway(&mut f, Some("10.0.0.1".to_string()));
    assert_eq!(f.get("default_gateway"), Some(&"10.0.0.1".to_string()));
}

#[test]
fn gateway_needs_matching_purpose() {
    let mut f = FactTable::new();
    parse_and_store_output(&mut f, &Some("list routes".to_string()), "default via 192.168.1.1 dev eth0", false);
    parse_and_store_output(&mut f, &None, "default via 192.168.1.1 dev eth0", false);
    assert!(!f.contains("default_gateway"));
}

#[test]
fn runner_skips_info_and_runs_command() {
    let p = plan(
        Some("Say hi"),
        vec![step(1, "info", None, None), step(2, "command", Some("echo hi"), Some("greet"))],
    );
    let mut ctx = ExecutionContext::new();
    let mut runner = PlanRunner::new(p);
    let action = runner.next_action(&mut ctx);
    match action {
        PlanAction::Execute(c) => assert_eq!(c, "echo hi"),
        _ => panic!("expected a command"),
    }
    assert!(runner.is_awaiting());
    assert_eq!(runner.record_result(&mut ctx, Ok("hi".to_string()), false), None);
    assert_eq!(ctx.command_history, vec!["Step 2: echo hi ->\nhi".to_string()]);
    match runner.next_action(&mut ctx) {
        PlanAction::Finished(report) => assert_eq!(
            report,
            "Plan Execution Summary:\nSay hi\n\nStep 1: Skipped (Action Type: info)\n---\nOutput from Step 2:\nhi"
        ),
        _ => panic!("expected the report"),
    }
    assert!(runner.is_stopped());
}

#[test]
fn runner_substitutes_and_sanitizes() {
    let p = plan(None, vec![step(1, "command", Some("/bin/ping -c 1 {target_ip}"), None)]);
    let mut ctx = ExecutionContext::new();
    ctx.discovered_values.insert("target_ip".to_string(), "10.0.0.5".to_string());
    let mut runner = PlanRunner::new(p);
    match runner.next_action(&mut ctx) {
        PlanAction::Execute(c) => assert_eq!(c, "ping -c 1 10.0.0.5"),
        _ => panic!("expected a command"),
    }
}

#[test]
fn runner_unsupported_platform_continues() {
    let p = plan(
        Some("x"),
        vec![step(1, "command", Some("msfconsole -q"), None), step(2, "command", Some("whoami"), None)],
    );
    let mut ctx = ExecutionContext::new();
    let mut runner = PlanRunner::new(p);
    assert!(matches!(runner.next_action(&mut ctx), PlanAction::Execute(_)));
    let r = runner.record_result(
        &mut ctx,
        Err(ExecutionError::UnsupportedPlatform("msfconsole requires Linux".to_string())),
        true,
    );
    assert_eq!(r, None);
    assert!(!runner.is_stopped());
    match runner.next_action(&mut ctx) {
        PlanAction::Execute(c) => assert_eq!(c, "whoami"),
        _ => panic!("the next step should run"),
    }
    assert_eq!(ctx.command_history[0], "Step 1: msfconsole -q ->\nSkipped (Unsupported Platform)");
}

#[test]
fn runner_other_failure_aborts() {
    let p = plan(
        Some("x"),
        vec![step(1, "command", Some("false"), None), step(2, "command", Some("whoami"), None)],
    );
    let mut ctx = ExecutionContext::new();
    let mut runner = PlanRunner::new(p);
    assert!(matches!(runner.next_action(&mut ctx), PlanAction::Execute(_)));
    let r = runner.record_result(&mut ctx, Err(ExecutionError::CommandFailure("boom".to_string())), false);
    assert_eq!(r, Some("Execution failed at step 1: Command execution failed: boom".to_string()));
    assert!(runner.is_stopped());
    assert!(ctx.command_history.is_empty());
}

#[test]
fn runner_missing_fact_aborts() {
    let p = plan(None, vec![step(3, "command", Some("nmap {subnet_cidr}"), None)]);
    let mut ctx = ExecutionContext::new();
    let mut runner = PlanRunner::new(p);
    match runner.next_action(&mut ctx) {
        PlanAction::Aborted(m) => assert_eq!(
            m,
            "Failed step 3: Substituting placeholders failed: Required information 'subnet_cidr' for command not found from previous steps."
        ),
        _ => panic!("expected an abort"),
    }
    assert!(runner.is_stopped());
}

#[test]
fn runner_empty_plan_returns_explanation() {
    let mut ctx = ExecutionContext::new();
    let mut runner = PlanRunner::new(plan(Some("Nothing to do"), vec![]));
    match runner.next_action(&mut ctx) {
        PlanAction::Finished(r) => assert_eq!(r, "Nothing to do"),
        _ => panic!("expected the explanation"),
    }
    let mut runner = PlanRunner::new(plan(None, vec![]));
    match runner.next_action(&mut ctx) {
        PlanAction::Finished(r) => assert_eq!(r, "Executing plan..."),
        _ => panic!("expected the default explanation"),
    }
}

#[test]
fn runner_command_step_without_template_is_skipped() {
    let mut ctx = ExecutionContext::new();
    let mut runner = PlanRunner::new(plan(Some("e"), vec![step(1, "command", None, None)]));
    match runner.next_action(&mut ctx) {
        PlanAction::Finished(r) => assert_eq!(
            r,
            "Plan Execution Summary:\ne\n\nOutput from Step 1:\nSkipped (No command)"
        ),
        _ => panic!("expected the report"),
    }
    assert_eq!(ctx.command_history, vec!["Step 1:  ->\nSkipped (No command)".to_string()]);
}

#[test]
fn runner_feeds_gateway_to_later_step() {
    let p = plan(
        Some("e"),
        vec![
            step(1, "command", Some("ip route"), Some("Find default gateway")),
            step(2, "command", Some("ping {default_gateway}"), None),
        ],
    );
    let mut ctx = ExecutionContext::new();
    let mut runner = PlanRunner::new(p);
    assert!(matches!(runner.next_action(&mut ctx), PlanAction::Execute(_)));
    runner.record_result(&mut ctx, Ok("default via 172.16.0.1 dev wlan0".to_string()), false);
    match runner.next_action(&mut ctx) {
        PlanAction::Execute(c) => assert_eq!(c, "ping 172.16.0.1"),
        _ => panic!("expected a command"),
    }
}

#[test]
fn prompt_holds_last_five_entries() {
    let mut ctx = ExecutionContext::new();
    let p = build_prompt(&ctx, &Platform::KaliLinux, "scan");
    assert_eq!(
        p,
        "<|im_start|>user\nOS: Kali Linux\nTask: scan\nPrevious Commands/Outputs Context:\nNone\n<|im_end|>\n<|im_start|>assistant\n"
    );
    for i in 0..6 {
        ctx.command_history.push(format!("e{}", i));
    }
    let p = build_prompt(&ctx, &Platform::Windows, "t");
    assert!(p.contains("e1\n---\ne2\n---\ne3\n---\ne4\n---\ne5"));
    assert!(!p.contains("e0"));
    assert!(p.contains("OS: Windows\n"));
}

#[test]
fn tool_check_refuses_empty_and_linux_only() {
    match check_tool("  ", false) {
        Err(ExecutionError::CommandParsingError(m)) => assert_eq!(m, "Cannot determine tool from empty command"),
        other => panic!("unexpected: {:?}", other),
    }
    match check_tool("/opt/msfconsole -q", true) {
        Err(ExecutionError::UnsupportedPlatform(m)) => assert_eq!(m, "msfconsole requires Linux"),
        other => panic!("unexpected: {:?}", other),
    }
    assert_eq!(check_tool("msfconsole -q", false), Ok("msfconsole".to_string()));
    assert_eq!(check_tool("setoolkit", false), Ok("setoolkit".to_string()));
    assert!(matches!(check_tool("setoolkit", true), Err(ExecutionError::UnsupportedPlatform(_))));
}

#[test]
fn pipeline_only_emulated_on_windows() {
    assert!(needs_pipeline_emulation("ipconfig | findstr Gateway", true));
    assert!(!needs_pipeline_emulation("ipconfig | findstr Gateway", false));
    assert!(!needs_pipeline_emulation("ipconfig", true));
}

#[test]
fn pipeline_splits_into_stages() {
    let stages = parse_pipeline("ipconfig /all | findstr \"Default Gateway\"").unwrap();
    assert_eq!(stages.len(), 2);
    assert_eq!(stages[0], ("ipconfig".to_string(), vec!["/all".to_string()]));
    assert_eq!(stages[1], ("findstr".to_string(), vec!["Default Gateway".to_string()]));
}

#[test]
fn pipeline_empty_stage_fails() {
    for c in ["a || b", "| a", "a |", "a |  | b"] {
        match parse_pipeline(c) {
            Err(ExecutionError::CommandParsingError(m)) => assert_eq!(m, "Empty command part in pipeline"),
            other => panic!("unexpected for {}: {:?}", c, other),
        }
    }
    assert!(matches!(parse_pipeline("a | \"\""), Err(ExecutionError::CommandParsingError(_))));
}

#[test]
fn outcome_of_finished_process() {
    assert_eq!(command_outcome(true, "exit status: 0", "hi\n", "warn"), Ok("hi\n".to_string()));
    assert_eq!(
        command_outcome(false, "exit status: 1", "out", "bad thing\n"),
        Err(ExecutionError::CommandFailure("Command failed with status exit status: 1. Error:\nbad thing\n".to_string()))
    );
    assert_eq!(
        command_outcome(false, "exit status: 2", "out", " \n"),
        Err(ExecutionError::CommandFailure("Command failed with status exit status: 2. Output:\nout".to_string()))
    );
}

#[test]
fn error_messages_name_their_kind() {
    assert_eq!(ExecutionError::IoError("x".to_string()).message(), "IO error during execution: x");
    assert_eq!(ExecutionError::DependencyFailure("y".to_string()).message(), "Dependency installation failed: y");
    assert_eq!(ExecutionError::BlockingTaskError("z".to_string()).message(), "Blocking task failed: z");
    assert_eq!(ExecutionError::PipelineFailure("p".to_string()).message(), "Pipeline execution failed: p");
    assert_eq!(ExecutionError::CommandParsingError("q".to_string()).message(), "Command parsing failed: q");
    assert_eq!(ExecutionError::UnsupportedPlatform("u".to_string()).message(), "Unsupported tool on this platform: u");
    assert!(ExecutionError::UnsupportedPlatform("u".to_string()).is_unsupported_platform());
    assert!(!ExecutionError::IoError("u".to_string()).is_unsupported_platform());
}

#[test]
fn reports_and_joins() {
    assert_eq!(error_report("bad", "{}"), "Error during processing: bad. Raw response was:\n{}");
    assert_eq!(parse_failure_message("eof", "{"), "Failed to parse LLM JSON plan: eof. Raw response: {");
    assert_eq!(join_strings(&vec!["a".to_string(), "b".to_string()], ", "), "a, b");
    assert_eq!(join_strings(&vec![], ", "), "");
    let mut s = String::from("n=");
    push_decimal(&mut s, 4096);
    assert_eq!(s, "n=4096");
}

#[test]
fn platform_and_install_routes() {
    assert_eq!(detect_platform(OsFamily::Kali), Platform::KaliLinux);
    assert_eq!(detect_platform(OsFamily::Other), Platform::Unsupported);
    assert_eq!(Platform::OtherLinux.name(), "Linux (Other)");
    assert_eq!(Platform::Unsupported.name(), "Unsupported OS");
    let kali = SystemSetup::new(Platform::KaliLinux, false);
    assert_eq!(kali.check_and_install_tool(true), InstallRoute::Present);
    assert_eq!(kali.check_and_install_tool(false), InstallRoute::Apt);
    let win = SystemSetup::new(Platform::Windows, true);
    assert!(win.is_admin());
    assert_eq!(win.check_and_install_tool(false), InstallRoute::Winget);
    assert_eq!(win.ensure_ollama(false), InstallRoute::WindowsInstaller);
    let other = SystemSetup::new(Platform::OtherLinux, false);
    assert_eq!(other.check_and_install_tool(false), InstallRoute::NotSupported);
    assert_eq!(other.ensure_ollama(false), InstallRoute::Script);
    assert_eq!(other.ensure_ollama(true), InstallRoute::Present);
    let none = SystemSetup::new(Platform::Unsupported, false);
    assert_eq!(none.ensure_ollama(false), InstallRoute::NotSupported);
}

#[test]
fn system_prompt_names_platform() {
    assert_eq!(
        system_prompt("You run on {OS}. Only {OS} commands; {O}S stays.", &Platform::KaliLinux),
        "You run on Kali Linux. Only Kali Linux commands; {O}S stays."
    );
    assert_eq!(system_prompt("no marker", &Platform::Windows), "no marker");
}

#[test]
fn zero_gateway_on_windows_is_ignored() {
    let mut f = FactTable::new();
    let purpose = Some("find default gateway".to_string());
    parse_and_store_output(&mut f, &purpose, "   Default Gateway . . . : 0.0.0.0\r\n", true);
    assert!(!f.contains("default_gateway"));
}

#[test]
fn sanitize_ignores_trailing_dot_components() {
    assert_eq!(sanitize_command("a/. -x"), "a -x");
    assert_eq!(sanitize_command("/usr/bin/nmap/./ -sV"), "nmap -sV");
    assert_eq!(sanitize_command("./ x"), "./ x");
    assert_eq!(sanitize_command("/. x"), "/. x");
    assert_eq!(sanitize_command("a/.. x"), "a/.. x");
    assert_eq!(sanitize_command("./nmap -sV"), "nmap -sV");
}

#[test]
fn tool_ignores_trailing_dot_components() {
    assert_eq!(get_tool_from_command("a/."), Some("a".to_string()));
    assert_eq!(get_tool_from_command("./"), Some("./".to_string()));
    assert_eq!(get_tool_from_command("/."), Some("/.".to_string()));
    assert_eq!(get_tool_from_command("."), Some(".".to_string()));
    assert_eq!(get_tool_from_command("/usr/bin/"), Some("bin".to_string()));
}

#[test]
fn host_route_report_gateway() {
    assert_eq!(
        route_report_gateway("default via 10.0.0.1 dev eth0\n", false),
        Some("10.0.0.1".to_string())
    );
    assert_eq!(route_report_gateway("gateway: 10.0.0.1\n", false), None);
    assert_eq!(
        route_report_gateway("   Default Gateway . . . : 192.168.0.1\r\n", true),
        Some("192.168.0.1".to_string())
    );
}
