use hypercore::{HttpTool, HybridPlanner, HyperError, Orchestrator, SymbolicError, HybridError};

#[test]
fn contract_goal_seeds_contract_facts() {
    let mut p = HybridPlanner::new();
    let report = p.plan("Validar contrato 123").unwrap();
    assert_eq!(
        report,
        "Plan Execution for 'Validar contrato 123':\n- Derived 0 new symbolic facts.\n- Current Knowledge Base:\n  * [contract_123].status = active\n  * [contract_123].amount = 50000\n"
    );
}

#[test]
fn other_goal_records_itself() {
    let mut p = HybridPlanner::new();
    let report = p.plan("comprar pão").unwrap();
    assert_eq!(
        report,
        "Plan Execution for 'comprar pão':\n- Derived 0 new symbolic facts.\n- Current Knowledge Base:\n  * [goal].is = comprar pão\n"
    );
    let again = p.plan("comprar pão").unwrap();
    assert_eq!(again, report);
}

#[test]
fn reasoning_concludes_on_goal() {
    let o = Orchestrator::new();
    let r = o.reason("resumir").unwrap();
    assert_eq!(r.conclusion, "Processed goal: resumir");
    assert_eq!(r.trace, vec!["Initialized".to_string(), "Analyzed".to_string(), "Concluded".to_string()]);
}

#[test]
fn http_tool_echoes_input() {
    let t = HttpTool::new();
    assert_eq!(t.call("ping").unwrap(), "HTTP_TOOL_CALLED with: ping");
}

#[test]
fn error_variants_carry_messages() {
    match HyperError::Tool("down".to_string()) {
        HyperError::Tool(m) => assert_eq!(m, "down"),
        _ => panic!("wrong variant"),
    }
    match SymbolicError::Parse("bad".to_string()) {
        SymbolicError::Parse(m) => assert_eq!(m, "bad"),
        _ => panic!("wrong variant"),
    }
    let HybridError::Planning(m) = HybridError::Planning("x".to_string());
    assert_eq!(m, "x");
}
