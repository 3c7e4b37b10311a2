use remus::{EdgeCompute, EdgeFunction, ProtocolError};

fn test_function() -> EdgeFunction {
    EdgeFunction {
        id: "test_func".to_string(),
        name: "Test Function".to_string(),
        version: "1.0.0".to_string(),
        runtime: "wasm".to_string(),
        code: vec![0, 1, 2, 3],
        config: Vec::new(),
    }
}

#[test]
fn test_edge_function_lifecycle() {
    let mut compute = EdgeCompute::new();
    let function = test_function();

    compute.register_function(function.clone()).unwrap();

    let result = compute.execute_function(&function.id, vec![]).unwrap();
    assert!(result.success);
}

#[test]
fn unknown_function_fails_and_remove_works() {
    let mut compute = EdgeCompute::new();
    assert!(matches!(compute.execute_function("x", vec![]), Err(ProtocolError::InvalidFormat(_))));
    compute.register_function(test_function()).unwrap();
    let mut second = test_function();
    second.name = "again".to_string();
    compute.register_function(second).unwrap();
    let listed = compute.list_functions();
    assert_eq!(listed.len(), 1);
    assert_eq!(listed[0].name, "again");
    let r = compute.execute_function("test_func", vec![1]).unwrap();
    assert_eq!(r.function_id, "test_func");
    assert_eq!(r.output, Some(Vec::new()));
    assert_eq!(r.resources_used.cpu_time_ms, 0);
    compute.remove_function("test_func").unwrap();
    assert!(compute.remove_function("test_func").is_err());
    assert!(compute.list_functions().is_empty());
}
