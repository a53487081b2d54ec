use rust_scripter::graph::TemplateApp;
use rust_scripter::registry::ParamType;
use rust_scripter::widget::{LinkVertex, Runnable};

fn v(function_id: u64, param_id: u64) -> LinkVertex {
    LinkVertex { function_id, param_id }
}

fn output_value(r: &Runnable, id: u64) -> Option<rhai::Dynamic> {
    r.outputs.get(&id).unwrap().last_value.clone()
}

#[test]
fn run_adds_two_inputs() {
    let mut g = TemplateApp::default();
    assert!(g.set_constant(v(0, 0), 3));
    assert!(g.set_constant(v(0, 1), 4));
    g.functions.get_mut(&0).unwrap().runnable.code = "#{Output1: Input1 + Input2}".to_string();
    assert!(g.run_function(0));
    let r = &g.functions.get(&0).unwrap().runnable;
    assert_eq!(output_value(r, 3).unwrap().as_int(), Ok(7));
    assert!(output_value(r, 4).is_none());

    assert!(g.run_function(0));
    let r = &g.functions.get(&0).unwrap().runnable;
    assert_eq!(output_value(r, 3).unwrap().as_int(), Ok(7));
}

#[test]
fn run_with_unparsable_script_leaves_outputs() {
    let mut r = Runnable::default();
    assert!(r.set_constant(3, 11));
    r.code = "let x = ;".to_string();
    r.run();
    assert_eq!(output_value(&r, 3).unwrap().as_int(), Ok(11));
    assert!(output_value(&r, 4).is_none());
}

#[test]
fn run_that_fails_while_running_leaves_outputs() {
    let mut r = Runnable::default();
    assert!(r.set_constant(4, 2));
    r.code = "#{Output2: Missing + 1}".to_string();
    r.run();
    assert_eq!(output_value(&r, 4).unwrap().as_int(), Ok(2));
}

#[test]
fn run_with_non_map_result_leaves_outputs() {
    let mut r = Runnable::default();
    r.code = "40 + 2".to_string();
    r.run();
    assert!(output_value(&r, 3).is_none());
    assert!(output_value(&r, 4).is_none());
}

#[test]
fn run_leaves_outputs_without_a_matching_key() {
    let mut r = Runnable::default();
    assert!(r.set_constant(4, 9));
    r.code = "#{Output1: 5, Other: 6}".to_string();
    r.run();
    assert_eq!(output_value(&r, 3).unwrap().as_int(), Ok(5));
    assert_eq!(output_value(&r, 4).unwrap().as_int(), Ok(9));
}

#[test]
fn run_binds_inputs_without_value_to_unit() {
    let mut r = Runnable::default();
    r.code = "#{Output1: type_of(Input3)}".to_string();
    r.run();
    assert_eq!(output_value(&r, 3).unwrap().into_string().unwrap(), "()");
}

#[test]
fn default_script_forwards_the_first_two_inputs() {
    let mut r = Runnable::default();
    assert!(r.set_constant(0, 1));
    assert!(r.set_constant(1, 2));
    r.run();
    assert_eq!(output_value(&r, 3).unwrap().as_int(), Ok(1));
    assert_eq!(output_value(&r, 4).unwrap().as_int(), Ok(2));
}

#[test]
fn run_uses_the_current_port_names() {
    let mut r = Runnable::default();
    r.code = "#{Output1: 1, Result: 2}".to_string();
    r.run();
    assert!(r.rename_param(3, "Result"));
    // A rename does not touch the value a run already gave.
    assert_eq!(output_value(&r, 3).unwrap().as_int(), Ok(1));
    r.run();
    assert_eq!(output_value(&r, 3).unwrap().as_int(), Ok(2));
}

#[test]
fn outputs_with_the_same_name_both_take_the_value() {
    let mut r = Runnable::default();
    let id = r.add_param_named(ParamType::Output, "Output1").unwrap();
    r.code = "#{Output1: 8}".to_string();
    r.run();
    assert_eq!(output_value(&r, 3).unwrap().as_int(), Ok(8));
    assert_eq!(output_value(&r, id).unwrap().as_int(), Ok(8));
}

#[test]
fn run_of_missing_node_reports_false() {
    let mut g = TemplateApp::default();
    assert!(!g.run_function(5));
}

#[test]
fn set_constant_of_missing_port_reports_false() {
    let mut g = TemplateApp::default();
    assert!(!g.set_constant(v(0, 9), 1));
    assert!(!g.set_constant(v(4, 0), 1));
}

#[test]
fn set_param_value_clears_a_value() {
    let mut r = Runnable::default();
    assert!(r.set_constant(0, 5));
    assert!(r.set_param_value(0, None));
    assert!(r.inputs.get(&0).unwrap().last_value.is_none());
}

#[test]
fn assign_outputs_writes_matching_names() {
    let mut r = Runnable::default();
    assert!(r.set_constant(4, 3));
    let res = vec![
        ("Output1".to_string(), rhai::Dynamic::from_int(10)),
        ("Output1".to_string(), rhai::Dynamic::from_int(20)),
        ("Other".to_string(), rhai::Dynamic::from_int(30)),
    ];
    r.assign_outputs(&res);
    assert_eq!(output_value(&r, 3).unwrap().as_int(), Ok(10));
    assert_eq!(output_value(&r, 4).unwrap().as_int(), Ok(3));
    assert!(r.inputs.values().all(|p| p.last_value.is_none()));
}

#[test]
fn find_value_gives_the_first_match() {
    let res = vec![
        ("a".to_string(), rhai::Dynamic::from_int(1)),
        ("b".to_string(), rhai::Dynamic::from_int(2)),
        ("b".to_string(), rhai::Dynamic::from_int(3)),
    ];
    assert_eq!(rust_scripter::script::find_value(&res, &"b".to_string()).unwrap().as_int(), Ok(2));
    assert!(rust_scripter::script::find_value(&res, &"c".to_string()).is_none());
}

#[test]
fn scripts_with_closures_are_refused() {
    let mut r = Runnable::default();
    assert!(r.set_constant(3, 5));
    r.code = "let n = 0; let f = || { n += 1; n }; #{Output1: f.call()}".to_string();
    r.run();
    assert_eq!(output_value(&r, 3).unwrap().as_int(), Ok(5));
}

#[test]
fn scripts_that_import_modules_are_refused() {
    let mut r = Runnable::default();
    assert!(r.set_constant(3, 5));
    r.code = "import \"m\" as m; #{Output1: m::x}".to_string();
    r.run();
    assert_eq!(output_value(&r, 3).unwrap().as_int(), Ok(5));
}
