use rust_scripter::graph::TemplateApp;
use rust_scripter::widget::LinkVertex;

fn v(function_id: u64, param_id: u64) -> LinkVertex {
    LinkVertex { function_id, param_id }
}

fn input_int(g: &TemplateApp, at: LinkVertex) -> Option<i64> {
    g.functions.get(&at.function_id).unwrap().runnable.inputs.get(&at.param_id).unwrap()
        .last_value.clone().map(|d| d.as_int().unwrap())
}

#[test]
fn propagate_copies_output_values_along_links() {
    let mut g = TemplateApp::default();
    assert!(g.set_constant(v(0, 3), 21));
    g.propagate_values();
    assert_eq!(input_int(&g, v(1, 0)), Some(21));
    assert_eq!(input_int(&g, v(1, 1)), None);
}

#[test]
fn propagate_leaves_inputs_of_outputs_without_value() {
    let mut g = TemplateApp::default();
    assert!(g.set_constant(v(1, 0), 5));
    g.propagate_values();
    assert_eq!(input_int(&g, v(1, 0)), Some(5));
}

#[test]
fn propagate_lets_the_last_link_win() {
    let mut g = TemplateApp::default();
    g.add_function();
    // 2.Output2 -> 1.Input1, after 0.Output1 -> 1.Input1.
    g.click_param(v(2, 4));
    g.click_param(v(1, 0));
    assert!(g.set_constant(v(0, 3), 1));
    assert!(g.set_constant(v(2, 4), 2));
    g.propagate_values();
    assert_eq!(input_int(&g, v(1, 0)), Some(2));
}

#[test]
fn run_then_propagate_feeds_the_next_node() {
    let mut g = TemplateApp::default();
    assert!(g.set_constant(v(0, 0), 3));
    assert!(g.set_constant(v(0, 1), 4));
    g.functions.get_mut(&0).unwrap().runnable.code = "#{Output1: Input1 * Input2}".to_string();
    assert!(g.run_function(0));
    g.sweep();
    g.propagate_values();
    assert_eq!(input_int(&g, v(1, 0)), Some(12));
}
