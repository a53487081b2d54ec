use indexmap::IndexMap;
use rust_scripter::graph::{Link, TemplateApp};
use rust_scripter::naming::name_for;
use rust_scripter::registry::{FunctionParam, ParamType, ParamTypes};
use rust_scripter::widget::{EditOptions, FunctionWidget, LinkVertex, RenameOptions, Runnable, WidgetMode};

#[test]
fn default_graph_has_two_nodes_and_one_link() {
    let g = TemplateApp::default();
    assert_eq!(g.functions.keys().copied().collect::<Vec<u64>>(), vec![0, 1]);
    assert_eq!(g.functions.get(&0).unwrap().runnable.name, "Function #0");
    assert_eq!(g.functions.get(&1).unwrap().runnable.name, "Function #1");
    assert_eq!(
        g.links,
        vec![Link {
            start: LinkVertex { function_id: 0, param_id: 3 },
            end: LinkVertex { function_id: 1, param_id: 0 },
            should_be_deleted: false,
        }]
    );
    assert_eq!(g.pending, None);
    assert_eq!(g.last_rect_id, 3);
    assert_eq!(g.next_function_id, 2);
}

#[test]
fn add_function_names_nodes_by_the_counter() {
    let mut g = TemplateApp::default();
    assert_eq!(g.add_function(), Some(2));
    assert_eq!(g.add_function(), Some(3));
    assert_eq!(g.functions.get(&2).unwrap().runnable.name, "Function #3");
    assert_eq!(g.functions.get(&3).unwrap().runnable.name, "Function #4");
    assert_eq!(g.last_rect_id, 5);
    let w = g.functions.get(&3).unwrap();
    assert_eq!(w.id, 3);
    assert!(w.is_open);
    assert_eq!(w.mode, WidgetMode::Signature);
}

#[test]
fn add_function_stops_when_ids_run_out() {
    let mut g = TemplateApp {
        functions: IndexMap::new(),
        links: Vec::new(),
        pending: None,
        last_rect_id: 0,
        next_function_id: u64::MAX,
    };
    assert_eq!(g.add_function(), None);
    assert_eq!(g.functions.len(), 0);
    g.next_function_id = 0;
    g.last_rect_id = u64::MAX;
    assert_eq!(g.add_function(), None);
    assert_eq!(g.next_function_id, 0);
}

#[test]
fn name_for_writes_decimal_digits() {
    assert_eq!(name_for(0), "Function #0");
    assert_eq!(name_for(7), "Function #7");
    assert_eq!(name_for(10), "Function #10");
    assert_eq!(name_for(123), "Function #123");
    assert_eq!(name_for(u64::MAX), "Function #18446744073709551615");
}

#[test]
fn runnable_default_ports() {
    let r = Runnable::default();
    assert_eq!(r.name, "Function #0");
    let ins: Vec<(u64, String)> = r.inputs.iter().map(|(k, p)| (*k, p.param_name.clone())).collect();
    assert_eq!(ins, vec![(0, "Input1".to_string()), (1, "Input2".to_string()), (2, "Input3".to_string())]);
    let outs: Vec<(u64, String)> = r.outputs.iter().map(|(k, p)| (*k, p.param_name.clone())).collect();
    assert_eq!(outs, vec![(3, "Output1".to_string()), (4, "Output2".to_string())]);
    assert_eq!(r.next_param_id, 5);
    assert_eq!(r.code, "let val = #{Output1: Input1, Output2: Input2};\nval");
    assert!(r.inputs.values().chain(r.outputs.values()).all(|p| p.param_kind == ParamTypes::String));
    assert!(r.inputs.values().all(|p| p.last_value.is_none() && !p.should_be_deleted));
}

#[test]
fn add_param_appends_with_the_default_name() {
    let mut g = TemplateApp::default();
    assert_eq!(g.add_param(1, ParamType::Output), Some(5));
    assert_eq!(g.add_param(1, ParamType::Input), Some(6));
    let r = &g.functions.get(&1).unwrap().runnable;
    assert_eq!(r.outputs.keys().copied().collect::<Vec<u64>>(), vec![3, 4, 5]);
    assert_eq!(r.inputs.keys().copied().collect::<Vec<u64>>(), vec![0, 1, 2, 6]);
    assert_eq!(r.outputs.get(&5).unwrap().param_name, "New...");
    assert_eq!(g.add_param(8, ParamType::Input), None);
}

#[test]
fn add_param_stops_when_port_ids_run_out() {
    let mut r = Runnable::new("F".to_string(), String::new());
    r.next_param_id = u64::MAX;
    assert_eq!(r.add_param(ParamType::Input), None);
    assert_eq!(r.inputs.len(), 0);
}

#[test]
fn param_direction_and_lookup_by_vertex() {
    let r = Runnable::default();
    assert_eq!(r.param_direction(1), Some(ParamType::Input));
    assert_eq!(r.param_direction(4), Some(ParamType::Output));
    assert_eq!(r.param_direction(5), None);
    let found = r.get_param_by_vertex(&LinkVertex { function_id: 0, param_id: 4 }).unwrap();
    assert_eq!(found.param_name, "Output2");
    assert!(r.get_param_by_vertex(&LinkVertex { function_id: 0, param_id: 6 }).is_none());
}

#[test]
fn widget_defaults_and_mode_toggle() {
    let mut w = FunctionWidget::default_with_pos(7, "Adder".to_string());
    assert_eq!(w.id, 7);
    assert_eq!(w.runnable.name, "Adder");
    assert!(w.is_open && w.is_collapsed);
    assert_eq!(w.mode, WidgetMode::Signature);
    w.toggle_mode();
    assert_eq!(w.mode, WidgetMode::Code);
    w.toggle_mode();
    assert_eq!(w.mode, WidgetMode::Signature);
}

#[test]
fn param_and_option_defaults() {
    let p = FunctionParam::default();
    assert_eq!(p.param_name, "New...");
    assert_eq!(p.param_kind, ParamTypes::String);
    assert!(!p.should_be_deleted && p.last_value.is_none());
    let q = FunctionParam::default_with_name("Input9");
    assert_eq!(q.param_name, "Input9");
    let o = RenameOptions::default();
    assert_eq!((o.rename_id, o.param_type, o.new_name.as_str()), (0, ParamType::Input, ""));
    let e = EditOptions::default();
    assert_eq!((e.edit_id, e.new_last_value.as_str()), (0, ""));
}

#[test]
fn add_sums_two_integers() {
    assert_eq!(rust_scripter::add(2, 3), 5);
    assert_eq!(rust_scripter::add(-7, 7), 0);
    assert_eq!(rust_scripter::add(i32::MAX, 0), i32::MAX);
}
