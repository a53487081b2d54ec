use indexmap::IndexMap;
use rust_scripter::graph::{Link, TemplateApp};
use rust_scripter::widget::LinkVertex;

fn v(function_id: u64, param_id: u64) -> LinkVertex {
    LinkVertex { function_id, param_id }
}

fn name_of(g: &TemplateApp, at: LinkVertex) -> String {
    let r = &g.functions.get(&at.function_id).unwrap().runnable;
    match r.inputs.get(&at.param_id) {
        Some(p) => p.param_name.clone(),
        None => r.outputs.get(&at.param_id).unwrap().param_name.clone(),
    }
}

#[test]
fn rename_keeps_port_id_and_links() {
    let mut g = TemplateApp::default();
    assert!(g.rename_param(v(0, 3), "Sum"));
    assert!(g.rename_param(v(1, 0), "Output1"));
    assert_eq!(name_of(&g, v(0, 3)), "Sum");
    assert_eq!(name_of(&g, v(1, 0)), "Output1");
    g.sweep();
    assert_eq!(g.links, vec![Link { start: v(0, 3), end: v(1, 0), should_be_deleted: false }]);
    let outs: Vec<u64> = g.functions.get(&0).unwrap().runnable.outputs.keys().copied().collect();
    assert_eq!(outs, vec![3, 4]);
}

#[test]
fn duplicate_names_are_allowed() {
    let mut g = TemplateApp::default();
    assert!(g.rename_param(v(0, 1), "Input1"));
    assert_eq!(name_of(&g, v(0, 0)), "Input1");
    assert_eq!(name_of(&g, v(0, 1)), "Input1");
    assert_eq!(g.functions.get(&0).unwrap().runnable.inputs.len(), 3);
}

#[test]
fn rename_of_missing_port_reports_false() {
    let mut g = TemplateApp::default();
    assert!(!g.rename_param(v(0, 42), "X"));
    assert!(!g.rename_param(v(9, 0), "X"));
    assert_eq!(name_of(&g, v(0, 0)), "Input1");
}

#[test]
fn rename_session_commit_writes_the_buffer() {
    let mut g = TemplateApp::default();
    assert!(g.begin_rename(v(0, 4)));
    let o = g.functions.get(&0).unwrap().rename_options.as_ref().unwrap();
    assert_eq!(o.rename_id, 4);
    assert_eq!(o.new_name, "Output2");
    g.edit_rename(0, "Total".to_string());
    // Nothing is renamed until the session is committed.
    assert_eq!(name_of(&g, v(0, 4)), "Output2");
    assert!(g.commit_rename(0));
    assert_eq!(name_of(&g, v(0, 4)), "Total");
    assert!(g.functions.get(&0).unwrap().rename_options.is_none());
    assert!(!g.commit_rename(0));
}

#[test]
fn rename_session_cancel_keeps_the_name() {
    let mut g = TemplateApp::default();
    assert!(g.begin_rename(v(1, 2)));
    g.edit_rename(1, "Discarded".to_string());
    g.cancel_rename(1);
    assert_eq!(name_of(&g, v(1, 2)), "Input3");
    assert!(g.functions.get(&1).unwrap().rename_options.is_none());
}

#[test]
fn new_rename_session_replaces_the_open_one() {
    let mut g = TemplateApp::default();
    assert!(g.begin_rename(v(0, 0)));
    g.edit_rename(0, "First".to_string());
    assert!(g.begin_rename(v(0, 3)));
    g.edit_rename(0, "Second".to_string());
    assert!(g.commit_rename(0));
    assert_eq!(name_of(&g, v(0, 0)), "Input1");
    assert_eq!(name_of(&g, v(0, 3)), "Second");
}

#[test]
fn begin_rename_of_missing_port_opens_nothing() {
    let mut g = TemplateApp::default();
    assert!(!g.begin_rename(v(0, 8)));
    assert!(g.functions.get(&0).unwrap().rename_options.is_none());
}
