use little_shader_display::shader_pipeline::{
    next_shader_index, reload_flags_for, RecompileStep, ShaderController, ShaderPaths, ShaderStage,
};

fn paths() -> ShaderPaths {
    ShaderPaths {
        vertex_source: "u/master.vert".to_string(),
        vertex_artifact: "c/master.vert.spv".to_string(),
        fragment_sources: ["waves.frag", "mutation.frag", "fractal.frag", "grid.frag", "rings.frag"]
            .iter()
            .map(|n| format!("u/{}", n))
            .collect(),
        fragment_artifact: "c/master.frag.spv".to_string(),
    }
}

fn compile(source: &str, output: &str) -> RecompileStep {
    RecompileStep::Compile { source: source.to_string(), output: output.to_string() }
}

fn load(stage: ShaderStage, artifact: &str) -> RecompileStep {
    RecompileStep::LoadModule { stage, artifact: artifact.to_string() }
}

#[test]
fn advancing_five_times_wraps_around() {
    let (mut c, _) = ShaderController::new(paths());
    assert_eq!(c.current_shader_index(), 0);
    let mut seen = Vec::new();
    for _ in 0..5 {
        c.advance_variant();
        seen.push(c.current_shader_index());
    }
    assert_eq!(seen, vec![1, 2, 3, 4, 0]);
}

#[test]
fn next_index_is_cyclic() {
    assert_eq!(next_shader_index(0, 5), 1);
    assert_eq!(next_shader_index(4, 5), 0);
    assert_eq!(next_shader_index(0, 1), 0);
}

#[test]
fn full_reload_compiles_and_loads_both_then_builds() {
    let steps = paths().recompile_shaders(2, true, true);
    assert_eq!(
        steps,
        vec![
            compile("u/master.vert", "c/master.vert.spv"),
            load(ShaderStage::Vertex, "c/master.vert.spv"),
            compile("u/fractal.frag", "c/master.frag.spv"),
            load(ShaderStage::Fragment, "c/master.frag.spv"),
            RecompileStep::BuildPipeline,
        ]
    );
}

#[test]
fn reload_without_stages_still_rebuilds_the_pipeline() {
    assert_eq!(paths().recompile_shaders(0, false, false), vec![RecompileStep::BuildPipeline]);
}

#[test]
fn vertex_only_reload() {
    assert_eq!(
        paths().recompile_shaders(4, true, false),
        vec![
            compile("u/master.vert", "c/master.vert.spv"),
            load(ShaderStage::Vertex, "c/master.vert.spv"),
            RecompileStep::BuildPipeline,
        ]
    );
}

#[test]
fn start_builds_the_first_variant() {
    let (c, steps) = ShaderController::new(paths());
    assert_eq!(c.current_shader_index(), 0);
    assert_eq!(steps, paths().recompile_shaders(0, true, true));
    assert_eq!(steps[2], compile("u/waves.frag", "c/master.frag.spv"));
}

#[test]
fn advance_reloads_the_new_variant() {
    let (mut c, _) = ShaderController::new(paths());
    let steps = c.advance_variant();
    assert_eq!(steps, paths().recompile_shaders(1, true, true));
}

#[test]
fn space_advances_other_bytes_do_not() {
    let (mut c, _) = ShaderController::new(paths());
    assert!(c.on_input_byte(b'x').is_empty());
    assert_eq!(c.current_shader_index(), 0);
    assert_eq!(c.on_input_byte(b' '), paths().recompile_shaders(1, true, true));
    assert_eq!(c.current_shader_index(), 1);
}

#[test]
fn changed_files_reload_per_file_in_order() {
    let (mut c, _) = ShaderController::new(paths());
    c.advance_variant();
    let names = vec!["master.vert".to_string(), "notes.txt".to_string(), "rings.frag".to_string()];
    let steps = c.on_files_changed(&names);
    let mut expected = paths().recompile_shaders(1, true, false);
    expected.extend(paths().recompile_shaders(1, false, true));
    assert_eq!(steps, expected);
}

#[test]
fn changed_inactive_variant_reloads_the_selected_one() {
    let (c, _) = ShaderController::new(paths());
    let steps = c.on_files_changed(&vec!["grid.frag".to_string()]);
    assert_eq!(steps[0], compile("u/waves.frag", "c/master.frag.spv"));
}

#[test]
fn no_shader_files_no_steps() {
    let (c, _) = ShaderController::new(paths());
    assert!(c.on_files_changed(&vec![]).is_empty());
    assert!(c.on_files_changed(&vec!["readme.md".to_string(), "vert".to_string()]).is_empty());
}

#[test]
fn reload_flags_by_extension() {
    assert_eq!(reload_flags_for("master.vert"), (true, false));
    assert_eq!(reload_flags_for("waves.frag"), (false, true));
    assert_eq!(reload_flags_for("waves.frag.spv"), (false, false));
    assert_eq!(reload_flags_for(".vert"), (true, false));
    assert_eq!(reload_flags_for("frag"), (false, false));
}
