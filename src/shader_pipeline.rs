//! Hot reload of the shaders: which compile, load and pipeline steps a reload takes,
//! and what running them leaves the renderer with.
use vstd::prelude::*;
use crate::text::{chars_of, ends_with, ends_with_chars, string_views};

verus! {

/// The two shader stages of the pipeline.
#[derive(PartialEq, Eq, Structural, Clone, Copy, Debug)]
pub enum ShaderStage {
    Vertex,
    Fragment,
}

/// One step of a shader reload, carried out by the renderer in order.
#[derive(Clone, PartialEq, Eq, Debug)]
pub enum RecompileStep {
    /// Run the shader compiler on `source`, writing the SPIR-V artifact to `output`.
    Compile { source: String, output: String },
    /// Replace the stage's shader module with one made from the artifact's bytes.
    LoadModule { stage: ShaderStage, artifact: String },
    /// Replace the render pipeline with a new one made from the current modules.
    BuildPipeline,
}

/// A reload step with its paths as character sequences.
pub enum StepView {
    Compile { source: Seq<char>, output: Seq<char> },
    LoadModule { stage: ShaderStage, artifact: Seq<char> },
    BuildPipeline,
}

impl View for RecompileStep {
    type V = StepView;

    open spec fn view(&self) -> StepView {
        match self {
            RecompileStep::Compile { source, output } => StepView::Compile {
                source: source@,
                output: output@,
            },
            RecompileStep::LoadModule { stage, artifact } => StepView::LoadModule {
                stage: *stage,
                artifact: artifact@,
            },
            RecompileStep::BuildPipeline => StepView::BuildPipeline,
        }
    }
}

/// The views of a sequence of steps.
pub open spec fn steps_view(steps: Seq<RecompileStep>) -> Seq<StepView> {
    steps.map_values(|s: RecompileStep| s@)
}

/// Where the shaders live: the one vertex source, the fragment variants in their
/// fixed order, and the artifact that each stage compiles to.
#[derive(Clone, Debug)]
pub struct ShaderPaths {
    pub vertex_source: String,
    pub vertex_artifact: String,
    pub fragment_sources: Vec<String>,
    pub fragment_artifact: String,
}

/// The steps of one reload: for each stage asked for, compile its source and load
/// the artifact; then, whatever was asked, build a new pipeline.
pub open spec fn reload_steps(
    vertex_source: Seq<char>,
    vertex_artifact: Seq<char>,
    fragment_source: Seq<char>,
    fragment_artifact: Seq<char>,
    rebuild_vertex: bool,
    rebuild_fragment: bool,
) -> Seq<StepView> {
    let v = if rebuild_vertex {
        seq![
            StepView::Compile { source: vertex_source, output: vertex_artifact },
            StepView::LoadModule { stage: ShaderStage::Vertex, artifact: vertex_artifact },
        ]
    } else {
        Seq::empty()
    };
    let f = if rebuild_fragment {
        seq![
            StepView::Compile { source: fragment_source, output: fragment_artifact },
            StepView::LoadModule { stage: ShaderStage::Fragment, artifact: fragment_artifact },
        ]
    } else {
        Seq::empty()
    };
    v + f + seq![StepView::BuildPipeline]
}

impl ShaderPaths {
    /// The fragment variants' source paths.
    pub open spec fn variants(&self) -> Seq<Seq<char>> {
        string_views(self.fragment_sources@)
    }

    /// The steps of a reload with fragment variant `shader_index` selected.
    pub open spec fn plan(&self, shader_index: int, rebuild_vertex: bool, rebuild_fragment: bool) -> Seq<StepView> {
        reload_steps(
            self.vertex_source@,
            self.vertex_artifact@,
            self.variants()[shader_index],
            self.fragment_artifact@,
            rebuild_vertex,
            rebuild_fragment,
        )
    }

    /// The steps that reload the asked-for stages, fragment variant `shader_index`
    /// selected, and rebuild the pipeline.
    pub fn recompile_shaders(&self, shader_index: usize, recompile_vertex_shader: bool, recompile_fragment_shader: bool) -> (steps: Vec<RecompileStep>)
        requires
            shader_index < self.fragment_sources@.len(),
        ensures
            steps_view(steps@) == self.plan(shader_index as int, recompile_vertex_shader, recompile_fragment_shader),
    {
        let mut steps: Vec<RecompileStep> = Vec::new();
        if recompile_vertex_shader {
            steps.push(RecompileStep::Compile {
                source: self.vertex_source.clone(),
                output: self.vertex_artifact.clone(),
            });
            steps.push(RecompileStep::LoadModule {
                stage: ShaderStage::Vertex,
                artifact: self.vertex_artifact.clone(),
            });
        }
        if recompile_fragment_shader {
            steps.push(RecompileStep::Compile {
                source: self.fragment_sources[shader_index].clone(),
                output: self.fragment_artifact.clone(),
            });
            steps.push(RecompileStep::LoadModule {
                stage: ShaderStage::Fragment,
                artifact: self.fragment_artifact.clone(),
            });
        }
        steps.push(RecompileStep::BuildPipeline);
        assert(steps_view(steps@) =~= self.plan(shader_index as int, recompile_vertex_shader, recompile_fragment_shader));
        steps
    }
}

/// A shader module as the renderer holds it: the artifact it was made from, what that
/// artifact was compiled from and when (if this run compiled it), and when it was made.
pub struct ModuleView {
    pub artifact: Seq<char>,
    pub compiled_from: Option<(Seq<char>, nat)>,
    pub loaded_at: nat,
}

/// The renderer's shader state: a step counter, what each artifact was last compiled
/// from and when, the current modules, and the modules the pipeline was built from.
pub struct RendererView {
    pub clock: nat,
    pub artifacts: Map<Seq<char>, (Seq<char>, nat)>,
    pub vertex: ModuleView,
    pub fragment: ModuleView,
    pub pipeline_vertex: ModuleView,
    pub pipeline_fragment: ModuleView,
    pub pipeline_built_at: nat,
}

/// What one step does to the renderer's shader state.
pub open spec fn run_step(r: RendererView, step: StepView) -> RendererView {
    let now = r.clock;
    let r = RendererView { clock: now + 1, ..r };
    match step {
        StepView::Compile { source, output } => RendererView {
            artifacts: r.artifacts.insert(output, (source, now)),
            ..r
        },
        StepView::LoadModule { stage, artifact } => {
            let m = ModuleView {
                artifact,
                compiled_from: if r.artifacts.contains_key(artifact) {
                    Some(r.artifacts[artifact])
                } else {
                    None
                },
                loaded_at: now,
            };
            match stage {
                ShaderStage::Vertex => RendererView { vertex: m, ..r },
                ShaderStage::Fragment => RendererView { fragment: m, ..r },
            }
        },
        StepView::BuildPipeline => RendererView {
            pipeline_vertex: r.vertex,
            pipeline_fragment: r.fragment,
            pipeline_built_at: now,
            ..r
        },
    }
}

/// What a sequence of steps, run in order, does to the renderer's shader state.
pub open spec fn run_steps(r: RendererView, steps: Seq<StepView>) -> RendererView
    decreases steps.len(),
{
    if steps.len() == 0 {
        r
    } else {
        run_step(run_steps(r, steps.drop_last()), steps.last())
    }
}

/// A module made during this reload from `artifact`, which this reload compiled from
/// `source`.
pub open spec fn fresh_module(m: ModuleView, source: Seq<char>, artifact: Seq<char>, since: nat) -> bool {
    &&& m.artifact == artifact
    &&& m.loaded_at >= since
    &&& m.compiled_from matches Some(c) && c.0 == source && c.1 >= since
}

/// A reload, from any renderer state, leaves a new pipeline built from exactly the
/// current modules; each stage asked for holds a module made during the reload from the
/// artifact just compiled from its source (the selected variant for the fragment
/// stage), and each other stage keeps its module.
pub proof fn reload_rebuilds_pipeline_from_current_modules(
    paths: ShaderPaths,
    shader_index: int,
    rebuild_vertex: bool,
    rebuild_fragment: bool,
    r: RendererView,
)
    requires
        0 <= shader_index < paths.fragment_sources@.len(),
    ensures
        ({
            let t = run_steps(r, paths.plan(shader_index, rebuild_vertex, rebuild_fragment));
            &&& t.pipeline_vertex == t.vertex
            &&& t.pipeline_fragment == t.fragment
            &&& t.pipeline_built_at >= r.clock
            &&& rebuild_vertex ==> fresh_module(t.vertex, paths.vertex_source@, paths.vertex_artifact@, r.clock)
            &&& !rebuild_vertex ==> t.vertex == r.vertex
            &&& rebuild_fragment ==> fresh_module(
                t.fragment,
                paths.variants()[shader_index],
                paths.fragment_artifact@,
                r.clock,
            )
            &&& !rebuild_fragment ==> t.fragment == r.fragment
        }),
{
    let steps = paths.plan(shader_index, rebuild_vertex, rebuild_fragment);
    reveal_with_fuel(run_steps, 6);
}

/// The variant after `current` in a cyclic list of `count` variants.
pub fn next_shader_index(current: usize, count: usize) -> (r: usize)
    requires
        current < count,
    ensures
        r == (current + 1) % (count as int),
        r < count,
{
    (current + 1) % count
}

/// Which stages a changed file name asks to reload: the vertex stage for a `.vert`
/// file, the fragment stage for a `.frag` file.
pub open spec fn reload_flags(name: Seq<char>) -> (bool, bool) {
    (ends_with(name, seq!['.', 'v', 'e', 'r', 't']), ends_with(name, seq!['.', 'f', 'r', 'a', 'g']))
}

/// Whether a changed file asks to reload the vertex stage, and the fragment stage.
pub fn reload_flags_for(name: &str) -> (r: (bool, bool))
    ensures
        r == reload_flags(name@),
{
    let cs = chars_of(name);
    let vert = vec!['.', 'v', 'e', 'r', 't'];
    let frag = vec!['.', 'f', 'r', 'a', 'g'];
    assert(vert@ == seq!['.', 'v', 'e', 'r', 't']);
    assert(frag@ == seq!['.', 'f', 'r', 'a', 'g']);
    (ends_with_chars(&cs, &vert), ends_with_chars(&cs, &frag))
}

/// The reload steps for one changed file: a vertex-only reload for a `.vert` file, a
/// fragment-only reload of the selected variant for a `.frag` file, none otherwise.
pub open spec fn file_plan(paths: ShaderPaths, shader_index: int, name: Seq<char>) -> Seq<StepView> {
    let (v, f) = reload_flags(name);
    (if v {
        paths.plan(shader_index, true, false)
    } else {
        Seq::empty()
    }) + (if f {
        paths.plan(shader_index, false, true)
    } else {
        Seq::empty()
    })
}

/// The reload steps for the changed files, one file after the other.
pub open spec fn files_plan(paths: ShaderPaths, shader_index: int, names: Seq<Seq<char>>) -> Seq<StepView>
    decreases names.len(),
{
    if names.len() == 0 {
        Seq::empty()
    } else {
        files_plan(paths, shader_index, names.drop_last()) + file_plan(paths, shader_index, names.last())
    }
}

/// The decisions of the hot reload: which fragment variant is selected, and what to
/// reload when the user asks for the next variant or when shader files change.
pub struct ShaderController {
    paths: ShaderPaths,
    current_shader_index: usize,
}

impl ShaderController {
    #[verifier::type_invariant]
    spec fn inv(self) -> bool {
        self.current_shader_index < self.paths.fragment_sources@.len()
    }

    /// Where the shaders live.
    pub closed spec fn shader_paths(self) -> ShaderPaths {
        self.paths
    }

    /// The selected fragment variant.
    pub closed spec fn selected(self) -> nat {
        self.current_shader_index as nat
    }

    /// Starts with the first fragment variant selected; the steps build both modules
    /// and the first pipeline.
    pub fn new(paths: ShaderPaths) -> (r: (ShaderController, Vec<RecompileStep>))
        requires
            paths.fragment_sources@.len() > 0,
        ensures
            r.0.shader_paths() == paths,
            r.0.selected() == 0,
            steps_view(r.1@) == paths.plan(0, true, true),
    {
        let steps = paths.recompile_shaders(0, true, true);
        (ShaderController { paths, current_shader_index: 0 }, steps)
    }

    /// The selected fragment variant.
    pub fn current_shader_index(&self) -> (r: usize)
        ensures
            r == self.selected(),
            r < self.shader_paths().fragment_sources@.len(),
    {
        proof {
            use_type_invariant(self);
        }
        self.current_shader_index
    }

    /// Selects the next variant, cyclically, and returns the steps that reload both
    /// stages with it.
    pub fn advance_variant(&mut self) -> (steps: Vec<RecompileStep>)
        ensures
            final(self).shader_paths() == old(self).shader_paths(),
            final(self).selected() == (old(self).selected() + 1) as int % (old(self).shader_paths().fragment_sources@.len() as int),
            steps_view(steps@) == final(self).shader_paths().plan(final(self).selected() as int, true, true),
    {
        proof {
            use_type_invariant(&*self);
        }
        let next = next_shader_index(self.current_shader_index, self.paths.fragment_sources.len());
        self.current_shader_index = next;
        self.paths.recompile_shaders(next, true, true)
    }

    /// Handles one byte typed by the user: a space selects the next variant and
    /// reloads both stages with it; any other byte changes nothing.
    pub fn on_input_byte(&mut self, byte: u8) -> (steps: Vec<RecompileStep>)
        ensures
            final(self).shader_paths() == old(self).shader_paths(),
            byte == 0x20 ==> final(self).selected() == (old(self).selected() + 1) as int % (old(
                self,
            ).shader_paths().fragment_sources@.len() as int) && steps_view(steps@)
                == final(self).shader_paths().plan(final(self).selected() as int, true, true),
            byte != 0x20 ==> final(self).selected() == old(self).selected() && steps@.len() == 0,
    {
        if byte == 0x20 {
            self.advance_variant()
        } else {
            Vec::new()
        }
    }

    /// The steps for the files changed since the last poll, given by name, in order.
    pub fn on_files_changed(&self, names: &Vec<String>) -> (steps: Vec<RecompileStep>)
        ensures
            steps_view(steps@) == files_plan(self.shader_paths(), self.selected() as int, string_views(names@)),
    {
        proof {
            use_type_invariant(self);
        }
        let mut steps: Vec<RecompileStep> = Vec::new();
        let mut i: usize = 0;
        while i < names.len()
            invariant
                i <= names@.len(),
                self.current_shader_index < self.paths.fragment_sources@.len(),
                steps_view(steps@) == files_plan(self.paths, self.current_shader_index as int, string_views(names@.subrange(0, i as int))),
            decreases names@.len() - i,
        {
            let ghost before = steps@;
            let flags = reload_flags_for(names[i].as_str());
            if flags.0 {
                let mut more = self.paths.recompile_shaders(self.current_shader_index, true, false);
                steps.append(&mut more);
            }
            if flags.1 {
                let mut more = self.paths.recompile_shaders(self.current_shader_index, false, true);
                steps.append(&mut more);
            }
            proof {
                let prefix = string_views(names@.subrange(0, i + 1));
                assert(prefix.drop_last() =~= string_views(names@.subrange(0, i as int)));
                assert(prefix.last() == names@[i as int]@);
                assert(steps_view(steps@) =~= steps_view(before) + file_plan(self.paths, self.current_shader_index as int, names@[i as int]@));
            }
            i = i + 1;
        }
        assert(names@.subrange(0, names@.len() as int) =~= names@);
        steps
    }
}

} // verus!
