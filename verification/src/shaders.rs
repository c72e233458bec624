//! Where the WGSL sources live and which pipeline each shader feeds.
//!
//! Sources sit under `shaders/`, in `compute/` (blur passes, refraction),
//! `fragment/` (final composite) or `common/` (modules that others import).

use vstd::prelude::*;
use vstd::string::*;
use crate::text::{str_equals, join, join_strings};

verus! {

/// Directory under `shaders/` that holds the shader `name` (empty for an
/// unknown name).
pub open spec fn dir_of(name: Seq<char>) -> Seq<char> {
    if name == "blur_horizontal"@ || name == "blur_vertical"@ || name == "refract"@ {
        "compute"@
    } else if name == "composite"@ {
        "fragment"@
    } else if name == "fullscreen_triangle"@ || name == "sdf"@ || name == "glass_material"@ {
        "common"@
    } else {
        Seq::empty()
    }
}

/// Path of the source file of `name`: `shaders/<dir>/<name>.wgsl`, or
/// `shaders/<name>.wgsl` for an unknown name. A name that starts with `/` is
/// an absolute path and is taken as it stands, as joining paths does.
pub open spec fn path_of(name: Seq<char>) -> Seq<char> {
    if name.len() > 0 && name[0] == '/' {
        name + ".wgsl"@
    } else if dir_of(name).len() == 0 {
        "shaders/"@ + name + ".wgsl"@
    } else {
        "shaders/"@ + dir_of(name) + "/"@ + name + ".wgsl"@
    }
}

/// The shaders that can be read and rewritten, in listing order.
pub open spec fn shader_names() -> Seq<Seq<char>> {
    seq![
        "blur_horizontal"@,
        "blur_vertical"@,
        "refract"@,
        "composite"@,
        "fullscreen_triangle"@,
        "sdf"@,
        "glass_material"@,
    ]
}

/// Directory under `shaders/` of the shader `name`.
pub fn shader_dir(name: &str) -> (r: &'static str)
    ensures
        r@ == dir_of(name@),
{
    proof {
        reveal_strlit("");
    }
    if str_equals(name, "blur_horizontal") || str_equals(name, "blur_vertical") || str_equals(
        name,
        "refract",
    ) {
        "compute"
    } else if str_equals(name, "composite") {
        "fragment"
    } else if str_equals(name, "fullscreen_triangle") || str_equals(name, "sdf") || str_equals(
        name,
        "glass_material",
    ) {
        "common"
    } else {
        ""
    }
}

/// Path of the source file of the shader `name`.
pub fn shader_path(name: &str) -> (r: String)
    ensures
        r@ == path_of(name@),
{
    let dir = shader_dir(name);
    if name.unicode_len() > 0 && name.get_char(0) == '/' {
        return String::from_str(name).concat(".wgsl");
    }
    proof {
        reveal_strlit("");
    }
    let mut r = String::from_str("shaders/");
    if dir.unicode_len() > 0 {
        r.append(dir);
        r.append("/");
    }
    r.append(name);
    r.append(".wgsl");
    r
}

/// Names of all shaders, in listing order.
pub fn list_shader_names() -> (r: Vec<String>)
    ensures
        r@.map_values(|s: String| s@) == shader_names(),
{
    let mut r: Vec<String> = Vec::new();
    r.push(String::from_str("blur_horizontal"));
    r.push(String::from_str("blur_vertical"));
    r.push(String::from_str("refract"));
    r.push(String::from_str("composite"));
    r.push(String::from_str("fullscreen_triangle"));
    r.push(String::from_str("sdf"));
    r.push(String::from_str("glass_material"));
    assert(r@.map_values(|s: String| s@) =~= shader_names());
    r
}

/// The shader names, one per line (what a read without a name answers).
pub fn shader_listing() -> (r: String)
    ensures
        r@ == join(shader_names(), "\n"@),
{
    let names = list_shader_names();
    join_strings(&names, "\n")
}

/// Loader that hands out the WGSL text of each pipeline shader as written
/// (without resolving `#import`s).
pub struct EmbeddedLoader;

/// Source file, under `shaders/`, of each of the five shaders that the
/// renderer builds its pipelines from (any loader serves all five).
pub open spec fn pipeline_file(name: Seq<char>) -> Option<Seq<char>> {
    if name == "blur_horizontal"@ {
        Some("compute/blur_horizontal.wgsl"@)
    } else if name == "blur_vertical"@ {
        Some("compute/blur_vertical.wgsl"@)
    } else if name == "refract"@ {
        Some("compute/refract.wgsl"@)
    } else if name == "composite"@ {
        Some("fragment/composite.wgsl"@)
    } else if name == "fullscreen_triangle"@ {
        Some("common/fullscreen_triangle.wgsl"@)
    } else {
        None
    }
}

impl EmbeddedLoader {
    /// The source file, under `shaders/`, that `load(name)` hands out;
    /// `None` for a name the loader does not hold.
    pub fn source_file(&self, name: &str) -> (r: Option<&'static str>)
        ensures
            match r {
                Some(f) => pipeline_file(name@) == Some(f@),
                None => pipeline_file(name@) is None,
            },
    {
        pipeline_source_file(name)
    }
}

/// The source file, under `shaders/`, of a pipeline shader; `None` for a
/// name that feeds no pipeline.
fn pipeline_source_file(name: &str) -> (r: Option<&'static str>)
    ensures
        match r {
            Some(f) => pipeline_file(name@) == Some(f@),
            None => pipeline_file(name@) is None,
        },
{
    if str_equals(name, "blur_horizontal") {
        Some("compute/blur_horizontal.wgsl")
    } else if str_equals(name, "blur_vertical") {
        Some("compute/blur_vertical.wgsl")
    } else if str_equals(name, "refract") {
        Some("compute/refract.wgsl")
    } else if str_equals(name, "composite") {
        Some("fragment/composite.wgsl")
    } else if str_equals(name, "fullscreen_triangle") {
        Some("common/fullscreen_triangle.wgsl")
    } else {
        None
    }
}

/// The source file that the composing (import resolving) loader builds for
/// `name`: that of the pipeline shader; `None` for a name it does not build.
pub fn composed_source_file(name: &str) -> (r: Option<&'static str>)
    ensures
        match r {
            Some(f) => pipeline_file(name@) == Some(f@),
            None => pipeline_file(name@) is None,
        },
{
    pipeline_source_file(name)
}

/// The shared modules that other shaders `#import`: each module's import
/// name and its source file under `shaders/`.
pub open spec fn composable_modules() -> Seq<(Seq<char>, Seq<char>)> {
    seq![
        ("sdf"@, "common/sdf.wgsl"@),
        ("glass_material"@, "common/glass_material.wgsl"@),
        ("fullscreen_triangle"@, "common/fullscreen_triangle.wgsl"@),
    ]
}

/// The shared modules to register with the composer before building shaders.
pub fn composable_module_files() -> (r: Vec<(&'static str, &'static str)>)
    ensures
        r@.map_values(|m: (&str, &str)| (m.0@, m.1@)) == composable_modules(),
{
    let mut r: Vec<(&'static str, &'static str)> = Vec::new();
    r.push(("sdf", "common/sdf.wgsl"));
    r.push(("glass_material", "common/glass_material.wgsl"));
    r.push(("fullscreen_triangle", "common/fullscreen_triangle.wgsl"));
    assert(r@.map_values(|m: (&str, &str)| (m.0@, m.1@)) =~= composable_modules());
    r
}

/// Law: the loaders read a shader from the same file that the shader tools
/// read and rewrite (`shaders/<file>` is the shader's path), and they serve
/// every shader that a pipeline is built from.
pub proof fn lemma_loader_files_are_shader_paths(name: Seq<char>)
    ensures
        pipeline_file(name) matches Some(f) ==> "shaders/"@ + f == path_of(name),
        slot_of(name) is Some ==> pipeline_file(name) is Some,
{
    reveal_strlit("blur_horizontal");
    reveal_strlit("blur_vertical");
    reveal_strlit("composite");
    reveal_strlit("fullscreen_triangle");
    reveal_strlit("refract");
    reveal_strlit("sdf");
    reveal_strlit("glass_material");
    reveal_strlit("compute");
    reveal_strlit("fragment");
    reveal_strlit("common");
    reveal_strlit("compute/blur_horizontal.wgsl");
    reveal_strlit("compute/blur_vertical.wgsl");
    reveal_strlit("fragment/composite.wgsl");
    reveal_strlit("common/fullscreen_triangle.wgsl");
    reveal_strlit("compute/refract.wgsl");
    reveal_strlit("/");
    reveal_strlit(".wgsl");
    reveal_strlit("shaders/");
    if name == "blur_horizontal"@ {
        assert(name[0] != '/');
        assert(dir_of(name) == "compute"@);
        assert(path_of(name) == "shaders/"@ + "compute"@ + "/"@ + name + ".wgsl"@);
        assert("shaders/"@ + "compute/blur_horizontal.wgsl"@ =~= "shaders/"@ + "compute"@ + "/"@ + name + ".wgsl"@);
    } else if name == "blur_vertical"@ {
        assert(name[0] != '/');
        assert(dir_of(name) == "compute"@);
        assert(path_of(name) == "shaders/"@ + "compute"@ + "/"@ + name + ".wgsl"@);
        assert("shaders/"@ + "compute/blur_vertical.wgsl"@ =~= "shaders/"@ + "compute"@ + "/"@ + name + ".wgsl"@);
    } else if name == "refract"@ {
        assert(name[0] != '/');
        assert(dir_of(name) == "compute"@);
        assert(path_of(name) == "shaders/"@ + "compute"@ + "/"@ + name + ".wgsl"@);
        assert("shaders/"@ + "compute/refract.wgsl"@ =~= "shaders/"@ + "compute"@ + "/"@ + name + ".wgsl"@);
    } else if name == "composite"@ {
        assert(name[0] != '/');
        assert(dir_of(name) == "fragment"@);
        assert(path_of(name) == "shaders/"@ + "fragment"@ + "/"@ + name + ".wgsl"@);
        assert("shaders/"@ + "fragment/composite.wgsl"@ =~= "shaders/"@ + "fragment"@ + "/"@ + name + ".wgsl"@);
    } else if name == "fullscreen_triangle"@ {
        assert(name[0] != '/');
        assert(dir_of(name) == "common"@);
        assert(path_of(name) == "shaders/"@ + "common"@ + "/"@ + name + ".wgsl"@);
        assert("shaders/"@ + "common/fullscreen_triangle.wgsl"@ =~= "shaders/"@ + "common"@ + "/"@ + name + ".wgsl"@);
    }
}

/// The pipeline stage that a reloaded shader replaces.
#[derive(PartialEq, Eq, Structural, Debug, Clone, Copy)]
pub enum ShaderSlot {
    /// Horizontal blur compute pass.
    BlurHorizontal,
    /// Vertical blur compute pass.
    BlurVertical,
    /// Refraction (displacement) compute pass.
    Refract,
    /// Fragment stage of the composite pass.
    Composite,
    /// Vertex stage of the composite pass.
    FullscreenTriangle,
}

/// The stage that reloading `name` rebuilds.
pub open spec fn slot_of(name: Seq<char>) -> Option<ShaderSlot> {
    if name == "blur_horizontal"@ {
        Some(ShaderSlot::BlurHorizontal)
    } else if name == "blur_vertical"@ {
        Some(ShaderSlot::BlurVertical)
    } else if name == "refract"@ {
        Some(ShaderSlot::Refract)
    } else if name == "composite"@ {
        Some(ShaderSlot::Composite)
    } else if name == "fullscreen_triangle"@ {
        Some(ShaderSlot::FullscreenTriangle)
    } else {
        None
    }
}

/// The stage that reloading `name` rebuilds, or the error
/// `未知着色器: <name>` for a shader that feeds no pipeline.
pub fn reload_slot(name: &str) -> (r: Result<ShaderSlot, String>)
    ensures
        match r {
            Ok(s) => slot_of(name@) == Some(s),
            Err(m) => slot_of(name@) is None && m@ == "未知着色器: "@ + name@,
        },
{
    if str_equals(name, "blur_horizontal") {
        Ok(ShaderSlot::BlurHorizontal)
    } else if str_equals(name, "blur_vertical") {
        Ok(ShaderSlot::BlurVertical)
    } else if str_equals(name, "refract") {
        Ok(ShaderSlot::Refract)
    } else if str_equals(name, "composite") {
        Ok(ShaderSlot::Composite)
    } else if str_equals(name, "fullscreen_triangle") {
        Ok(ShaderSlot::FullscreenTriangle)
    } else {
        Err(String::from_str("未知着色器: ").concat(name))
    }
}

/// The source file, under `shaders/`, of the module a pipeline stage is
/// built from.
pub open spec fn stage_file(s: ShaderSlot) -> Seq<char> {
    match s {
        ShaderSlot::BlurHorizontal => "compute/blur_horizontal.wgsl"@,
        ShaderSlot::BlurVertical => "compute/blur_vertical.wgsl"@,
        ShaderSlot::Refract => "compute/refract.wgsl"@,
        ShaderSlot::Composite => "fragment/composite.wgsl"@,
        ShaderSlot::FullscreenTriangle => "common/fullscreen_triangle.wgsl"@,
    }
}

/// Law: reloading a shader rebuilds the stage of its own name, the stage
/// whose module is built from that shader's file; distinct stages are built
/// from distinct files, so no shader's source lands in another's stage.
pub proof fn lemma_reload_rebuilds_own_stage(name: Seq<char>)
    ensures
        slot_of(name) matches Some(s) ==> pipeline_file(name) == Some(stage_file(s)),
        slot_of("blur_horizontal"@) == Some(ShaderSlot::BlurHorizontal),
        slot_of("blur_vertical"@) == Some(ShaderSlot::BlurVertical),
        slot_of("refract"@) == Some(ShaderSlot::Refract),
        slot_of("composite"@) == Some(ShaderSlot::Composite),
        slot_of("fullscreen_triangle"@) == Some(ShaderSlot::FullscreenTriangle),
        forall|a: ShaderSlot, b: ShaderSlot| #[trigger] stage_file(a) == #[trigger] stage_file(b)
            ==> a == b,
{
    reveal_strlit("blur_horizontal");
    reveal_strlit("blur_vertical");
    reveal_strlit("refract");
    reveal_strlit("composite");
    reveal_strlit("fullscreen_triangle");
    reveal_strlit("compute/blur_horizontal.wgsl");
    reveal_strlit("compute/blur_vertical.wgsl");
    reveal_strlit("compute/refract.wgsl");
    reveal_strlit("fragment/composite.wgsl");
    reveal_strlit("common/fullscreen_triangle.wgsl");
    assert("blur_vertical"@.len() != "blur_horizontal"@.len());
    assert("refract"@.len() != "blur_horizontal"@.len());
    assert("refract"@.len() != "blur_vertical"@.len());
    assert("fullscreen_triangle"@.len() != "blur_horizontal"@.len());
    assert("fullscreen_triangle"@.len() != "blur_vertical"@.len());
    assert("fullscreen_triangle"@.len() != "refract"@.len());
    assert("fullscreen_triangle"@.len() != "composite"@.len());
    assert forall|a: ShaderSlot, b: ShaderSlot| #[trigger] stage_file(a) == #[trigger] stage_file(
        b,
    ) implies a == b by {
        if a != b {
            let fa = stage_file(a);
            let fb = stage_file(b);
            assert(fa.len() != fb.len() || fa[8] != fb[8] || fa[0] != fb[0] || fa[14] != fb[14]);
        }
    }
}

/// Law: every listed shader lives in one of the three source directories.
pub proof fn lemma_listed_shaders_have_directories()
    ensures
        forall|i: int| 0 <= i < shader_names().len() ==> {
            let n = #[trigger] shader_names()[i];
            &&& dir_of(n) == "compute"@ || dir_of(n) == "fragment"@ || dir_of(n) == "common"@
            &&& path_of(n) == "shaders/"@ + dir_of(n) + "/"@ + n + ".wgsl"@
        },
{
    reveal_strlit("blur_horizontal");
    reveal_strlit("blur_vertical");
    reveal_strlit("refract");
    reveal_strlit("composite");
    reveal_strlit("fullscreen_triangle");
    reveal_strlit("sdf");
    reveal_strlit("glass_material");
    reveal_strlit("compute");
    reveal_strlit("fragment");
    reveal_strlit("common");
}

/// Law: a shader that can be reloaded into a pipeline is one of the listed
/// shaders.
pub proof fn lemma_reloadable_shaders_are_listed(name: Seq<char>)
    requires
        slot_of(name) is Some,
    ensures
        shader_names().contains(name),
{
    if name == "blur_horizontal"@ {
        assert(shader_names()[0] == name);
    } else if name == "blur_vertical"@ {
        assert(shader_names()[1] == name);
    } else if name == "refract"@ {
        assert(shader_names()[2] == name);
    } else if name == "composite"@ {
        assert(shader_names()[3] == name);
    } else {
        assert(shader_names()[4] == name);
    }
}

} // verus!
