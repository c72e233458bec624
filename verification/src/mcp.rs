//! Requests of the debugging service's tools, as plain values.

use vstd::prelude::*;
use crate::shaders::{path_of, shader_names, shader_listing, shader_path};
use crate::text::join;

verus! {

/// `read_shader`: a shader's source, or the list of shaders when no name is
/// given.
pub struct ReadShaderRequest {
    pub name: Option<String>,
}

/// `update_shader`: new WGSL source (with `#import`s) for a shader.
pub struct UpdateShaderRequest {
    pub name: String,
    pub source: String,
}

/// `capture`: render a frame of the given size and read back the texture
/// `kind`, into the file `path` if given.
pub struct CaptureRequest {
    pub width: u32,
    pub height: u32,
    pub kind: String,
    pub path: Option<String>,
}

/// How a `read_shader` request is answered.
pub enum ShaderReadPlan {
    /// Read the source file at `path` of the shader `name`.
    ReadFile { name: String, path: String },
    /// Answer with this list of shader names.
    Listing { text: String },
}

/// Plans the answer to `read_shader`: the shader's file when a name is
/// given, otherwise the shader names, one per line.
pub fn read_shader_plan(req: &ReadShaderRequest) -> (r: ShaderReadPlan)
    ensures
        match req.name {
            Some(n) => r matches ShaderReadPlan::ReadFile { name, path } && name@ == n@ && path@
                == path_of(n@),
            None => r matches ShaderReadPlan::Listing { text } && text@ == join(
                shader_names(),
                "\n"@,
            ),
        },
{
    match &req.name {
        Some(n) => ShaderReadPlan::ReadFile { name: n.clone(), path: shader_path(n.as_str()) },
        None => ShaderReadPlan::Listing { text: shader_listing() },
    }
}

} // verus!
