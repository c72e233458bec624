//! Building shaders with naga_oil: shared modules are registered with a
//! composer, then a shader's WGSL (with its `#import`s) is composed into a
//! naga module, for the pipelines at start-up and for hot reloads.

use vstd::prelude::*;
use vstd::string::*;
use crate::shaders::{reload_slot, slot_of, ShaderSlot};
use naga_oil::compose::{ComposerError, ComposerErrorInner, ErrSource, NagaModuleDescriptor};
use wgpu::naga::valid::{Capabilities, ValidationFlags, Validator};

verus! {

/// The shader composer of `naga_oil`.
#[verifier::external_type_specification]
#[verifier::external_body]
pub struct ExComposer(naga_oil::compose::Composer);

/// A naga shader module (the IR that wgpu builds pipelines from).
#[verifier::external_type_specification]
#[verifier::external_body]
pub struct ExNagaModule(wgpu::naga::Module);

/// One call made on a composer: `(is_registration, file_path, source)`;
/// `true` for `add_composable_module`, `false` for `make_naga_module`.
pub type ComposerCall = (bool, Seq<char>, Seq<char>);

/// Outcome of `Composer::add_composable_module` on a composer that has seen
/// `calls`: `Err` with the error's text where it refuses the module.
pub uninterp spec fn registers(
    calls: Seq<(bool, Seq<char>, Seq<char>)>,
    file_path: Seq<char>,
    source: Seq<char>,
) -> Result<(), Seq<char>>;

/// Outcome of `Composer::make_naga_module` on a composer that has seen
/// `calls`, followed, where `validating`, by naga's validation of the module
/// (all checks, default capabilities, as a validating composer does):
/// `Err` with the error's text where the source does not compose or the
/// module is not valid.
pub uninterp spec fn composes(
    validating: bool,
    calls: Seq<(bool, Seq<char>, Seq<char>)>,
    file_path: Seq<char>,
    source: Seq<char>,
) -> Result<(), Seq<char>>;

/// How many of the registrations in `calls` succeeded (an upper bound on
/// the modules the composer holds).
pub open spec fn modules_added(calls: Seq<ComposerCall>) -> nat
    decreases calls.len(),
{
    if calls.len() == 0 {
        0
    } else {
        let prior = calls.drop_last();
        let c = calls.last();
        modules_added(prior) + if c.0 && registers(prior, c.1, c.2) is Ok {
            1nat
        } else {
            0nat
        }
    }
}

proof fn lemma_modules_added_push(calls: Seq<ComposerCall>, c: ComposerCall)
    ensures
        modules_added(calls.push(c)) == modules_added(calls) + if c.0 && registers(calls, c.1, c.2)
            is Ok {
            1nat
        } else {
            0nat
        },
{
    assert(calls.push(c).drop_last() =~= calls);
}

/// A naga_oil composer (which does not validate by itself) together with
/// the calls it has seen, which decide what it does next, and whether the
/// modules it builds are validated.
pub struct ShaderComposer {
    composer: naga_oil::compose::Composer,
    validating: bool,
    registered: usize,
    calls: Ghost<Seq<ComposerCall>>,
}

/// A fresh composer, validating the modules it builds or not.
///
/// Trusted: calls `Composer::non_validating` (validation, where asked for, is
/// done by `make_valid_module`) and records no calls.
#[verifier::external_body]
fn fresh_composer(validating: bool) -> (c: ShaderComposer)
    ensures
        c.validating == validating,
        c.registered == 0,
        c.calls@ == Seq::<ComposerCall>::empty(),
{
    ShaderComposer {
        composer: naga_oil::compose::Composer::non_validating(),
        validating,
        registered: 0,
        calls: Ghost(Seq::empty()),
    }
}

/// Registers a composable module.
///
/// Trusted: calls `Composer::add_composable_module` with the given source and
/// file path (other descriptor fields at their defaults); on error hands back
/// the error's `Display` text. Its outcome is taken to be a function of the
/// calls the composer has seen and the arguments. The crate asserts that it
/// holds fewer than 2047 modules, which the precondition ensures.
#[verifier::external_body]
fn add_module(c: &mut ShaderComposer, file_path: &str, source: &str) -> (r: Result<(), String>)
    requires
        modules_added(old(c).calls@) < 2047,
    ensures
        final(c).registered == old(c).registered,
        final(c).validating == old(c).validating,
        final(c).calls@ == old(c).calls@.push((true, file_path@, source@)),
        match r {
            Ok(_) => registers(old(c).calls@, file_path@, source@) is Ok,
            Err(m) => registers(old(c).calls@, file_path@, source@) == Err::<(), Seq<char>>(m@),
        },
{
    match c.composer.add_composable_module(naga_oil::compose::ComposableModuleDescriptor {
        source,
        file_path,
        ..Default::default()
    }) {
        Ok(_) => Ok(()),
        Err(e) => Err(e.to_string()),
    }
}

/// Composes a shader into a naga module, without validating it.
///
/// Trusted: calls `Composer::make_naga_module` on the (non-validating)
/// composer with the given source and file path (other descriptor fields at
/// their defaults); on error hands back the error's `Display` text. Whether
/// it succeeds, and the error text, are taken to be a function of the calls
/// the composer has seen and the arguments. The module itself is not
/// described.
#[verifier::external_body]
fn make_module(c: &mut ShaderComposer, file_path: &str, source: &str) -> (r: Result<
    wgpu::naga::Module,
    String,
>)
    ensures
        final(c).registered == old(c).registered,
        final(c).validating == old(c).validating,
        final(c).calls@ == old(c).calls@.push((false, file_path@, source@)),
        match r {
            Ok(_) => composes(false, old(c).calls@, file_path@, source@) is Ok,
            Err(m) => composes(false, old(c).calls@, file_path@, source@) == Err::<(), Seq<char>>(
                m@,
            ),
        },
{
    match c.composer.make_naga_module(naga_oil::compose::NagaModuleDescriptor {
        source,
        file_path,
        ..Default::default()
    }) {
        Ok(m) => Ok(m),
        Err(e) => Err(e.to_string()),
    }
}

/// Composes a shader into a naga module and validates it.
///
/// Trusted: calls `Composer::make_naga_module` as `make_module` does, then
/// `naga::valid::Validator::new(ValidationFlags::all(), Capabilities::default())
/// .validate` on the module, which is the validation that a validating
/// composer applies. A validation error is handed back as the text of the
/// `ComposerError` that such a composer reports for it
/// (`ShaderValidationError`). Both outcomes are taken to be a function of
/// the calls the composer has seen and the arguments. Validating here rather
/// than inside the composer avoids the composer's span bookkeeping, which
/// panics on errors it places past its module index table.
#[verifier::external_body]
fn make_valid_module(c: &mut ShaderComposer, file_path: &str, source: &str) -> (r: Result<
    wgpu::naga::Module,
    String,
>)
    ensures
        final(c).registered == old(c).registered,
        final(c).validating == old(c).validating,
        final(c).calls@ == old(c).calls@.push((false, file_path@, source@)),
        match r {
            Ok(_) => composes(true, old(c).calls@, file_path@, source@) is Ok,
            Err(m) => composes(true, old(c).calls@, file_path@, source@) == Err::<(), Seq<char>>(
                m@,
            ),
        },
{
    let desc = NagaModuleDescriptor { source, file_path, ..Default::default() };
    let module = match c.composer.make_naga_module(desc) {
        Ok(m) => m,
        Err(e) => return Err(e.to_string()),
    };
    match Validator::new(ValidationFlags::all(), Capabilities::default()).validate(&module) {
        Ok(_) => Ok(module),
        Err(e) => {
            let path = file_path.to_owned();
            let source = ErrSource::Constructing { path, source: source.to_owned(), offset: 0 };
            Err(ComposerError { inner: ComposerErrorInner::ShaderValidationError(e), source }.to_string())
        },
    }
}

impl ShaderComposer {
    /// Whether the composer validates what it builds.
    pub closed spec fn is_validating(&self) -> bool {
        self.validating
    }

    /// The calls the composer has seen, oldest first.
    pub closed spec fn history(&self) -> Seq<ComposerCall> {
        self.calls@
    }

    /// The count of registrations is kept up to date.
    pub closed spec fn wf(&self) -> bool {
        self.registered == modules_added(self.calls@)
    }

    /// A fresh composer that validates the modules it builds (used for hot
    /// reloads).
    pub fn validating() -> (c: Self)
        ensures
            c.wf(),
            c.is_validating(),
            c.history() == Seq::<ComposerCall>::empty(),
    {
        fresh_composer(true)
    }

    /// A fresh composer that does not validate the modules it builds (used
    /// by the start-up loader).
    pub fn non_validating() -> (c: Self)
        ensures
            c.wf(),
            !c.is_validating(),
            c.history() == Seq::<ComposerCall>::empty(),
    {
        fresh_composer(false)
    }

    /// Whether another module can be registered (the composer takes fewer
    /// than 2047).
    pub fn can_register(&self) -> (r: bool)
        requires
            self.wf(),
        ensures
            r == (modules_added(self.history()) < 2047),
    {
        self.registered < 2047
    }
}

/// The file path a shader is composed under: `<name>.wgsl`.
pub open spec fn wgsl_path(name: Seq<char>) -> Seq<char> {
    name + ".wgsl"@
}

/// Registers the shared module `name` (WGSL text `source`) under the path
/// `<name>.wgsl`; a refusal becomes `注册公共模块 <name> 失败: <error>`.
pub fn register_module(c: &mut ShaderComposer, name: &str, source: &str) -> (r: Result<(), String>)
    requires
        old(c).wf(),
        modules_added(old(c).history()) < 2047,
    ensures
        final(c).wf(),
        final(c).is_validating() == old(c).is_validating(),
        final(c).history() == old(c).history().push((true, wgsl_path(name@), source@)),
        match registers(old(c).history(), wgsl_path(name@), source@) {
            Ok(_) => r is Ok,
            Err(e) => r matches Err(m) && m@ == "注册公共模块 "@ + name@ + " 失败: "@ + e,
        },
{
    let path = String::from_str(name).concat(".wgsl");
    let ghost before = c.calls@;
    let r = add_module(c, path.as_str(), source);
    proof {
        lemma_modules_added_push(before, (true, wgsl_path(name@), source@));
    }
    match r {
        Ok(()) => {
            c.registered = c.registered + 1;
            Ok(())
        },
        Err(e) => {
            let mut m = String::from_str("注册公共模块 ");
            m.append(name);
            m.append(" 失败: ");
            m.append(e.as_str());
            Err(m)
        },
    }
}

/// Composes the shader `name` from its WGSL text under the path
/// `<name>.wgsl`; a failure becomes `编译着色器 <name> 失败: <error>`.
pub fn compile_shader(c: &mut ShaderComposer, name: &str, source: &str) -> (r: Result<
    wgpu::naga::Module,
    String,
>)
    ensures
        final(c).is_validating() == old(c).is_validating(),
        final(c).history() == old(c).history().push((false, wgsl_path(name@), source@)),
        match composes(old(c).is_validating(), old(c).history(), wgsl_path(name@), source@) {
            Ok(_) => r is Ok,
            Err(e) => r matches Err(m) && m@ == "编译着色器 "@ + name@ + " 失败: "@ + e,
        },
{
    let path = String::from_str(name).concat(".wgsl");
    let ghost before = c.calls@;
    let r = if c.validating {
        make_valid_module(c, path.as_str(), source)
    } else {
        make_module(c, path.as_str(), source)
    };
    proof {
        lemma_modules_added_push(before, (false, wgsl_path(name@), source@));
    }
    match r {
        Ok(module) => Ok(module),
        Err(e) => {
            let mut m = String::from_str("编译着色器 ");
            m.append(name);
            m.append(" 失败: ");
            m.append(e.as_str());
            Err(m)
        },
    }
}

/// A hot reload: composes the new source of `name`, then picks the stage it
/// replaces. A compile failure is reported first; a source that composes
/// but feeds no pipeline gives `未知着色器: <name>`.
pub fn reload_module(c: &mut ShaderComposer, name: &str, source: &str) -> (r: Result<
    (wgpu::naga::Module, ShaderSlot),
    String,
>)
    ensures
        final(c).is_validating() == old(c).is_validating(),
        final(c).history() == old(c).history().push((false, wgsl_path(name@), source@)),
        match composes(old(c).is_validating(), old(c).history(), wgsl_path(name@), source@) {
            Err(e) => r matches Err(m) && m@ == "编译着色器 "@ + name@ + " 失败: "@ + e,
            Ok(_) => match slot_of(name@) {
                Some(s) => r matches Ok((_, t)) && t == s,
                None => r matches Err(m) && m@ == "未知着色器: "@ + name@,
            },
        },
{
    let module = compile_shader(c, name, source)?;
    let slot = reload_slot(name)?;
    Ok((module, slot))
}

} // verus!
