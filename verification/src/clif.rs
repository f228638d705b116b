//! The trusted boundary to the cranelift code-generation library.
//!
//! Each item here either declares an opaque cranelift type so that
//! verified code can hold and pass its values, or wraps exactly the
//! cranelift calls its doc comment names.  Nothing about the
//! generated instructions is claimed: the values flowing through
//! (`Value`, `Block`, ...) are opaque handles, and the generator's
//! own contract speaks only of success and failure.  The target
//! machine handle (a trait object) cannot cross this boundary, so
//! the two functions that need it build it and consume it in place.
//!
//! Since the handles are opaque, Verus cannot see which builder
//! states are legal; a wrapper whose call would panic in such a
//! state (defining or using a variable, or inserting an instruction,
//! with no block current; reading the parameters of a foreign block
//! handle) instead tests for it — through cranelift's own
//! `current_block` and `try_` entry points — and reports failure,
//! which the generator turns into its codegen error.

use vstd::prelude::*;
use cranelift::codegen::Context;
use cranelift::codegen::entity::EntityRef;
use cranelift::codegen::control::ControlPlane;
use cranelift::codegen::ir::AbiParam;
use cranelift::codegen::ir::Block;
use cranelift::codegen::ir::Function;
use cranelift::codegen::ir::InstBuilder;
use cranelift::codegen::ir::MemFlagsData;
use cranelift::codegen::ir::SigRef;
use cranelift::codegen::ir::Signature;
use cranelift::codegen::ir::Type;
use cranelift::codegen::ir::UserFuncName;
use cranelift::codegen::ir::Value;
use cranelift::codegen::ir::condcodes::IntCC;
use cranelift::codegen::ir::types;
use cranelift::codegen::isa;
use cranelift::codegen::isa::CallConv;
use cranelift::codegen::isa::TargetFrontendConfig;
use cranelift::codegen::settings;
use cranelift::codegen::settings::Configurable;
use cranelift::codegen::verify_function;
use cranelift::frontend::FunctionBuilder;
use cranelift::frontend::FunctionBuilderContext;
use cranelift::frontend::Variable;
use target_lexicon::Triple;

verus! {

#[verifier::external_type_specification]
#[verifier::external_body]
pub struct ExType(Type);

#[verifier::external_type_specification]
#[verifier::external_body]
pub struct ExCallConv(CallConv);

#[verifier::external_type_specification]
#[verifier::external_body]
pub struct ExTargetFrontendConfig(TargetFrontendConfig);

#[verifier::external_type_specification]
#[verifier::external_body]
pub struct ExAbiParam(AbiParam);

#[verifier::external_type_specification]
#[verifier::external_body]
pub struct ExSignature(Signature);

#[verifier::external_type_specification]
#[verifier::external_body]
pub struct ExFunction(Function);

#[verifier::external_type_specification]
#[verifier::external_body]
pub struct ExFunctionBuilderContext(FunctionBuilderContext);

#[verifier::external_type_specification]
#[verifier::external_body]
pub struct ExFunctionBuilder<'a>(FunctionBuilder<'a>);

#[verifier::external_type_specification]
#[verifier::external_body]
pub struct ExBlock(Block);

#[verifier::external_type_specification]
#[verifier::external_body]
pub struct ExValue(Value);

#[verifier::external_type_specification]
#[verifier::external_body]
pub struct ExVariable(Variable);

#[verifier::external_type_specification]
#[verifier::external_body]
pub struct ExSigRef(SigRef);

/// Relies on settings::builder, Configurable::set ("opt_level",
/// "speed"), settings::Flags::new, isa::lookup, Triple::host,
/// isa::Builder::finish, TargetIsa::pointer_type,
/// TargetIsa::frontend_config and CallConv::triple_default: the
/// host's pointer type, default calling convention and frontend
/// configuration.  `None` when the host has no backend.  The target
/// handle is a trait object and cannot leave this function.
#[verifier::external_body]
pub(crate) fn host_config() -> (r: Option<(Type, CallConv, TargetFrontendConfig)>) {
    let mut builder = settings::builder();
    builder.set("opt_level", "speed").ok()?;
    let flags = settings::Flags::new(builder);
    let isa = isa::lookup(Triple::host()).ok()?.finish(flags).ok()?;
    let call_conv = CallConv::triple_default(isa.triple());
    Some((isa.pointer_type(), call_conv, isa.frontend_config()))
}

/// Relies on Signature::new.
#[verifier::external_body]
pub(crate) fn sig_new(call_conv: CallConv) -> (r: Signature) {
    Signature::new(call_conv)
}

/// Relies on AbiParam::new and Vec::push on Signature::params.
#[verifier::external_body]
pub(crate) fn sig_push_param(sig: &mut Signature, ty: Type) {
    sig.params.push(AbiParam::new(ty));
}

/// Relies on AbiParam::new and Vec::push on Signature::returns.
#[verifier::external_body]
pub(crate) fn sig_push_return(sig: &mut Signature, ty: Type) {
    sig.returns.push(AbiParam::new(ty));
}

/// Relies on Function::with_name_signature, with UserFuncName::user
/// naming the one generated function.
#[verifier::external_body]
pub(crate) fn function_new(sig: Signature) -> (r: Function) {
    Function::with_name_signature(UserFuncName::user(0, 0), sig)
}

/// Relies on FunctionBuilderContext::new.
#[verifier::external_body]
pub(crate) fn builder_context_new() -> (r: FunctionBuilderContext) {
    FunctionBuilderContext::new()
}

/// Relies on FunctionBuilder::new.
#[verifier::external_body]
pub(crate) fn builder_new<'a>(
    func: &'a mut Function,
    ctx: &'a mut FunctionBuilderContext,
) -> (r: FunctionBuilder<'a>) {
    FunctionBuilder::new(func, ctx)
}

/// Relies on the 8-bit integer type constant.
#[verifier::external_body]
pub(crate) fn type_i8() -> (r: Type) {
    types::I8
}

/// Relies on FunctionBuilder::create_block.
#[verifier::external_body]
pub(crate) fn create_block(b: &mut FunctionBuilder<'_>) -> (r: Block) {
    b.create_block()
}

/// Relies on FunctionBuilder::switch_to_block.
#[verifier::external_body]
pub(crate) fn switch_to_block(b: &mut FunctionBuilder<'_>, block: Block) {
    b.switch_to_block(block);
}

/// Relies on FunctionBuilder::seal_block.
#[verifier::external_body]
pub(crate) fn seal_block(b: &mut FunctionBuilder<'_>, block: Block) {
    b.seal_block(block);
}

/// Relies on FunctionBuilder::append_block_param.
#[verifier::external_body]
pub(crate) fn append_block_param(b: &mut FunctionBuilder<'_>, block: Block, ty: Type) -> (r:
    Value) {
    b.append_block_param(block, ty)
}

/// Relies on FunctionBuilder::append_block_params_for_function_params.
#[verifier::external_body]
pub(crate) fn append_function_params(b: &mut FunctionBuilder<'_>, block: Block) {
    b.append_block_params_for_function_params(block);
}

/// Relies on FunctionBuilder::block_params, guarded by
/// DataFlowGraph::num_blocks so a foreign block handle yields `None`
/// instead of a panic; hands out the first parameter of the block,
/// if any.
#[verifier::external_body]
pub(crate) fn block_param0(b: &FunctionBuilder<'_>, block: Block) -> (r: Option<Value>) {
    if block.index() >= b.func.dfg.num_blocks() {
        return None;
    }
    b.block_params(block).get(0).copied()
}

/// Relies on FunctionBuilder::declare_var.
#[verifier::external_body]
pub(crate) fn declare_var(b: &mut FunctionBuilder<'_>, ty: Type) -> (r: Variable) {
    b.declare_var(ty)
}

/// Relies on FunctionBuilder::try_def_var, guarded by
/// FunctionBuilder::current_block: an undeclared variable, a type
/// mismatch or a missing current block yields `false` instead of a
/// panic.
#[verifier::external_body]
pub(crate) fn def_var(b: &mut FunctionBuilder<'_>, var: Variable, val: Value) -> (r: bool) {
    if b.current_block().is_none() {
        return false;
    }
    b.try_def_var(var, val).is_ok()
}

/// Relies on FunctionBuilder::try_use_var, guarded by
/// FunctionBuilder::current_block: an undeclared variable or a
/// missing current block yields `None` instead of a panic.
#[verifier::external_body]
pub(crate) fn use_var(b: &mut FunctionBuilder<'_>, var: Variable) -> (r: Option<Value>) {
    if b.current_block().is_none() {
        return None;
    }
    b.try_use_var(var).ok()
}

/// Relies on FunctionBuilder::import_signature.
#[verifier::external_body]
pub(crate) fn import_signature(b: &mut FunctionBuilder<'_>, sig: Signature) -> (r: SigRef) {
    b.import_signature(sig)
}

/// Relies on InstBuilder::iconst, guarded by
/// FunctionBuilder::current_block (as every instruction wrapper
/// below is): with no block current, instruction insertion would
/// panic, so the wrapper yields `None` instead.
#[verifier::external_body]
pub(crate) fn ins_iconst(b: &mut FunctionBuilder<'_>, ty: Type, imm: i64) -> (r: Option<Value>) {
    if b.current_block().is_none() {
        return None;
    }
    Some(b.ins().iconst(ty, imm))
}

/// Relies on InstBuilder::iadd, guarded by current_block.
#[verifier::external_body]
pub(crate) fn ins_iadd(b: &mut FunctionBuilder<'_>, x: Value, y: Value) -> (r: Option<Value>) {
    if b.current_block().is_none() {
        return None;
    }
    Some(b.ins().iadd(x, y))
}

/// Relies on InstBuilder::iadd_imm_s (sign-extending the
/// immediate), guarded by current_block.
#[verifier::external_body]
pub(crate) fn ins_iadd_imm(b: &mut FunctionBuilder<'_>, x: Value, imm: i64) -> (r: Option<
    Value,
>) {
    if b.current_block().is_none() {
        return None;
    }
    Some(b.ins().iadd_imm_s(x, imm))
}

/// Relies on InstBuilder::load at offset zero with fresh
/// MemFlagsData, guarded by current_block: one byte read through
/// the given address.
#[verifier::external_body]
pub(crate) fn ins_load_u8(b: &mut FunctionBuilder<'_>, addr: Value) -> (r: Option<Value>) {
    if b.current_block().is_none() {
        return None;
    }
    Some(b.ins().load(types::I8, MemFlagsData::new(), addr, 0))
}

/// Relies on InstBuilder::store at offset zero with fresh
/// MemFlagsData, guarded by current_block: one byte written through
/// the given address.
#[verifier::external_body]
pub(crate) fn ins_store_u8(b: &mut FunctionBuilder<'_>, val: Value, addr: Value) -> (r: bool) {
    if b.current_block().is_none() {
        return false;
    }
    b.ins().store(MemFlagsData::new(), val, addr, 0);
    true
}

/// Relies on InstBuilder::icmp_imm_s with IntCC::SignedLessThan,
/// guarded by current_block.
#[verifier::external_body]
pub(crate) fn ins_icmp_imm_slt(b: &mut FunctionBuilder<'_>, x: Value, imm: i64) -> (r: Option<
    Value,
>) {
    if b.current_block().is_none() {
        return None;
    }
    Some(b.ins().icmp_imm_s(IntCC::SignedLessThan, x, imm))
}

/// Relies on InstBuilder::select, guarded by current_block.
#[verifier::external_body]
pub(crate) fn ins_select(b: &mut FunctionBuilder<'_>, c: Value, x: Value, y: Value) -> (r: Option<
    Value,
>) {
    if b.current_block().is_none() {
        return None;
    }
    Some(b.ins().select(c, x, y))
}

/// Relies on InstBuilder::call_indirect with one argument, and
/// FunctionBuilder::inst_results, guarded by current_block: the
/// call's single result, if the instruction has one.
#[verifier::external_body]
pub(crate) fn ins_call_indirect1(
    b: &mut FunctionBuilder<'_>,
    sig: SigRef,
    callee: Value,
    arg: Value,
) -> (r: Option<Value>) {
    if b.current_block().is_none() {
        return None;
    }
    let inst = b.ins().call_indirect(sig, callee, &[arg]);
    b.inst_results(inst).get(0).copied()
}

/// Relies on InstBuilder::brif with no block arguments, guarded by
/// current_block.
#[verifier::external_body]
pub(crate) fn ins_brif(
    b: &mut FunctionBuilder<'_>,
    cond: Value,
    then_block: Block,
    else_block: Block,
) -> (r: bool) {
    if b.current_block().is_none() {
        return false;
    }
    b.ins().brif(cond, then_block, &[], else_block, &[]);
    true
}

/// Relies on InstBuilder::brif, carrying one value to the
/// then-block, guarded by current_block.
#[verifier::external_body]
pub(crate) fn ins_brif_carry(
    b: &mut FunctionBuilder<'_>,
    cond: Value,
    then_block: Block,
    carried: Value,
    else_block: Block,
) -> (r: bool) {
    if b.current_block().is_none() {
        return false;
    }
    b.ins().brif(cond, then_block, &[carried.into()], else_block, &[]);
    true
}

/// Relies on InstBuilder::return_ with one returned value, guarded
/// by current_block.
#[verifier::external_body]
pub(crate) fn ins_return(b: &mut FunctionBuilder<'_>, val: Value) -> (r: bool) {
    if b.current_block().is_none() {
        return false;
    }
    b.ins().return_(&[val]);
    true
}

/// Relies on FunctionBuilder::finalize.
#[verifier::external_body]
pub(crate) fn builder_finalize(b: FunctionBuilder<'_>, cfg: TargetFrontendConfig) {
    b.finalize(cfg);
}

/// Relies on settings::builder, Configurable::set, settings::
/// Flags::new, isa::lookup, Triple::host and isa::Builder::finish to
/// rebuild the host target exactly as `host_config` does, then on
/// verify_function, Context::for_function, Context::compile (with a
/// default ControlPlane) and CompiledCode::code_buffer: checks the
/// constructed function for target-machine legality and lowers it to
/// a finished byte sequence.  `None` on any failure.
#[verifier::external_body]
pub(crate) fn verify_and_compile(func: Function) -> (r: Option<Vec<u8>>) {
    let mut builder = settings::builder();
    builder.set("opt_level", "speed").ok()?;
    let flags = settings::Flags::new(builder);
    let isa = isa::lookup(Triple::host()).ok()?.finish(flags).ok()?;
    verify_function(&func, &*isa).ok()?;
    let mut ctx = Context::for_function(func);
    let code = ctx.compile(&*isa, &mut ControlPlane::default()).ok()?;
    Some(code.code_buffer().to_vec())
}

} // verus!
