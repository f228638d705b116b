//! The native code generator: lowers an instruction stream to one
//! callable function, taking a tape base address and returning a
//! nullable error indicator, as a finished byte sequence ready for
//! placement in executable memory.
//!
//! The generator maintains a pointer variable, a zero constant and
//! the base address; cell access computes base plus pointer and
//! loads or stores one byte.  Pointer moves and copy offsets are
//! first reduced modulo the tape length in verified code, so a
//! single branchless conditional correction suffices for the
//! wraparound.  Output and input lower to indirect calls through the
//! two fixed callback addresses; a failed callback branches to a
//! shared error-exit block.  Bracket balance is re-validated
//! defensively before generation even though the resolver already
//! guarantees it.

use vstd::prelude::*;
use cranelift::codegen::ir::Block;
use crate::balance::bal;
use crate::balance::balanced;
use crate::balance::depth_change;
use crate::clif::append_block_param;
use crate::clif::append_function_params;
use crate::clif::block_param0;
use crate::clif::builder_context_new;
use crate::clif::builder_finalize;
use crate::clif::builder_new;
use crate::clif::create_block;
use crate::clif::declare_var;
use crate::clif::def_var;
use crate::clif::function_new;
use crate::clif::host_config;
use crate::clif::import_signature;
use crate::clif::ins_brif;
use crate::clif::ins_brif_carry;
use crate::clif::ins_call_indirect1;
use crate::clif::ins_iadd;
use crate::clif::ins_iadd_imm;
use crate::clif::ins_iconst;
use crate::clif::ins_icmp_imm_slt;
use crate::clif::ins_load_u8;
use crate::clif::ins_return;
use crate::clif::ins_select;
use crate::clif::ins_store_u8;
use crate::clif::seal_block;
use crate::clif::sig_new;
use crate::clif::sig_push_param;
use crate::clif::sig_push_return;
use crate::clif::switch_to_block;
use crate::clif::type_i8;
use crate::clif::use_var;
use crate::clif::verify_and_compile;
use crate::error::Error;
use crate::interp::wrap_add;
use crate::jumps::generate_jumping_map;
use crate::semantics::TAPE_LEN;
use crate::token::BracketState;
use crate::token::Token;
use crate::token::TokenKind;

verus! {

/// Compiles an instruction stream to native machine code: one
/// function from a tape base address to a nullable error pointer,
/// with the two I/O callbacks reached through the absolute addresses
/// `write_addr` and `read_addr` (`write(byte) -> nullable error`,
/// `read(out byte) -> nullable error`).
///
/// Fails with `UnbalancedBrackets` exactly on streams whose brackets
/// do not match; `CodegenFailure` covers the backend's own refusals
/// (no host support, or a function that does not verify or lower).
#[verifier::loop_isolation(false)]
pub fn compile(instructions: &Vec<Token>, write_addr: i64, read_addr: i64) -> (r: Result<
    Vec<u8>,
    Error,
>)
    ensures
        r == Err::<Vec<u8>, Error>(Error::UnbalancedBrackets) <==> !balanced(instructions@),
        r is Ok || r == Err::<Vec<u8>, Error>(Error::UnbalancedBrackets) || r == Err::<
            Vec<u8>,
            Error,
        >(Error::CodegenFailure),
{
    let ghost s = instructions@;
    // Defensive structural re-validation, before any generation.
    match generate_jumping_map(instructions) {
        Err(_) => {
            return Err(Error::UnbalancedBrackets);
        },
        Ok(_) => {},
    }
    proof {
        assert(balanced(s));
    }

    let (pointer_type, call_conv, frontend_cfg) = match host_config() {
        Some(c) => c,
        None => {
            return Err(Error::CodegenFailure);
        },
    };

    // The generated function: tape base address in, error pointer out.
    let mut sig = sig_new(call_conv);
    sig_push_param(&mut sig, pointer_type);
    sig_push_return(&mut sig, pointer_type);
    let mut func = function_new(sig);
    let mut fctx = builder_context_new();
    let mut builder = builder_new(&mut func, &mut fctx);

    let i8_ty = type_i8();
    let pointer = declare_var(&mut builder, pointer_type);

    // The shared error exit, parameterized by the error value.
    let exit_block = create_block(&mut builder);
    let _exit_param = append_block_param(&mut builder, exit_block, pointer_type);

    let entry_block = create_block(&mut builder);
    seal_block(&mut builder, entry_block);
    append_function_params(&mut builder, entry_block);
    switch_to_block(&mut builder, entry_block);

    let memory_address = match block_param0(&builder, entry_block) {
        Some(v) => v,
        None => {
            return Err(Error::CodegenFailure);
        },
    };

    let zero_byte = match ins_iconst(&mut builder, i8_ty, 0) {

        Some(x) => x,

        None => {

            return Err(Error::CodegenFailure);

        },

    };
    let zero = match ins_iconst(&mut builder, pointer_type, 0) {
        Some(x) => x,
        None => {
            return Err(Error::CodegenFailure);
        },
    };
    if !def_var(&mut builder, pointer, zero) {
        return Err(Error::CodegenFailure);
    }

    // write(byte) -> nullable error
    let mut wsig = sig_new(call_conv);
    sig_push_param(&mut wsig, i8_ty);
    sig_push_return(&mut wsig, pointer_type);
    let write_sig = import_signature(&mut builder, wsig);
    let write_address = match ins_iconst(&mut builder, pointer_type, write_addr) {
        Some(x) => x,
        None => {
            return Err(Error::CodegenFailure);
        },
    };

    // read(out byte) -> nullable error
    let mut rsig = sig_new(call_conv);
    sig_push_param(&mut rsig, pointer_type);
    sig_push_return(&mut rsig, pointer_type);
    let read_sig = import_signature(&mut builder, rsig);
    let read_address = match ins_iconst(&mut builder, pointer_type, read_addr) {
        Some(x) => x,
        None => {
            return Err(Error::CodegenFailure);
        },
    };

    // The control-flow graph's loop nesting: one (body, exit) block
    // pair per open loop.
    let mut stack: Vec<(Block, Block)> = Vec::new();
    let n = instructions.len();
    let mut i: usize = 0;
    while i < n
        invariant
            i <= n,
            stack@.len() == bal(s, 0, i as int),
        decreases n - i,
    {
        let t = instructions[i];
        proof {
            assert(bal(s, 0, i + 1) == bal(s, 0, i as int) + depth_change(s[i as int]));
        }
        match t.kind {
            TokenKind::ValMod(v) => {
                let ptr_val = match use_var(&mut builder, pointer) {
                    Some(x) => x,
                    None => {
                        return Err(Error::CodegenFailure);
                    },
                };
                let cell_addr = match ins_iadd(&mut builder, memory_address, ptr_val) {
                    Some(x) => x,
                    None => {
                        return Err(Error::CodegenFailure);
                    },
                };
                let cell_val = match ins_load_u8(&mut builder, cell_addr) {
                    Some(x) => x,
                    None => {
                        return Err(Error::CodegenFailure);
                    },
                };
                let bumped = match ins_iadd_imm(&mut builder, cell_val, v as i64) {
                    Some(x) => x,
                    None => {
                        return Err(Error::CodegenFailure);
                    },
                };
                if !ins_store_u8(&mut builder, bumped, cell_addr) {
                    return Err(Error::CodegenFailure);
                }
            },
            TokenKind::PosMod(v) => {
                // Reduced delta in [0, 30000): one conditional
                // correction implements the wraparound for any move.
                let nr = wrap_add(0, v, TAPE_LEN);
                let ptr_val = match use_var(&mut builder, pointer) {
                    Some(x) => x,
                    None => {
                        return Err(Error::CodegenFailure);
                    },
                };
                let moved = match ins_iadd_imm(&mut builder, ptr_val, nr as i64) {
                    Some(x) => x,
                    None => {
                        return Err(Error::CodegenFailure);
                    },
                };
                let wrapped = match ins_iadd_imm(&mut builder, ptr_val, nr as i64 - 30000) {
                    Some(x) => x,
                    None => {
                        return Err(Error::CodegenFailure);
                    },
                };
                let in_range = match ins_icmp_imm_slt(&mut builder, moved, 30000) {
                    Some(x) => x,
                    None => {
                        return Err(Error::CodegenFailure);
                    },
                };
                let sel = match ins_select(&mut builder, in_range, moved, wrapped) {
                    Some(x) => x,
                    None => {
                        return Err(Error::CodegenFailure);
                    },
                };
                if !def_var(&mut builder, pointer, sel) {
                    return Err(Error::CodegenFailure);
                }
            },
            TokenKind::Output => {
                let ptr_val = match use_var(&mut builder, pointer) {
                    Some(x) => x,
                    None => {
                        return Err(Error::CodegenFailure);
                    },
                };
                let cell_addr = match ins_iadd(&mut builder, memory_address, ptr_val) {
                    Some(x) => x,
                    None => {
                        return Err(Error::CodegenFailure);
                    },
                };
                let cell_val = match ins_load_u8(&mut builder, cell_addr) {
                    Some(x) => x,
                    None => {
                        return Err(Error::CodegenFailure);
                    },
                };
                let result = match ins_call_indirect1(
                    &mut builder,
                    write_sig,
                    write_address,
                    cell_val,
                ) {
                    Some(v) => v,
                    None => {
                        return Err(Error::CodegenFailure);
                    },
                };
                let after_block = create_block(&mut builder);
                if !ins_brif_carry(&mut builder, result, exit_block, result, after_block) {
                    return Err(Error::CodegenFailure);
                }
                seal_block(&mut builder, after_block);
                switch_to_block(&mut builder, after_block);
            },
            TokenKind::Input => {
                let ptr_val = match use_var(&mut builder, pointer) {
                    Some(x) => x,
                    None => {
                        return Err(Error::CodegenFailure);
                    },
                };
                let cell_addr = match ins_iadd(&mut builder, memory_address, ptr_val) {
                    Some(x) => x,
                    None => {
                        return Err(Error::CodegenFailure);
                    },
                };
                let result = match ins_call_indirect1(
                    &mut builder,
                    read_sig,
                    read_address,
                    cell_addr,
                ) {
                    Some(v) => v,
                    None => {
                        return Err(Error::CodegenFailure);
                    },
                };
                let after_block = create_block(&mut builder);
                if !ins_brif_carry(&mut builder, result, exit_block, result, after_block) {
                    return Err(Error::CodegenFailure);
                }
                seal_block(&mut builder, after_block);
                switch_to_block(&mut builder, after_block);
            },
            TokenKind::Bracket(BracketState::Open) => {
                let inner_block = create_block(&mut builder);
                let after_block = create_block(&mut builder);
                let ptr_val = match use_var(&mut builder, pointer) {
                    Some(x) => x,
                    None => {
                        return Err(Error::CodegenFailure);
                    },
                };
                let cell_addr = match ins_iadd(&mut builder, memory_address, ptr_val) {
                    Some(x) => x,
                    None => {
                        return Err(Error::CodegenFailure);
                    },
                };
                let cell_val = match ins_load_u8(&mut builder, cell_addr) {
                    Some(x) => x,
                    None => {
                        return Err(Error::CodegenFailure);
                    },
                };
                if !ins_brif(&mut builder, cell_val, inner_block, after_block) {
                    return Err(Error::CodegenFailure);
                }
                switch_to_block(&mut builder, inner_block);
                stack.push((inner_block, after_block));
            },
            TokenKind::Bracket(BracketState::Closed) => {
                proof {
                    assert(bal(s, 0, i + 1) >= 0);
                    assert(stack@.len() > 0);
                }
                let (inner_block, after_block) = match stack.pop() {
                    Some(p) => p,
                    None => {
                        proof {
                            assert(false);
                        }
                        return Err(Error::CodegenFailure);
                    },
                };
                let ptr_val = match use_var(&mut builder, pointer) {
                    Some(x) => x,
                    None => {
                        return Err(Error::CodegenFailure);
                    },
                };
                let cell_addr = match ins_iadd(&mut builder, memory_address, ptr_val) {
                    Some(x) => x,
                    None => {
                        return Err(Error::CodegenFailure);
                    },
                };
                let cell_val = match ins_load_u8(&mut builder, cell_addr) {
                    Some(x) => x,
                    None => {
                        return Err(Error::CodegenFailure);
                    },
                };
                if !ins_brif(&mut builder, cell_val, inner_block, after_block) {
                    return Err(Error::CodegenFailure);
                }
                seal_block(&mut builder, inner_block);
                seal_block(&mut builder, after_block);
                switch_to_block(&mut builder, after_block);
            },
            TokenKind::Clear => {
                let ptr_val = match use_var(&mut builder, pointer) {
                    Some(x) => x,
                    None => {
                        return Err(Error::CodegenFailure);
                    },
                };
                let cell_addr = match ins_iadd(&mut builder, memory_address, ptr_val) {
                    Some(x) => x,
                    None => {
                        return Err(Error::CodegenFailure);
                    },
                };
                if !ins_store_u8(&mut builder, zero_byte, cell_addr) {
                    return Err(Error::CodegenFailure);
                }
            },
            TokenKind::Copy(v) => {
                let nr = wrap_add(0, v, TAPE_LEN);
                let ptr_val = match use_var(&mut builder, pointer) {
                    Some(x) => x,
                    None => {
                        return Err(Error::CodegenFailure);
                    },
                };
                let moved = match ins_iadd_imm(&mut builder, ptr_val, nr as i64) {
                    Some(x) => x,
                    None => {
                        return Err(Error::CodegenFailure);
                    },
                };
                let wrapped = match ins_iadd_imm(&mut builder, ptr_val, nr as i64 - 30000) {
                    Some(x) => x,
                    None => {
                        return Err(Error::CodegenFailure);
                    },
                };
                let in_range = match ins_icmp_imm_slt(&mut builder, moved, 30000) {
                    Some(x) => x,
                    None => {
                        return Err(Error::CodegenFailure);
                    },
                };
                let target_idx = match ins_select(&mut builder, in_range, moved, wrapped) {
                    Some(x) => x,
                    None => {
                        return Err(Error::CodegenFailure);
                    },
                };
                let from_addr = match ins_iadd(&mut builder, memory_address, ptr_val) {
                    Some(x) => x,
                    None => {
                        return Err(Error::CodegenFailure);
                    },
                };
                let to_addr = match ins_iadd(&mut builder, memory_address, target_idx) {
                    Some(x) => x,
                    None => {
                        return Err(Error::CodegenFailure);
                    },
                };
                let from_val = match ins_load_u8(&mut builder, from_addr) {
                    Some(x) => x,
                    None => {
                        return Err(Error::CodegenFailure);
                    },
                };
                let to_val = match ins_load_u8(&mut builder, to_addr) {
                    Some(x) => x,
                    None => {
                        return Err(Error::CodegenFailure);
                    },
                };
                let sum = match ins_iadd(&mut builder, to_val, from_val) {
                    Some(x) => x,
                    None => {
                        return Err(Error::CodegenFailure);
                    },
                };
                if !ins_store_u8(&mut builder, sum, to_addr) {
                    return Err(Error::CodegenFailure);
                }
            },
            TokenKind::Comment => {},
        }
        i = i + 1;
    }
    proof {
        assert(stack@.len() == 0);
    }

    if !ins_return(&mut builder, zero) {

        return Err(Error::CodegenFailure);

    }

    switch_to_block(&mut builder, exit_block);
    seal_block(&mut builder, exit_block);
    let err_val = match block_param0(&builder, exit_block) {
        Some(v) => v,
        None => {
            return Err(Error::CodegenFailure);
        },
    };
    if !ins_return(&mut builder, err_val) {
        return Err(Error::CodegenFailure);
    }

    builder_finalize(builder, frontend_cfg);

    match verify_and_compile(func) {
        Some(code) => Ok(code),
        None => Err(Error::CodegenFailure),
    }
}

} // verus!
