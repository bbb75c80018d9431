//! Functions of the runtime and of the standard library that lowered code
//! calls: their known signatures, and their registration in a module.

use vstd::prelude::*;
use crate::blocks::IrControlFlowGraph;
use crate::functions::{IrFunction, IrFunctionSignature, IrParameter};
use crate::ids::{IrBlockId, IrFunctionId, IrId, SymbolId};
use crate::module::{fn_pos, IrExternFunction, IrModule};
use crate::text::{decimal, push_decimal};
use crate::types::{types_view, CallingConvention, IrType, TypeModel};

verus! {

/// The signatures (parameter types, return type) of the stdlib functions
/// that are defined in MIR: threads, channels, mutexes, `Arc` and the
/// monomorphic vectors.
pub open spec fn mir_wrapper_signature_spec(name: Seq<char>) -> Option<(Seq<IrType>, IrType)> {
    if name == "Thread_spawn"@ {
        Some((seq![IrType::Ptr(Box::new(IrType::U8))], IrType::Ptr(Box::new(IrType::U8))))
    } else if name == "Thread_join"@ {
        Some((seq![IrType::Ptr(Box::new(IrType::U8))], IrType::Ptr(Box::new(IrType::U8))))
    } else if name == "Thread_isFinished"@ {
        Some((seq![IrType::Ptr(Box::new(IrType::U8))], IrType::Bool))
    } else if name == "Thread_sleep"@ {
        Some((seq![IrType::I32], IrType::Void))
    } else if name == "Thread_yieldNow"@ {
        Some((Seq::<IrType>::empty(), IrType::Void))
    } else if name == "Thread_currentId"@ {
        Some((Seq::<IrType>::empty(), IrType::U64))
    } else if name == "Channel_init"@ {
        Some((seq![IrType::I32], IrType::Ptr(Box::new(IrType::U8))))
    } else if name == "Channel_send"@ {
        Some((seq![IrType::Ptr(Box::new(IrType::U8)), IrType::Ptr(Box::new(IrType::U8))], IrType::Void))
    } else if name == "Channel_receive"@ {
        Some((seq![IrType::Ptr(Box::new(IrType::U8))], IrType::Ptr(Box::new(IrType::U8))))
    } else if name == "Channel_trySend"@ {
        Some((seq![IrType::Ptr(Box::new(IrType::U8)), IrType::Ptr(Box::new(IrType::U8))], IrType::Bool))
    } else if name == "Channel_tryReceive"@ {
        Some((seq![IrType::Ptr(Box::new(IrType::U8))], IrType::Ptr(Box::new(IrType::U8))))
    } else if name == "Channel_close"@ {
        Some((seq![IrType::Ptr(Box::new(IrType::U8))], IrType::Void))
    } else if name == "Channel_isClosed"@ {
        Some((seq![IrType::Ptr(Box::new(IrType::U8))], IrType::Bool))
    } else if name == "Channel_len"@ {
        Some((seq![IrType::Ptr(Box::new(IrType::U8))], IrType::I32))
    } else if name == "Channel_capacity"@ {
        Some((seq![IrType::Ptr(Box::new(IrType::U8))], IrType::I32))
    } else if name == "Channel_isEmpty"@ {
        Some((seq![IrType::Ptr(Box::new(IrType::U8))], IrType::Bool))
    } else if name == "Channel_isFull"@ {
        Some((seq![IrType::Ptr(Box::new(IrType::U8))], IrType::Bool))
    } else if name == "Mutex_init"@ {
        Some((seq![IrType::Ptr(Box::new(IrType::U8))], IrType::Ptr(Box::new(IrType::U8))))
    } else if name == "Mutex_lock"@ {
        Some((seq![IrType::Ptr(Box::new(IrType::U8))], IrType::Ptr(Box::new(IrType::U8))))
    } else if name == "Mutex_tryLock"@ {
        Some((seq![IrType::Ptr(Box::new(IrType::U8))], IrType::Ptr(Box::new(IrType::U8))))
    } else if name == "Mutex_isLocked"@ {
        Some((seq![IrType::Ptr(Box::new(IrType::U8))], IrType::Bool))
    } else if name == "MutexGuard_get"@ {
        Some((seq![IrType::Ptr(Box::new(IrType::U8))], IrType::Ptr(Box::new(IrType::U8))))
    } else if name == "MutexGuard_unlock"@ {
        Some((seq![IrType::Ptr(Box::new(IrType::U8))], IrType::Void))
    } else if name == "Arc_init"@ {
        Some((seq![IrType::Ptr(Box::new(IrType::U8))], IrType::Ptr(Box::new(IrType::U8))))
    } else if name == "Arc_clone"@ {
        Some((seq![IrType::Ptr(Box::new(IrType::U8))], IrType::Ptr(Box::new(IrType::U8))))
    } else if name == "Arc_get"@ {
        Some((seq![IrType::Ptr(Box::new(IrType::U8))], IrType::Ptr(Box::new(IrType::U8))))
    } else if name == "Arc_strongCount"@ {
        Some((seq![IrType::Ptr(Box::new(IrType::U8))], IrType::U64))
    } else if name == "Arc_tryUnwrap"@ {
        Some((seq![IrType::Ptr(Box::new(IrType::U8))], IrType::Ptr(Box::new(IrType::U8))))
    } else if name == "Arc_asPtr"@ {
        Some((seq![IrType::Ptr(Box::new(IrType::U8))], IrType::U64))
    } else if name == "VecI32_new"@ {
        Some((Seq::<IrType>::empty(), IrType::Ptr(Box::new(IrType::U8))))
    } else if name == "VecI32_push"@ {
        Some((seq![IrType::Ptr(Box::new(IrType::U8)), IrType::I32], IrType::Void))
    } else if name == "VecI32_pop"@ {
        Some((seq![IrType::Ptr(Box::new(IrType::U8))], IrType::I32))
    } else if name == "VecI32_get"@ {
        Some((seq![IrType::Ptr(Box::new(IrType::U8)), IrType::I64], IrType::I32))
    } else if name == "VecI32_set"@ {
        Some((seq![IrType::Ptr(Box::new(IrType::U8)), IrType::I64, IrType::I32], IrType::Void))
    } else if name == "VecI32_length"@ {
        Some((seq![IrType::Ptr(Box::new(IrType::U8))], IrType::I64))
    } else if name == "VecI32_capacity"@ {
        Some((seq![IrType::Ptr(Box::new(IrType::U8))], IrType::I64))
    } else if name == "VecI32_isEmpty"@ {
        Some((seq![IrType::Ptr(Box::new(IrType::U8))], IrType::Bool))
    } else if name == "VecI32_first"@ {
        Some((seq![IrType::Ptr(Box::new(IrType::U8))], IrType::I32))
    } else if name == "VecI32_last"@ {
        Some((seq![IrType::Ptr(Box::new(IrType::U8))], IrType::I32))
    } else if name == "VecI32_clear"@ {
        Some((seq![IrType::Ptr(Box::new(IrType::U8))], IrType::Void))
    } else if name == "VecI32_sort"@ {
        Some((seq![IrType::Ptr(Box::new(IrType::U8))], IrType::Void))
    } else if name == "VecI32_sortBy"@ {
        Some((seq![IrType::Ptr(Box::new(IrType::U8)), IrType::Ptr(Box::new(IrType::U8)), IrType::Ptr(Box::new(IrType::U8))], IrType::Void))
    } else if name == "VecI64_new"@ {
        Some((Seq::<IrType>::empty(), IrType::Ptr(Box::new(IrType::U8))))
    } else if name == "VecI64_push"@ {
        Some((seq![IrType::Ptr(Box::new(IrType::U8)), IrType::I64], IrType::Void))
    } else if name == "VecI64_pop"@ {
        Some((seq![IrType::Ptr(Box::new(IrType::U8))], IrType::I64))
    } else if name == "VecI64_get"@ {
        Some((seq![IrType::Ptr(Box::new(IrType::U8)), IrType::I64], IrType::I64))
    } else if name == "VecI64_set"@ {
        Some((seq![IrType::Ptr(Box::new(IrType::U8)), IrType::I64, IrType::I64], IrType::Void))
    } else if name == "VecI64_length"@ {
        Some((seq![IrType::Ptr(Box::new(IrType::U8))], IrType::I64))
    } else if name == "VecI64_isEmpty"@ {
        Some((seq![IrType::Ptr(Box::new(IrType::U8))], IrType::Bool))
    } else if name == "VecI64_first"@ {
        Some((seq![IrType::Ptr(Box::new(IrType::U8))], IrType::I64))
    } else if name == "VecI64_last"@ {
        Some((seq![IrType::Ptr(Box::new(IrType::U8))], IrType::I64))
    } else if name == "VecI64_clear"@ {
        Some((seq![IrType::Ptr(Box::new(IrType::U8))], IrType::Void))
    } else if name == "VecF64_new"@ {
        Some((Seq::<IrType>::empty(), IrType::Ptr(Box::new(IrType::U8))))
    } else if name == "VecF64_push"@ {
        Some((seq![IrType::Ptr(Box::new(IrType::U8)), IrType::F64], IrType::Void))
    } else if name == "VecF64_pop"@ {
        Some((seq![IrType::Ptr(Box::new(IrType::U8))], IrType::F64))
    } else if name == "VecF64_get"@ {
        Some((seq![IrType::Ptr(Box::new(IrType::U8)), IrType::I64], IrType::F64))
    } else if name == "VecF64_set"@ {
        Some((seq![IrType::Ptr(Box::new(IrType::U8)), IrType::I64, IrType::F64], IrType::Void))
    } else if name == "VecF64_length"@ {
        Some((seq![IrType::Ptr(Box::new(IrType::U8))], IrType::I64))
    } else if name == "VecF64_isEmpty"@ {
        Some((seq![IrType::Ptr(Box::new(IrType::U8))], IrType::Bool))
    } else if name == "VecF64_first"@ {
        Some((seq![IrType::Ptr(Box::new(IrType::U8))], IrType::F64))
    } else if name == "VecF64_last"@ {
        Some((seq![IrType::Ptr(Box::new(IrType::U8))], IrType::F64))
    } else if name == "VecF64_clear"@ {
        Some((seq![IrType::Ptr(Box::new(IrType::U8))], IrType::Void))
    } else if name == "VecF64_sort"@ {
        Some((seq![IrType::Ptr(Box::new(IrType::U8))], IrType::Void))
    } else if name == "VecF64_sortBy"@ {
        Some((seq![IrType::Ptr(Box::new(IrType::U8)), IrType::Ptr(Box::new(IrType::U8)), IrType::Ptr(Box::new(IrType::U8))], IrType::Void))
    } else if name == "VecBool_new"@ {
        Some((Seq::<IrType>::empty(), IrType::Ptr(Box::new(IrType::U8))))
    } else if name == "VecBool_push"@ {
        Some((seq![IrType::Ptr(Box::new(IrType::U8)), IrType::Bool], IrType::Void))
    } else if name == "VecBool_pop"@ {
        Some((seq![IrType::Ptr(Box::new(IrType::U8))], IrType::Bool))
    } else if name == "VecBool_get"@ {
        Some((seq![IrType::Ptr(Box::new(IrType::U8)), IrType::I64], IrType::Bool))
    } else if name == "VecBool_set"@ {
        Some((seq![IrType::Ptr(Box::new(IrType::U8)), IrType::I64, IrType::Bool], IrType::Void))
    } else if name == "VecBool_length"@ {
        Some((seq![IrType::Ptr(Box::new(IrType::U8))], IrType::I64))
    } else if name == "VecBool_isEmpty"@ {
        Some((seq![IrType::Ptr(Box::new(IrType::U8))], IrType::Bool))
    } else if name == "VecBool_clear"@ {
        Some((seq![IrType::Ptr(Box::new(IrType::U8))], IrType::Void))
    } else if name == "VecPtr_new"@ {
        Some((Seq::<IrType>::empty(), IrType::Ptr(Box::new(IrType::U8))))
    } else if name == "VecPtr_push"@ {
        Some((seq![IrType::Ptr(Box::new(IrType::U8)), IrType::Ptr(Box::new(IrType::U8))], IrType::Void))
    } else if name == "VecPtr_pop"@ {
        Some((seq![IrType::Ptr(Box::new(IrType::U8))], IrType::Ptr(Box::new(IrType::U8))))
    } else if name == "VecPtr_get"@ {
        Some((seq![IrType::Ptr(Box::new(IrType::U8)), IrType::I64], IrType::Ptr(Box::new(IrType::U8))))
    } else if name == "VecPtr_set"@ {
        Some((seq![IrType::Ptr(Box::new(IrType::U8)), IrType::I64, IrType::Ptr(Box::new(IrType::U8))], IrType::Void))
    } else if name == "VecPtr_length"@ {
        Some((seq![IrType::Ptr(Box::new(IrType::U8))], IrType::I64))
    } else if name == "VecPtr_isEmpty"@ {
        Some((seq![IrType::Ptr(Box::new(IrType::U8))], IrType::Bool))
    } else if name == "VecPtr_first"@ {
        Some((seq![IrType::Ptr(Box::new(IrType::U8))], IrType::Ptr(Box::new(IrType::U8))))
    } else if name == "VecPtr_last"@ {
        Some((seq![IrType::Ptr(Box::new(IrType::U8))], IrType::Ptr(Box::new(IrType::U8))))
    } else if name == "VecPtr_clear"@ {
        Some((seq![IrType::Ptr(Box::new(IrType::U8))], IrType::Void))
    } else if name == "VecPtr_sortBy"@ {
        Some((seq![IrType::Ptr(Box::new(IrType::U8)), IrType::Ptr(Box::new(IrType::U8)), IrType::Ptr(Box::new(IrType::U8))], IrType::Void))
    } else {
        None
    }
}

/// The signature of the stdlib MIR function `name`, if it is one.
pub fn stdlib_mir_wrapper_signature(name: &str) -> (r: Option<(Vec<IrType>, IrType)>)
    ensures
        match r {
            Some((params, ret)) => mir_wrapper_signature_spec(name@) == Some((params@, ret)),
            None => mir_wrapper_signature_spec(name@) is None,
        },
{
    let n = name.to_owned();
    if n == "Thread_spawn".to_owned() {
        return Some((vec![IrType::Ptr(Box::new(IrType::U8))], IrType::Ptr(Box::new(IrType::U8))));
    }
    if n == "Thread_join".to_owned() {
        return Some((vec![IrType::Ptr(Box::new(IrType::U8))], IrType::Ptr(Box::new(IrType::U8))));
    }
    if n == "Thread_isFinished".to_owned() {
        return Some((vec![IrType::Ptr(Box::new(IrType::U8))], IrType::Bool));
    }
    if n == "Thread_sleep".to_owned() {
        return Some((vec![IrType::I32], IrType::Void));
    }
    if n == "Thread_yieldNow".to_owned() {
        return Some((Vec::new(), IrType::Void));
    }
    if n == "Thread_currentId".to_owned() {
        return Some((Vec::new(), IrType::U64));
    }
    if n == "Channel_init".to_owned() {
        return Some((vec![IrType::I32], IrType::Ptr(Box::new(IrType::U8))));
    }
    if n == "Channel_send".to_owned() {
        return Some((vec![IrType::Ptr(Box::new(IrType::U8)), IrType::Ptr(Box::new(IrType::U8))], IrType::Void));
    }
    if n == "Channel_receive".to_owned() {
        return Some((vec![IrType::Ptr(Box::new(IrType::U8))], IrType::Ptr(Box::new(IrType::U8))));
    }
    if n == "Channel_trySend".to_owned() {
        return Some((vec![IrType::Ptr(Box::new(IrType::U8)), IrType::Ptr(Box::new(IrType::U8))], IrType::Bool));
    }
    if n == "Channel_tryReceive".to_owned() {
        return Some((vec![IrType::Ptr(Box::new(IrType::U8))], IrType::Ptr(Box::new(IrType::U8))));
    }
    if n == "Channel_close".to_owned() {
        return Some((vec![IrType::Ptr(Box::new(IrType::U8))], IrType::Void));
    }
    if n == "Channel_isClosed".to_owned() {
        return Some((vec![IrType::Ptr(Box::new(IrType::U8))], IrType::Bool));
    }
    if n == "Channel_len".to_owned() {
        return Some((vec![IrType::Ptr(Box::new(IrType::U8))], IrType::I32));
    }
    if n == "Channel_capacity".to_owned() {
        return Some((vec![IrType::Ptr(Box::new(IrType::U8))], IrType::I32));
    }
    if n == "Channel_isEmpty".to_owned() {
        return Some((vec![IrType::Ptr(Box::new(IrType::U8))], IrType::Bool));
    }
    if n == "Channel_isFull".to_owned() {
        return Some((vec![IrType::Ptr(Box::new(IrType::U8))], IrType::Bool));
    }
    if n == "Mutex_init".to_owned() {
        return Some((vec![IrType::Ptr(Box::new(IrType::U8))], IrType::Ptr(Box::new(IrType::U8))));
    }
    if n == "Mutex_lock".to_owned() {
        return Some((vec![IrType::Ptr(Box::new(IrType::U8))], IrType::Ptr(Box::new(IrType::U8))));
    }
    if n == "Mutex_tryLock".to_owned() {
        return Some((vec![IrType::Ptr(Box::new(IrType::U8))], IrType::Ptr(Box::new(IrType::U8))));
    }
    if n == "Mutex_isLocked".to_owned() {
        return Some((vec![IrType::Ptr(Box::new(IrType::U8))], IrType::Bool));
    }
    if n == "MutexGuard_get".to_owned() {
        return Some((vec![IrType::Ptr(Box::new(IrType::U8))], IrType::Ptr(Box::new(IrType::U8))));
    }
    if n == "MutexGuard_unlock".to_owned() {
        return Some((vec![IrType::Ptr(Box::new(IrType::U8))], IrType::Void));
    }
    if n == "Arc_init".to_owned() {
        return Some((vec![IrType::Ptr(Box::new(IrType::U8))], IrType::Ptr(Box::new(IrType::U8))));
    }
    if n == "Arc_clone".to_owned() {
        return Some((vec![IrType::Ptr(Box::new(IrType::U8))], IrType::Ptr(Box::new(IrType::U8))));
    }
    if n == "Arc_get".to_owned() {
        return Some((vec![IrType::Ptr(Box::new(IrType::U8))], IrType::Ptr(Box::new(IrType::U8))));
    }
    if n == "Arc_strongCount".to_owned() {
        return Some((vec![IrType::Ptr(Box::new(IrType::U8))], IrType::U64));
    }
    if n == "Arc_tryUnwrap".to_owned() {
        return Some((vec![IrType::Ptr(Box::new(IrType::U8))], IrType::Ptr(Box::new(IrType::U8))));
    }
    if n == "Arc_asPtr".to_owned() {
        return Some((vec![IrType::Ptr(Box::new(IrType::U8))], IrType::U64));
    }
    if n == "VecI32_new".to_owned() {
        return Some((Vec::new(), IrType::Ptr(Box::new(IrType::U8))));
    }
    if n == "VecI32_push".to_owned() {
        return Some((vec![IrType::Ptr(Box::new(IrType::U8)), IrType::I32], IrType::Void));
    }
    if n == "VecI32_pop".to_owned() {
        return Some((vec![IrType::Ptr(Box::new(IrType::U8))], IrType::I32));
    }
    if n == "VecI32_get".to_owned() {
        return Some((vec![IrType::Ptr(Box::new(IrType::U8)), IrType::I64], IrType::I32));
    }
    if n == "VecI32_set".to_owned() {
        return Some((vec![IrType::Ptr(Box::new(IrType::U8)), IrType::I64, IrType::I32], IrType::Void));
    }
    if n == "VecI32_length".to_owned() {
        return Some((vec![IrType::Ptr(Box::new(IrType::U8))], IrType::I64));
    }
    if n == "VecI32_capacity".to_owned() {
        return Some((vec![IrType::Ptr(Box::new(IrType::U8))], IrType::I64));
    }
    if n == "VecI32_isEmpty".to_owned() {
        return Some((vec![IrType::Ptr(Box::new(IrType::U8))], IrType::Bool));
    }
    if n == "VecI32_first".to_owned() {
        return Some((vec![IrType::Ptr(Box::new(IrType::U8))], IrType::I32));
    }
    if n == "VecI32_last".to_owned() {
        return Some((vec![IrType::Ptr(Box::new(IrType::U8))], IrType::I32));
    }
    if n == "VecI32_clear".to_owned() {
        return Some((vec![IrType::Ptr(Box::new(IrType::U8))], IrType::Void));
    }
    if n == "VecI32_sort".to_owned() {
        return Some((vec![IrType::Ptr(Box::new(IrType::U8))], IrType::Void));
    }
    if n == "VecI32_sortBy".to_owned() {
        return Some((vec![IrType::Ptr(Box::new(IrType::U8)), IrType::Ptr(Box::new(IrType::U8)), IrType::Ptr(Box::new(IrType::U8))], IrType::Void));
    }
    if n == "VecI64_new".to_owned() {
        return Some((Vec::new(), IrType::Ptr(Box::new(IrType::U8))));
    }
    if n == "VecI64_push".to_owned() {
        return Some((vec![IrType::Ptr(Box::new(IrType::U8)), IrType::I64], IrType::Void));
    }
    if n == "VecI64_pop".to_owned() {
        return Some((vec![IrType::Ptr(Box::new(IrType::U8))], IrType::I64));
    }
    if n == "VecI64_get".to_owned() {
        return Some((vec![IrType::Ptr(Box::new(IrType::U8)), IrType::I64], IrType::I64));
    }
    if n == "VecI64_set".to_owned() {
        return Some((vec![IrType::Ptr(Box::new(IrType::U8)), IrType::I64, IrType::I64], IrType::Void));
    }
    if n == "VecI64_length".to_owned() {
        return Some((vec![IrType::Ptr(Box::new(IrType::U8))], IrType::I64));
    }
    if n == "VecI64_isEmpty".to_owned() {
        return Some((vec![IrType::Ptr(Box::new(IrType::U8))], IrType::Bool));
    }
    if n == "VecI64_first".to_owned() {
        return Some((vec![IrType::Ptr(Box::new(IrType::U8))], IrType::I64));
    }
    if n == "VecI64_last".to_owned() {
        return Some((vec![IrType::Ptr(Box::new(IrType::U8))], IrType::I64));
    }
    if n == "VecI64_clear".to_owned() {
        return Some((vec![IrType::Ptr(Box::new(IrType::U8))], IrType::Void));
    }
    if n == "VecF64_new".to_owned() {
        return Some((Vec::new(), IrType::Ptr(Box::new(IrType::U8))));
    }
    if n == "VecF64_push".to_owned() {
        return Some((vec![IrType::Ptr(Box::new(IrType::U8)), IrType::F64], IrType::Void));
    }
    if n == "VecF64_pop".to_owned() {
        return Some((vec![IrType::Ptr(Box::new(IrType::U8))], IrType::F64));
    }
    if n == "VecF64_get".to_owned() {
        return Some((vec![IrType::Ptr(Box::new(IrType::U8)), IrType::I64], IrType::F64));
    }
    if n == "VecF64_set".to_owned() {
        return Some((vec![IrType::Ptr(Box::new(IrType::U8)), IrType::I64, IrType::F64], IrType::Void));
    }
    if n == "VecF64_length".to_owned() {
        return Some((vec![IrType::Ptr(Box::new(IrType::U8))], IrType::I64));
    }
    if n == "VecF64_isEmpty".to_owned() {
        return Some((vec![IrType::Ptr(Box::new(IrType::U8))], IrType::Bool));
    }
    if n == "VecF64_first".to_owned() {
        return Some((vec![IrType::Ptr(Box::new(IrType::U8))], IrType::F64));
    }
    if n == "VecF64_last".to_owned() {
        return Some((vec![IrType::Ptr(Box::new(IrType::U8))], IrType::F64));
    }
    if n == "VecF64_clear".to_owned() {
        return Some((vec![IrType::Ptr(Box::new(IrType::U8))], IrType::Void));
    }
    if n == "VecF64_sort".to_owned() {
        return Some((vec![IrType::Ptr(Box::new(IrType::U8))], IrType::Void));
    }
    if n == "VecF64_sortBy".to_owned() {
        return Some((vec![IrType::Ptr(Box::new(IrType::U8)), IrType::Ptr(Box::new(IrType::U8)), IrType::Ptr(Box::new(IrType::U8))], IrType::Void));
    }
    if n == "VecBool_new".to_owned() {
        return Some((Vec::new(), IrType::Ptr(Box::new(IrType::U8))));
    }
    if n == "VecBool_push".to_owned() {
        return Some((vec![IrType::Ptr(Box::new(IrType::U8)), IrType::Bool], IrType::Void));
    }
    if n == "VecBool_pop".to_owned() {
        return Some((vec![IrType::Ptr(Box::new(IrType::U8))], IrType::Bool));
    }
    if n == "VecBool_get".to_owned() {
        return Some((vec![IrType::Ptr(Box::new(IrType::U8)), IrType::I64], IrType::Bool));
    }
    if n == "VecBool_set".to_owned() {
        return Some((vec![IrType::Ptr(Box::new(IrType::U8)), IrType::I64, IrType::Bool], IrType::Void));
    }
    if n == "VecBool_length".to_owned() {
        return Some((vec![IrType::Ptr(Box::new(IrType::U8))], IrType::I64));
    }
    if n == "VecBool_isEmpty".to_owned() {
        return Some((vec![IrType::Ptr(Box::new(IrType::U8))], IrType::Bool));
    }
    if n == "VecBool_clear".to_owned() {
        return Some((vec![IrType::Ptr(Box::new(IrType::U8))], IrType::Void));
    }
    if n == "VecPtr_new".to_owned() {
        return Some((Vec::new(), IrType::Ptr(Box::new(IrType::U8))));
    }
    if n == "VecPtr_push".to_owned() {
        return Some((vec![IrType::Ptr(Box::new(IrType::U8)), IrType::Ptr(Box::new(IrType::U8))], IrType::Void));
    }
    if n == "VecPtr_pop".to_owned() {
        return Some((vec![IrType::Ptr(Box::new(IrType::U8))], IrType::Ptr(Box::new(IrType::U8))));
    }
    if n == "VecPtr_get".to_owned() {
        return Some((vec![IrType::Ptr(Box::new(IrType::U8)), IrType::I64], IrType::Ptr(Box::new(IrType::U8))));
    }
    if n == "VecPtr_set".to_owned() {
        return Some((vec![IrType::Ptr(Box::new(IrType::U8)), IrType::I64, IrType::Ptr(Box::new(IrType::U8))], IrType::Void));
    }
    if n == "VecPtr_length".to_owned() {
        return Some((vec![IrType::Ptr(Box::new(IrType::U8))], IrType::I64));
    }
    if n == "VecPtr_isEmpty".to_owned() {
        return Some((vec![IrType::Ptr(Box::new(IrType::U8))], IrType::Bool));
    }
    if n == "VecPtr_first".to_owned() {
        return Some((vec![IrType::Ptr(Box::new(IrType::U8))], IrType::Ptr(Box::new(IrType::U8))));
    }
    if n == "VecPtr_last".to_owned() {
        return Some((vec![IrType::Ptr(Box::new(IrType::U8))], IrType::Ptr(Box::new(IrType::U8))));
    }
    if n == "VecPtr_clear".to_owned() {
        return Some((vec![IrType::Ptr(Box::new(IrType::U8))], IrType::Void));
    }
    if n == "VecPtr_sortBy".to_owned() {
        return Some((vec![IrType::Ptr(Box::new(IrType::U8)), IrType::Ptr(Box::new(IrType::U8)), IrType::Ptr(Box::new(IrType::U8))], IrType::Void));
    }
    None
}

/// The signatures (parameter types, return type) of the runtime functions
/// whose types cannot be inferred from their call sites: math, system,
/// files, maps and boxing.
pub open spec fn extern_signature_spec(name: Seq<char>) -> Option<(Seq<IrType>, IrType)> {
    if name == "haxe_math_abs"@ {
        Some((seq![IrType::F64], IrType::F64))
    } else if name == "haxe_math_min"@ {
        Some((seq![IrType::F64, IrType::F64], IrType::F64))
    } else if name == "haxe_math_max"@ {
        Some((seq![IrType::F64, IrType::F64], IrType::F64))
    } else if name == "haxe_math_floor"@ {
        Some((seq![IrType::F64], IrType::F64))
    } else if name == "haxe_math_ceil"@ {
        Some((seq![IrType::F64], IrType::F64))
    } else if name == "haxe_math_round"@ {
        Some((seq![IrType::F64], IrType::F64))
    } else if name == "haxe_math_sin"@ {
        Some((seq![IrType::F64], IrType::F64))
    } else if name == "haxe_math_cos"@ {
        Some((seq![IrType::F64], IrType::F64))
    } else if name == "haxe_math_tan"@ {
        Some((seq![IrType::F64], IrType::F64))
    } else if name == "haxe_math_asin"@ {
        Some((seq![IrType::F64], IrType::F64))
    } else if name == "haxe_math_acos"@ {
        Some((seq![IrType::F64], IrType::F64))
    } else if name == "haxe_math_atan"@ {
        Some((seq![IrType::F64], IrType::F64))
    } else if name == "haxe_math_atan2"@ {
        Some((seq![IrType::F64, IrType::F64], IrType::F64))
    } else if name == "haxe_math_exp"@ {
        Some((seq![IrType::F64], IrType::F64))
    } else if name == "haxe_math_log"@ {
        Some((seq![IrType::F64], IrType::F64))
    } else if name == "haxe_math_pow"@ {
        Some((seq![IrType::F64, IrType::F64], IrType::F64))
    } else if name == "haxe_math_sqrt"@ {
        Some((seq![IrType::F64], IrType::F64))
    } else if name == "haxe_math_is_nan"@ {
        Some((seq![IrType::F64], IrType::Bool))
    } else if name == "haxe_math_is_finite"@ {
        Some((seq![IrType::F64], IrType::Bool))
    } else if name == "haxe_math_fround"@ {
        Some((seq![IrType::F64], IrType::F64))
    } else if name == "haxe_math_random"@ {
        Some((Seq::<IrType>::empty(), IrType::F64))
    } else if name == "haxe_sys_time"@ {
        Some((Seq::<IrType>::empty(), IrType::F64))
    } else if name == "haxe_sys_cpu_time"@ {
        Some((Seq::<IrType>::empty(), IrType::F64))
    } else if name == "haxe_sys_exit"@ {
        Some((seq![IrType::I64], IrType::Void))
    } else if name == "haxe_sys_sleep"@ {
        Some((seq![IrType::F64], IrType::Void))
    } else if name == "haxe_sys_system_name"@ {
        Some((Seq::<IrType>::empty(), IrType::Ptr(Box::new(IrType::Void))))
    } else if name == "haxe_sys_get_cwd"@ {
        Some((Seq::<IrType>::empty(), IrType::Ptr(Box::new(IrType::Void))))
    } else if name == "haxe_sys_set_cwd"@ {
        Some((seq![IrType::Ptr(Box::new(IrType::Void))], IrType::Void))
    } else if name == "haxe_sys_get_env"@ {
        Some((seq![IrType::Ptr(Box::new(IrType::Void))], IrType::Ptr(Box::new(IrType::Void))))
    } else if name == "haxe_sys_put_env"@ {
        Some((seq![IrType::Ptr(Box::new(IrType::Void)), IrType::Ptr(Box::new(IrType::Void))], IrType::Void))
    } else if name == "haxe_sys_program_path"@ {
        Some((Seq::<IrType>::empty(), IrType::Ptr(Box::new(IrType::Void))))
    } else if name == "haxe_std_int"@ {
        Some((seq![IrType::F64], IrType::I64))
    } else if name == "haxe_std_parse_int"@ {
        Some((seq![IrType::Ptr(Box::new(IrType::Void))], IrType::I64))
    } else if name == "haxe_std_parse_float"@ {
        Some((seq![IrType::Ptr(Box::new(IrType::Void))], IrType::F64))
    } else if name == "haxe_std_random"@ {
        Some((seq![IrType::I64], IrType::I64))
    } else if name == "haxe_file_get_content"@ {
        Some((seq![IrType::Ptr(Box::new(IrType::Void))], IrType::Ptr(Box::new(IrType::Void))))
    } else if name == "haxe_file_save_content"@ {
        Some((seq![IrType::Ptr(Box::new(IrType::Void)), IrType::Ptr(Box::new(IrType::Void))], IrType::Void))
    } else if name == "haxe_file_copy"@ {
        Some((seq![IrType::Ptr(Box::new(IrType::Void)), IrType::Ptr(Box::new(IrType::Void))], IrType::Void))
    } else if name == "haxe_filesystem_exists"@ {
        Some((seq![IrType::Ptr(Box::new(IrType::Void))], IrType::Bool))
    } else if name == "haxe_filesystem_is_directory"@ {
        Some((seq![IrType::Ptr(Box::new(IrType::Void))], IrType::Bool))
    } else if name == "haxe_filesystem_create_directory"@ {
        Some((seq![IrType::Ptr(Box::new(IrType::Void))], IrType::Void))
    } else if name == "haxe_filesystem_delete_file"@ {
        Some((seq![IrType::Ptr(Box::new(IrType::Void))], IrType::Void))
    } else if name == "haxe_filesystem_delete_directory"@ {
        Some((seq![IrType::Ptr(Box::new(IrType::Void))], IrType::Void))
    } else if name == "haxe_filesystem_rename"@ {
        Some((seq![IrType::Ptr(Box::new(IrType::Void)), IrType::Ptr(Box::new(IrType::Void))], IrType::Void))
    } else if name == "haxe_filesystem_full_path"@ {
        Some((seq![IrType::Ptr(Box::new(IrType::Void))], IrType::Ptr(Box::new(IrType::Void))))
    } else if name == "haxe_filesystem_absolute_path"@ {
        Some((seq![IrType::Ptr(Box::new(IrType::Void))], IrType::Ptr(Box::new(IrType::Void))))
    } else if name == "haxe_stringmap_new"@ {
        Some((Seq::<IrType>::empty(), IrType::Ptr(Box::new(IrType::Void))))
    } else if name == "haxe_stringmap_set"@ {
        Some((seq![IrType::Ptr(Box::new(IrType::Void)), IrType::Ptr(Box::new(IrType::Void)), IrType::Ptr(Box::new(IrType::Void))], IrType::Void))
    } else if name == "haxe_stringmap_get"@ {
        Some((seq![IrType::Ptr(Box::new(IrType::Void)), IrType::Ptr(Box::new(IrType::Void))], IrType::Ptr(Box::new(IrType::Void))))
    } else if name == "haxe_stringmap_exists"@ {
        Some((seq![IrType::Ptr(Box::new(IrType::Void)), IrType::Ptr(Box::new(IrType::Void))], IrType::Bool))
    } else if name == "haxe_stringmap_remove"@ {
        Some((seq![IrType::Ptr(Box::new(IrType::Void)), IrType::Ptr(Box::new(IrType::Void))], IrType::Bool))
    } else if name == "haxe_stringmap_clear"@ {
        Some((seq![IrType::Ptr(Box::new(IrType::Void))], IrType::Void))
    } else if name == "haxe_stringmap_count"@ {
        Some((seq![IrType::Ptr(Box::new(IrType::Void))], IrType::I64))
    } else if name == "haxe_stringmap_keys"@ {
        Some((seq![IrType::Ptr(Box::new(IrType::Void)), IrType::Ptr(Box::new(IrType::I64))], IrType::Ptr(Box::new(IrType::Void))))
    } else if name == "haxe_stringmap_to_string"@ {
        Some((seq![IrType::Ptr(Box::new(IrType::Void))], IrType::Ptr(Box::new(IrType::Void))))
    } else if name == "haxe_intmap_new"@ {
        Some((Seq::<IrType>::empty(), IrType::Ptr(Box::new(IrType::Void))))
    } else if name == "haxe_intmap_set"@ {
        Some((seq![IrType::Ptr(Box::new(IrType::Void)), IrType::I64, IrType::Ptr(Box::new(IrType::Void))], IrType::Void))
    } else if name == "haxe_intmap_get"@ {
        Some((seq![IrType::Ptr(Box::new(IrType::Void)), IrType::I64], IrType::Ptr(Box::new(IrType::Void))))
    } else if name == "haxe_intmap_exists"@ {
        Some((seq![IrType::Ptr(Box::new(IrType::Void)), IrType::I64], IrType::Bool))
    } else if name == "haxe_intmap_remove"@ {
        Some((seq![IrType::Ptr(Box::new(IrType::Void)), IrType::I64], IrType::Bool))
    } else if name == "haxe_intmap_clear"@ {
        Some((seq![IrType::Ptr(Box::new(IrType::Void))], IrType::Void))
    } else if name == "haxe_intmap_count"@ {
        Some((seq![IrType::Ptr(Box::new(IrType::Void))], IrType::I64))
    } else if name == "haxe_intmap_keys"@ {
        Some((seq![IrType::Ptr(Box::new(IrType::Void)), IrType::Ptr(Box::new(IrType::I64))], IrType::Ptr(Box::new(IrType::I64))))
    } else if name == "haxe_intmap_to_string"@ {
        Some((seq![IrType::Ptr(Box::new(IrType::Void))], IrType::Ptr(Box::new(IrType::Void))))
    } else if name == "haxe_box_int_ptr"@ {
        Some((seq![IrType::I64], IrType::Ptr(Box::new(IrType::U8))))
    } else if name == "haxe_box_float_ptr"@ {
        Some((seq![IrType::F64], IrType::Ptr(Box::new(IrType::U8))))
    } else if name == "haxe_box_bool_ptr"@ {
        Some((seq![IrType::I64], IrType::Ptr(Box::new(IrType::U8))))
    } else if name == "haxe_unbox_int_ptr"@ {
        Some((seq![IrType::Ptr(Box::new(IrType::U8))], IrType::I64))
    } else if name == "haxe_unbox_float_ptr"@ {
        Some((seq![IrType::Ptr(Box::new(IrType::U8))], IrType::F64))
    } else if name == "haxe_unbox_bool_ptr"@ {
        Some((seq![IrType::Ptr(Box::new(IrType::U8))], IrType::I64))
    } else {
        None
    }
}

/// The two-argument math functions of the runtime (power, two-argument
/// arctangent, minimum, maximum) are declared with two `F64` parameters and
/// an `F64` result; the one-argument ones (absolute value, square root,
/// rounding, logarithm, exponential, trigonometry) with one.
pub proof fn law_math_arities()
    ensures
        extern_signature_spec("haxe_math_pow"@) == Some((seq![IrType::F64, IrType::F64], IrType::F64)),
        extern_signature_spec("haxe_math_atan2"@) == Some((seq![IrType::F64, IrType::F64], IrType::F64)),
        extern_signature_spec("haxe_math_min"@) == Some((seq![IrType::F64, IrType::F64], IrType::F64)),
        extern_signature_spec("haxe_math_max"@) == Some((seq![IrType::F64, IrType::F64], IrType::F64)),
        extern_signature_spec("haxe_math_abs"@) == Some((seq![IrType::F64], IrType::F64)),
        extern_signature_spec("haxe_math_sqrt"@) == Some((seq![IrType::F64], IrType::F64)),
        extern_signature_spec("haxe_math_floor"@) == Some((seq![IrType::F64], IrType::F64)),
        extern_signature_spec("haxe_math_ceil"@) == Some((seq![IrType::F64], IrType::F64)),
        extern_signature_spec("haxe_math_round"@) == Some((seq![IrType::F64], IrType::F64)),
        extern_signature_spec("haxe_math_log"@) == Some((seq![IrType::F64], IrType::F64)),
        extern_signature_spec("haxe_math_exp"@) == Some((seq![IrType::F64], IrType::F64)),
        extern_signature_spec("haxe_math_sin"@) == Some((seq![IrType::F64], IrType::F64)),
        extern_signature_spec("haxe_math_cos"@) == Some((seq![IrType::F64], IrType::F64)),
        extern_signature_spec("haxe_math_tan"@) == Some((seq![IrType::F64], IrType::F64)),
        extern_signature_spec("haxe_math_is_nan"@) == Some((seq![IrType::F64], IrType::Bool)),
        extern_signature_spec("haxe_math_random"@) == Some((Seq::<IrType>::empty(), IrType::F64)),
{
    reveal_strlit("haxe_math_abs");
    reveal_strlit("haxe_math_min");
    reveal_strlit("haxe_math_max");
    reveal_strlit("haxe_math_floor");
    reveal_strlit("haxe_math_ceil");
    reveal_strlit("haxe_math_round");
    reveal_strlit("haxe_math_sin");
    reveal_strlit("haxe_math_cos");
    reveal_strlit("haxe_math_tan");
    reveal_strlit("haxe_math_asin");
    reveal_strlit("haxe_math_acos");
    reveal_strlit("haxe_math_atan");
    reveal_strlit("haxe_math_atan2");
    reveal_strlit("haxe_math_exp");
    reveal_strlit("haxe_math_log");
    reveal_strlit("haxe_math_pow");
    reveal_strlit("haxe_math_sqrt");
    reveal_strlit("haxe_math_is_nan");
    reveal_strlit("haxe_math_is_finite");
    reveal_strlit("haxe_math_fround");
    reveal_strlit("haxe_math_random");
    assert("haxe_math_pow"@[10] != "haxe_math_abs"@[10]);
    assert("haxe_math_pow"@[10] != "haxe_math_min"@[10]);
    assert("haxe_math_pow"@[10] != "haxe_math_max"@[10]);
    assert("haxe_math_pow"@.len() != "haxe_math_floor"@.len());
    assert("haxe_math_pow"@.len() != "haxe_math_ceil"@.len());
    assert("haxe_math_pow"@.len() != "haxe_math_round"@.len());
    assert("haxe_math_pow"@[10] != "haxe_math_sin"@[10]);
    assert("haxe_math_pow"@[10] != "haxe_math_cos"@[10]);
    assert("haxe_math_pow"@[10] != "haxe_math_tan"@[10]);
    assert("haxe_math_pow"@.len() != "haxe_math_asin"@.len());
    assert("haxe_math_pow"@.len() != "haxe_math_acos"@.len());
    assert("haxe_math_pow"@.len() != "haxe_math_atan"@.len());
    assert("haxe_math_pow"@.len() != "haxe_math_atan2"@.len());
    assert("haxe_math_pow"@[10] != "haxe_math_exp"@[10]);
    assert("haxe_math_pow"@[10] != "haxe_math_log"@[10]);
    assert("haxe_math_atan2"@.len() != "haxe_math_abs"@.len());
    assert("haxe_math_atan2"@.len() != "haxe_math_min"@.len());
    assert("haxe_math_atan2"@.len() != "haxe_math_max"@.len());
    assert("haxe_math_atan2"@[10] != "haxe_math_floor"@[10]);
    assert("haxe_math_atan2"@.len() != "haxe_math_ceil"@.len());
    assert("haxe_math_atan2"@[10] != "haxe_math_round"@[10]);
    assert("haxe_math_atan2"@.len() != "haxe_math_sin"@.len());
    assert("haxe_math_atan2"@.len() != "haxe_math_cos"@.len());
    assert("haxe_math_atan2"@.len() != "haxe_math_tan"@.len());
    assert("haxe_math_atan2"@.len() != "haxe_math_asin"@.len());
    assert("haxe_math_atan2"@.len() != "haxe_math_acos"@.len());
    assert("haxe_math_atan2"@.len() != "haxe_math_atan"@.len());
    assert("haxe_math_is_nan"@.len() != "haxe_math_abs"@.len());
    assert("haxe_math_is_nan"@.len() != "haxe_math_min"@.len());
    assert("haxe_math_is_nan"@.len() != "haxe_math_max"@.len());
    assert("haxe_math_is_nan"@.len() != "haxe_math_floor"@.len());
    assert("haxe_math_is_nan"@.len() != "haxe_math_ceil"@.len());
    assert("haxe_math_is_nan"@.len() != "haxe_math_round"@.len());
    assert("haxe_math_is_nan"@.len() != "haxe_math_sin"@.len());
    assert("haxe_math_is_nan"@.len() != "haxe_math_cos"@.len());
    assert("haxe_math_is_nan"@.len() != "haxe_math_tan"@.len());
    assert("haxe_math_is_nan"@.len() != "haxe_math_asin"@.len());
    assert("haxe_math_is_nan"@.len() != "haxe_math_acos"@.len());
    assert("haxe_math_is_nan"@.len() != "haxe_math_atan"@.len());
    assert("haxe_math_is_nan"@.len() != "haxe_math_atan2"@.len());
    assert("haxe_math_is_nan"@.len() != "haxe_math_exp"@.len());
    assert("haxe_math_is_nan"@.len() != "haxe_math_log"@.len());
    assert("haxe_math_is_nan"@.len() != "haxe_math_pow"@.len());
    assert("haxe_math_is_nan"@.len() != "haxe_math_sqrt"@.len());
    assert("haxe_math_random"@.len() != "haxe_math_abs"@.len());
    assert("haxe_math_random"@.len() != "haxe_math_min"@.len());
    assert("haxe_math_random"@.len() != "haxe_math_max"@.len());
    assert("haxe_math_random"@.len() != "haxe_math_floor"@.len());
    assert("haxe_math_random"@.len() != "haxe_math_ceil"@.len());
    assert("haxe_math_random"@.len() != "haxe_math_round"@.len());
    assert("haxe_math_random"@.len() != "haxe_math_sin"@.len());
    assert("haxe_math_random"@.len() != "haxe_math_cos"@.len());
    assert("haxe_math_random"@.len() != "haxe_math_tan"@.len());
    assert("haxe_math_random"@.len() != "haxe_math_asin"@.len());
    assert("haxe_math_random"@.len() != "haxe_math_acos"@.len());
    assert("haxe_math_random"@.len() != "haxe_math_atan"@.len());
    assert("haxe_math_random"@.len() != "haxe_math_atan2"@.len());
    assert("haxe_math_random"@.len() != "haxe_math_exp"@.len());
    assert("haxe_math_random"@.len() != "haxe_math_log"@.len());
    assert("haxe_math_random"@.len() != "haxe_math_pow"@.len());
    assert("haxe_math_random"@.len() != "haxe_math_sqrt"@.len());
    assert("haxe_math_random"@[10] != "haxe_math_is_nan"@[10]);
    assert("haxe_math_random"@.len() != "haxe_math_is_finite"@.len());
    assert("haxe_math_random"@[10] != "haxe_math_fround"@[10]);
}


/// The known signature of the runtime function `name`, if it has one.
pub fn extern_function_signature(name: &str) -> (r: Option<(Vec<IrType>, IrType)>)
    ensures
        match r {
            Some((params, ret)) => extern_signature_spec(name@) == Some((params@, ret)),
            None => extern_signature_spec(name@) is None,
        },
{
    let n = name.to_owned();
    if n == "haxe_math_abs".to_owned() {
        return Some((vec![IrType::F64], IrType::F64));
    }
    if n == "haxe_math_min".to_owned() {
        return Some((vec![IrType::F64, IrType::F64], IrType::F64));
    }
    if n == "haxe_math_max".to_owned() {
        return Some((vec![IrType::F64, IrType::F64], IrType::F64));
    }
    if n == "haxe_math_floor".to_owned() {
        return Some((vec![IrType::F64], IrType::F64));
    }
    if n == "haxe_math_ceil".to_owned() {
        return Some((vec![IrType::F64], IrType::F64));
    }
    if n == "haxe_math_round".to_owned() {
        return Some((vec![IrType::F64], IrType::F64));
    }
    if n == "haxe_math_sin".to_owned() {
        return Some((vec![IrType::F64], IrType::F64));
    }
    if n == "haxe_math_cos".to_owned() {
        return Some((vec![IrType::F64], IrType::F64));
    }
    if n == "haxe_math_tan".to_owned() {
        return Some((vec![IrType::F64], IrType::F64));
    }
    if n == "haxe_math_asin".to_owned() {
        return Some((vec![IrType::F64], IrType::F64));
    }
    if n == "haxe_math_acos".to_owned() {
        return Some((vec![IrType::F64], IrType::F64));
    }
    if n == "haxe_math_atan".to_owned() {
        return Some((vec![IrType::F64], IrType::F64));
    }
    if n == "haxe_math_atan2".to_owned() {
        return Some((vec![IrType::F64, IrType::F64], IrType::F64));
    }
    if n == "haxe_math_exp".to_owned() {
        return Some((vec![IrType::F64], IrType::F64));
    }
    if n == "haxe_math_log".to_owned() {
        return Some((vec![IrType::F64], IrType::F64));
    }
    if n == "haxe_math_pow".to_owned() {
        return Some((vec![IrType::F64, IrType::F64], IrType::F64));
    }
    if n == "haxe_math_sqrt".to_owned() {
        return Some((vec![IrType::F64], IrType::F64));
    }
    if n == "haxe_math_is_nan".to_owned() {
        return Some((vec![IrType::F64], IrType::Bool));
    }
    if n == "haxe_math_is_finite".to_owned() {
        return Some((vec![IrType::F64], IrType::Bool));
    }
    if n == "haxe_math_fround".to_owned() {
        return Some((vec![IrType::F64], IrType::F64));
    }
    if n == "haxe_math_random".to_owned() {
        return Some((Vec::new(), IrType::F64));
    }
    if n == "haxe_sys_time".to_owned() {
        return Some((Vec::new(), IrType::F64));
    }
    if n == "haxe_sys_cpu_time".to_owned() {
        return Some((Vec::new(), IrType::F64));
    }
    if n == "haxe_sys_exit".to_owned() {
        return Some((vec![IrType::I64], IrType::Void));
    }
    if n == "haxe_sys_sleep".to_owned() {
        return Some((vec![IrType::F64], IrType::Void));
    }
    if n == "haxe_sys_system_name".to_owned() {
        return Some((Vec::new(), IrType::Ptr(Box::new(IrType::Void))));
    }
    if n == "haxe_sys_get_cwd".to_owned() {
        return Some((Vec::new(), IrType::Ptr(Box::new(IrType::Void))));
    }
    if n == "haxe_sys_set_cwd".to_owned() {
        return Some((vec![IrType::Ptr(Box::new(IrType::Void))], IrType::Void));
    }
    if n == "haxe_sys_get_env".to_owned() {
        return Some((vec![IrType::Ptr(Box::new(IrType::Void))], IrType::Ptr(Box::new(IrType::Void))));
    }
    if n == "haxe_sys_put_env".to_owned() {
        return Some((vec![IrType::Ptr(Box::new(IrType::Void)), IrType::Ptr(Box::new(IrType::Void))], IrType::Void));
    }
    if n == "haxe_sys_program_path".to_owned() {
        return Some((Vec::new(), IrType::Ptr(Box::new(IrType::Void))));
    }
    if n == "haxe_std_int".to_owned() {
        return Some((vec![IrType::F64], IrType::I64));
    }
    if n == "haxe_std_parse_int".to_owned() {
        return Some((vec![IrType::Ptr(Box::new(IrType::Void))], IrType::I64));
    }
    if n == "haxe_std_parse_float".to_owned() {
        return Some((vec![IrType::Ptr(Box::new(IrType::Void))], IrType::F64));
    }
    if n == "haxe_std_random".to_owned() {
        return Some((vec![IrType::I64], IrType::I64));
    }
    if n == "haxe_file_get_content".to_owned() {
        return Some((vec![IrType::Ptr(Box::new(IrType::Void))], IrType::Ptr(Box::new(IrType::Void))));
    }
    if n == "haxe_file_save_content".to_owned() {
        return Some((vec![IrType::Ptr(Box::new(IrType::Void)), IrType::Ptr(Box::new(IrType::Void))], IrType::Void));
    }
    if n == "haxe_file_copy".to_owned() {
        return Some((vec![IrType::Ptr(Box::new(IrType::Void)), IrType::Ptr(Box::new(IrType::Void))], IrType::Void));
    }
    if n == "haxe_filesystem_exists".to_owned() {
        return Some((vec![IrType::Ptr(Box::new(IrType::Void))], IrType::Bool));
    }
    if n == "haxe_filesystem_is_directory".to_owned() {
        return Some((vec![IrType::Ptr(Box::new(IrType::Void))], IrType::Bool));
    }
    if n == "haxe_filesystem_create_directory".to_owned() {
        return Some((vec![IrType::Ptr(Box::new(IrType::Void))], IrType::Void));
    }
    if n == "haxe_filesystem_delete_file".to_owned() {
        return Some((vec![IrType::Ptr(Box::new(IrType::Void))], IrType::Void));
    }
    if n == "haxe_filesystem_delete_directory".to_owned() {
        return Some((vec![IrType::Ptr(Box::new(IrType::Void))], IrType::Void));
    }
    if n == "haxe_filesystem_rename".to_owned() {
        return Some((vec![IrType::Ptr(Box::new(IrType::Void)), IrType::Ptr(Box::new(IrType::Void))], IrType::Void));
    }
    if n == "haxe_filesystem_full_path".to_owned() {
        return Some((vec![IrType::Ptr(Box::new(IrType::Void))], IrType::Ptr(Box::new(IrType::Void))));
    }
    if n == "haxe_filesystem_absolute_path".to_owned() {
        return Some((vec![IrType::Ptr(Box::new(IrType::Void))], IrType::Ptr(Box::new(IrType::Void))));
    }
    if n == "haxe_stringmap_new".to_owned() {
        return Some((Vec::new(), IrType::Ptr(Box::new(IrType::Void))));
    }
    if n == "haxe_stringmap_set".to_owned() {
        return Some((vec![IrType::Ptr(Box::new(IrType::Void)), IrType::Ptr(Box::new(IrType::Void)), IrType::Ptr(Box::new(IrType::Void))], IrType::Void));
    }
    if n == "haxe_stringmap_get".to_owned() {
        return Some((vec![IrType::Ptr(Box::new(IrType::Void)), IrType::Ptr(Box::new(IrType::Void))], IrType::Ptr(Box::new(IrType::Void))));
    }
    if n == "haxe_stringmap_exists".to_owned() {
        return Some((vec![IrType::Ptr(Box::new(IrType::Void)), IrType::Ptr(Box::new(IrType::Void))], IrType::Bool));
    }
    if n == "haxe_stringmap_remove".to_owned() {
        return Some((vec![IrType::Ptr(Box::new(IrType::Void)), IrType::Ptr(Box::new(IrType::Void))], IrType::Bool));
    }
    if n == "haxe_stringmap_clear".to_owned() {
        return Some((vec![IrType::Ptr(Box::new(IrType::Void))], IrType::Void));
    }
    if n == "haxe_stringmap_count".to_owned() {
        return Some((vec![IrType::Ptr(Box::new(IrType::Void))], IrType::I64));
    }
    if n == "haxe_stringmap_keys".to_owned() {
        return Some((vec![IrType::Ptr(Box::new(IrType::Void)), IrType::Ptr(Box::new(IrType::I64))], IrType::Ptr(Box::new(IrType::Void))));
    }
    if n == "haxe_stringmap_to_string".to_owned() {
        return Some((vec![IrType::Ptr(Box::new(IrType::Void))], IrType::Ptr(Box::new(IrType::Void))));
    }
    if n == "haxe_intmap_new".to_owned() {
        return Some((Vec::new(), IrType::Ptr(Box::new(IrType::Void))));
    }
    if n == "haxe_intmap_set".to_owned() {
        return Some((vec![IrType::Ptr(Box::new(IrType::Void)), IrType::I64, IrType::Ptr(Box::new(IrType::Void))], IrType::Void));
    }
    if n == "haxe_intmap_get".to_owned() {
        return Some((vec![IrType::Ptr(Box::new(IrType::Void)), IrType::I64], IrType::Ptr(Box::new(IrType::Void))));
    }
    if n == "haxe_intmap_exists".to_owned() {
        return Some((vec![IrType::Ptr(Box::new(IrType::Void)), IrType::I64], IrType::Bool));
    }
    if n == "haxe_intmap_remove".to_owned() {
        return Some((vec![IrType::Ptr(Box::new(IrType::Void)), IrType::I64], IrType::Bool));
    }
    if n == "haxe_intmap_clear".to_owned() {
        return Some((vec![IrType::Ptr(Box::new(IrType::Void))], IrType::Void));
    }
    if n == "haxe_intmap_count".to_owned() {
        return Some((vec![IrType::Ptr(Box::new(IrType::Void))], IrType::I64));
    }
    if n == "haxe_intmap_keys".to_owned() {
        return Some((vec![IrType::Ptr(Box::new(IrType::Void)), IrType::Ptr(Box::new(IrType::I64))], IrType::Ptr(Box::new(IrType::I64))));
    }
    if n == "haxe_intmap_to_string".to_owned() {
        return Some((vec![IrType::Ptr(Box::new(IrType::Void))], IrType::Ptr(Box::new(IrType::Void))));
    }
    if n == "haxe_box_int_ptr".to_owned() {
        return Some((vec![IrType::I64], IrType::Ptr(Box::new(IrType::U8))));
    }
    if n == "haxe_box_float_ptr".to_owned() {
        return Some((vec![IrType::F64], IrType::Ptr(Box::new(IrType::U8))));
    }
    if n == "haxe_box_bool_ptr".to_owned() {
        return Some((vec![IrType::I64], IrType::Ptr(Box::new(IrType::U8))));
    }
    if n == "haxe_unbox_int_ptr".to_owned() {
        return Some((vec![IrType::Ptr(Box::new(IrType::U8))], IrType::I64));
    }
    if n == "haxe_unbox_float_ptr".to_owned() {
        return Some((vec![IrType::Ptr(Box::new(IrType::U8))], IrType::F64));
    }
    if n == "haxe_unbox_bool_ptr".to_owned() {
        return Some((vec![IrType::Ptr(Box::new(IrType::U8))], IrType::I64));
    }
    None
}

/// The name of parameter `i` of a runtime function: `arg` and `i` in decimal.
pub open spec fn arg_name_spec(i: nat) -> Seq<char> {
    "arg"@ + decimal(i)
}

/// The name of parameter `i` of a runtime function.
pub fn arg_name(i: usize) -> (r: String)
    ensures
        r@ == arg_name_spec(i as nat),
{
    let mut s = "arg".to_owned();
    push_decimal(&mut s, i);
    s
}

/// `sig` is the signature a runtime function is registered with: the
/// parameters `arg0`, `arg1`, ... of types `params`, in the registers of
/// their positions, returning `ret`, with the C calling convention.
pub open spec fn is_c_signature(sig: IrFunctionSignature, params: Seq<TypeModel>, ret: TypeModel) -> bool {
    &&& sig.parameters@.len() == params.len()
    &&& forall|i: int| 0 <= i < params.len() ==> {
        let p = #[trigger] sig.parameters@[i];
        &&& p.name@ == arg_name_spec(i as nat)
        &&& p.ty@ == params[i]
        &&& p.reg == IrId(i as u32)
        &&& !p.by_ref
    }
    &&& sig.return_type@ == ret
    &&& sig.calling_convention == CallingConvention::C
    &&& !sig.can_throw
    &&& sig.type_params@.len() == 0
}

/// The signature of a runtime function with these parameter and return types.
pub fn c_signature(params: &Vec<IrType>, ret: &IrType) -> (r: IrFunctionSignature)
    ensures
        is_c_signature(r, types_view(params@), ret@),
{
    proof { crate::types::lemma_types_view(params@); }
    let mut parameters: Vec<IrParameter> = Vec::new();
    let mut i: usize = 0;
    while i < params.len()
        invariant
            i <= params@.len(),
            types_view(params@).len() == params@.len(),
            forall|k: int| 0 <= k < params@.len() ==> #[trigger] types_view(params@)[k] == params@[k]@,
            parameters@.len() == i,
            forall|k: int| 0 <= k < i ==> {
                let p = #[trigger] parameters@[k];
                &&& p.name@ == arg_name_spec(k as nat)
                &&& p.ty@ == params@[k]@
                &&& p.reg == IrId(k as u32)
                &&& !p.by_ref
            },
        decreases params@.len() - i,
    {
        parameters.push(IrParameter {
            name: arg_name(i),
            ty: params[i].copy_type(),
            reg: IrId(i as u32),
            by_ref: false,
        });
        i = i + 1;
    }
    IrFunctionSignature {
        parameters,
        return_type: ret.copy_type(),
        calling_convention: CallingConvention::C,
        can_throw: false,
        type_params: Vec::new(),
    }
}

// ----------------------------------------------------------------------
// Looking functions up by name
// ----------------------------------------------------------------------

/// Element `i` of `s` is the first that satisfies `p`.
pub open spec fn is_first_where<T>(s: Seq<T>, p: spec_fn(T) -> bool, i: int) -> bool {
    &&& 0 <= i < s.len()
    &&& p(s[i])
    &&& forall|k: int| 0 <= k < i ==> !p(#[trigger] s[k])
}

/// The index of the first element of `s` that satisfies `p`, or -1.
pub open spec fn first_where<T>(s: Seq<T>, p: spec_fn(T) -> bool) -> int {
    if exists|i: int| is_first_where(s, p, i) {
        choose|i: int| is_first_where(s, p, i)
    } else {
        -1
    }
}

pub proof fn lemma_first_where<T>(s: Seq<T>, p: spec_fn(T) -> bool, i: int)
    requires
        is_first_where(s, p, i),
    ensures
        first_where(s, p) == i,
{
    let j = first_where(s, p);
    assert(is_first_where(s, p, j));
    if j < i {
        assert(!p(s[j]));
    } else if i < j {
        assert(!p(s[i]));
    }
}

/// `first_where` is -1, with no element satisfying `p`, or a first index.
pub proof fn lemma_first_where_props<T>(s: Seq<T>, p: spec_fn(T) -> bool)
    ensures
        first_where(s, p) == -1 || is_first_where(s, p, first_where(s, p)),
        first_where(s, p) == -1 ==> forall|k: int| 0 <= k < s.len() ==> !p(#[trigger] s[k]),
{
    if first_where(s, p) == -1 {
        assert forall|k: int| 0 <= k < s.len() implies !p(#[trigger] s[k]) by {
            if p(s[k]) {
                lemma_first_where_exists(s, p, k);
            }
        }
    }
}

pub proof fn lemma_first_where_none<T>(s: Seq<T>, p: spec_fn(T) -> bool)
    requires
        forall|k: int| 0 <= k < s.len() ==> !p(#[trigger] s[k]),
    ensures
        first_where(s, p) == -1,
{
}

/// A function named `name`, with a body or without one as `body` says.
pub open spec fn named(name: Seq<char>, body: bool) -> spec_fn(IrFunction) -> bool {
    |f: IrFunction| f.name@ == name && (f.cfg.blocks@.len() > 0) == body
}

/// A function named `name`.
pub open spec fn named_any(name: Seq<char>) -> spec_fn(IrFunction) -> bool {
    |f: IrFunction| f.name@ == name
}

/// An external function named `name`.
pub open spec fn extern_named(name: Seq<char>) -> spec_fn(IrExternFunction) -> bool {
    |e: IrExternFunction| e.name@ == name
}

/// An external function with id `id`.
pub open spec fn extern_with_id(id: IrFunctionId) -> spec_fn(IrExternFunction) -> bool {
    |e: IrExternFunction| e.id == id
}

pub(crate) fn find_function_named(fs: &Vec<IrFunction>, name: &String, body: Option<bool>) -> (r: Option<usize>)
    ensures
        ({
            let p = match body {
                Some(b) => named(name@, b),
                None => named_any(name@),
            };
            match r {
                Some(i) => i == first_where(fs@, p),
                None => first_where(fs@, p) == -1,
            }
        }),
{
    let ghost p = match body {
        Some(b) => named(name@, b),
        None => named_any(name@),
    };
    let mut i: usize = 0;
    while i < fs.len()
        invariant
            i <= fs@.len(),
            p == (match body {
                Some(b) => named(name@, b),
                None => named_any(name@),
            }),
            forall|k: int| 0 <= k < i ==> !p(#[trigger] fs@[k]),
        decreases fs@.len() - i,
    {
        let hit = fs[i].name == *name && match body {
            Some(b) => (fs[i].cfg.blocks.len() > 0) == b,
            None => true,
        };
        if hit {
            proof { lemma_first_where(fs@, p, i as int); }
            return Some(i);
        }
        i = i + 1;
    }
    proof { lemma_first_where_none(fs@, p); }
    None
}

fn find_extern(es: &Vec<IrExternFunction>, name: Option<&String>, id: IrFunctionId) -> (r: Option<usize>)
    ensures
        ({
            let p = match name {
                Some(n) => extern_named(n@),
                None => extern_with_id(id),
            };
            match r {
                Some(i) => i == first_where(es@, p),
                None => first_where(es@, p) == -1,
            }
        }),
{
    let ghost p = match name {
        Some(n) => extern_named(n@),
        None => extern_with_id(id),
    };
    let mut i: usize = 0;
    while i < es.len()
        invariant
            i <= es@.len(),
            p == (match name {
                Some(n) => extern_named(n@),
                None => extern_with_id(id),
            }),
            forall|k: int| 0 <= k < i ==> !p(#[trigger] es@[k]),
        decreases es@.len() - i,
    {
        let hit = match name {
            Some(n) => es[i].name == *n,
            None => es[i].id == id,
        };
        if hit {
            proof { lemma_first_where(es@, p, i as int); }
            return Some(i);
        }
        i = i + 1;
    }
    proof { lemma_first_where_none(es@, p); }
    None
}

// ----------------------------------------------------------------------
// Registering runtime functions
// ----------------------------------------------------------------------

/// The parameter and return types that runtime function `name` is given:
/// its known signature if it has one, else `params` and `ret`.
pub open spec fn extern_types(name: Seq<char>, params: Seq<IrType>, ret: IrType) -> (Seq<TypeModel>, TypeModel) {
    match extern_signature_spec(name) {
        Some((p, r)) => (types_view(p), r@),
        None => (types_view(params), ret@),
    }
}

/// The parameter and return types that stdlib MIR function `name` is
/// given: its known signature if it has one, else `params` and `ret`.
pub open spec fn wrapper_types(name: Seq<char>, params: Seq<IrType>, ret: IrType) -> (Seq<TypeModel>, TypeModel) {
    match mir_wrapper_signature_spec(name) {
        Some((p, r)) => (types_view(p), r@),
        None => (types_view(params), ret@),
    }
}

/// `m1` is `m0` where function `fi` and external function `ei` (each unless
/// it is -1) were given the runtime signature with these types.
pub open spec fn signatures_set(m0: IrModule, m1: IrModule, fi: int, ei: int, params: Seq<TypeModel>, ret: TypeModel) -> bool {
    &&& m1 == (IrModule { functions: m1.functions, extern_functions: m1.extern_functions, ..m0 })
    &&& m1.functions@.len() == m0.functions@.len()
    &&& m1.extern_functions@.len() == m0.extern_functions@.len()
    &&& forall|k: int| 0 <= k < m0.functions@.len() && k != fi ==> #[trigger] m1.functions@[k] == m0.functions@[k]
    &&& forall|k: int|
        0 <= k < m0.extern_functions@.len() && k != ei ==> #[trigger] m1.extern_functions@[k] == m0.extern_functions@[k]
    &&& fi >= 0 ==> {
        &&& m1.functions@[fi] == (IrFunction { signature: m1.functions@[fi].signature, ..m0.functions@[fi] })
        &&& is_c_signature(m1.functions@[fi].signature, params, ret)
    }
    &&& ei >= 0 ==> {
        &&& m1.extern_functions@[ei] == (IrExternFunction {
            signature: m1.extern_functions@[ei].signature,
            ..m0.extern_functions@[ei]
        })
        &&& is_c_signature(m1.extern_functions@[ei].signature, params, ret)
    }
}

/// `f` stands for the runtime function `name` among the functions of a
/// module: it has id `id`, no body and the runtime signature.
pub open spec fn is_extern_stub(f: IrFunction, id: IrFunctionId, name: Seq<char>, params: Seq<TypeModel>, ret: TypeModel) -> bool {
    &&& f.id == id
    &&& f.symbol_id == SymbolId(0)
    &&& f.name@ == name
    &&& is_c_signature(f.signature, params, ret)
    &&& f.cfg.blocks@.len() == 0
    &&& f.cfg.entry_block == IrBlockId(0)
    &&& f.cfg.next_block_id == 0
    &&& f.locals@.len() == 0
    &&& f.next_reg_id == 0
}

/// `e` declares the runtime function `name`, with id `id`.
pub open spec fn is_runtime_extern(e: IrExternFunction, id: IrFunctionId, name: Seq<char>, params: Seq<TypeModel>, ret: TypeModel) -> bool {
    &&& e.id == id
    &&& e.name@ == name
    &&& e.symbol_id == SymbolId(0)
    &&& e.source@ == "rayzor_runtime"@
    &&& is_c_signature(e.signature, params, ret)
}

/// `m1` is `m0` where the runtime function `name` got the next function id
/// and was added both to the functions, without a body, and to the
/// external functions.
pub open spec fn extern_registered(m0: IrModule, m1: IrModule, name: Seq<char>, params: Seq<TypeModel>, ret: TypeModel) -> bool {
    let id = IrFunctionId(m0.next_function_id);
    &&& m1 == (IrModule {
        functions: m1.functions,
        extern_functions: m1.extern_functions,
        next_function_id: m1.next_function_id,
        ..m0
    })
    &&& m1.next_function_id == m0.next_function_id + 1
    &&& m1.functions@.len() == m0.functions@.len() + 1
    &&& m1.functions@.drop_last() == m0.functions@
    &&& is_extern_stub(m1.functions@.last(), id, name, params, ret)
    &&& m1.extern_functions@.len() == m0.extern_functions@.len() + 1
    &&& m1.extern_functions@.drop_last() == m0.extern_functions@
    &&& is_runtime_extern(m1.extern_functions@.last(), id, name, params, ret)
}

/// The id of the runtime function `name`, registered if need be:
/// - a function of that name with a body (a MIR wrapper) is taken as it is;
/// - else an external function of that name is taken, and given the new
///   signature, together with the function of its id, where the new one
///   has more parameters;
/// - else a function of that name without a body is taken in the same way;
/// - else it is registered under the next function id.
/// A known runtime signature takes the place of the given types.
pub fn get_or_register_extern_function(
    module: &mut IrModule,
    name: &str,
    param_types: Vec<IrType>,
    return_type: IrType,
) -> (r: IrFunctionId)
    requires
        old(module).next_function_id < u32::MAX,
    ensures
        ({
            let m0 = *old(module);
            let m1 = *final(module);
            let fs = m0.functions@;
            let es = m0.extern_functions@;
            let (tys, rt) = extern_types(name@, param_types@, return_type);
            let w = first_where(fs, named(name@, true));
            let e = first_where(es, extern_named(name@));
            let s = first_where(fs, named(name@, false));
            if w >= 0 {
                r == fs[w].id && m1 == m0
            } else if e >= 0 {
                &&& r == es[e].id
                &&& if tys.len() > es[e].signature.parameters@.len() {
                    signatures_set(m0, m1, fn_pos(fs, r), e, tys, rt)
                } else {
                    m1 == m0
                }
            } else if s >= 0 {
                &&& r == fs[s].id
                &&& if tys.len() > fs[s].signature.parameters@.len() {
                    signatures_set(m0, m1, s, first_where(es, extern_with_id(r)), tys, rt)
                } else {
                    m1 == m0
                }
            } else {
                &&& r == IrFunctionId(m0.next_function_id)
                &&& extern_registered(m0, m1, name@, tys, rt)
            }
        }),
{
    let ghost m0 = *module;
    let (params, ret) = match extern_function_signature(name) {
        Some((p, r)) => (p, r),
        None => (param_types, return_type),
    };
    let ghost tys = types_view(params@);
    proof {
        assert((tys, ret@) == extern_types(name@, param_types@, return_type));
    }
    let n = name.to_owned();
    match find_function_named(&module.functions, &n, Some(true)) {
        Some(i) => return module.functions[i].id,
        None => {},
    }
    proof { crate::types::lemma_types_view(params@); }
    match find_extern(&module.extern_functions, Some(&n), IrFunctionId(0)) {
        Some(e) => {
            let id = module.extern_functions[e].id;
            if params.len() > module.extern_functions[e].signature.parameters.len() {
                module.extern_functions[e].signature = c_signature(&params, &ret);
                match module.find_function(id) {
                    Some(fi) => {
                        module.functions[fi].signature = c_signature(&params, &ret);
                    },
                    None => {},
                }
            }
            return id;
        },
        None => {},
    }
    match find_function_named(&module.functions, &n, Some(false)) {
        Some(fi) => {
            let id = module.functions[fi].id;
            if params.len() > module.functions[fi].signature.parameters.len() {
                module.functions[fi].signature = c_signature(&params, &ret);
                match find_extern(&module.extern_functions, None, id) {
                    Some(e) => {
                        module.extern_functions[e].signature = c_signature(&params, &ret);
                    },
                    None => {},
                }
            }
            return id;
        },
        None => {},
    }
    let id = IrFunctionId(module.next_function_id);
    module.next_function_id = module.next_function_id + 1;
    let function = IrFunction {
        id,
        symbol_id: SymbolId(0),
        name: n.clone(),
        signature: c_signature(&params, &ret),
        cfg: IrControlFlowGraph { blocks: Vec::new(), entry_block: IrBlockId(0), next_block_id: 0 },
        locals: Vec::new(),
        next_reg_id: 0,
    };
    module.functions.push(function);
    module.extern_functions.push(IrExternFunction {
        id,
        name: n,
        symbol_id: SymbolId(0),
        signature: c_signature(&params, &ret),
        source: "rayzor_runtime".to_owned(),
    });
    proof {
        assert(module.functions@.drop_last() =~= m0.functions@);
        assert(module.extern_functions@.drop_last() =~= m0.extern_functions@);
    }
    id
}

/// `m1` is `m0` where the stdlib MIR function `name` got the next function
/// id and was added to the functions, with an empty entry block and the
/// runtime signature, to be replaced when the stdlib module is merged in.
pub open spec fn forward_ref_registered(m0: IrModule, m1: IrModule, name: Seq<char>, params: Seq<TypeModel>, ret: TypeModel) -> bool {
    let f = m1.functions@.last();
    &&& m1 == (IrModule { functions: m1.functions, next_function_id: m1.next_function_id, ..m0 })
    &&& m1.next_function_id == m0.next_function_id + 1
    &&& m1.functions@.len() == m0.functions@.len() + 1
    &&& m1.functions@.drop_last() == m0.functions@
    &&& f.id == IrFunctionId(m0.next_function_id)
    &&& f.symbol_id == SymbolId(0)
    &&& f.name@ == name
    &&& is_c_signature(f.signature, params, ret)
    &&& f.cfg.blocks@.len() == 1
    &&& crate::blocks::is_fresh_block(f.cfg.blocks@[0], IrBlockId(0))
    &&& f.cfg.entry_block == IrBlockId(0)
    &&& f.cfg.next_block_id == 1
    &&& f.locals@.len() == 0
    &&& f.next_reg_id == 0
}

/// The id of the stdlib MIR function `name`: that of the first function so
/// named, or else a new forward reference under the next function id. A
/// known MIR signature takes the place of the given types.
pub fn register_stdlib_mir_forward_ref(
    module: &mut IrModule,
    name: &str,
    param_types: Vec<IrType>,
    return_type: IrType,
) -> (r: IrFunctionId)
    requires
        old(module).next_function_id < u32::MAX,
    ensures
        ({
            let m0 = *old(module);
            let fs = m0.functions@;
            let a = first_where(fs, named_any(name@));
            let (tys, rt) = wrapper_types(name@, param_types@, return_type);
            if a >= 0 {
                r == fs[a].id && *final(module) == m0
            } else {
                &&& r == IrFunctionId(m0.next_function_id)
                &&& forward_ref_registered(m0, *final(module), name@, tys, rt)
            }
        }),
{
    let ghost m0 = *module;
    let n = name.to_owned();
    match find_function_named(&module.functions, &n, None) {
        Some(i) => return module.functions[i].id,
        None => {},
    }
    let (params, ret) = match stdlib_mir_wrapper_signature(name) {
        Some((p, r)) => (p, r),
        None => (param_types, return_type),
    };
    proof {
        assert((types_view(params@), ret@) == wrapper_types(name@, param_types@, return_type));
    }
    let id = IrFunctionId(module.next_function_id);
    module.next_function_id = module.next_function_id + 1;
    let function = IrFunction {
        id,
        symbol_id: SymbolId(0),
        name: n,
        signature: c_signature(&params, &ret),
        cfg: IrControlFlowGraph::new(),
        locals: Vec::new(),
        next_reg_id: 0,
    };
    module.functions.push(function);
    proof { assert(module.functions@.drop_last() =~= m0.functions@); }
    id
}

/// An element that satisfies `p` makes the first one exist, at or before it.
pub proof fn lemma_first_where_exists<T>(s: Seq<T>, p: spec_fn(T) -> bool, k: int)
    requires
        0 <= k < s.len(),
        p(s[k]),
    ensures
        0 <= first_where(s, p) <= k,
    decreases k,
{
    if exists|j: int| 0 <= j < k && p(#[trigger] s[j]) {
        let j = choose|j: int| 0 <= j < k && p(#[trigger] s[j]);
        lemma_first_where_exists(s, p, j);
    } else {
        assert(is_first_where(s, p, k));
        lemma_first_where(s, p, k);
    }
}

/// A runtime function is registered once: after its registration the
/// lookups by name find it, so asking for it again gives back the id it
/// was registered under; and the module keeps its function ids below its
/// counter.
pub proof fn lemma_extern_registered_found(m0: IrModule, m1: IrModule, name: Seq<char>, params: Seq<TypeModel>, ret: TypeModel)
    requires
        first_where(m0.functions@, named(name, true)) < 0,
        first_where(m0.extern_functions@, extern_named(name)) < 0,
        extern_registered(m0, m1, name, params, ret),
    ensures
        first_where(m1.functions@, named(name, true)) < 0,
        first_where(m1.extern_functions@, extern_named(name)) == m0.extern_functions@.len(),
        m1.extern_functions@[m0.extern_functions@.len() as int].id == IrFunctionId(m0.next_function_id),
        m0.wf() ==> m1.wf(),
{
    let fs0 = m0.functions@;
    let fs1 = m1.functions@;
    let es0 = m0.extern_functions@;
    let es1 = m1.extern_functions@;
    assert forall|k: int| 0 <= k < fs1.len() implies !named(name, true)(#[trigger] fs1[k]) by {
        if k < fs0.len() {
            assert(fs1[k] == fs1.drop_last()[k]);
            if named(name, true)(fs0[k]) {
                lemma_first_where_exists(fs0, named(name, true), k);
            }
        } else {
            assert(fs1[k] == fs1.last());
        }
    }
    lemma_first_where_none(fs1, named(name, true));
    assert forall|k: int| 0 <= k < es0.len() implies !extern_named(name)(#[trigger] es1[k]) by {
        assert(es1[k] == es1.drop_last()[k]);
        if extern_named(name)(es0[k]) {
            lemma_first_where_exists(es0, extern_named(name), k);
        }
    }
    assert(es1[es0.len() as int] == es1.last());
    assert(is_first_where(es1, extern_named(name), es0.len() as int));
    lemma_first_where(es1, extern_named(name), es0.len() as int);
    if m0.wf() {
        assert forall|k: int| 0 <= k < fs1.len() implies (#[trigger] fs1[k]).id.0 < m1.next_function_id by {
            if k < fs0.len() {
                assert(fs1[k] == fs1.drop_last()[k]);
            } else {
                assert(fs1[k] == fs1.last());
            }
        }
        assert forall|k: int| 0 <= k < es1.len() implies (#[trigger] es1[k]).id.0 < m1.next_function_id by {
            if k < es0.len() {
                assert(es1[k] == es1.drop_last()[k]);
            } else {
                assert(es1[k] == es1.last());
            }
        }
    }
}

/// A stdlib MIR function is registered once: after its forward reference
/// is added, looking it up by name finds it; and the module keeps its
/// function ids below its counter.
pub proof fn lemma_forward_ref_found(m0: IrModule, m1: IrModule, name: Seq<char>, params: Seq<TypeModel>, ret: TypeModel)
    requires
        first_where(m0.functions@, named_any(name)) < 0,
        forward_ref_registered(m0, m1, name, params, ret),
    ensures
        first_where(m1.functions@, named_any(name)) == m0.functions@.len(),
        m1.functions@[m0.functions@.len() as int].id == IrFunctionId(m0.next_function_id),
        m0.wf() ==> m1.wf(),
{
    let fs0 = m0.functions@;
    let fs1 = m1.functions@;
    assert forall|k: int| 0 <= k < fs0.len() implies !named_any(name)(#[trigger] fs1[k]) by {
        assert(fs1[k] == fs1.drop_last()[k]);
        if named_any(name)(fs0[k]) {
            lemma_first_where_exists(fs0, named_any(name), k);
        }
    }
    assert(fs1[fs0.len() as int] == fs1.last());
    assert(is_first_where(fs1, named_any(name), fs0.len() as int));
    lemma_first_where(fs1, named_any(name), fs0.len() as int);
    if m0.wf() {
        assert forall|k: int| 0 <= k < fs1.len() implies (#[trigger] fs1[k]).id.0 < m1.next_function_id by {
            if k < fs0.len() {
                assert(fs1[k] == fs1.drop_last()[k]);
            } else {
                assert(fs1[k] == fs1.last());
            }
        }
    }
}

} // verus!
